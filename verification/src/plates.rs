//! The tectonic stage: seeded plate generation, nearest-centre ownership,
//! boundary stress, layered base elevation, and mountain ranges.

use vstd::arithmetic::div_mod::{
    lemma_fundamental_div_mod, lemma_fundamental_div_mod_converse_div,
};
use vstd::prelude::*;
use crate::model::{Grid, PlateType, TectonicPlate, TerrainCell, ELEV_CAP, MAX_DIM};
use crate::noise::{lemma_sample_bounds, sample, spec_sample};
use crate::rng::{spec_seed_state, spec_step, Rng};

verus! {

/// Largest coordinate a plate centre can take (thousandths of a cell).
pub const COORD_CAP: i64 = 5_000_000;

/// Largest magnitude of a plate velocity component (thousandths).
pub const VELOCITY_CAP: i64 = 1500;

/// Largest boundary-stress contribution of a single neighbour.
pub const STRENGTH_MAX: i64 = 5100;

/// Largest elevation the tectonic stage can leave on a cell: four
/// neighbours of boundary stress, the base field, and both mountain
/// boosts.
pub const PLATE_ELEV_MAX: i64 = 23_155;

/// Floor division by a positive divisor, matching `int` division.
fn floor_div(p: i64, d: i64) -> (r: i64)
    requires
        0 < d <= 1_000_000,
        -1_000_000_000_000 <= p <= 1_000_000_000_000,
    ensures
        r == p as int / d as int,
{
    if p >= 0 {
        ((p as u64) / (d as u64)) as i64
    } else {
        let a = (-p) as u64;
        let q = (a + (d as u64) - 1) / (d as u64);
        proof {
            let ai = a as int;
            let di = d as int;
            let qi = q as int;
            lemma_fundamental_div_mod(ai + di - 1, di);
            let rr = (ai + di - 1) % di;
            assert(ai + di - 1 == di * qi + rr);
            assert(-ai == (-qi) * di + (di - 1 - rr)) by (nonlinear_arith)
                requires
                    ai + di - 1 == di * qi + rr,
            ;
            lemma_fundamental_div_mod_converse_div(-ai, di, -qi, di - 1 - rr);
        }
        -(q as i64)
    }
}

/// The Bhaskara approximation of `sin` for whole degrees in `[0, 180]`,
/// in thousandths.
pub open spec fn spec_half_sin(x: int) -> int {
    let p = x * (180 - x);
    4000 * p / (40500 - p)
}

/// `sin` of a whole-degree angle in `[0, 360)`, in thousandths.
pub open spec fn spec_sin_mdeg(d: int) -> int {
    if d <= 180 {
        spec_half_sin(d)
    } else {
        -spec_half_sin(d - 180)
    }
}

/// `cos` of a whole-degree angle, in thousandths.
pub open spec fn spec_cos_mdeg(d: int) -> int {
    spec_sin_mdeg((d + 90) % 360)
}

/// Exec twin of [`spec_half_sin`], bounded by one.
fn half_sin(x: u64) -> (r: i64)
    requires
        x <= 180,
    ensures
        r == spec_half_sin(x as int),
        0 <= r <= 1000,
{
    proof {
        assert(x * (180 - x) <= 8100) by (nonlinear_arith)
            requires
                0 <= x <= 180,
        ;
    }
    let p = x * (180 - x);
    let num = 4000 * p;
    let den = 40500 - p;
    proof {
        assert(num <= 1000 * den);
        assert(num / den <= 1000) by (nonlinear_arith)
            requires
                num <= 1000 * den,
                0 < den,
        ;
    }
    (num / den) as i64
}

/// Exec twin of [`spec_sin_mdeg`].
fn sin_mdeg(d: u64) -> (r: i64)
    requires
        d < 360,
    ensures
        r == spec_sin_mdeg(d as int),
        -1000 <= r <= 1000,
{
    if d <= 180 {
        half_sin(d)
    } else {
        -half_sin(d - 180)
    }
}

/// Exec twin of [`spec_cos_mdeg`].
fn cos_mdeg(d: u64) -> (r: i64)
    requires
        d < 360,
    ensures
        r == spec_cos_mdeg(d as int),
        -1000 <= r <= 1000,
{
    sin_mdeg((d + 90) % 360)
}

/// The integer square root, defined by counting up.
pub open spec fn spec_isqrt(n: int) -> int
    decreases n,
{
    if n <= 0 {
        0
    } else {
        let r = spec_isqrt(n - 1);
        if (r + 1) * (r + 1) <= n {
            r + 1
        } else {
            r
        }
    }
}

/// [`spec_isqrt`] is the rounded-down square root.
pub proof fn lemma_isqrt_props(n: int)
    requires
        0 <= n,
    ensures
        0 <= spec_isqrt(n),
        spec_isqrt(n) * spec_isqrt(n) <= n,
        n < (spec_isqrt(n) + 1) * (spec_isqrt(n) + 1),
    decreases n,
{
    if n == 0 {
    } else {
        lemma_isqrt_props(n - 1);
        let r = spec_isqrt(n - 1);
        if (r + 1) * (r + 1) <= n {
            assert(n <= (r + 1) * (r + 1)) by (nonlinear_arith)
                requires
                    n - 1 < (r + 1) * (r + 1),
            ;
            assert(n < (r + 2) * (r + 2)) by (nonlinear_arith)
                requires
                    0 <= r,
                    n <= (r + 1) * (r + 1),
            ;
        }
    }
}

/// Two rounded-down square roots of the same number agree.
proof fn lemma_isqrt_unique(n: int, r1: int, r2: int)
    requires
        0 <= r1,
        0 <= r2,
        r1 * r1 <= n < (r1 + 1) * (r1 + 1),
        r2 * r2 <= n < (r2 + 1) * (r2 + 1),
    ensures
        r1 == r2,
{
    assert(r1 == r2) by (nonlinear_arith)
        requires
            0 <= r1,
            0 <= r2,
            r1 * r1 <= n < (r1 + 1) * (r1 + 1),
            r2 * r2 <= n < (r2 + 1) * (r2 + 1),
    ;
}

/// Exec integer square root.
fn isqrt(n: i64) -> (r: i64)
    requires
        0 <= n <= 1_000_000_000,
    ensures
        r == spec_isqrt(n as int),
        0 <= r,
        r * r <= n < (r + 1) * (r + 1),
{
    let mut r: i64 = 0;
    while (r + 1) * (r + 1) <= n
        invariant
            0 <= r,
            r * r <= n,
            r <= 40_000,
            (r + 1) * (r + 1) <= 2_000_000_000,
        decreases n - r * r,
    {
        r = r + 1;
        proof {
            assert(r <= 40_000) by (nonlinear_arith)
                requires
                    r * r <= n,
                    n <= 1_000_000_000,
                    0 <= r,
            ;
            assert((r + 1) * (r + 1) <= 2_000_000_000) by (nonlinear_arith)
                requires
                    r <= 40_000,
                    0 <= r,
            ;
            assert(n - r * r < n - (r - 1) * (r - 1)) by (nonlinear_arith)
                requires
                    1 <= r,
            ;
        }
    }
    proof {
        lemma_isqrt_props(n as int);
        lemma_isqrt_unique(n as int, r as int, spec_isqrt(n as int));
    }
    r
}


/// Squared Euclidean distance from cell `(x, y)` to a plate centre, in
/// squared thousandths.
pub open spec fn spec_dist2(x: int, y: int, p: TectonicPlate) -> int {
    let dx = x * 1000 - p.center_x;
    let dy = y * 1000 - p.center_y;
    dx * dx + dy * dy
}

/// `pid` owns `(x, y)`: no centre is strictly closer, and every earlier
/// plate is strictly farther (the scan keeps the first minimum).
pub open spec fn spec_owner_ok(plates: Seq<TectonicPlate>, x: int, y: int, pid: int) -> bool {
    &&& 0 <= pid < plates.len()
    &&& forall|k: int|
        0 <= k < plates.len() ==> spec_dist2(x, y, plates[pid]) <= #[trigger] spec_dist2(
            x,
            y,
            plates[k],
        )
    &&& forall|k: int|
        0 <= k < pid ==> #[trigger] spec_dist2(x, y, plates[k]) > spec_dist2(x, y, plates[pid])
}

/// The boundary-stress factor for a pair of plate types, in thousandths.
pub open spec fn spec_type_factor(t1: PlateType, t2: PlateType) -> int {
    match (t1, t2) {
        (PlateType::Continental, PlateType::Continental) => 800,
        (PlateType::Continental, PlateType::Oceanic) => 1200,
        (PlateType::Oceanic, PlateType::Continental) => 1200,
        (PlateType::Oceanic, PlateType::Oceanic) => 400,
    }
}

/// The stress one differing neighbour adds: the magnitude of the relative
/// velocity, scaled by the type pairing.
pub open spec fn spec_interaction(p1: TectonicPlate, p2: TectonicPlate) -> int {
    let dvx = p1.velocity_x - p2.velocity_x;
    let dvy = p1.velocity_y - p2.velocity_y;
    spec_isqrt(dvx * dvx + dvy * dvy) * spec_type_factor(p1.plate_type, p2.plate_type) / 1000
}

/// Plates within the velocity range give bounded interaction strengths.
pub proof fn lemma_interaction_bounds(p1: TectonicPlate, p2: TectonicPlate)
    requires
        plate_in_range(p1),
        plate_in_range(p2),
    ensures
        0 <= spec_interaction(p1, p2) <= STRENGTH_MAX,
{
    let dvx = p1.velocity_x - p2.velocity_x;
    let dvy = p1.velocity_y - p2.velocity_y;
    assert(0 <= dvx * dvx <= 9_000_000 && 0 <= dvy * dvy <= 9_000_000) by (nonlinear_arith)
        requires
            -3000 <= dvx <= 3000,
            -3000 <= dvy <= 3000,
    ;
    lemma_isqrt_props(dvx * dvx + dvy * dvy);
    let r = spec_isqrt(dvx * dvx + dvy * dvy);
    assert(r <= 4242) by (nonlinear_arith)
        requires
            0 <= r,
            r * r <= 18_000_000,
    ;
    let f = spec_type_factor(p1.plate_type, p2.plate_type);
    assert(0 <= r * f <= 4242 * 1200) by (nonlinear_arith)
        requires
            0 <= r <= 4242,
            400 <= f <= 1200,
    ;
}

/// Bounded plate data gives bounded stress.
pub proof fn lemma_stress_bounds(g: Grid, plates: Seq<TectonicPlate>, x: int, y: int)
    requires
        g.wf(),
        1 <= x < g.spec_width() - 1,
        1 <= y < g.spec_height() - 1,
        forall|k: int| 0 <= k < plates.len() ==> plate_in_range(#[trigger] plates[k]),
        forall|i: int, j: int|
            g.in_bounds(i, j) ==> 0 <= #[trigger] g.at(i, j).plate_id < plates.len(),
    ensures
        0 <= spec_stress(g, plates, x, y) <= 4 * STRENGTH_MAX,
{
    let cur = g.at(x, y).plate_id as int;
    assert(g.in_bounds(x, y));
    assert(g.in_bounds(x, y - 1));
    assert(g.in_bounds(x, y + 1));
    assert(g.in_bounds(x - 1, y));
    assert(g.in_bounds(x + 1, y));
    if g.at(x, y - 1).plate_id as int != cur {
        lemma_interaction_bounds(plates[cur], plates[g.at(x, y - 1).plate_id as int]);
    }
    if g.at(x, y + 1).plate_id as int != cur {
        lemma_interaction_bounds(plates[cur], plates[g.at(x, y + 1).plate_id as int]);
    }
    if g.at(x - 1, y).plate_id as int != cur {
        lemma_interaction_bounds(plates[cur], plates[g.at(x - 1, y).plate_id as int]);
    }
    if g.at(x + 1, y).plate_id as int != cur {
        lemma_interaction_bounds(plates[cur], plates[g.at(x + 1, y).plate_id as int]);
    }
}

/// The four-neighbour boundary stress an interior cell receives, in the
/// scan order up, down, left, right.
pub open spec fn spec_stress(g: Grid, plates: Seq<TectonicPlate>, x: int, y: int) -> int {
    let cur = g.at(x, y).plate_id as int;
    (if g.at(x, y - 1).plate_id as int != cur {
        spec_interaction(plates[cur], plates[g.at(x, y - 1).plate_id as int])
    } else {
        0int
    }) + (if g.at(x, y + 1).plate_id as int != cur {
        spec_interaction(plates[cur], plates[g.at(x, y + 1).plate_id as int])
    } else {
        0int
    }) + (if g.at(x - 1, y).plate_id as int != cur {
        spec_interaction(plates[cur], plates[g.at(x - 1, y).plate_id as int])
    } else {
        0int
    }) + (if g.at(x + 1, y).plate_id as int != cur {
        spec_interaction(plates[cur], plates[g.at(x + 1, y).plate_id as int])
    } else {
        0int
    })
}

/// Lattice salt of the base-elevation octaves.
pub const SALT_BASE: u64 = 1;

/// Lattice salt of the boundary mountain noise.
pub const SALT_MOUNTAIN: u64 = 2;

/// Lattice salt of the inland uplift noise.
pub const SALT_INLAND: u64 = 3;

/// The layered-noise base elevation of a cell: three octaves with halving
/// amplitude, scaled and floored at sea level. Lies in `[0, 925]`.
pub open spec fn spec_base_elev(seed: u64, x: u64, y: u64) -> int {
    let c = spec_sample(seed, SALT_BASE, x, y, 200) + spec_sample(seed, SALT_BASE, x, y, 100) / 2
        + spec_sample(seed, SALT_BASE, x, y, 50) / 4;
    let b = c * 3 / 10 - 125;
    if b < 0 {
        0int
    } else {
        b
    }
}

/// The base elevation lies in `[0, 925]`.
pub proof fn lemma_base_elev_bounds(seed: u64, x: u64, y: u64)
    ensures
        0 <= spec_base_elev(seed, x, y) <= 925,
{
    lemma_sample_bounds(seed, SALT_BASE, x, y, 200);
    lemma_sample_bounds(seed, SALT_BASE, x, y, 100);
    lemma_sample_bounds(seed, SALT_BASE, x, y, 50);
}

/// The mountain uplift lies in `[0, 1830]`.
pub proof fn lemma_mountain_delta_bounds(
    g: Grid,
    plates: Seq<TectonicPlate>,
    seed: u64,
    x: int,
    y: int,
)
    requires
        0 <= x,
        0 <= y,
    ensures
        0 <= spec_mountain_delta(g, plates, seed, x, y) <= 1830,
{
    lemma_sample_bounds(seed, SALT_MOUNTAIN, x as u64, y as u64, 30);
    lemma_sample_bounds(seed, SALT_INLAND, x as u64, y as u64, 80);
}

/// The mountain uplift of an interior cell: a gated boost on boundaries
/// that involve a continental plate, and a weaker gated inland uplift
/// inside continental plates. Lies in `[0, 1830]`.
pub open spec fn spec_mountain_delta(g: Grid, plates: Seq<TectonicPlate>, seed: u64, x: int, y: int)
    -> int {
    let cur = g.at(x, y).plate_id as int;
    let ct = plates[cur].plate_type;
    let boundary = (g.at(x, y - 1).plate_id as int != cur && spec_type_factor(
        ct,
        plates[g.at(x, y - 1).plate_id as int].plate_type,
    ) >= 800) || (g.at(x, y + 1).plate_id as int != cur && spec_type_factor(
        ct,
        plates[g.at(x, y + 1).plate_id as int].plate_type,
    ) >= 800) || (g.at(x - 1, y).plate_id as int != cur && spec_type_factor(
        ct,
        plates[g.at(x - 1, y).plate_id as int].plate_type,
    ) >= 800) || (g.at(x + 1, y).plate_id as int != cur && spec_type_factor(
        ct,
        plates[g.at(x + 1, y).plate_id as int].plate_type,
    ) >= 800);
    let m = spec_sample(seed, SALT_MOUNTAIN, x as u64, y as u64, 30) - 1000;
    let boundary_boost = if boundary && m > 100 {
        (m - 100) * 3 / 2
    } else {
        0int
    };
    let n = spec_sample(seed, SALT_INLAND, x as u64, y as u64, 80) - 1000;
    let inland_boost = if ct == PlateType::Continental && n > 400 {
        (n - 400) * 4 / 5
    } else {
        0int
    };
    boundary_boost + inland_boost
}

/// Partitions the grid into plates and raises plate-driven elevation.
pub struct PlateSimulator {
    width: u32,
    height: u32,
    seed: u64,
    rng: Rng,
}

/// One seeded draw from `[lo, hi)`: the stepped generator state and the
/// drawn value, exactly as [`Rng::gen_in`] produces them.
pub open spec fn spec_draw(state: u64, lo: int, hi: int) -> (u64, int) {
    let s = spec_step(state);
    (s, lo + (s as int) % (hi - lo))
}

/// How many leading plates are placed on the continental ring.
pub open spec fn spec_continental_count(count: int) -> int {
    if count * 2 / 5 >= 2 {
        count * 2 / 5
    } else {
        2
    }
}

/// The ring clamp: into the grid with a 50-cell margin, or the centre
/// line when the grid is too narrow for the margin.
pub open spec fn spec_clamp_coord(raw: int, extent: int) -> int {
    let lo = 50_000int;
    let hi = extent * 1000 - 50_000;
    if hi < lo {
        extent * 500
    } else if raw < lo {
        lo
    } else if raw > hi {
        hi
    } else {
        raw
    }
}

/// The seeded fields of plate `i` and the generator state left behind:
/// a ring centre (one radius draw) for the first `cc` plates, a uniform
/// centre (two draws) for the rest, then velocity, age, and — for
/// non-ring plates — the one-in-five continental type draw.
pub open spec fn spec_plate(w: int, h: int, state: u64, i: int, cc: int) -> (u64, TectonicPlate) {
    let min_dim = if w < h {
        w
    } else {
        h
    };
    let centers: (u64, int, int) = if i < cc {
        let angle = i * 360 / cc;
        let d1 = spec_draw(state, -50_000, 50_000);
        let radius = min_dim * 300 + d1.1;
        let cx = spec_clamp_coord(w * 500 + radius * spec_cos_mdeg(angle) / 1000, w);
        let cy = spec_clamp_coord(h * 500 + radius * spec_sin_mdeg(angle) / 1000, h);
        (d1.0, cx, cy)
    } else {
        let dx: (u64, int) = if w > 0 {
            spec_draw(state, 0, w * 1000)
        } else {
            (state, 0int)
        };
        let dy: (u64, int) = if h > 0 {
            spec_draw(dx.0, 0, h * 1000)
        } else {
            (dx.0, 0int)
        };
        (dy.0, dx.1, dy.1)
    };
    let dvx = spec_draw(centers.0, -(VELOCITY_CAP as int), VELOCITY_CAP as int);
    let dvy = spec_draw(dvx.0, -(VELOCITY_CAP as int), VELOCITY_CAP as int);
    let dage = spec_draw(dvy.0, 0, 100_000);
    let dty: (u64, PlateType) = if i < cc {
        (dage.0, PlateType::Continental)
    } else {
        let dd = spec_draw(dage.0, 0, 5);
        (
            dd.0,
            if dd.1 == 0 {
                PlateType::Continental
            } else {
                PlateType::Oceanic
            },
        )
    };
    (
        dty.0,
        TectonicPlate {
            id: i as usize,
            center_x: centers.1 as i64,
            center_y: centers.2 as i64,
            velocity_x: dvx.1 as i64,
            velocity_y: dvy.1 as i64,
            age: dage.1 as i64,
            plate_type: dty.1,
        },
    )
}

/// The first `n` seeded plates and the generator state after them.
pub open spec fn spec_plates(w: int, h: int, state: u64, n: int, cc: int) -> (
    u64,
    Seq<TectonicPlate>,
)
    decreases n,
{
    if n <= 0 {
        (state, Seq::empty())
    } else {
        let prev = spec_plates(w, h, state, n - 1, cc);
        let p = spec_plate(w, h, prev.0, n - 1, cc);
        (p.0, prev.1.push(p.1))
    }
}

/// The ranges every generated plate lies in, needed by later stages to
/// bound their arithmetic.
pub open spec fn plate_in_range(p: TectonicPlate) -> bool {
    &&& 0 <= p.center_x <= COORD_CAP
    &&& 0 <= p.center_y <= COORD_CAP
    &&& -VELOCITY_CAP <= p.velocity_x <= VELOCITY_CAP
    &&& -VELOCITY_CAP <= p.velocity_y <= VELOCITY_CAP
    &&& 0 <= p.age < 100_000
}

impl PlateSimulator {
    pub closed spec fn spec_width(self) -> int {
        self.width as int
    }

    pub closed spec fn spec_height(self) -> int {
        self.height as int
    }

    pub closed spec fn spec_seed(self) -> u64 {
        self.seed
    }

    /// The current state of the seeded generator.
    pub closed spec fn spec_rng(self) -> u64 {
        self.rng.spec_state()
    }

    pub fn new(width: u32, height: u32, seed: u64) -> (s: PlateSimulator)
        ensures
            s.spec_width() == width,
            s.spec_height() == height,
            s.spec_seed() == seed,
            s.spec_rng() == spec_seed_state(seed),
    {
        PlateSimulator { width, height, seed, rng: Rng::new(seed) }
    }

    /// Generates `count` plates: an evenly spread continental ring around
    /// the grid centre, the rest uniform, with seeded velocities and ages.
    #[verifier::rlimit(100)]
    #[verifier::spinoff_prover]
    fn generate_plates(&mut self, count: usize) -> (plates: Vec<TectonicPlate>)
        requires
            1 <= count <= 16,
            old(self).spec_width() <= MAX_DIM,
            old(self).spec_height() <= MAX_DIM,
        ensures
            final(self).spec_width() == old(self).spec_width(),
            final(self).spec_height() == old(self).spec_height(),
            final(self).spec_seed() == old(self).spec_seed(),
            plates@.len() == count,
            forall|i: int|
                0 <= i < count ==> (#[trigger] plates@[i]).id == i && plate_in_range(plates@[i]),
            ({
                let r = spec_plates(
                    old(self).spec_width(),
                    old(self).spec_height(),
                    old(self).spec_rng(),
                    count as int,
                    spec_continental_count(count as int),
                );
                plates@ == r.1 && final(self).spec_rng() == r.0
            }),
            forall|i: int|
                0 <= i < count && i < spec_continental_count(count as int)
                    ==> (#[trigger] plates@[i]).plate_type == PlateType::Continental,
    {
        let ghost s0 = self.spec_rng();
        let mut plates: Vec<TectonicPlate> = Vec::new();
        let continental_count = if count * 2 / 5 >= 2 {
            count * 2 / 5
        } else {
            2
        };
        proof {
            assert(continental_count == spec_continental_count(count as int));
        }
        let w = self.width as i64;
        let h = self.height as i64;
        let min_dim = if w < h {
            w
        } else {
            h
        };
        let mut i: usize = 0;
        while i < count
            invariant
                plates@.len() == i,
                i <= count,
                2 <= continental_count,
                self.spec_width() == old(self).spec_width(),
                self.spec_height() == old(self).spec_height(),
                self.spec_seed() == old(self).spec_seed(),
                w == self.spec_width(),
                h == self.spec_height(),
                0 <= w <= MAX_DIM,
                0 <= h <= MAX_DIM,
                forall|k: int|
                    0 <= k < i ==> (#[trigger] plates@[k]).id == k && plate_in_range(plates@[k]),
                continental_count == spec_continental_count(count as int),
                ({
                    let r = spec_plates(
                        old(self).spec_width(),
                        old(self).spec_height(),
                        s0,
                        i as int,
                        continental_count as int,
                    );
                    plates@ == r.1 && self.spec_rng() == r.0
                }),
                forall|k: int|
                    0 <= k < i && k < continental_count ==> (#[trigger] plates@[k]).plate_type
                        == PlateType::Continental,
            decreases count - i,
        {
            let ghost s_pre = self.spec_rng();
            let (center_x, center_y): (i64, i64) = if i < continental_count {
                proof {
                    assert((i as int) * 360 / (continental_count as int) < 360)
                        by (nonlinear_arith)
                        requires
                            (i as int) < (continental_count as int),
                            0 < (continental_count as int),
                    ;
                }
                let angle_deg = ((i as u64) * 360) / (continental_count as u64);
                let radius = min_dim * 300 + self.rng.gen_in(-50_000, 50_000);
                let cosv = cos_mdeg(angle_deg);
                let sinv = sin_mdeg(angle_deg);
                proof {
                    assert(-2_000_000_000 <= radius * cosv <= 2_000_000_000 && -2_000_000_000
                        <= radius * sinv <= 2_000_000_000)
                        by (nonlinear_arith)
                        requires
                            -2_000_000 <= radius <= 2_000_000,
                            -1000 <= cosv <= 1000,
                            -1000 <= sinv <= 1000,
                    ;
                }
                let dx = floor_div(radius * cosv, 1000);
                let dy = floor_div(radius * sinv, 1000);
                let cx_raw = w * 500 + dx;
                let cy_raw = h * 500 + dy;
                let cx = Self::clamp_coord(cx_raw, w);
                let cy = Self::clamp_coord(cy_raw, h);
                (cx, cy)
            } else {
                let cx = if w > 0 {
                    self.rng.gen_in(0, w * 1000)
                } else {
                    0
                };
                let cy = if h > 0 {
                    self.rng.gen_in(0, h * 1000)
                } else {
                    0
                };
                (cx, cy)
            };
            let velocity_x = self.rng.gen_in(-VELOCITY_CAP, VELOCITY_CAP);
            let velocity_y = self.rng.gen_in(-VELOCITY_CAP, VELOCITY_CAP);
            let age = self.rng.gen_in(0, 100_000);
            let plate_type = if i < continental_count {
                PlateType::Continental
            } else {
                if self.rng.gen_in(0, 5) == 0 {
                    PlateType::Continental
                } else {
                    PlateType::Oceanic
                }
            };
            let plate = TectonicPlate {
                id: i,
                center_x,
                center_y,
                velocity_x,
                velocity_y,
                age,
                plate_type,
            };
            proof {
                let stp = spec_plate(
                    old(self).spec_width(),
                    old(self).spec_height(),
                    s_pre,
                    i as int,
                    continental_count as int,
                );
                assert(stp.1 == plate && stp.0 == self.spec_rng());
            }
            plates.push(plate);
            i = i + 1;
        }
        plates
    }

    /// Clamps a ring coordinate into the grid with a 50-cell margin; grids
    /// narrower than the margin fall back to the centre line.
    fn clamp_coord(raw: i64, extent: i64) -> (r: i64)
        requires
            0 <= extent <= MAX_DIM,
            -10_000_000 <= raw <= 10_000_000,
        ensures
            r == spec_clamp_coord(raw as int, extent as int),
            0 <= r <= extent * 1000,
            extent * 1000 <= COORD_CAP ==> 0 <= r <= COORD_CAP,
    {
        let lo: i64 = 50_000;
        let hi: i64 = extent * 1000 - 50_000;
        if hi < lo {
            extent * 500
        } else if raw < lo {
            lo
        } else if raw > hi {
            hi
        } else {
            raw
        }
    }

    /// Squared distance from a cell to a plate centre.
    fn dist2(x: usize, y: usize, p: &TectonicPlate) -> (r: i64)
        requires
            x <= MAX_DIM,
            y <= MAX_DIM,
            plate_in_range(*p),
        ensures
            r == spec_dist2(x as int, y as int, *p),
            0 <= r <= 200_000_000_000_000,
    {
        let dx = (x as i64) * 1000 - p.center_x;
        let dy = (y as i64) * 1000 - p.center_y;
        proof {
            assert(0 <= dx * dx <= 100_000_000_000_000 && 0 <= dy * dy <= 100_000_000_000_000)
                by (nonlinear_arith)
                requires
                    -10_000_000 <= dx <= 10_000_000,
                    -10_000_000 <= dy <= 10_000_000,
            ;
        }
        dx * dx + dy * dy
    }

    /// Assigns every cell to the nearest plate centre, first-scanned on
    /// ties.
    pub fn assign_plate_ownership(&self, grid: &mut Grid, plates: &Vec<TectonicPlate>)
        requires
            old(grid).wf(),
            plates@.len() >= 1,
            forall|k: int| 0 <= k < plates@.len() ==> plate_in_range(#[trigger] plates@[k]),
        ensures
            final(grid).wf(),
            final(grid).spec_width() == old(grid).spec_width(),
            final(grid).spec_height() == old(grid).spec_height(),
            forall|x: int, y: int|
                old(grid).in_bounds(x, y) ==> #[trigger] final(grid).at(x, y) == (TerrainCell {
                    plate_id: final(grid).at(x, y).plate_id,
                    ..old(grid).at(x, y)
                }),
            forall|x: int, y: int|
                old(grid).in_bounds(x, y) ==> spec_owner_ok(
                    plates@,
                    x,
                    y,
                    #[trigger] final(grid).at(x, y).plate_id as int,
                ),
    {
        let w = grid.width();
        let h = grid.height();
        let mut y: usize = 0;
        while y < h
            invariant
                grid.wf(),
                grid.spec_width() == old(grid).spec_width(),
                grid.spec_height() == old(grid).spec_height(),
                y <= h,
                forall|i: int, j: int|
                    old(grid).in_bounds(i, j) && j < y ==> #[trigger] grid.at(i, j) == (
                    TerrainCell { plate_id: grid.at(i, j).plate_id, ..old(grid).at(i, j) }),
                forall|i: int, j: int|
                    old(grid).in_bounds(i, j) && j < y ==> spec_owner_ok(
                        plates@,
                        i,
                        j,
                        #[trigger] grid.at(i, j).plate_id as int,
                    ),
                forall|i: int, j: int|
                    old(grid).in_bounds(i, j) && j >= y ==> #[trigger] grid.at(i, j) == old(grid).at(i, j),
            decreases h - y,
        {
            let mut x: usize = 0;
            while x < w
                invariant
                    grid.wf(),
                    grid.spec_width() == old(grid).spec_width(),
                    grid.spec_height() == old(grid).spec_height(),
                    y < h,
                    x <= w,
                    forall|i: int, j: int|
                        old(grid).in_bounds(i, j) && (j < y || (j == y && i < x))
                            ==> #[trigger] grid.at(i, j) == (TerrainCell {
                            plate_id: grid.at(i, j).plate_id,
                            ..old(grid).at(i, j)
                        }),
                    forall|i: int, j: int|
                        old(grid).in_bounds(i, j) && (j < y || (j == y && i < x))
                            ==> spec_owner_ok(
                            plates@,
                            i,
                            j,
                            #[trigger] grid.at(i, j).plate_id as int,
                        ),
                    forall|i: int, j: int|
                        old(grid).in_bounds(i, j) && (j > y || (j == y && i >= x))
                            ==> #[trigger] grid.at(i, j) == old(grid).at(i, j),
                decreases w - x,
            {
                let mut closest: usize = 0;
                let mut best_d2 = Self::dist2(x, y, &plates[0]);
                let mut k: usize = 1;
                while k < plates.len()
                    invariant
                        x <= MAX_DIM,
                        y <= MAX_DIM,
                        1 <= k <= plates@.len(),
                        closest < k,
                        best_d2 == spec_dist2(x as int, y as int, plates@[closest as int]),
                        forall|m: int|
                            0 <= m < k ==> best_d2 <= #[trigger] spec_dist2(
                                x as int,
                                y as int,
                                plates@[m],
                            ),
                        forall|m: int|
                            0 <= m < closest ==> #[trigger] spec_dist2(
                                x as int,
                                y as int,
                                plates@[m],
                            ) > best_d2,
                    decreases plates@.len() - k,
                {
                    let d2 = Self::dist2(x, y, &plates[k]);
                    if d2 < best_d2 {
                        best_d2 = d2;
                        closest = k;
                    }
                    k = k + 1;
                }
                let mut c = grid.get(x, y);
                c.plate_id = closest;
                grid.set(x, y, c);
                x = x + 1;
            }
            y = y + 1;
        }
    }

    /// The stress one differing neighbour contributes.
    fn calculate_interaction_strength(&self, plate1: &TectonicPlate, plate2: &TectonicPlate) -> (r:
        i64)
        requires
            plate_in_range(*plate1),
            plate_in_range(*plate2),
        ensures
            r == spec_interaction(*plate1, *plate2),
            0 <= r <= STRENGTH_MAX,
    {
        let dvx = plate1.velocity_x - plate2.velocity_x;
        let dvy = plate1.velocity_y - plate2.velocity_y;
        proof {
            assert(0 <= dvx * dvx <= 9_000_000 && 0 <= dvy * dvy <= 9_000_000)
                by (nonlinear_arith)
                requires
                    -3000 <= dvx <= 3000,
                    -3000 <= dvy <= 3000,
            ;
            lemma_interaction_bounds(*plate1, *plate2);
        }
        let rel = isqrt(dvx * dvx + dvy * dvy);
        let factor: i64 = match (plate1.plate_type, plate2.plate_type) {
            (PlateType::Continental, PlateType::Continental) => 800,
            (PlateType::Continental, PlateType::Oceanic) => 1200,
            (PlateType::Oceanic, PlateType::Continental) => 1200,
            (PlateType::Oceanic, PlateType::Oceanic) => 400,
        };
        proof {
            assert(rel <= 4243) by (nonlinear_arith)
                requires
                    0 <= rel,
                    rel * rel <= 18_000_000,
            ;
            assert(rel * factor <= 5_100_000 && 0 <= rel * factor) by (nonlinear_arith)
                requires
                    0 <= rel <= 4243,
                    400 <= factor <= 1200,
            ;
        }
        (((rel * factor) as u64) / 1000) as i64
    }

    /// Adds boundary stress to every interior cell with a differing
    /// neighbour.
    fn simulate_plate_interactions(&self, grid: &mut Grid, plates: &Vec<TectonicPlate>)
        requires
            old(grid).wf(),
            plates@.len() >= 1,
            forall|k: int| 0 <= k < plates@.len() ==> plate_in_range(#[trigger] plates@[k]),
            forall|x: int, y: int|
                old(grid).in_bounds(x, y) ==> 0 <= #[trigger] old(grid).at(x, y).plate_id
                    < plates@.len(),
            forall|x: int, y: int|
                old(grid).in_bounds(x, y) ==> 0 <= #[trigger] old(grid).at(x, y).elevation
                    <= ELEV_CAP,
        ensures
            final(grid).wf(),
            final(grid).spec_width() == old(grid).spec_width(),
            final(grid).spec_height() == old(grid).spec_height(),
            forall|x: int, y: int|
                old(grid).in_bounds(x, y) && 1 <= x < old(grid).spec_width() - 1 && 1 <= y < old(grid).spec_height() - 1 ==> #[trigger] final(grid).at(x, y) == (TerrainCell {
                    elevation: (old(grid).at(x, y).elevation + spec_stress(
                        *old(grid),
                        plates@,
                        x,
                        y,
                    )) as i64,
                    ..old(grid).at(x, y)
                }),
            forall|x: int, y: int|
                old(grid).in_bounds(x, y) && !(1 <= x < old(grid).spec_width() - 1 && 1 <= y < old(grid).spec_height() - 1) ==> #[trigger] final(grid).at(x, y) == old(grid).at(x, y),
            forall|x: int, y: int|
                old(grid).in_bounds(x, y) ==> old(grid).at(x, y).elevation <= #[trigger] final(grid).at(x, y).elevation <= old(grid).at(x, y).elevation + 4 * STRENGTH_MAX,
    {
        let w = grid.width();
        let h = grid.height();
        let ghost g0 = *old(grid);
        let mut y: usize = 1;
        while y + 1 < h
            invariant
                grid.wf(),
                grid.spec_width() == old(grid).spec_width(),
                grid.spec_height() == old(grid).spec_height(),
                1 <= y,
                y <= MAX_DIM,
                forall|i: int, j: int|
                    old(grid).in_bounds(i, j) && 1 <= i < old(grid).spec_width() - 1 && 1 <= j
                        < old(grid).spec_height() - 1 && j < y ==> #[trigger] grid.at(i, j) == (
                    TerrainCell {
                        elevation: (old(grid).at(i, j).elevation + spec_stress(
                            *old(grid),
                            plates@,
                            i,
                            j,
                        )) as i64,
                        ..old(grid).at(i, j)
                    }),
                forall|i: int, j: int|
                    old(grid).in_bounds(i, j) && !(1 <= i < old(grid).spec_width() - 1 && 1 <= j
                        < old(grid).spec_height() - 1 && j < y) ==> #[trigger] grid.at(i, j)
                        == old(grid).at(i, j),
            decreases h - y,
        {
            let mut x: usize = 1;
            while x + 1 < w
                invariant
                    grid.wf(),
                    grid.spec_width() == old(grid).spec_width(),
                    grid.spec_height() == old(grid).spec_height(),
                    1 <= y,
                    y + 1 < h,
                    1 <= x,
                    x <= MAX_DIM,
                    forall|i: int, j: int|
                        old(grid).in_bounds(i, j) && 1 <= i < old(grid).spec_width() - 1 && 1 <= j
                            < old(grid).spec_height() - 1 && (j < y || (j == y && i < x))
                            ==> #[trigger] grid.at(i, j) == (TerrainCell {
                            elevation: (old(grid).at(i, j).elevation + spec_stress(
                                *old(grid),
                                plates@,
                                i,
                                j,
                            )) as i64,
                            ..old(grid).at(i, j)
                        }),
                    forall|i: int, j: int|
                        old(grid).in_bounds(i, j) && !(1 <= i < old(grid).spec_width() - 1 && 1
                            <= j < old(grid).spec_height() - 1 && (j < y || (j == y && i < x)))
                            ==> #[trigger] grid.at(i, j) == old(grid).at(i, j),
                decreases w - x,
            {
                let mut c = grid.get(x, y);
                let cur = c.plate_id;
                let up = grid.get(x, y - 1).plate_id;
                let down = grid.get(x, y + 1).plate_id;
                let left = grid.get(x - 1, y).plate_id;
                let right = grid.get(x + 1, y).plate_id;
                let mut delta: i64 = 0;
                if up != cur {
                    delta = delta + self.calculate_interaction_strength(&plates[cur], &plates[up]);
                }
                if down != cur {
                    delta = delta + self.calculate_interaction_strength(
                        &plates[cur],
                        &plates[down],
                    );
                }
                if left != cur {
                    delta = delta + self.calculate_interaction_strength(
                        &plates[cur],
                        &plates[left],
                    );
                }
                if right != cur {
                    delta = delta + self.calculate_interaction_strength(
                        &plates[cur],
                        &plates[right],
                    );
                }
                c.elevation = c.elevation + delta;
                grid.set(x, y, c);
                x = x + 1;
            }
            y = y + 1;
        }
        proof {
            assert forall|x: int, y: int| old(grid).in_bounds(x, y) implies old(grid).at(
                x,
                y,
            ).elevation <= #[trigger] grid.at(x, y).elevation <= old(grid).at(x, y).elevation + 4
                * STRENGTH_MAX by {
                if 1 <= x < old(grid).spec_width() - 1 && 1 <= y < old(grid).spec_height() - 1 {
                    lemma_stress_bounds(*old(grid), plates@, x, y);
                }
            }
        }
    }

    /// Adds the layered-noise base elevation to every cell.
    fn generate_base_elevation(&self, grid: &mut Grid)
        requires
            old(grid).wf(),
            forall|x: int, y: int|
                old(grid).in_bounds(x, y) ==> 0 <= #[trigger] old(grid).at(x, y).elevation
                    <= ELEV_CAP,
        ensures
            final(grid).wf(),
            final(grid).spec_width() == old(grid).spec_width(),
            final(grid).spec_height() == old(grid).spec_height(),
            forall|x: int, y: int|
                old(grid).in_bounds(x, y) ==> #[trigger] final(grid).at(x, y) == (TerrainCell {
                    elevation: (old(grid).at(x, y).elevation + spec_base_elev(
                        self.spec_seed(),
                        x as u64,
                        y as u64,
                    )) as i64,
                    ..old(grid).at(x, y)
                }),
            forall|x: int, y: int|
                old(grid).in_bounds(x, y) ==> old(grid).at(x, y).elevation <= #[trigger] final(grid).at(x, y).elevation <= old(grid).at(x, y).elevation + 925,
    {
        let w = grid.width();
        let h = grid.height();
        let mut y: usize = 0;
        while y < h
            invariant
                grid.wf(),
                grid.spec_width() == old(grid).spec_width(),
                grid.spec_height() == old(grid).spec_height(),
                y <= h,
                forall|i: int, j: int|
                    old(grid).in_bounds(i, j) && j < y ==> #[trigger] grid.at(i, j) == (
                    TerrainCell {
                        elevation: (old(grid).at(i, j).elevation + spec_base_elev(
                            self.spec_seed(),
                            i as u64,
                            j as u64,
                        )) as i64,
                        ..old(grid).at(i, j)
                    }),
                forall|i: int, j: int|
                    old(grid).in_bounds(i, j) && j >= y ==> #[trigger] grid.at(i, j) == old(grid).at(i, j),
            decreases h - y,
        {
            let mut x: usize = 0;
            while x < w
                invariant
                    grid.wf(),
                    grid.spec_width() == old(grid).spec_width(),
                    grid.spec_height() == old(grid).spec_height(),
                    y < h,
                    x <= w,
                    forall|i: int, j: int|
                        old(grid).in_bounds(i, j) && (j < y || (j == y && i < x))
                            ==> #[trigger] grid.at(i, j) == (TerrainCell {
                            elevation: (old(grid).at(i, j).elevation + spec_base_elev(
                                self.spec_seed(),
                                i as u64,
                                j as u64,
                            )) as i64,
                            ..old(grid).at(i, j)
                        }),
                    forall|i: int, j: int|
                        old(grid).in_bounds(i, j) && (j > y || (j == y && i >= x))
                            ==> #[trigger] grid.at(i, j) == old(grid).at(i, j),
                decreases w - x,
            {
                let s1 = sample(self.seed, SALT_BASE, x as u64, y as u64, 200) as u64;
                let s2 = sample(self.seed, SALT_BASE, x as u64, y as u64, 100) as u64;
                let s3 = sample(self.seed, SALT_BASE, x as u64, y as u64, 50) as u64;
                let c = s1 + s2 / 2 + s3 / 4;
                let b = (c * 3 / 10) as i64 - 125;
                let base: i64 = if b < 0 {
                    0
                } else {
                    b
                };
                let mut cell = grid.get(x, y);
                cell.elevation = cell.elevation + base;
                grid.set(x, y, cell);
                x = x + 1;
            }
            y = y + 1;
        }
        proof {
            assert forall|x: int, y: int| old(grid).in_bounds(x, y) implies old(grid).at(
                x,
                y,
            ).elevation <= #[trigger] grid.at(x, y).elevation <= old(grid).at(x, y).elevation
                + 925 by {
                lemma_base_elev_bounds(self.spec_seed(), x as u64, y as u64);
            }
        }
    }

    /// Whether a boundary between these plate types grows mountains: any
    /// pairing that involves a continental plate.
    fn pair_grows_mountains(t1: PlateType, t2: PlateType) -> (r: bool)
        ensures
            r == (spec_type_factor(t1, t2) >= 800),
    {
        !(matches!(t1, PlateType::Oceanic) && matches!(t2, PlateType::Oceanic))
    }

    /// Adds gated mountain boosts at continental boundaries and weaker
    /// inland uplift inside continental plates.
    fn add_mountain_ranges(&self, grid: &mut Grid, plates: &Vec<TectonicPlate>)
        requires
            old(grid).wf(),
            plates@.len() >= 1,
            forall|x: int, y: int|
                old(grid).in_bounds(x, y) ==> 0 <= #[trigger] old(grid).at(x, y).plate_id
                    < plates@.len(),
            forall|x: int, y: int|
                old(grid).in_bounds(x, y) ==> 0 <= #[trigger] old(grid).at(x, y).elevation
                    <= ELEV_CAP,
        ensures
            final(grid).wf(),
            final(grid).spec_width() == old(grid).spec_width(),
            final(grid).spec_height() == old(grid).spec_height(),
            forall|x: int, y: int|
                old(grid).in_bounds(x, y) && 1 <= x < old(grid).spec_width() - 1 && 1 <= y < old(grid).spec_height() - 1 ==> #[trigger] final(grid).at(x, y) == (TerrainCell {
                    elevation: (old(grid).at(x, y).elevation + spec_mountain_delta(
                        *old(grid),
                        plates@,
                        self.spec_seed(),
                        x,
                        y,
                    )) as i64,
                    ..old(grid).at(x, y)
                }),
            forall|x: int, y: int|
                old(grid).in_bounds(x, y) && !(1 <= x < old(grid).spec_width() - 1 && 1 <= y < old(grid).spec_height() - 1) ==> #[trigger] final(grid).at(x, y) == old(grid).at(x, y),
            forall|x: int, y: int|
                old(grid).in_bounds(x, y) ==> old(grid).at(x, y).elevation <= #[trigger] final(grid).at(x, y).elevation <= old(grid).at(x, y).elevation + 1830,
    {
        let w = grid.width();
        let h = grid.height();
        let mut y: usize = 1;
        while y + 1 < h
            invariant
                grid.wf(),
                grid.spec_width() == old(grid).spec_width(),
                grid.spec_height() == old(grid).spec_height(),
                1 <= y,
                y <= MAX_DIM,
                forall|i: int, j: int|
                    old(grid).in_bounds(i, j) && 1 <= i < old(grid).spec_width() - 1 && 1 <= j
                        < old(grid).spec_height() - 1 && j < y ==> #[trigger] grid.at(i, j) == (
                    TerrainCell {
                        elevation: (old(grid).at(i, j).elevation + spec_mountain_delta(
                            *old(grid),
                            plates@,
                            self.spec_seed(),
                            i,
                            j,
                        )) as i64,
                        ..old(grid).at(i, j)
                    }),
                forall|i: int, j: int|
                    old(grid).in_bounds(i, j) && !(1 <= i < old(grid).spec_width() - 1 && 1 <= j
                        < old(grid).spec_height() - 1 && j < y) ==> #[trigger] grid.at(i, j)
                        == old(grid).at(i, j),
            decreases h - y,
        {
            let mut x: usize = 1;
            while x + 1 < w
                invariant
                    grid.wf(),
                    grid.spec_width() == old(grid).spec_width(),
                    grid.spec_height() == old(grid).spec_height(),
                    1 <= y,
                    y + 1 < h,
                    1 <= x,
                    x <= MAX_DIM,
                    forall|i: int, j: int|
                        old(grid).in_bounds(i, j) && 1 <= i < old(grid).spec_width() - 1 && 1 <= j
                            < old(grid).spec_height() - 1 && (j < y || (j == y && i < x))
                            ==> #[trigger] grid.at(i, j) == (TerrainCell {
                            elevation: (old(grid).at(i, j).elevation + spec_mountain_delta(
                                *old(grid),
                                plates@,
                                self.spec_seed(),
                                i,
                                j,
                            )) as i64,
                            ..old(grid).at(i, j)
                        }),
                    forall|i: int, j: int|
                        old(grid).in_bounds(i, j) && !(1 <= i < old(grid).spec_width() - 1 && 1
                            <= j < old(grid).spec_height() - 1 && (j < y || (j == y && i < x)))
                            ==> #[trigger] grid.at(i, j) == old(grid).at(i, j),
                decreases w - x,
            {
                let mut c = grid.get(x, y);
                let cur = c.plate_id;
                let ct = plates[cur].plate_type;
                let up = grid.get(x, y - 1).plate_id;
                let down = grid.get(x, y + 1).plate_id;
                let left = grid.get(x - 1, y).plate_id;
                let right = grid.get(x + 1, y).plate_id;
                let boundary = (up != cur && Self::pair_grows_mountains(
                    ct,
                    plates[up].plate_type,
                )) || (down != cur && Self::pair_grows_mountains(ct, plates[down].plate_type)) || (
                left != cur && Self::pair_grows_mountains(ct, plates[left].plate_type)) || (right
                    != cur && Self::pair_grows_mountains(ct, plates[right].plate_type));
                let mut delta: i64 = 0;
                let m = sample(self.seed, SALT_MOUNTAIN, x as u64, y as u64, 30) - 1000;
                if boundary && m > 100 {
                    delta = delta + ((((m - 100) as u64) * 3 / 2) as i64);
                }
                let n = sample(self.seed, SALT_INLAND, x as u64, y as u64, 80) - 1000;
                if matches!(ct, PlateType::Continental) && n > 400 {
                    delta = delta + ((((n - 400) as u64) * 4 / 5) as i64);
                }
                c.elevation = c.elevation + delta;
                grid.set(x, y, c);
                x = x + 1;
            }
            y = y + 1;
        }
        proof {
            assert forall|x: int, y: int| old(grid).in_bounds(x, y) implies old(grid).at(
                x,
                y,
            ).elevation <= #[trigger] grid.at(x, y).elevation <= old(grid).at(x, y).elevation
                + 1830 by {
                if 1 <= x < old(grid).spec_width() - 1 && 1 <= y < old(grid).spec_height() - 1 {
                    lemma_mountain_delta_bounds(*old(grid), plates@, self.spec_seed(), x, y);
                }
            }
        }
    }

    /// Runs the whole tectonic stage on a flat grid: seeded plates, a
    /// nearest-centre partition, boundary stress, base elevation and
    /// mountain ranges. Every cell ends owned by its nearest plate centre
    /// with a bounded, non-negative elevation.
    #[verifier::rlimit(100)]
    pub fn simulate(&mut self, grid: &mut Grid) -> (plates: Vec<TectonicPlate>)
        requires
            old(grid).wf(),
            old(grid).spec_width() == old(self).spec_width(),
            old(grid).spec_height() == old(self).spec_height(),
            forall|x: int, y: int|
                old(grid).in_bounds(x, y) ==> #[trigger] old(grid).at(x, y).elevation == 0,
        ensures
            final(grid).wf(),
            final(grid).spec_width() == old(grid).spec_width(),
            final(grid).spec_height() == old(grid).spec_height(),
            final(self).spec_seed() == old(self).spec_seed(),
            6 <= plates@.len() <= 9,
            forall|i: int|
                0 <= i < plates@.len() ==> (#[trigger] plates@[i]).id == i && plate_in_range(
                    plates@[i],
                ),
            ({
                let c = spec_draw(old(self).spec_rng(), 0, 4);
                let n = 6 + c.1;
                let r = spec_plates(
                    old(self).spec_width(),
                    old(self).spec_height(),
                    c.0,
                    n,
                    spec_continental_count(n),
                );
                plates@.len() == n && plates@ == r.1 && final(self).spec_rng() == r.0
            }),
            forall|i: int|
                0 <= i < plates@.len() && i < spec_continental_count(plates@.len() as int)
                    ==> (#[trigger] plates@[i]).plate_type == PlateType::Continental,
            forall|x: int, y: int|
                old(grid).in_bounds(x, y) ==> #[trigger] final(grid).at(x, y) == (TerrainCell {
                    elevation: final(grid).at(x, y).elevation,
                    plate_id: final(grid).at(x, y).plate_id,
                    ..old(grid).at(x, y)
                }),
            forall|x: int, y: int|
                old(grid).in_bounds(x, y) ==> spec_owner_ok(
                    plates@,
                    x,
                    y,
                    #[trigger] final(grid).at(x, y).plate_id as int,
                ),
            forall|x: int, y: int|
                old(grid).in_bounds(x, y) ==> 0 <= #[trigger] final(grid).at(x, y).elevation
                    <= PLATE_ELEV_MAX,
    {
        let ghost g0 = *old(grid);
        let extra = self.rng.gen_in(0, 4);
        let plate_count = 6 + (extra as usize);
        let plates = self.generate_plates(plate_count);
        proof {
            let c = spec_draw(old(self).spec_rng(), 0, 4);
            assert(extra as int == c.1 && plate_count as int == 6 + c.1);
        }
        self.assign_plate_ownership(grid, &plates);
        let ghost g1 = *grid;
        self.simulate_plate_interactions(grid, &plates);
        let ghost g2 = *grid;
        self.generate_base_elevation(grid);
        let ghost g3 = *grid;
        self.add_mountain_ranges(grid, &plates);
        proof {
            assert forall|x: int, y: int| g0.in_bounds(x, y) implies #[trigger] grid.at(x, y) == (
            TerrainCell {
                elevation: grid.at(x, y).elevation,
                plate_id: grid.at(x, y).plate_id,
                ..g0.at(x, y)
            }) && spec_owner_ok(plates@, x, y, grid.at(x, y).plate_id as int) && 0 <= grid.at(
                x,
                y,
            ).elevation <= PLATE_ELEV_MAX by {
                assert(g1.at(x, y) == (TerrainCell { plate_id: g1.at(x, y).plate_id, ..g0.at(
                    x,
                    y,
                ) }));
                assert(g1.at(x, y).elevation <= g2.at(x, y).elevation <= g1.at(x, y).elevation + 4
                    * STRENGTH_MAX);
                assert(g2.at(x, y).elevation <= g3.at(x, y).elevation <= g2.at(x, y).elevation
                    + 925);
                assert(g3.at(x, y).elevation <= grid.at(x, y).elevation <= g3.at(x, y).elevation
                    + 1830);
            }
        }
        plates
    }
}

} // verus!
