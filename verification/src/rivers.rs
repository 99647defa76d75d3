//! The river stage: watershed sources at rainy local maxima, greedy
//! downhill traces that accumulate flow from rainfall and tributaries, a
//! deterministic meander perturbation for large rivers, and a visited-cell
//! budget against plateaus.

use vstd::prelude::*;
use crate::model::{BiomeType, Grid, TerrainCell, ELEV_CAP, MAX_DIM, RAIN_CAP};
use crate::rng::{mix4, spec_mix4};

verus! {

/// A source must rise above this elevation (thousandths).
pub const SOURCE_ELEV: i64 = 1000;

/// A source must collect more rainfall than this (thousandths).
pub const SOURCE_RAIN: i64 = 6000;

/// A trace starts with this much flow (thousandths).
pub const FLOW_START: i64 = 1000;

/// A cell is marked as river only above this flow (thousandths).
pub const FLOW_MIN: i64 = 500;

/// Meander perturbs direction choices only above this flow (thousandths).
pub const MEANDER_FLOW: i64 = 2000;

/// A trace visits at most this many cells.
pub const TRACE_BUDGET: usize = 2000;

/// `(x, y)` qualifies as a watershed source: interior land above the
/// elevation and rainfall thresholds, with no strictly higher neighbour.
pub open spec fn spec_is_source(g: Grid, x: int, y: int) -> bool {
    &&& 1 <= x < g.spec_width() - 1
    &&& 1 <= y < g.spec_height() - 1
    &&& !g.at(x, y).is_water
    &&& g.at(x, y).elevation > SOURCE_ELEV
    &&& g.at(x, y).rainfall > SOURCE_RAIN
    &&& g.at(x - 1, y - 1).elevation <= g.at(x, y).elevation
    &&& g.at(x, y - 1).elevation <= g.at(x, y).elevation
    &&& g.at(x + 1, y - 1).elevation <= g.at(x, y).elevation
    &&& g.at(x - 1, y).elevation <= g.at(x, y).elevation
    &&& g.at(x + 1, y).elevation <= g.at(x, y).elevation
    &&& g.at(x - 1, y + 1).elevation <= g.at(x, y).elevation
    &&& g.at(x, y + 1).elevation <= g.at(x, y).elevation
    &&& g.at(x + 1, y + 1).elevation <= g.at(x, y).elevation
}

/// Two positions are distinct eight-neighbours.
pub open spec fn spec_adjacent(a: (int, int), b: (int, int)) -> bool {
    &&& -1 <= b.0 - a.0 <= 1
    &&& -1 <= b.1 - a.1 <= 1
    &&& !(b.0 == a.0 && b.1 == a.1)
}

/// A strictly descending eight-connected path over the grid's elevations.
pub open spec fn spec_downhill_path(g: Grid, p: Seq<(int, int)>) -> bool {
    &&& p.len() >= 1
    &&& forall|i: int| 0 <= i < p.len() ==> g.in_bounds(#[trigger] p[i].0, p[i].1)
    &&& forall|i: int|
        0 <= i < p.len() - 1 ==> spec_adjacent(#[trigger] p[i], p[i + 1]) && g.at(
            p[i + 1].0,
            p[i + 1].1,
        ).elevation < g.at(p[i].0, p[i].1).elevation
}

/// `(x, y)` is the end of a strictly descending path from some source.
pub open spec fn spec_fed_by_source(g: Grid, x: int, y: int) -> bool {
    exists|p: Seq<(int, int)>|
        #[trigger] spec_downhill_path(g, p) && spec_is_source(g, p[0].0, p[0].1) && p[p.len() - 1]
            == (x, y)
}

/// `(i, j)` is an on-grid neighbour that already carries a river and sits
/// strictly higher than `(x, y)`.
pub open spec fn spec_trib_at(g: Grid, x: int, y: int, i: int, j: int) -> bool {
    g.in_bounds(i, j) && g.at(i, j).has_river && g.at(i, j).elevation > g.at(x, y).elevation
}

/// How many of the eight neighbours of `(x, y)` are higher river cells.
pub open spec fn spec_tributary_count(g: Grid, x: int, y: int) -> int {
    (if spec_trib_at(g, x, y, x - 1, y - 1) {
        1int
    } else {
        0int
    }) + (if spec_trib_at(g, x, y, x, y - 1) {
        1int
    } else {
        0int
    }) + (if spec_trib_at(g, x, y, x + 1, y - 1) {
        1int
    } else {
        0int
    }) + (if spec_trib_at(g, x, y, x - 1, y) {
        1int
    } else {
        0int
    }) + (if spec_trib_at(g, x, y, x + 1, y) {
        1int
    } else {
        0int
    }) + (if spec_trib_at(g, x, y, x - 1, y + 1) {
        1int
    } else {
        0int
    }) + (if spec_trib_at(g, x, y, x, y + 1) {
        1int
    } else {
        0int
    }) + (if spec_trib_at(g, x, y, x + 1, y + 1) {
        1int
    } else {
        0int
    })
}

/// `a` comes strictly before `b` in the row-major scan.
pub open spec fn spec_scan_before(a: (usize, usize), b: (usize, usize)) -> bool {
    a.1 < b.1 || (a.1 == b.1 && a.0 < b.0)
}

/// The `k`-th entry of the three-by-three neighbourhood scan around
/// `(x, y)`, in row-major order; the centre is entry four.
pub open spec fn spec_cand(x: int, y: int, k: int) -> (int, int) {
    (x + k % 3 - 1, y + k / 3 - 1)
}

/// Entry `k` is a cell the river could flow to: on the grid and strictly
/// lower than `(x, y)`.
pub open spec fn spec_cand_valid(g: Grid, x: int, y: int, k: int) -> bool {
    let c = spec_cand(x, y, k);
    &&& k != 4
    &&& g.in_bounds(c.0, c.1)
    &&& g.at(c.0, c.1).elevation < g.at(x, y).elevation
}

/// The flow preference of a candidate: distance over drop, minus the
/// deterministic meander perturbation for large flows. Smaller is better.
pub open spec fn spec_flow_score(g: Grid, x: int, y: int, nx: int, ny: int, flow: int) -> int {
    let drop = g.at(x, y).elevation - g.at(nx, ny).elevation;
    let dist: int = if nx != x && ny != y {
        1414
    } else {
        1000
    };
    let base = dist * 1_000_000 / (drop + 100);
    let meander: int = if flow > MEANDER_FLOW {
        ((spec_mix4(x as u64, y as u64, nx as u64, ny as u64) % 300) - 150) * 1000
    } else {
        0
    };
    base - meander
}

/// `p` is the candidate the trace flows to: valid, with the best score,
/// and first in scan order among candidates of equal score.
pub open spec fn spec_best_flow(g: Grid, x: int, y: int, flow: int, p: (int, int)) -> bool {
    let k = (p.1 - y + 1) * 3 + (p.0 - x + 1);
    &&& spec_cand_valid(g, x, y, k)
    &&& p == spec_cand(x, y, k)
    &&& forall|m: int|
        0 <= m < 9 && spec_cand_valid(g, x, y, m) ==> spec_flow_score(g, x, y, p.0, p.1, flow)
            <= #[trigger] spec_flow_score(
            g,
            x,
            y,
            spec_cand(x, y, m).0,
            spec_cand(x, y, m).1,
            flow,
        )
    &&& forall|m: int|
        0 <= m < k && spec_cand_valid(g, x, y, m) ==> #[trigger] spec_flow_score(
            g,
            x,
            y,
            spec_cand(x, y, m).0,
            spec_cand(x, y, m).1,
            flow,
        ) > spec_flow_score(g, x, y, p.0, p.1, flow)
}

/// What the river stage maintains at each cell, against the grid `g0` it
/// started from: only biome and river flag change; a marked cell is land,
/// carries the River biome and is fed by a source; an unmarked cell keeps
/// its biome.
pub open spec fn river_cell_ok(g0: Grid, g: Grid, x: int, y: int) -> bool {
    let c0 = g0.at(x, y);
    let c = g.at(x, y);
    &&& c == (TerrainCell { biome: c.biome, has_river: c.has_river, ..c0 })
    &&& (c.has_river ==> !c0.is_water && c.biome == BiomeType::River && spec_fed_by_source(
        g0,
        x,
        y,
    ))
    &&& (!c.has_river ==> c.biome == c0.biome)
}

/// Being a source only depends on elevations, rainfall and water flags,
/// so it transfers between grids that agree on them.
pub proof fn lemma_is_source_transfer(g1: Grid, g2: Grid, x: int, y: int)
    requires
        g1.spec_width() == g2.spec_width(),
        g1.spec_height() == g2.spec_height(),
        forall|i: int, j: int|
            g1.in_bounds(i, j) ==> #[trigger] g2.at(i, j).elevation == g1.at(i, j).elevation
                && g2.at(i, j).rainfall == g1.at(i, j).rainfall && g2.at(i, j).is_water == g1.at(
                i,
                j,
            ).is_water,
        spec_is_source(g1, x, y),
    ensures
        spec_is_source(g2, x, y),
{
    assert(g1.in_bounds(x, y));
    assert(g1.in_bounds(x - 1, y - 1));
    assert(g1.in_bounds(x, y - 1));
    assert(g1.in_bounds(x + 1, y - 1));
    assert(g1.in_bounds(x - 1, y));
    assert(g1.in_bounds(x + 1, y));
    assert(g1.in_bounds(x - 1, y + 1));
    assert(g1.in_bounds(x, y + 1));
    assert(g1.in_bounds(x + 1, y + 1));
}

/// Being fed by a source only depends on elevations, rainfall and water
/// flags, so it transfers between grids that agree on them.
#[verifier::rlimit(100)]
pub proof fn lemma_fed_by_source_transfer(g1: Grid, g2: Grid, x: int, y: int)
    requires
        g1.spec_width() == g2.spec_width(),
        g1.spec_height() == g2.spec_height(),
        forall|i: int, j: int|
            g1.in_bounds(i, j) ==> #[trigger] g2.at(i, j).elevation == g1.at(i, j).elevation
                && g2.at(i, j).rainfall == g1.at(i, j).rainfall && g2.at(i, j).is_water == g1.at(
                i,
                j,
            ).is_water,
        spec_fed_by_source(g1, x, y),
    ensures
        spec_fed_by_source(g2, x, y),
{
    let p = choose|p: Seq<(int, int)>|
        #[trigger] spec_downhill_path(g1, p) && spec_is_source(g1, p[0].0, p[0].1) && p[p.len()
            - 1] == (x, y);
    assert forall|i: int| 0 <= i < p.len() implies g2.in_bounds(#[trigger] p[i].0, p[i].1) by {}
    assert forall|i: int|
        0 <= i < p.len() - 1 implies spec_adjacent(#[trigger] p[i], p[i + 1]) && g2.at(
            p[i + 1].0,
            p[i + 1].1,
        ).elevation < g2.at(p[i].0, p[i].1).elevation by {
        assert(g1.in_bounds(p[i].0, p[i].1));
        assert(g1.in_bounds(p[i + 1].0, p[i + 1].1));
    }
    assert(spec_downhill_path(g2, p));
    assert(g1.in_bounds(p[0].0, p[0].1));
    let sx = p[0].0;
    let sy = p[0].1;
    assert(g1.in_bounds(sx - 1, sy - 1));
    assert(g1.in_bounds(sx, sy - 1));
    assert(g1.in_bounds(sx + 1, sy - 1));
    assert(g1.in_bounds(sx - 1, sy));
    assert(g1.in_bounds(sx + 1, sy));
    assert(g1.in_bounds(sx - 1, sy + 1));
    assert(g1.in_bounds(sx, sy + 1));
    assert(g1.in_bounds(sx + 1, sy + 1));
    assert(spec_is_source(g2, sx, sy));
    assert(p[p.len() - 1] == (x, y));
}

/// Extending a descending path by one strictly lower neighbour keeps it a
/// descending path.
#[verifier::rlimit(100)]
proof fn lemma_path_extend(g: Grid, p: Seq<(int, int)>, a: (int, int), b: (int, int))
    requires
        spec_downhill_path(g, p),
        p[p.len() - 1] == a,
        g.in_bounds(b.0, b.1),
        spec_adjacent(a, b),
        g.at(b.0, b.1).elevation < g.at(a.0, a.1).elevation,
    ensures
        spec_downhill_path(g, p.push(b)),
        p.push(b)[p.push(b).len() - 1] == b,
        p.push(b)[0] == p[0],
{
    let q = p.push(b);
    assert forall|i: int| 0 <= i < q.len() implies g.in_bounds(#[trigger] q[i].0, q[i].1) by {
        if i < p.len() {
            assert(q[i] == p[i]);
        } else {
            assert(q[i] == b);
        }
    }
    assert forall|i: int|
        0 <= i < q.len() - 1 implies spec_adjacent(#[trigger] q[i], q[i + 1]) && g.at(
            q[i + 1].0,
            q[i + 1].1,
        ).elevation < g.at(q[i].0, q[i].1).elevation by {
        if i < p.len() - 1 {
            assert(q[i] == p[i]);
            assert(q[i + 1] == p[i + 1]);
        } else {
            assert(q[i] == p[i]);
            assert(p[i] == a);
            assert(q[i + 1] == b);
        }
    }
}

/// A grid that the river stage evolved keeps its reference elevations.
proof fn lemma_river_frame_elev(g0: Grid, g: Grid)
    requires
        g0.spec_width() == g.spec_width(),
        g0.spec_height() == g.spec_height(),
        forall|x: int, y: int| g0.in_bounds(x, y) ==> river_cell_ok(g0, g, x, y),
        forall|x: int, y: int|
            g0.in_bounds(x, y) ==> 0 <= #[trigger] g0.at(x, y).elevation <= ELEV_CAP,
    ensures
        forall|x: int, y: int|
            g.in_bounds(x, y) ==> 0 <= #[trigger] g.at(x, y).elevation <= ELEV_CAP,
{
    assert forall|x: int, y: int|
        g.in_bounds(x, y) implies 0 <= #[trigger] g.at(x, y).elevation <= ELEV_CAP by {
        assert(g0.in_bounds(x, y));
        assert(river_cell_ok(g0, g, x, y));
        assert(g.at(x, y).elevation == g0.at(x, y).elevation);
    }
}

/// Finds sources and traces a river downhill from each.
pub struct RiverGenerator {
    width: u32,
    height: u32,
}

impl RiverGenerator {
    pub closed spec fn spec_width(self) -> int {
        self.width as int
    }

    pub closed spec fn spec_height(self) -> int {
        self.height as int
    }

    pub fn new(width: u32, height: u32) -> (s: RiverGenerator)
        ensures
            s.spec_width() == width,
            s.spec_height() == height,
    {
        RiverGenerator { width, height }
    }

    /// Collects every watershed source, scanning row-major.
    pub fn find_river_sources(&self, grid: &Grid) -> (v: Vec<(usize, usize)>)
        requires
            grid.wf(),
        ensures
            forall|k: int|
                0 <= k < v@.len() ==> spec_is_source(
                    *grid,
                    (#[trigger] v@[k]).0 as int,
                    v@[k].1 as int,
                ),
            forall|i: int, j: int|
                spec_is_source(*grid, i, j) ==> v@.contains((i as usize, j as usize)),
            forall|k1: int, k2: int|
                0 <= k1 < k2 < v@.len() ==> spec_scan_before(#[trigger] v@[k1], #[trigger] v@[k2]),
    {
        let w = grid.width();
        let h = grid.height();
        let mut v: Vec<(usize, usize)> = Vec::new();
        let mut y: usize = 1;
        while y + 1 < h
            invariant
                grid.wf(),
                1 <= y,
                y <= MAX_DIM,
                forall|k: int|
                    0 <= k < v@.len() ==> spec_is_source(
                        *grid,
                        (#[trigger] v@[k]).0 as int,
                        v@[k].1 as int,
                    ),
                forall|i: int, j: int|
                    spec_is_source(*grid, i, j) && j < y ==> v@.contains((i as usize, j as usize)),
                forall|k1: int, k2: int|
                    0 <= k1 < k2 < v@.len() ==> spec_scan_before(
                        #[trigger] v@[k1],
                        #[trigger] v@[k2],
                    ),
                forall|k: int| 0 <= k < v@.len() ==> (#[trigger] v@[k]).1 < y,
            decreases h - y,
        {
            let mut x: usize = 1;
            while x + 1 < w
                invariant
                    grid.wf(),
                    1 <= y,
                    y + 1 < h,
                    1 <= x,
                    x <= MAX_DIM,
                    forall|k: int|
                        0 <= k < v@.len() ==> spec_is_source(
                            *grid,
                            (#[trigger] v@[k]).0 as int,
                            v@[k].1 as int,
                        ),
                    forall|i: int, j: int|
                        spec_is_source(*grid, i, j) && (j < y || (j == y && i < x))
                            ==> v@.contains((i as usize, j as usize)),
                    forall|k1: int, k2: int|
                        0 <= k1 < k2 < v@.len() ==> spec_scan_before(
                            #[trigger] v@[k1],
                            #[trigger] v@[k2],
                        ),
                    forall|k: int|
                        0 <= k < v@.len() ==> (#[trigger] v@[k]).1 < y || ((#[trigger] v@[k]).1
                            == y && v@[k].0 < x),
                decreases w - x,
            {
                let c = grid.get(x, y);
                let e = c.elevation;
                let thresholds = !c.is_water && c.elevation > SOURCE_ELEV && c.rainfall
                    > SOURCE_RAIN;
                let peak = grid.get(x - 1, y - 1).elevation <= e && grid.get(x, y - 1).elevation
                    <= e && grid.get(x + 1, y - 1).elevation <= e && grid.get(x - 1, y).elevation
                    <= e && grid.get(x + 1, y).elevation <= e && grid.get(x - 1, y + 1).elevation
                    <= e && grid.get(x, y + 1).elevation <= e && grid.get(x + 1, y + 1).elevation
                    <= e;
                let ghost vpre = v@;
                if thresholds && peak {
                    v.push((x, y));
                }
                proof {
                    assert forall|p: (usize, usize)| vpre.contains(p) implies v@.contains(p) by {
                        let i = choose|i: int| 0 <= i < vpre.len() && vpre[i] == p;
                        assert(v@[i] == p);
                    }
                    assert forall|i: int, j: int|
                        spec_is_source(*grid, i, j) && (j < y || (j == y && i < x + 1)) implies
                        v@.contains((i as usize, j as usize)) by {
                        if i == x as int && j == y as int {
                            assert(thresholds && peak);
                            assert(v@[v@.len() - 1] == (x, y));
                        } else {
                            assert(vpre.contains((i as usize, j as usize)));
                        }
                    }
                }
                x = x + 1;
            }
            y = y + 1;
        }
        v
    }

    /// How many higher neighbours already carry a river.
    fn count_tributary_flow(&self, grid: &Grid, x: usize, y: usize) -> (n: i64)
        requires
            grid.wf(),
            grid.in_bounds(x as int, y as int),
        ensures
            n == spec_tributary_count(*grid, x as int, y as int),
            0 <= n <= 8,
    {
        let xi = x as i64;
        let yi = y as i64;
        let mut n: i64 = 0;
        if self.trib_at(grid, x, y, xi - 1, yi - 1) {
            n = n + 1;
        }
        if self.trib_at(grid, x, y, xi, yi - 1) {
            n = n + 1;
        }
        if self.trib_at(grid, x, y, xi + 1, yi - 1) {
            n = n + 1;
        }
        if self.trib_at(grid, x, y, xi - 1, yi) {
            n = n + 1;
        }
        if self.trib_at(grid, x, y, xi + 1, yi) {
            n = n + 1;
        }
        if self.trib_at(grid, x, y, xi - 1, yi + 1) {
            n = n + 1;
        }
        if self.trib_at(grid, x, y, xi, yi + 1) {
            n = n + 1;
        }
        if self.trib_at(grid, x, y, xi + 1, yi + 1) {
            n = n + 1;
        }
        n
    }

    /// Whether `(ni, nj)` is a higher on-grid river neighbour of `(x, y)`.
    fn trib_at(&self, grid: &Grid, x: usize, y: usize, ni: i64, nj: i64) -> (r: bool)
        requires
            grid.wf(),
            grid.in_bounds(x as int, y as int),
            -2 <= ni,
            ni <= grid.spec_width() + 1,
            -2 <= nj,
            nj <= grid.spec_height() + 1,
        ensures
            r == spec_trib_at(*grid, x as int, y as int, ni as int, nj as int),
    {
        if ni >= 0 && nj >= 0 && (ni as usize) < grid.width() && (nj as usize) < grid.height() {
            let nb = grid.get(ni as usize, nj as usize);
            nb.has_river && nb.elevation > grid.get(x, y).elevation
        } else {
            false
        }
    }

    /// The neighbour the river flows to: the strictly lower neighbour with
    /// the best distance-over-drop score, perturbed deterministically for
    /// large flows so near-equal choices meander; scan order breaks ties.
    #[verifier::rlimit(100)]
    fn find_best_flow_direction(&self, grid: &Grid, x: usize, y: usize, flow: i64) -> (r: Option<
        (usize, usize),
    >)
        requires
            grid.wf(),
            grid.in_bounds(x as int, y as int),
            forall|i: int, j: int|
                grid.in_bounds(i, j) ==> 0 <= #[trigger] grid.at(i, j).elevation <= ELEV_CAP,
        ensures
            match r {
                Some(p) => grid.in_bounds(p.0 as int, p.1 as int) && spec_adjacent(
                    (x as int, y as int),
                    (p.0 as int, p.1 as int),
                ) && grid.at(p.0 as int, p.1 as int).elevation < grid.at(
                    x as int,
                    y as int,
                ).elevation && spec_best_flow(
                    *grid,
                    x as int,
                    y as int,
                    flow as int,
                    (p.0 as int, p.1 as int),
                ),
                None => forall|m: int|
                    0 <= m < 9 ==> !spec_cand_valid(*grid, x as int, y as int, m),
            },
    {
        let e = grid.get(x, y).elevation;
        let xi = x as i64;
        let yi = y as i64;
        let mut best_score: i64 = 0;
        let mut best: Option<(usize, usize)> = None;
        let ghost mut best_k: int = 0;
        let mut k: usize = 0;
        while k < 9
            invariant
                k <= 9,
                grid.wf(),
                grid.in_bounds(x as int, y as int),
                e == grid.at(x as int, y as int).elevation,
                xi == x as int,
                yi == y as int,
                best is None ==> forall|m: int|
                    0 <= m < k ==> !spec_cand_valid(*grid, x as int, y as int, m),
                match best {
                    Some(b) => {
                        &&& 0 <= best_k < k
                        &&& spec_cand_valid(*grid, x as int, y as int, best_k)
                        &&& (b.0 as int, b.1 as int) == spec_cand(x as int, y as int, best_k)
                        &&& grid.in_bounds(b.0 as int, b.1 as int)
                        &&& best_score == spec_flow_score(
                            *grid,
                            x as int,
                            y as int,
                            b.0 as int,
                            b.1 as int,
                            flow as int,
                        )
                        &&& forall|m: int|
                            0 <= m < k && spec_cand_valid(*grid, x as int, y as int, m)
                                ==> best_score <= #[trigger] spec_flow_score(
                                *grid,
                                x as int,
                                y as int,
                                spec_cand(x as int, y as int, m).0,
                                spec_cand(x as int, y as int, m).1,
                                flow as int,
                            )
                        &&& forall|m: int|
                            0 <= m < best_k && spec_cand_valid(*grid, x as int, y as int, m)
                                ==> #[trigger] spec_flow_score(
                                *grid,
                                x as int,
                                y as int,
                                spec_cand(x as int, y as int, m).0,
                                spec_cand(x as int, y as int, m).1,
                                flow as int,
                            ) > best_score
                    },
                    None => true,
                },
            decreases 9 - k,
        {
            if k != 4 {
                let dx = (k % 3) as i64 - 1;
                let dy = (k / 3) as i64 - 1;
                let nx = xi + dx;
                let ny = yi + dy;
                if nx >= 0 && ny >= 0 && (nx as usize) < grid.width() && (ny as usize)
                    < grid.height() {
                    let nb = grid.get(nx as usize, ny as usize);
                    if nb.elevation < e {
                        let drop = e - nb.elevation;
                        let dist: i64 = if dx != 0 && dy != 0 {
                            1414
                        } else {
                            1000
                        };
                        let base = (((dist as u64) * 1_000_000) / ((drop + 100) as u64)) as i64;
                        let meander: i64 = if flow > MEANDER_FLOW {
                            (((mix4(x as u64, y as u64, nx as u64, ny as u64) % 300) as i64) - 150)
                                * 1000
                        } else {
                            0
                        };
                        let score = base - meander;
                        proof {
                            assert(score == spec_flow_score(
                                *grid,
                                x as int,
                                y as int,
                                nx as int,
                                ny as int,
                                flow as int,
                            ));
                        }
                        if best.is_none() || score < best_score {
                            best_score = score;
                            best = Some((nx as usize, ny as usize));
                            proof {
                                best_k = k as int;
                            }
                        }
                    }
                }
            }
            k = k + 1;
        }
        proof {
            if let Some(b) = best {
                vstd::arithmetic::div_mod::lemma_fundamental_div_mod(best_k, 3);
                assert(((b.1 as int) - y + 1) * 3 + ((b.0 as int) - x + 1) == best_k);
            }
        }
        best
    }

    /// Marks one cell as river; the trace's path witnesses that a source
    /// feeds it.
    fn mark_river_cell(&self, grid: &mut Grid, cx: usize, cy: usize, Ghost(g0): Ghost<Grid>, Ghost(path): Ghost<Seq<(int, int)>>)
        requires
            old(grid).wf(),
            g0.spec_width() == old(grid).spec_width(),
            g0.spec_height() == old(grid).spec_height(),
            old(grid).in_bounds(cx as int, cy as int),
            !old(grid).at(cx as int, cy as int).is_water,
            forall|x: int, y: int|
                g0.in_bounds(x, y) ==> river_cell_ok(g0, *old(grid), x, y),
            spec_downhill_path(g0, path),
            spec_is_source(g0, path[0].0, path[0].1),
            path[path.len() - 1] == (cx as int, cy as int),
        ensures
            final(grid).wf(),
            final(grid).spec_width() == old(grid).spec_width(),
            final(grid).spec_height() == old(grid).spec_height(),
            forall|x: int, y: int| g0.in_bounds(x, y) ==> river_cell_ok(g0, *final(grid), x, y),
            forall|x: int, y: int|
                old(grid).in_bounds(x, y) ==> #[trigger] final(grid).at(x, y).elevation == old(
                    grid,
                ).at(x, y).elevation && final(grid).at(x, y).is_water == old(grid).at(
                    x,
                    y,
                ).is_water && final(grid).at(x, y).rainfall == old(grid).at(x, y).rainfall,
            final(grid).at(cx as int, cy as int).has_river,
            forall|x: int, y: int|
                old(grid).in_bounds(x, y) && old(grid).at(x, y).has_river ==> #[trigger] final(grid).at(x, y).has_river,
    {
        let mut c = grid.get(cx, cy);
        c.has_river = true;
        c.biome = BiomeType::River;
        grid.set(cx, cy, c);
        proof {
            assert(spec_fed_by_source(g0, cx as int, cy as int));
            assert forall|x: int, y: int|
                g0.in_bounds(x, y) implies river_cell_ok(g0, *grid, x, y) by {
                assert(river_cell_ok(g0, *old(grid), x, y));
            }
        }
    }

    /// Traces one river downhill from a source, marking cells once the
    /// accumulated flow is large enough, within the visited budget.
    #[verifier::rlimit(100)]
    #[verifier::spinoff_prover]
    fn trace_river(&self, grid: &mut Grid, start_x: usize, start_y: usize, Ghost(g0): Ghost<Grid>)
        requires
            old(grid).wf(),
            g0.wf(),
            g0.spec_width() == old(grid).spec_width(),
            g0.spec_height() == old(grid).spec_height(),
            spec_is_source(g0, start_x as int, start_y as int),
            forall|x: int, y: int|
                g0.in_bounds(x, y) ==> river_cell_ok(g0, *old(grid), x, y),
            forall|x: int, y: int|
                g0.in_bounds(x, y) ==> 0 <= #[trigger] g0.at(x, y).elevation <= ELEV_CAP,
            forall|x: int, y: int|
                g0.in_bounds(x, y) ==> 0 <= #[trigger] g0.at(x, y).rainfall <= RAIN_CAP,
        ensures
            final(grid).wf(),
            final(grid).spec_width() == old(grid).spec_width(),
            final(grid).spec_height() == old(grid).spec_height(),
            forall|x: int, y: int| g0.in_bounds(x, y) ==> river_cell_ok(g0, *final(grid), x, y),
            forall|x: int, y: int|
                old(grid).in_bounds(x, y) && old(grid).at(x, y).has_river ==> #[trigger] final(grid).at(x, y).has_river,
            final(grid).at(start_x as int, start_y as int).has_river,
    {
        let w = grid.width();
        let h = grid.height();
        proof {
            assert(w * h <= MAX_DIM * MAX_DIM) by (nonlinear_arith)
                requires
                    w <= MAX_DIM,
                    h <= MAX_DIM,
            ;
        }
        let mut visited: Vec<bool> = Vec::new();
        let n = w * h;
        let mut i: usize = 0;
        while i < n
            invariant
                visited@.len() == i,
                i <= n,
                forall|k: int| 0 <= k < i ==> !visited@[k],
            decreases n - i,
        {
            visited.push(false);
            i = i + 1;
        }
        let mut visited_count: usize = 0;
        let mut cx = start_x;
        let mut cy = start_y;
        proof {
            grid.lemma_index(start_x as int, start_y as int);
            assert(!visited@[(start_y as int) * (w as int) + (start_x as int)]);
        }
        let ghost mut path: Seq<(int, int)> = seq![(start_x as int, start_y as int)];
        let mut flow: i64 = FLOW_START;
        loop
            invariant
                grid.wf(),
                grid.spec_width() == g0.spec_width(),
                grid.spec_height() == g0.spec_height(),
                w == g0.spec_width(),
                h == g0.spec_height(),
                visited@.len() == w * h,
                visited_count <= TRACE_BUDGET + 1,
                grid.in_bounds(cx as int, cy as int),
                forall|x: int, y: int| g0.in_bounds(x, y) ==> river_cell_ok(g0, *grid, x, y),
                spec_downhill_path(g0, path),
                spec_is_source(g0, path[0].0, path[0].1),
                path[path.len() - 1] == (cx as int, cy as int),
                0 <= flow,
                flow <= FLOW_START + (visited_count as int) * 3600,
                forall|x: int, y: int|
                    old(grid).in_bounds(x, y) && old(grid).at(x, y).has_river ==> #[trigger] grid.at(
                        x,
                        y,
                    ).has_river,
                visited_count == 0 ==> cx == start_x && cy == start_y && flow > FLOW_MIN
                    && !visited@[(start_y as int) * (w as int) + (start_x as int)],
                visited_count > 0 ==> grid.at(start_x as int, start_y as int).has_river,
            decreases TRACE_BUDGET + 1 - visited_count,
        {
            proof {
                grid.lemma_index(cx as int, cy as int);
            }
            let idx = cy * w + cx;
            if visited[idx] {
                break ;
            }
            if visited_count > TRACE_BUDGET {
                break ;
            }
            visited.set(idx, true);
            visited_count = visited_count + 1;
            let mut c = grid.get(cx, cy);
            if c.is_water {
                break ;
            }
            if flow > FLOW_MIN {
                self.mark_river_cell(grid, cx, cy, Ghost(g0), Ghost(path));
            }
            let rain_gain = (((c.rainfall as u64) / 10) as i64);
            let trib = self.count_tributary_flow(grid, cx, cy);
            flow = flow + rain_gain + trib * 200;
            proof {
                lemma_river_frame_elev(g0, *grid);
            }
            let next = self.find_best_flow_direction(grid, cx, cy, flow);
            match next {
                Some(p) => {
                    proof {
                        assert(g0.in_bounds(cx as int, cy as int));
                        assert(g0.in_bounds(p.0 as int, p.1 as int));
                        assert(river_cell_ok(g0, *grid, cx as int, cy as int));
                        assert(river_cell_ok(g0, *grid, p.0 as int, p.1 as int));
                        assert(g0.at(p.0 as int, p.1 as int).elevation < g0.at(
                            cx as int,
                            cy as int,
                        ).elevation);
                        lemma_path_extend(
                            g0,
                            path,
                            (cx as int, cy as int),
                            (p.0 as int, p.1 as int),
                        );
                        path = path.push((p.0 as int, p.1 as int));
                    }
                    cx = p.0;
                    cy = p.1;
                },
                None => {
                    break ;
                },
            }
        }
    }

    /// Marks every river: scans for sources in row-major order and traces
    /// each downhill. Only biome and the river flag change; every marked
    /// cell is land, carries the River biome, and lies on a strictly
    /// descending path from a qualifying source; unmarked cells keep their
    /// biome.
    #[verifier::rlimit(100)]
    #[verifier::spinoff_prover]
    pub fn generate_rivers(&self, grid: &mut Grid)
        requires
            old(grid).wf(),
            forall|x: int, y: int|
                old(grid).in_bounds(x, y) ==> !#[trigger] old(grid).at(x, y).has_river,
            forall|x: int, y: int|
                old(grid).in_bounds(x, y) ==> 0 <= #[trigger] old(grid).at(x, y).elevation
                    <= ELEV_CAP,
            forall|x: int, y: int|
                old(grid).in_bounds(x, y) ==> 0 <= #[trigger] old(grid).at(x, y).rainfall
                    <= RAIN_CAP,
        ensures
            final(grid).wf(),
            final(grid).spec_width() == old(grid).spec_width(),
            final(grid).spec_height() == old(grid).spec_height(),
            forall|x: int, y: int|
                old(grid).in_bounds(x, y) ==> river_cell_ok(*old(grid), *final(grid), x, y),
            forall|x: int, y: int|
                old(grid).in_bounds(x, y) && #[trigger] final(grid).at(x, y).has_river ==> !old(
                    grid,
                ).at(x, y).is_water && final(grid).at(x, y).biome == BiomeType::River
                    && spec_fed_by_source(*old(grid), x, y),
            forall|x: int, y: int|
                old(grid).in_bounds(x, y) && !(#[trigger] final(grid).at(x, y).has_river)
                    ==> final(grid).at(x, y) == old(grid).at(x, y),
            forall|x: int, y: int|
                spec_is_source(*old(grid), x, y) ==> #[trigger] final(grid).at(x, y).has_river
                    && final(grid).at(x, y).biome == BiomeType::River,
    {
        let ghost g0 = *old(grid);
        let sources = self.find_river_sources(grid);
        let mut k: usize = 0;
        while k < sources.len()
            invariant
                grid.wf(),
                grid.spec_width() == g0.spec_width(),
                grid.spec_height() == g0.spec_height(),
                k <= sources@.len(),
                forall|kk: int|
                    0 <= kk < sources@.len() ==> spec_is_source(
                        g0,
                        (#[trigger] sources@[kk]).0 as int,
                        sources@[kk].1 as int,
                    ),
                forall|x: int, y: int| g0.in_bounds(x, y) ==> river_cell_ok(g0, *grid, x, y),
                forall|kk: int|
                    0 <= kk < k ==> #[trigger] grid.at(
                        sources@[kk].0 as int,
                        sources@[kk].1 as int,
                    ).has_river,
            decreases sources@.len() - k,
        {
            let (sx, sy) = sources[k];
            let ghost g_pre = *grid;
            self.trace_river(grid, sx, sy, Ghost(g0));
            proof {
                assert forall|kk: int|
                    0 <= kk < k + 1 implies #[trigger] grid.at(
                    sources@[kk].0 as int,
                    sources@[kk].1 as int,
                ).has_river by {
                    if kk < k {
                        assert(g_pre.at(sources@[kk].0 as int, sources@[kk].1 as int).has_river);
                        assert(g_pre.in_bounds(sources@[kk].0 as int, sources@[kk].1 as int));
                    }
                }
            }
            k = k + 1;
        }
        proof {
            assert forall|x: int, y: int|
                spec_is_source(g0, x, y) implies #[trigger] grid.at(x, y).has_river && grid.at(
                x,
                y,
            ).biome == BiomeType::River by {
                assert(sources@.contains((x as usize, y as usize)));
                let kk = choose|kk: int|
                    0 <= kk < sources@.len() && sources@[kk] == (x as usize, y as usize);
                assert(grid.at(sources@[kk].0 as int, sources@[kk].1 as int).has_river);
                assert(g0.in_bounds(x, y));
                assert(river_cell_ok(g0, *grid, x, y));
            }
            assert forall|x: int, y: int|
                old(grid).in_bounds(x, y) && #[trigger] grid.at(x, y).has_river implies !old(
                grid,
            ).at(x, y).is_water && grid.at(x, y).biome == BiomeType::River && spec_fed_by_source(
                *old(grid),
                x,
                y,
            ) by {
                assert(river_cell_ok(g0, *grid, x, y));
            }
            assert forall|x: int, y: int|
                old(grid).in_bounds(x, y) && !(#[trigger] grid.at(x, y).has_river) implies grid.at(
                x,
                y,
            ) == old(grid).at(x, y) by {
                assert(river_cell_ok(g0, *grid, x, y));
                assert(!old(grid).at(x, y).has_river);
                assert(grid.at(x, y).biome == old(grid).at(x, y).biome);
                assert(grid.at(x, y) == (TerrainCell {
                    biome: old(grid).at(x, y).biome,
                    has_river: old(grid).at(x, y).has_river,
                    ..old(grid).at(x, y)
                }));
            }
        }
    }
}

} // verus!
