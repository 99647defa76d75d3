//! The orchestrator: runs the four stages in their fixed order with
//! water-body thresholding between climate and biomes, and hands back the
//! finished `TerrainData`.

use vstd::prelude::*;
use crate::biomes::BiomeAssigner;
use crate::climate::{spec_temperature, ClimateSimulator};
use crate::model::{
    TectonicPlate,
    BiomeType, GenerationParams, Grid, TerrainCell, TerrainData, ELEV_CAP, MAX_DIM, RAIN_CAP,
    TEMP_CEIL, TEMP_FLOOR,
};
use crate::plates::{spec_owner_ok, PlateSimulator, PLATE_ELEV_MAX};
use crate::rivers::{lemma_fed_by_source_transfer, spec_fed_by_source, RiverGenerator};

verus! {

/// How many cells of `s` sit at or below elevation `t`.
pub open spec fn spec_count_le(s: Seq<TerrainCell>, t: i64) -> int
    decreases s.len(),
{
    if s.len() == 0 {
        0
    } else {
        spec_count_le(s.drop_last(), t) + if s.last().elevation <= t {
            1int
        } else {
            0int
        }
    }
}

/// `t` is the `k`-th smallest elevation: it occurs, at least `k` cells sit
/// at or below it, and every occurring elevation strictly below it has
/// fewer than `k` cells at or below it.
pub open spec fn spec_threshold_ok(s: Seq<TerrainCell>, k: int, t: i64) -> bool {
    &&& exists|j: int| 0 <= j < s.len() && (#[trigger] s[j]).elevation == t
    &&& spec_count_le(s, t) >= k
    &&& forall|j: int|
        0 <= j < s.len() && (#[trigger] s[j]).elevation < t ==> spec_count_le(s, s[j].elevation)
            < k
}

/// A count over a sequence never exceeds its length.
proof fn lemma_count_le_len(s: Seq<TerrainCell>, t: i64)
    ensures
        0 <= spec_count_le(s, t) <= s.len(),
    decreases s.len(),
{
    if s.len() > 0 {
        lemma_count_le_len(s.drop_last(), t);
    }
}

/// When every cell sits at or below `t`, the count is the whole length.
proof fn lemma_count_le_all(s: Seq<TerrainCell>, t: i64)
    requires
        forall|j: int| 0 <= j < s.len() ==> (#[trigger] s[j]).elevation <= t,
    ensures
        spec_count_le(s, t) == s.len(),
    decreases s.len(),
{
    if s.len() > 0 {
        lemma_count_le_all(s.drop_last(), t);
    }
}

/// When the count is the whole length, every cell sits at or below `t`.
proof fn lemma_count_le_full(s: Seq<TerrainCell>, t: i64)
    requires
        spec_count_le(s, t) == s.len(),
    ensures
        forall|j: int| 0 <= j < s.len() ==> (#[trigger] s[j]).elevation <= t,
    decreases s.len(),
{
    if s.len() > 0 {
        lemma_count_le_len(s.drop_last(), t);
        lemma_count_le_full(s.drop_last(), t);
        assert forall|j: int| 0 <= j < s.len() implies (#[trigger] s[j]).elevation <= t by {
            if j < s.len() - 1 {
                assert(s.drop_last()[j] == s[j]);
            }
        }
    }
}

/// Sequences that agree on every elevation have equal counts.
proof fn lemma_count_le_congruent(s1: Seq<TerrainCell>, s2: Seq<TerrainCell>, t: i64)
    requires
        s1.len() == s2.len(),
        forall|i: int| 0 <= i < s1.len() ==> (#[trigger] s1[i]).elevation == s2[i].elevation,
    ensures
        spec_count_le(s1, t) == spec_count_le(s2, t),
    decreases s1.len(),
{
    if s1.len() > 0 {
        assert forall|i: int|
            0 <= i < s1.drop_last().len() implies (#[trigger] s1.drop_last()[i]).elevation
            == s2.drop_last()[i].elevation by {
            assert(s1[i].elevation == s2[i].elevation);
        }
        lemma_count_le_congruent(s1.drop_last(), s2.drop_last(), t);
        assert(s1[s1.len() - 1].elevation == s2[s2.len() - 1].elevation);
    }
}

/// Sequences that agree on every elevation have the same thresholds.
proof fn lemma_threshold_ok_congruent(s1: Seq<TerrainCell>, s2: Seq<TerrainCell>, k: int, t: i64)
    requires
        s1.len() == s2.len(),
        forall|i: int| 0 <= i < s1.len() ==> (#[trigger] s1[i]).elevation == s2[i].elevation,
        spec_threshold_ok(s1, k, t),
    ensures
        spec_threshold_ok(s2, k, t),
{
    let j0 = choose|j: int| 0 <= j < s1.len() && (#[trigger] s1[j]).elevation == t;
    assert(s2[j0].elevation == t);
    lemma_count_le_congruent(s1, s2, t);
    assert forall|j: int|
        0 <= j < s2.len() && (#[trigger] s2[j]).elevation < t implies spec_count_le(
        s2,
        s2[j].elevation,
    ) < k by {
        assert(s1[j].elevation == s2[j].elevation);
        lemma_count_le_congruent(s1, s2, s1[j].elevation);
    }
}


/// Chains the five stage contracts into the per-cell guarantees of the
/// finished grid. `ga` is the fresh grid, `gb` after plates, `gc` after
/// climate, `gd` after water bodies, `ge` after biomes, and `gf` after
/// rivers; `k` is the number of cells the water stage floods.
#[verifier::rlimit(100)]
#[verifier::spinoff_prover]
proof fn lemma_pipeline_conclusions(
    ga: Grid,
    gb: Grid,
    gc: Grid,
    gd: Grid,
    ge: Grid,
    gf: Grid,
    plates: Seq<TectonicPlate>,
    wpc: int,
    k: int,
)
    requires
        ga.wf() && gb.wf() && gc.wf() && gd.wf() && ge.wf() && gf.wf(),
        gb.spec_width() == ga.spec_width() && gb.spec_height() == ga.spec_height(),
        gc.spec_width() == ga.spec_width() && gc.spec_height() == ga.spec_height(),
        gd.spec_width() == ga.spec_width() && gd.spec_height() == ga.spec_height(),
        ge.spec_width() == ga.spec_width() && ge.spec_height() == ga.spec_height(),
        gf.spec_width() == ga.spec_width() && gf.spec_height() == ga.spec_height(),
        0 <= wpc <= 100,
        k == wpc * gc.cells@.len() / 100,
        forall|x: int, y: int| ga.in_bounds(x, y) ==> #[trigger] ga.at(x, y) == Grid::initial_cell(),
        forall|x: int, y: int|
            ga.in_bounds(x, y) ==> #[trigger] gb.at(x, y) == (TerrainCell {
                elevation: gb.at(x, y).elevation,
                plate_id: gb.at(x, y).plate_id,
                ..ga.at(x, y)
            }),
        forall|x: int, y: int|
            ga.in_bounds(x, y) ==> spec_owner_ok(plates, x, y, #[trigger] gb.at(x, y).plate_id as int),
        forall|x: int, y: int|
            ga.in_bounds(x, y) ==> 0 <= #[trigger] gb.at(x, y).elevation <= PLATE_ELEV_MAX,
        forall|x: int, y: int|
            ga.in_bounds(x, y) ==> crate::climate::climate_frame(gb.at(x, y), #[trigger] gc.at(x, y)),
        forall|x: int, y: int|
            ga.in_bounds(x, y) ==> #[trigger] gc.at(x, y).temperature == spec_temperature(
                gb.at(x, y).elevation as int,
                y,
                ga.spec_height(),
            ),
        forall|x: int, y: int|
            ga.in_bounds(x, y) ==> TEMP_FLOOR <= #[trigger] gc.at(x, y).temperature <= TEMP_CEIL,
        forall|x: int, y: int|
            ga.in_bounds(x, y) ==> 0 <= #[trigger] gc.at(x, y).rainfall <= RAIN_CAP,
        k == 0 ==> forall|x: int, y: int|
            ga.in_bounds(x, y) ==> #[trigger] gd.at(x, y) == gc.at(x, y),
        k > 0 ==> exists|t: i64|
            #[trigger] spec_threshold_ok(gc.cells@, k, t) && forall|x: int, y: int|
                ga.in_bounds(x, y) ==> #[trigger] gd.at(x, y) == (if gc.at(x, y).elevation <= t {
                    TerrainCell { is_water: true, biome: BiomeType::Ocean, ..gc.at(x, y) }
                } else {
                    gc.at(x, y)
                }),
        forall|x: int, y: int|
            ga.in_bounds(x, y) && #[trigger] gd.at(x, y).is_water ==> gd.at(x, y) == (TerrainCell {
                is_water: true,
                biome: BiomeType::Ocean,
                ..gc.at(x, y)
            }),
        forall|x: int, y: int|
            ga.in_bounds(x, y) && !(#[trigger] gd.at(x, y).is_water) ==> gd.at(x, y) == gc.at(x, y),
        wpc >= 100 && gc.cells@.len() > 0 ==> forall|x: int, y: int|
            ga.in_bounds(x, y) ==> #[trigger] gd.at(x, y).is_water,
        forall|x: int, y: int|
            ga.in_bounds(x, y) ==> #[trigger] ge.at(x, y) == crate::biomes::biome_only(
                gd.at(x, y),
                crate::biomes::spec_assigned_biome(gd, x, y),
            ),
        forall|x: int, y: int|
            ga.in_bounds(x, y) && gd.at(x, y).is_water ==> #[trigger] ge.at(x, y).biome
                == BiomeType::Ocean,
        forall|x: int, y: int|
            ga.in_bounds(x, y) && !gd.at(x, y).is_water && !gd.at(x, y).has_river
                ==> #[trigger] ge.at(x, y).biome != BiomeType::Ocean,
        forall|x: int, y: int|
            ga.in_bounds(x, y) ==> crate::rivers::river_cell_ok(ge, gf, x, y),
        forall|x: int, y: int|
            ga.in_bounds(x, y) && #[trigger] gf.at(x, y).has_river ==> !ge.at(x, y).is_water
                && gf.at(x, y).biome == BiomeType::River && spec_fed_by_source(ge, x, y),
        forall|x: int, y: int|
            ga.in_bounds(x, y) && !(#[trigger] gf.at(x, y).has_river) ==> gf.at(x, y) == ge.at(x, y),
        forall|x: int, y: int|
            crate::rivers::spec_is_source(ge, x, y) ==> #[trigger] gf.at(x, y).has_river
                && gf.at(x, y).biome == BiomeType::River,
    ensures
        forall|x: int, y: int|
            gf.in_bounds(x, y) ==> spec_owner_ok(plates, x, y, #[trigger] gf.at(x, y).plate_id as int),
        forall|x: int, y: int|
            gf.in_bounds(x, y) ==> ((#[trigger] gf.at(x, y).is_water) <==> gf.at(x, y).biome
                == BiomeType::Ocean),
        forall|x: int, y: int|
            gf.in_bounds(x, y) && #[trigger] gf.at(x, y).has_river ==> !gf.at(x, y).is_water
                && gf.at(x, y).biome == BiomeType::River,
        forall|x: int, y: int|
            gf.in_bounds(x, y) && #[trigger] gf.at(x, y).has_river ==> spec_fed_by_source(gf, x, y),
        forall|x: int, y: int|
            gf.in_bounds(x, y) ==> 0 <= #[trigger] gf.at(x, y).rainfall <= RAIN_CAP,
        forall|x: int, y: int|
            gf.in_bounds(x, y) ==> TEMP_FLOOR <= #[trigger] gf.at(x, y).temperature <= TEMP_CEIL,
        forall|x: int, y: int|
            gf.in_bounds(x, y) ==> #[trigger] gf.at(x, y).temperature == spec_temperature(
                gf.at(x, y).elevation as int,
                y,
                gf.spec_height(),
            ),
        forall|x: int, y: int|
            gf.in_bounds(x, y) ==> 0 <= #[trigger] gf.at(x, y).elevation <= PLATE_ELEV_MAX,
        wpc >= 100 ==> forall|x: int, y: int|
            gf.in_bounds(x, y) ==> (#[trigger] gf.at(x, y)).is_water && gf.at(x, y).biome
                == BiomeType::Ocean && !gf.at(x, y).has_river,
        k == 0 ==> forall|x: int, y: int|
            gf.in_bounds(x, y) ==> !(#[trigger] gf.at(x, y)).is_water && gf.at(x, y).biome
                != BiomeType::Ocean,
        k > 0 ==> exists|t: i64|
            #[trigger] spec_threshold_ok(gf.cells@, k, t) && forall|x: int, y: int|
                gf.in_bounds(x, y) ==> ((#[trigger] gf.at(x, y).is_water) <==> gf.at(x, y).elevation
                    <= t),
        forall|x: int, y: int|
            crate::rivers::spec_is_source(gf, x, y) ==> #[trigger] gf.at(x, y).has_river && gf.at(
                x,
                y,
            ).biome == BiomeType::River,
{
    let w = ga.spec_width();
    let h = ga.spec_height();
    assert forall|x: int, y: int| gf.in_bounds(x, y) implies {
        let c = gf.at(x, y);
        &&& spec_owner_ok(plates, x, y, c.plate_id as int)
        &&& (c.is_water <==> c.biome == BiomeType::Ocean)
        &&& (c.has_river ==> !c.is_water && c.biome == BiomeType::River)
        &&& 0 <= c.rainfall <= RAIN_CAP
        &&& TEMP_FLOOR <= c.temperature <= TEMP_CEIL
        &&& c.temperature == spec_temperature(c.elevation as int, y, h)
        &&& 0 <= c.elevation <= PLATE_ELEV_MAX
        &&& c.elevation == gc.at(x, y).elevation
        &&& c.is_water == gd.at(x, y).is_water
        &&& c.rainfall == gc.at(x, y).rainfall
    } by {
        assert(ga.at(x, y) == Grid::initial_cell());
        assert(gb.at(x, y) == (TerrainCell {
            elevation: gb.at(x, y).elevation,
            plate_id: gb.at(x, y).plate_id,
            ..ga.at(x, y)
        }));
        assert(crate::climate::climate_frame(gb.at(x, y), gc.at(x, y)));
        if gd.at(x, y).is_water {
            assert(gd.at(x, y) == (TerrainCell {
                is_water: true,
                biome: BiomeType::Ocean,
                ..gc.at(x, y)
            }));
        } else {
            assert(gd.at(x, y) == gc.at(x, y));
        }
        assert(ge.at(x, y) == crate::biomes::biome_only(
            gd.at(x, y),
            crate::biomes::spec_assigned_biome(gd, x, y),
        ));
        assert(crate::rivers::river_cell_ok(ge, gf, x, y));
    }
    assert forall|x: int, y: int|
        gf.in_bounds(x, y) && #[trigger] gf.at(x, y).has_river implies spec_fed_by_source(
        gf,
        x,
        y,
    ) by {
        assert(crate::rivers::river_cell_ok(ge, gf, x, y));
        assert(spec_fed_by_source(ge, x, y));
        lemma_fed_by_source_transfer(ge, gf, x, y);
    }
    if wpc >= 100 {
        assert forall|x: int, y: int|
            gf.in_bounds(x, y) implies (#[trigger] gf.at(x, y)).is_water by {
            assert(gc.cells@.len() > 0) by (nonlinear_arith)
                requires
                    gc.cells@.len() == gc.spec_width() * gc.spec_height(),
                    0 <= x < gc.spec_width(),
                    0 <= y < gc.spec_height(),
            ;
            assert(gd.at(x, y).is_water);
        }
    }
    if k == 0 {
        assert forall|x: int, y: int|
            gf.in_bounds(x, y) implies !(#[trigger] gf.at(x, y)).is_water by {
            assert(ga.at(x, y) == Grid::initial_cell());
            assert(gb.at(x, y).is_water == ga.at(x, y).is_water);
            assert(crate::climate::climate_frame(gb.at(x, y), gc.at(x, y)));
            assert(gd.at(x, y) == gc.at(x, y));
        }
    }
    if k > 0 {
        let t = choose|t: i64|
            #[trigger] spec_threshold_ok(gc.cells@, k, t) && forall|x: int, y: int|
                ga.in_bounds(x, y) ==> #[trigger] gd.at(x, y) == (if gc.at(x, y).elevation <= t {
                    TerrainCell { is_water: true, biome: BiomeType::Ocean, ..gc.at(x, y) }
                } else {
                    gc.at(x, y)
                });
        assert(gc.cells@.len() == gf.cells@.len());
        assert forall|i: int|
            0 <= i < gc.cells@.len() implies (#[trigger] gc.cells@[i]).elevation
            == gf.cells@[i].elevation by {
            gc.lemma_flat_index(i);
            gf.lemma_flat_index(i);
        }
        lemma_threshold_ok_congruent(gc.cells@, gf.cells@, k, t);
        assert forall|x: int, y: int|
            gf.in_bounds(x, y) implies ((#[trigger] gf.at(x, y).is_water) <==> gf.at(
            x,
            y,
        ).elevation <= t) by {
            assert(gd.at(x, y) == (if gc.at(x, y).elevation <= t {
                TerrainCell { is_water: true, biome: BiomeType::Ocean, ..gc.at(x, y) }
            } else {
                gc.at(x, y)
            }));
            assert(ga.at(x, y) == Grid::initial_cell());
            assert(gb.at(x, y).is_water == ga.at(x, y).is_water);
            assert(crate::climate::climate_frame(gb.at(x, y), gc.at(x, y)));
        }
        assert(spec_threshold_ok(gf.cells@, k, t) && forall|x: int, y: int|
            gf.in_bounds(x, y) ==> ((#[trigger] gf.at(x, y).is_water) <==> gf.at(x, y).elevation
                <= t));
    }
    assert forall|x: int, y: int|
        crate::rivers::spec_is_source(gf, x, y) implies #[trigger] gf.at(x, y).has_river && gf.at(
        x,
        y,
    ).biome == BiomeType::River by {
        assert forall|i: int, j: int|
            gf.in_bounds(i, j) implies #[trigger] ge.at(i, j).elevation == gf.at(i, j).elevation
            && ge.at(i, j).rainfall == gf.at(i, j).rainfall && ge.at(i, j).is_water == gf.at(
            i,
            j,
        ).is_water by {
            assert(crate::rivers::river_cell_ok(ge, gf, i, j));
        }
        crate::rivers::lemma_is_source_transfer(gf, ge, x, y);
    }
}

/// Owns the grid for one run and invokes the stages in order.
pub struct TerrainGenerator {
    width: u32,
    height: u32,
    water_percentage: u32,
    seed: u64,
}

impl TerrainGenerator {
    pub closed spec fn spec_width(self) -> int {
        self.width as int
    }

    pub closed spec fn spec_height(self) -> int {
        self.height as int
    }

    pub closed spec fn spec_water_percentage(self) -> int {
        self.water_percentage as int
    }

    pub closed spec fn spec_seed(self) -> u64 {
        self.seed
    }

    /// The water share actually used, clamped into whole percent.
    pub open spec fn spec_wp_clamped(self) -> int {
        if self.spec_water_percentage() > 100 {
            100
        } else {
            self.spec_water_percentage()
        }
    }

    /// Dimensions small enough for the grid's index arithmetic.
    pub open spec fn wf(self) -> bool {
        &&& 0 <= self.spec_width() <= MAX_DIM
        &&& 0 <= self.spec_height() <= MAX_DIM
    }

    pub fn new(width: u32, height: u32, water_percentage: u32, seed: u64) -> (s: TerrainGenerator)
        requires
            width <= 5000,
            height <= 5000,
        ensures
            s.wf(),
            s.spec_width() == width,
            s.spec_height() == height,
            s.spec_water_percentage() == water_percentage,
            s.spec_seed() == seed,
    {
        TerrainGenerator { width, height, water_percentage, seed }
    }

    /// Counts the cells at or below `t`.
    fn count_le(grid: &Grid, t: i64) -> (n: usize)
        requires
            grid.wf(),
        ensures
            n == spec_count_le(grid.cells@, t),
    {
        let len = grid.cells.len();
        let mut n: usize = 0;
        let mut i: usize = 0;
        while i < len
            invariant
                i <= len,
                len == grid.cells@.len(),
                n <= i,
                grid.wf(),
                n == spec_count_le(grid.cells@.take(i as int), t),
            decreases len - i,
        {
            proof {
                assert(grid.cells@.take(i + 1).drop_last() =~= grid.cells@.take(i as int));
                assert(grid.cells@.take(i + 1).last() == grid.cells@[i as int]);
            }
            if grid.cell_at(i).elevation <= t {
                n = n + 1;
            }
            i = i + 1;
        }
        proof {
            assert(grid.cells@.take(len as int) =~= grid.cells@);
        }
        n
    }

    /// The `k`-th smallest elevation, by scanning candidates.
    fn find_threshold(grid: &Grid, k: usize) -> (t: i64)
        requires
            grid.wf(),
            1 <= k <= grid.cells@.len(),
        ensures
            spec_threshold_ok(grid.cells@, k as int, t),
    {
        let len = grid.cells.len();
        let mut max_v: i64 = grid.cell_at(0).elevation;
        let mut i: usize = 1;
        while i < len
            invariant
                1 <= i <= len,
                len == grid.cells@.len(),
                grid.wf(),
                exists|j: int| 0 <= j < len && (#[trigger] grid.cells@[j]).elevation == max_v,
                forall|j: int| 0 <= j < i ==> (#[trigger] grid.cells@[j]).elevation <= max_v,
            decreases len - i,
        {
            let v = grid.cell_at(i).elevation;
            if v > max_v {
                max_v = v;
            }
            i = i + 1;
        }
        proof {
            lemma_count_le_all(grid.cells@, max_v);
        }
        let mut best: i64 = max_v;
        let mut i: usize = 0;
        while i < len
            invariant
                i <= len,
                len == grid.cells@.len(),
                grid.wf(),
                1 <= k <= len,
                exists|j: int| 0 <= j < len && (#[trigger] grid.cells@[j]).elevation == best,
                spec_count_le(grid.cells@, best) >= k,
                forall|j: int|
                    0 <= j < i && (#[trigger] grid.cells@[j]).elevation < best ==> spec_count_le(
                        grid.cells@,
                        grid.cells@[j].elevation,
                    ) < k,
            decreases len - i,
        {
            let v = grid.cell_at(i).elevation;
            if v < best {
                let cnt = Self::count_le(grid, v);
                if cnt >= k {
                    best = v;
                }
            }
            i = i + 1;
        }
        best
    }

    /// Floods the lowest cells: the `k`-th smallest elevation becomes the
    /// water level, where `k` is the clamped water share of all cells, and
    /// every cell at or below it turns to water with the Ocean biome.
    /// A zero share floods nothing; a full share floods everything.
    pub fn assign_water_bodies(&self, grid: &mut Grid)
        requires
            old(grid).wf(),
            forall|x: int, y: int|
                old(grid).in_bounds(x, y) ==> !#[trigger] old(grid).at(x, y).is_water,
        ensures
            final(grid).wf(),
            final(grid).spec_width() == old(grid).spec_width(),
            final(grid).spec_height() == old(grid).spec_height(),
            self.spec_wp_clamped() * old(grid).cells@.len() / 100 == 0 ==> forall|x: int, y: int|
                old(grid).in_bounds(x, y) ==> #[trigger] final(grid).at(x, y) == old(grid).at(
                    x,
                    y,
                ),
            self.spec_wp_clamped() * old(grid).cells@.len() / 100 > 0 ==> exists|t: i64|
                #[trigger] spec_threshold_ok(
                    old(grid).cells@,
                    self.spec_wp_clamped() * old(grid).cells@.len() / 100,
                    t,
                ) && forall|x: int, y: int|
                    old(grid).in_bounds(x, y) ==> #[trigger] final(grid).at(x, y) == (if old(
                        grid,
                    ).at(x, y).elevation <= t {
                        TerrainCell {
                            is_water: true,
                            biome: BiomeType::Ocean,
                            ..old(grid).at(x, y)
                        }
                    } else {
                        old(grid).at(x, y)
                    }),
            forall|x: int, y: int|
                old(grid).in_bounds(x, y) && #[trigger] final(grid).at(x, y).is_water ==> final(grid).at(x, y) == (TerrainCell {
                    is_water: true,
                    biome: BiomeType::Ocean,
                    ..old(grid).at(x, y)
                }),
            forall|x: int, y: int|
                old(grid).in_bounds(x, y) && !#[trigger] final(grid).at(x, y).is_water ==> final(grid).at(x, y) == old(grid).at(x, y),
            self.spec_wp_clamped() >= 100 && old(grid).cells@.len() > 0 ==> forall|x: int, y: int|
                old(grid).in_bounds(x, y) ==> #[trigger] final(grid).at(x, y).is_water,
    {
        let wpc: u32 = if self.water_percentage > 100 {
            100
        } else {
            self.water_percentage
        };
        let len = grid.cells.len();
        proof {
            let gw = old(grid).spec_width();
            let gh = old(grid).spec_height();
            let gl = old(grid).cells@.len() as int;
            assert(gl <= MAX_DIM * MAX_DIM) by (nonlinear_arith)
                requires
                    gl == gw * gh,
                    0 <= gw <= MAX_DIM,
                    0 <= gh <= MAX_DIM,
            ;
            assert((wpc as int) * gl <= 2_500_000_000) by (nonlinear_arith)
                requires
                    0 <= (wpc as int) <= 100,
                    0 <= gl <= 25_000_000,
            ;
        }
        let k64 = (wpc as u64) * (len as u64) / 100;
        proof {
            assert((wpc as int) * (len as int) / 100 <= len) by (nonlinear_arith)
                requires
                    0 <= (wpc as int) <= 100,
                    0 <= (len as int),
            ;
        }
        let k = k64 as usize;
        if k == 0 {
            return ;
        }
        let t = Self::find_threshold(grid, k);
        proof {
            if wpc >= 100 {
                assert(k == len);
                lemma_count_le_len(old(grid).cells@, t);
                lemma_count_le_full(old(grid).cells@, t);
            }
        }
        let w = grid.width();
        let h = grid.height();
        let mut y: usize = 0;
        while y < h
            invariant
                grid.wf(),
                grid.spec_width() == old(grid).spec_width(),
                grid.spec_height() == old(grid).spec_height(),
                y <= h,
                forall|i: int, j: int|
                    old(grid).in_bounds(i, j) && j < y ==> #[trigger] grid.at(i, j) == (if old(
                        grid,
                    ).at(i, j).elevation <= t {
                        TerrainCell { is_water: true, biome: BiomeType::Ocean, ..old(grid).at(i, j) }
                    } else {
                        old(grid).at(i, j)
                    }),
                forall|i: int, j: int|
                    old(grid).in_bounds(i, j) && j >= y ==> #[trigger] grid.at(i, j) == old(
                        grid,
                    ).at(i, j),
            decreases h - y,
        {
            let mut x: usize = 0;
            while x < w
                invariant
                    grid.wf(),
                    grid.spec_width() == old(grid).spec_width(),
                    grid.spec_height() == old(grid).spec_height(),
                    y < h,
                    x <= w,
                    forall|i: int, j: int|
                        old(grid).in_bounds(i, j) && (j < y || (j == y && i < x))
                            ==> #[trigger] grid.at(i, j) == (if old(grid).at(i, j).elevation <= t {
                            TerrainCell {
                                is_water: true,
                                biome: BiomeType::Ocean,
                                ..old(grid).at(i, j)
                            }
                        } else {
                            old(grid).at(i, j)
                        }),
                    forall|i: int, j: int|
                        old(grid).in_bounds(i, j) && (j > y || (j == y && i >= x))
                            ==> #[trigger] grid.at(i, j) == old(grid).at(i, j),
                decreases w - x,
            {
                let mut c = grid.get(x, y);
                if c.elevation <= t {
                    c.is_water = true;
                    c.biome = BiomeType::Ocean;
                    grid.set(x, y, c);
                }
                x = x + 1;
            }
            y = y + 1;
        }
        proof {
            if self.spec_wp_clamped() >= 100 && old(grid).cells@.len() > 0 {
                assert forall|x: int, y: int|
                    old(grid).in_bounds(x, y) implies #[trigger] grid.at(x, y).is_water by {
                    old(grid).lemma_index(x, y);
                    assert(old(grid).cells@[y * old(grid).spec_width() + x] == old(grid).at(x, y));
                }
            }
        }
    }

    /// Runs the full pipeline in its fixed order: plates, climate, water
    /// bodies, biomes, rivers. The result's grid satisfies the pipeline's
    /// documented invariants: every cell belongs to its nearest plate
    /// centre, water and the Ocean biome coincide, river cells carry the
    /// River biome and are fed by a watershed source, rainfall stays within
    /// its ceiling, and a full (respectively zero) water share floods
    /// everything (respectively nothing).
    #[verifier::rlimit(100)]
    #[verifier::spinoff_prover]
    pub fn generate(&mut self) -> (r: TerrainData)
        requires
            old(self).wf(),
        ensures
            *final(self) == *old(self),
            r.cells.wf(),
            r.width == old(self).spec_width(),
            r.height == old(self).spec_height(),
            r.cells.spec_width() == old(self).spec_width(),
            r.cells.spec_height() == old(self).spec_height(),
            r.generation_params.water_percentage == old(self).spec_water_percentage(),
            r.generation_params.seed == old(self).spec_seed(),
            r.generation_params.plate_count == r.plates@.len(),
            6 <= r.plates@.len() <= 9,
            forall|i: int| 0 <= i < r.plates@.len() ==> (#[trigger] r.plates@[i]).id == i,
            forall|x: int, y: int|
                r.cells.in_bounds(x, y) ==> spec_owner_ok(
                    r.plates@,
                    x,
                    y,
                    #[trigger] r.cells.at(x, y).plate_id as int,
                ),
            forall|x: int, y: int|
                r.cells.in_bounds(x, y) ==> ((#[trigger] r.cells.at(x, y).is_water) <==> r.cells.at(
                    x,
                    y,
                ).biome == BiomeType::Ocean),
            forall|x: int, y: int|
                r.cells.in_bounds(x, y) && #[trigger] r.cells.at(x, y).has_river ==> !r.cells.at(
                    x,
                    y,
                ).is_water && r.cells.at(x, y).biome == BiomeType::River,
            forall|x: int, y: int|
                r.cells.in_bounds(x, y) && #[trigger] r.cells.at(x, y).has_river
                    ==> spec_fed_by_source(r.cells, x, y),
            forall|x: int, y: int|
                r.cells.in_bounds(x, y) ==> 0 <= #[trigger] r.cells.at(x, y).rainfall <= RAIN_CAP,
            forall|x: int, y: int|
                r.cells.in_bounds(x, y) ==> TEMP_FLOOR <= #[trigger] r.cells.at(x, y).temperature
                    <= TEMP_CEIL,
            forall|x: int, y: int|
                r.cells.in_bounds(x, y) ==> 0 <= #[trigger] r.cells.at(x, y).elevation
                    <= PLATE_ELEV_MAX,
            old(self).spec_wp_clamped() >= 100 ==> forall|x: int, y: int|
                r.cells.in_bounds(x, y) ==> (#[trigger] r.cells.at(x, y)).is_water && r.cells.at(
                    x,
                    y,
                ).biome == BiomeType::Ocean && !r.cells.at(x, y).has_river,
            old(self).spec_wp_clamped() == 0 ==> forall|x: int, y: int|
                r.cells.in_bounds(x, y) ==> !(#[trigger] r.cells.at(x, y)).is_water && r.cells.at(
                    x,
                    y,
                ).biome != BiomeType::Ocean,
            forall|x: int, y: int|
                r.cells.in_bounds(x, y) ==> #[trigger] r.cells.at(x, y).temperature
                    == spec_temperature(r.cells.at(x, y).elevation as int, y, r.cells.spec_height()),
            old(self).spec_wp_clamped() * r.cells.cells@.len() / 100 == 0 ==> forall|x: int, y: int|
                r.cells.in_bounds(x, y) ==> !(#[trigger] r.cells.at(x, y)).is_water,
            old(self).spec_wp_clamped() * r.cells.cells@.len() / 100 > 0 ==> exists|t: i64|
                #[trigger] spec_threshold_ok(
                    r.cells.cells@,
                    old(self).spec_wp_clamped() * r.cells.cells@.len() / 100,
                    t,
                ) && forall|x: int, y: int|
                    r.cells.in_bounds(x, y) ==> ((#[trigger] r.cells.at(x, y).is_water)
                        <==> r.cells.at(x, y).elevation <= t),
            forall|x: int, y: int|
                crate::rivers::spec_is_source(r.cells, x, y) ==> #[trigger] r.cells.at(
                    x,
                    y,
                ).has_river && r.cells.at(x, y).biome == BiomeType::River,
    {
        let mut grid = Grid::new(self.width as usize, self.height as usize);
        let ghost g_a = grid;
        let mut plate_sim = PlateSimulator::new(self.width, self.height, self.seed);
        proof {
            assert forall|x: int, y: int|
                grid.in_bounds(x, y) implies #[trigger] grid.at(x, y).elevation == 0 by {
                assert(grid.at(x, y) == Grid::initial_cell());
            }
        }
        let plates = plate_sim.simulate(&mut grid);
        let ghost g_b = grid;
        let climate_sim = ClimateSimulator::new(self.width, self.height);
        proof {
            assert forall|x: int, y: int|
                grid.in_bounds(x, y) implies 0 <= #[trigger] grid.at(x, y).elevation <= ELEV_CAP
                    && grid.at(x, y).rainfall == 0 by {
                assert(g_a.at(x, y) == Grid::initial_cell());
                assert(g_b.at(x, y).rainfall == g_a.at(x, y).rainfall);
            }
        }
        climate_sim.simulate(&mut grid);
        let ghost g_c = grid;
        proof {
            assert forall|x: int, y: int|
                grid.in_bounds(x, y) implies !#[trigger] grid.at(x, y).is_water by {
                assert(g_a.at(x, y) == Grid::initial_cell());
                assert(g_b.at(x, y).is_water == g_a.at(x, y).is_water);
                assert(g_c.at(x, y).is_water == g_b.at(x, y).is_water);
            }
        }
        self.assign_water_bodies(&mut grid);
        let ghost g_d = grid;
        let biome_assigner = BiomeAssigner::new();
        biome_assigner.assign_biomes(&mut grid);
        let ghost g_e = grid;
        proof {
            assert forall|x: int, y: int|
                grid.in_bounds(x, y) implies !#[trigger] grid.at(x, y).has_river && 0 <= grid.at(
                x,
                y,
            ).elevation <= ELEV_CAP && 0 <= grid.at(x, y).rainfall <= RAIN_CAP by {
                assert(g_a.at(x, y) == Grid::initial_cell());
                assert(g_b.at(x, y).has_river == g_a.at(x, y).has_river);
                assert(g_c.at(x, y).has_river == g_b.at(x, y).has_river);
                assert(g_e.at(x, y) == crate::biomes::biome_only(
                    g_d.at(x, y),
                    crate::biomes::spec_assigned_biome(g_d, x, y),
                ));
            }
        }
        let river_gen = RiverGenerator::new(self.width, self.height);
        river_gen.generate_rivers(&mut grid);
        proof {
            let wpc = self.spec_wp_clamped();
            let k = wpc * g_c.cells@.len() / 100;
            assert(g_c.cells@.len() == grid.cells@.len());
            lemma_pipeline_conclusions(g_a, g_b, g_c, g_d, g_e, grid, plates@, wpc, k);
            if k > 0 {
                let t0 = choose|t: i64|
                    #[trigger] spec_threshold_ok(grid.cells@, k, t) && forall|x: int, y: int|
                        grid.in_bounds(x, y) ==> ((#[trigger] grid.at(x, y).is_water) <==> grid.at(
                            x,
                            y,
                        ).elevation <= t);
                assert(spec_threshold_ok(grid.cells@, wpc * grid.cells@.len() / 100, t0)
                    && forall|x: int, y: int|
                        grid.in_bounds(x, y) ==> ((#[trigger] grid.at(x, y).is_water) <==> grid.at(
                            x,
                            y,
                        ).elevation <= t0));
            }
        }
        let plate_count = plates.len();
        TerrainData {
            width: self.width,
            height: self.height,
            cells: grid,
            plates,
            generation_params: GenerationParams {
                water_percentage: self.water_percentage,
                seed: self.seed,
                plate_count,
            },
        }
    }
}

} // verus!
