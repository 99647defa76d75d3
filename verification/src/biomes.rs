//! The biome stage: base classification from temperature, rainfall and
//! elevation; one synchronous smoothing pass over a pre-smoothing snapshot;
//! and coastal refinement. Water cells are always Ocean, and river cells
//! keep their biome through the whole stage.

use vstd::prelude::*;
use crate::model::{
    count_water_neighbors, lemma_water_neighbors_eq, spec_water_neighbors, BiomeType, Grid,
    TerrainCell,
};

verus! {

/// Land above this elevation classifies as Mountain (thousandths).
pub const MOUNTAIN_ELEV: i64 = 2000;

/// Land above this elevation classifies as Tundra when also cold.
pub const HIGHLAND_ELEV: i64 = 1500;

/// The cold bound that turns highland into Tundra.
pub const HIGHLAND_COLD: i64 = 5000;

/// Below this temperature every land cell is Tundra.
pub const FREEZE_TEMP: i64 = -5000;

/// Rainfall below this is the arid branch.
pub const ARID_RAIN: i64 = 1500;

/// The hot bound of the arid branch (Desert above it).
pub const HOT_TEMP: i64 = 25000;

/// The mild bound of the arid branch (Grassland above it).
pub const WARM_TEMP: i64 = 10000;

/// Rainfall above this with heat gives Rainforest.
pub const RAINFOREST_RAIN: i64 = 12000;

/// The heat bound of the Rainforest branch.
pub const RAINFOREST_TEMP: i64 = 22000;

/// Rainfall above this with mild warmth gives Forest.
pub const FOREST_RAIN: i64 = 6000;

/// The warmth bound of the Forest branch.
pub const FOREST_TEMP: i64 = 5000;

/// Rainfall above this gives Grassland in the moderate branch.
pub const GRASS_RAIN: i64 = 3000;

/// The fallback split between Grassland and Tundra.
pub const MILD_TEMP: i64 = 15000;

/// Low land next to water becomes Beach below this elevation.
pub const BEACH_ELEV: i64 = 300;

/// Coastal refinement applies below this elevation.
pub const COASTAL_ELEV: i64 = 400;

/// Hot and dry coasts reinforce Beach above this temperature.
pub const COASTAL_HOT: i64 = 20000;

/// The dryness bound of the hot coastal branch.
pub const COASTAL_DRY: i64 = 3000;

/// Warm, wet coasts favour coastal Forest above this temperature.
pub const COASTAL_MILD: i64 = 15000;

/// The wetness bound of the coastal Forest branch.
pub const COASTAL_WET: i64 = 8000;

/// The ordered decision tree that classifies one land cell.
pub open spec fn spec_base_biome(c: TerrainCell) -> BiomeType {
    if c.elevation > MOUNTAIN_ELEV {
        BiomeType::Mountain
    } else if c.elevation > HIGHLAND_ELEV && c.temperature < HIGHLAND_COLD {
        BiomeType::Tundra
    } else if c.temperature < FREEZE_TEMP {
        BiomeType::Tundra
    } else if c.rainfall < ARID_RAIN {
        if c.temperature > HOT_TEMP {
            BiomeType::Desert
        } else if c.temperature > WARM_TEMP {
            BiomeType::Grassland
        } else {
            BiomeType::Tundra
        }
    } else if c.rainfall > RAINFOREST_RAIN && c.temperature > RAINFOREST_TEMP {
        BiomeType::Rainforest
    } else if c.rainfall > FOREST_RAIN && c.temperature > FOREST_TEMP {
        BiomeType::Forest
    } else if c.rainfall > GRASS_RAIN {
        BiomeType::Grassland
    } else if c.temperature > MILD_TEMP {
        BiomeType::Grassland
    } else {
        BiomeType::Tundra
    }
}

/// Base classification of any cell: water is Ocean, river cells keep their
/// biome, land goes through the decision tree.
pub open spec fn spec_classified(c: TerrainCell) -> BiomeType {
    if c.is_water {
        BiomeType::Ocean
    } else if c.has_river {
        c.biome
    } else {
        spec_base_biome(c)
    }
}

/// The same cell with only its biome replaced.
pub open spec fn biome_only(c: TerrainCell, b: BiomeType) -> TerrainCell {
    TerrainCell { biome: b, ..c }
}

/// How often `b` occurs in `s`.
pub open spec fn spec_occ(s: Seq<BiomeType>, b: BiomeType) -> int
    decreases s.len(),
{
    if s.len() == 0 {
        0
    } else {
        spec_occ(s.drop_last(), b) + if s.last() == b {
            1int
        } else {
            0int
        }
    }
}

/// How many entries of `s` differ from `cur` and are not Ocean.
pub open spec fn spec_diff_count(s: Seq<BiomeType>, cur: BiomeType) -> int
    decreases s.len(),
{
    if s.len() == 0 {
        0
    } else {
        spec_diff_count(s.drop_last(), cur) + if s.last() != cur && s.last() != BiomeType::Ocean {
            1int
        } else {
            0int
        }
    }
}

/// The scan that picks the most frequent non-Ocean entry, ties going to the
/// entry whose first occurrence comes earliest.
pub open spec fn spec_scan_most(s: Seq<BiomeType>, k: int, best: Option<BiomeType>, bc: int)
    -> Option<BiomeType>
    decreases s.len() - k,
{
    if k < 0 || k >= s.len() {
        best
    } else {
        let b = s[k];
        if b != BiomeType::Ocean && spec_occ(s, b) > bc {
            spec_scan_most(s, k + 1, Some(b), spec_occ(s, b))
        } else {
            spec_scan_most(s, k + 1, best, bc)
        }
    }
}

/// The most frequent non-Ocean entry of `s`, if any.
pub open spec fn spec_most_common(s: Seq<BiomeType>) -> Option<BiomeType> {
    spec_scan_most(s, 0, None, 0)
}

/// The scan accumulator never holds Ocean, so neither does its result.
proof fn lemma_scan_not_ocean(s: Seq<BiomeType>, k: int, best: Option<BiomeType>, bc: int)
    requires
        best != Some(BiomeType::Ocean),
    ensures
        spec_scan_most(s, k, best, bc) != Some(BiomeType::Ocean),
    decreases s.len() - k,
{
    if 0 <= k < s.len() {
        let b = s[k];
        if b != BiomeType::Ocean && spec_occ(s, b) > bc {
            lemma_scan_not_ocean(s, k + 1, Some(b), spec_occ(s, b));
        } else {
            lemma_scan_not_ocean(s, k + 1, best, bc);
        }
    }
}

/// [`spec_most_common`] never answers Ocean.
pub proof fn lemma_most_common_not_ocean(s: Seq<BiomeType>)
    ensures
        spec_most_common(s) != Some(BiomeType::Ocean),
{
    lemma_scan_not_ocean(s, 0, None, 0);
}

/// The eight neighbours of an interior cell, in row-major order.
pub open spec fn spec_nbr_biomes(g: Grid, x: int, y: int) -> Seq<BiomeType> {
    seq![
        g.at(x - 1, y - 1).biome,
        g.at(x, y - 1).biome,
        g.at(x + 1, y - 1).biome,
        g.at(x - 1, y).biome,
        g.at(x + 1, y).biome,
        g.at(x - 1, y + 1).biome,
        g.at(x, y + 1).biome,
        g.at(x + 1, y + 1).biome,
    ]
}


/// What the smoothing pass leaves at `(x, y)`, stated over the grid the
/// pass reads: an interior land, non-river cell with at least four
/// differing non-Ocean neighbours takes the most common non-Ocean
/// neighbour biome; every other cell keeps its biome.
pub open spec fn spec_smooth_choice(gc: Grid, x: int, y: int) -> BiomeType {
    let c = gc.at(x, y);
    if 1 <= x && x < gc.spec_width() - 1 && 1 <= y && y < gc.spec_height() - 1 && !c.is_water
        && !c.has_river {
        let nbrs = spec_nbr_biomes(gc, x, y);
        if spec_diff_count(nbrs, c.biome) >= 4 {
            match spec_most_common(nbrs) {
                Some(b) => if b != BiomeType::Ocean {
                    b
                } else {
                    c.biome
                },
                None => c.biome,
            }
        } else {
            c.biome
        }
    } else {
        c.biome
    }
}

/// The classified biomes of the eight neighbours of an interior cell.
pub open spec fn spec_nbr_classified(g: Grid, x: int, y: int) -> Seq<BiomeType> {
    seq![
        spec_classified(g.at(x - 1, y - 1)),
        spec_classified(g.at(x, y - 1)),
        spec_classified(g.at(x + 1, y - 1)),
        spec_classified(g.at(x - 1, y)),
        spec_classified(g.at(x + 1, y)),
        spec_classified(g.at(x - 1, y + 1)),
        spec_classified(g.at(x, y + 1)),
        spec_classified(g.at(x + 1, y + 1)),
    ]
}

/// The biome of `(x, y)` after base classification and smoothing, as a
/// function of the grid the stage started from.
pub open spec fn spec_smoothed_biome(g: Grid, x: int, y: int) -> BiomeType {
    let c = g.at(x, y);
    let cb = spec_classified(c);
    if 1 <= x && x < g.spec_width() - 1 && 1 <= y && y < g.spec_height() - 1 && !c.is_water
        && !c.has_river {
        let nbrs = spec_nbr_classified(g, x, y);
        if spec_diff_count(nbrs, cb) >= 4 {
            match spec_most_common(nbrs) {
                Some(b) => if b != BiomeType::Ocean {
                    b
                } else {
                    cb
                },
                None => cb,
            }
        } else {
            cb
        }
    } else {
        cb
    }
}

/// What the beach pass leaves at `(x, y)`: low land next to water becomes
/// Beach; river cells and everything else keep their biome.
pub open spec fn spec_beach_choice(g: Grid, x: int, y: int) -> BiomeType {
    let c = g.at(x, y);
    if !c.is_water && !c.has_river && c.elevation < BEACH_ELEV && spec_water_neighbors(g, x, y)
        > 0 {
        BiomeType::Beach
    } else {
        c.biome
    }
}

/// What the coastal pass leaves at `(x, y)`: low land next to water becomes
/// Beach, or coastal Forest where warm and wet.
pub open spec fn spec_coastal_choice(g: Grid, x: int, y: int) -> BiomeType {
    let c = g.at(x, y);
    if !c.is_water && !c.has_river && c.elevation < COASTAL_ELEV && spec_water_neighbors(g, x, y)
        > 0 {
        if c.temperature > COASTAL_HOT && c.rainfall < COASTAL_DRY {
            BiomeType::Beach
        } else if c.temperature > COASTAL_MILD && c.rainfall > COASTAL_WET {
            BiomeType::Forest
        } else {
            BiomeType::Beach
        }
    } else {
        c.biome
    }
}

/// The biome every cell ends the whole stage with, as a function of the
/// grid the stage started from: water is Ocean, river cells keep their
/// biome, low land beside water takes the coastal choice, and all other
/// land takes its smoothed classification.
#[verifier::opaque]
pub open spec fn spec_assigned_biome(g: Grid, x: int, y: int) -> BiomeType {
    let c = g.at(x, y);
    if c.is_water || c.has_river {
        spec_classified(c)
    } else if c.elevation < COASTAL_ELEV && spec_water_neighbors(g, x, y) > 0 {
        if c.temperature > COASTAL_HOT && c.rainfall < COASTAL_DRY {
            BiomeType::Beach
        } else if c.temperature > COASTAL_MILD && c.rainfall > COASTAL_WET {
            BiomeType::Forest
        } else {
            BiomeType::Beach
        }
    } else {
        spec_smoothed_biome(g, x, y)
    }
}

/// River persistence through the biome stage: a land cell already marked
/// as river keeps its biome, whatever classification, smoothing and
/// coastal refinement do around it.
pub proof fn law_river_persistence(g: Grid, x: int, y: int)
    requires
        !g.at(x, y).is_water,
        g.at(x, y).has_river,
    ensures
        spec_assigned_biome(g, x, y) == g.at(x, y).biome,
{
    reveal(spec_assigned_biome);
}

/// The land decision tree never answers Ocean or River.
pub proof fn lemma_base_biome_range(c: TerrainCell)
    ensures
        spec_base_biome(c) != BiomeType::Ocean,
        spec_base_biome(c) != BiomeType::River,
{
}

/// Land above the Mountain threshold always classifies as Mountain.
pub proof fn lemma_mountain_classification(c: TerrainCell)
    requires
        !c.is_water,
        !c.has_river,
        c.elevation > MOUNTAIN_ELEV,
    ensures
        spec_classified(c) == BiomeType::Mountain,
{
}

/// Classifies land cells and refines them; see `spec_assigned_biome` in
/// this module for the exact value every cell ends with.
pub struct BiomeAssigner;

impl BiomeAssigner {
    pub fn new() -> (s: BiomeAssigner) {
        BiomeAssigner
    }

    /// How often `b` occurs in `biomes`.
    fn count_biome(&self, biomes: &Vec<BiomeType>, b: BiomeType) -> (n: usize)
        ensures
            n == spec_occ(biomes@, b),
    {
        let mut n: usize = 0;
        let mut k: usize = 0;
        while k < biomes.len()
            invariant
                k <= biomes@.len(),
                n == spec_occ(biomes@.take(k as int), b),
                n <= k,
            decreases biomes@.len() - k,
        {
            proof {
                assert(biomes@.take(k + 1).drop_last() =~= biomes@.take(k as int));
                assert(biomes@.take(k + 1).last() == biomes@[k as int]);
            }
            if biomes[k] == b {
                n = n + 1;
            }
            k = k + 1;
        }
        proof {
            assert(biomes@.take(biomes@.len() as int) =~= biomes@);
        }
        n
    }

    /// How many entries differ from `cur` and are not Ocean.
    fn count_different(&self, biomes: &Vec<BiomeType>, cur: BiomeType) -> (n: usize)
        ensures
            n == spec_diff_count(biomes@, cur),
    {
        let mut n: usize = 0;
        let mut k: usize = 0;
        while k < biomes.len()
            invariant
                k <= biomes@.len(),
                n == spec_diff_count(biomes@.take(k as int), cur),
                n <= k,
            decreases biomes@.len() - k,
        {
            proof {
                assert(biomes@.take(k + 1).drop_last() =~= biomes@.take(k as int));
                assert(biomes@.take(k + 1).last() == biomes@[k as int]);
            }
            let b = biomes[k];
            if b != cur && !matches!(b, BiomeType::Ocean) {
                n = n + 1;
            }
            k = k + 1;
        }
        proof {
            assert(biomes@.take(biomes@.len() as int) =~= biomes@);
        }
        n
    }

    /// The most frequent non-Ocean entry, ties to the earliest first
    /// occurrence; `None` when every entry is Ocean or the list is empty.
    pub fn most_common_biome(&self, biomes: &Vec<BiomeType>) -> (r: Option<BiomeType>)
        ensures
            r == spec_most_common(biomes@),
            r != Some(BiomeType::Ocean),
    {
        let ghost s = biomes@;
        let mut best: Option<BiomeType> = None;
        let mut best_count: usize = 0;
        let mut k: usize = 0;
        while k < biomes.len()
            invariant
                k <= s.len(),
                s == biomes@,
                spec_most_common(s) == spec_scan_most(s, k as int, best, best_count as int),
                best != Some(BiomeType::Ocean),
            decreases s.len() - k,
        {
            let b = biomes[k];
            if !matches!(b, BiomeType::Ocean) {
                let c = self.count_biome(biomes, b);
                if c > best_count {
                    best = Some(b);
                    best_count = c;
                }
            }
            k = k + 1;
        }
        best
    }

    /// Whether any of the eight neighbours holds water.
    fn is_adjacent_to_water(&self, grid: &Grid, x: usize, y: usize) -> (r: bool)
        requires
            grid.wf(),
            grid.in_bounds(x as int, y as int),
        ensures
            r == (spec_water_neighbors(*grid, x as int, y as int) > 0),
    {
        let n = crate::model::count_water_neighbors(grid, x, y);
        n > 0
    }

    /// The eight neighbours' biomes of an interior cell, row-major.
    fn get_neighbor_biomes(&self, grid: &Grid, x: usize, y: usize) -> (v: Vec<BiomeType>)
        requires
            grid.wf(),
            1 <= (x as int) < grid.spec_width() - 1,
            1 <= (y as int) < grid.spec_height() - 1,
        ensures
            v@ == spec_nbr_biomes(*grid, x as int, y as int),
    {
        let mut v: Vec<BiomeType> = Vec::new();
        v.push(grid.get(x - 1, y - 1).biome);
        v.push(grid.get(x, y - 1).biome);
        v.push(grid.get(x + 1, y - 1).biome);
        v.push(grid.get(x - 1, y).biome);
        v.push(grid.get(x + 1, y).biome);
        v.push(grid.get(x - 1, y + 1).biome);
        v.push(grid.get(x, y + 1).biome);
        v.push(grid.get(x + 1, y + 1).biome);
        proof {
            assert(v@ =~= spec_nbr_biomes(*grid, x as int, y as int));
        }
        v
    }

    /// The ordered decision tree for one land cell.
    pub fn determine_biome(&self, cell: &TerrainCell) -> (b: BiomeType)
        ensures
            b == spec_base_biome(*cell),
    {
        if cell.elevation > MOUNTAIN_ELEV {
            BiomeType::Mountain
        } else if cell.elevation > HIGHLAND_ELEV && cell.temperature < HIGHLAND_COLD {
            BiomeType::Tundra
        } else if cell.temperature < FREEZE_TEMP {
            BiomeType::Tundra
        } else if cell.rainfall < ARID_RAIN {
            if cell.temperature > HOT_TEMP {
                BiomeType::Desert
            } else if cell.temperature > WARM_TEMP {
                BiomeType::Grassland
            } else {
                BiomeType::Tundra
            }
        } else if cell.rainfall > RAINFOREST_RAIN && cell.temperature > RAINFOREST_TEMP {
            BiomeType::Rainforest
        } else if cell.rainfall > FOREST_RAIN && cell.temperature > FOREST_TEMP {
            BiomeType::Forest
        } else if cell.rainfall > GRASS_RAIN {
            BiomeType::Grassland
        } else if cell.temperature > MILD_TEMP {
            BiomeType::Grassland
        } else {
            BiomeType::Tundra
        }
    }

    /// Base classification of every cell.
    fn classify_pass(&self, grid: &mut Grid)
        requires
            old(grid).wf(),
        ensures
            final(grid).wf(),
            final(grid).spec_width() == old(grid).spec_width(),
            final(grid).spec_height() == old(grid).spec_height(),
            forall|x: int, y: int|
                old(grid).in_bounds(x, y) ==> #[trigger] final(grid).at(x, y) == biome_only(
                    old(grid).at(x, y),
                    spec_classified(old(grid).at(x, y)),
                ),
    {
        let w = grid.width();
        let h = grid.height();
        let mut y: usize = 0;
        while y < h
            invariant
                grid.wf(),
                grid.spec_width() == old(grid).spec_width(),
                grid.spec_height() == old(grid).spec_height(),
                y <= h,
                forall|i: int, j: int|
                    old(grid).in_bounds(i, j) && j < y ==> #[trigger] grid.at(i, j) == biome_only(
                        old(grid).at(i, j),
                        spec_classified(old(grid).at(i, j)),
                    ),
                forall|i: int, j: int|
                    old(grid).in_bounds(i, j) && j >= y ==> #[trigger] grid.at(i, j) == old(
                        grid,
                    ).at(i, j),
            decreases h - y,
        {
            let mut x: usize = 0;
            while x < w
                invariant
                    grid.wf(),
                    grid.spec_width() == old(grid).spec_width(),
                    grid.spec_height() == old(grid).spec_height(),
                    y < h,
                    x <= w,
                    forall|i: int, j: int|
                        old(grid).in_bounds(i, j) && (j < y || (j == y && i < x))
                            ==> #[trigger] grid.at(i, j) == biome_only(
                            old(grid).at(i, j),
                            spec_classified(old(grid).at(i, j)),
                        ),
                    forall|i: int, j: int|
                        old(grid).in_bounds(i, j) && (j > y || (j == y && i >= x))
                            ==> #[trigger] grid.at(i, j) == old(grid).at(i, j),
                decreases w - x,
            {
                let mut c = grid.get(x, y);
                if c.is_water {
                    c.biome = BiomeType::Ocean;
                    grid.set(x, y, c);
                } else if !c.has_river {
                    c.biome = self.determine_biome(&c);
                    grid.set(x, y, c);
                }
                x = x + 1;
            }
            y = y + 1;
        }
    }

    /// One synchronous smoothing pass over a pre-smoothing snapshot.
    fn smooth_biome_transitions(&self, grid: &mut Grid)
        requires
            old(grid).wf(),
        ensures
            final(grid).wf(),
            final(grid).spec_width() == old(grid).spec_width(),
            final(grid).spec_height() == old(grid).spec_height(),
            forall|x: int, y: int|
                old(grid).in_bounds(x, y) ==> #[trigger] final(grid).at(x, y) == biome_only(
                    old(grid).at(x, y),
                    spec_smooth_choice(*old(grid), x, y),
                ),
    {
        let w = grid.width();
        let h = grid.height();
        let mut snap: Vec<Vec<BiomeType>> = Vec::new();
        let mut y: usize = 0;
        while y < h
            invariant
                grid.wf(),
                y <= h,
                snap@.len() == y,
                forall|i: int, j: int|
                    old(grid).in_bounds(i, j) ==> #[trigger] grid.at(i, j) == old(grid).at(i, j),
                forall|j: int| 0 <= j < y ==> #[trigger] snap@[j]@.len() == w,
                forall|i: int, j: int|
                    0 <= j < y && 0 <= i < w ==> #[trigger] snap@[j]@[i] == spec_smooth_choice(
                        *old(grid),
                        i,
                        j,
                    ),
            decreases h - y,
        {
            let mut row: Vec<BiomeType> = Vec::new();
            let mut x: usize = 0;
            while x < w
                invariant
                    grid.wf(),
                    y < h,
                    x <= w,
                    row@.len() == x,
                    forall|i: int, j: int|
                        old(grid).in_bounds(i, j) ==> #[trigger] grid.at(i, j) == old(grid).at(
                            i,
                            j,
                        ),
                    forall|i: int|
                        0 <= i < x ==> #[trigger] row@[i] == spec_smooth_choice(*old(grid), i, y as int),
                decreases w - x,
            {
                let c = grid.get(x, y);
                let choice: BiomeType = if x >= 1 && x + 1 < w && y >= 1 && y + 1 < h
                    && !c.is_water && !c.has_river {
                    let nbrs = self.get_neighbor_biomes(grid, x, y);
                    let diff = self.count_different(&nbrs, c.biome);
                    if diff >= 4 {
                        match self.most_common_biome(&nbrs) {
                            Some(b) => if !matches!(b, BiomeType::Ocean) {
                                b
                            } else {
                                c.biome
                            },
                            None => c.biome,
                        }
                    } else {
                        c.biome
                    }
                } else {
                    c.biome
                };
                row.push(choice);
                x = x + 1;
            }
            snap.push(row);
            y = y + 1;
        }
        let mut y: usize = 0;
        while y < h
            invariant
                grid.wf(),
                grid.spec_width() == old(grid).spec_width(),
                grid.spec_height() == old(grid).spec_height(),
                y <= h,
                snap@.len() == h,
                forall|j: int| 0 <= j < h ==> #[trigger] snap@[j]@.len() == w,
                forall|i: int, j: int|
                    0 <= j < h && 0 <= i < w ==> #[trigger] snap@[j]@[i] == spec_smooth_choice(
                        *old(grid),
                        i,
                        j,
                    ),
                forall|i: int, j: int|
                    old(grid).in_bounds(i, j) && j < y ==> #[trigger] grid.at(i, j) == biome_only(
                        old(grid).at(i, j),
                        spec_smooth_choice(*old(grid), i, j),
                    ),
                forall|i: int, j: int|
                    old(grid).in_bounds(i, j) && j >= y ==> #[trigger] grid.at(i, j) == old(
                        grid,
                    ).at(i, j),
            decreases h - y,
        {
            let mut x: usize = 0;
            while x < w
                invariant
                    grid.wf(),
                    grid.spec_width() == old(grid).spec_width(),
                    grid.spec_height() == old(grid).spec_height(),
                    y < h,
                    x <= w,
                    forall|i: int, j: int|
                        old(grid).in_bounds(i, j) && (j < y || (j == y && i < x))
                            ==> #[trigger] grid.at(i, j) == biome_only(
                            old(grid).at(i, j),
                            spec_smooth_choice(*old(grid), i, j),
                        ),
                    forall|i: int, j: int|
                        old(grid).in_bounds(i, j) && (j > y || (j == y && i >= x))
                            ==> #[trigger] grid.at(i, j) == old(grid).at(i, j),
                decreases w - x,
            {
                let mut c = grid.get(x, y);
                if !c.is_water && !c.has_river {
                    let rowref = &snap[y];
                    c.biome = rowref[x];
                    grid.set(x, y, c);
                }
                x = x + 1;
            }
            y = y + 1;
        }
    }

    /// Low land next to water becomes Beach.
    fn add_beaches(&self, grid: &mut Grid)
        requires
            old(grid).wf(),
        ensures
            final(grid).wf(),
            final(grid).spec_width() == old(grid).spec_width(),
            final(grid).spec_height() == old(grid).spec_height(),
            forall|x: int, y: int|
                old(grid).in_bounds(x, y) ==> #[trigger] final(grid).at(x, y) == biome_only(
                    old(grid).at(x, y),
                    spec_beach_choice(*old(grid), x, y),
                ),
    {
        let w = grid.width();
        let h = grid.height();
        let mut y: usize = 0;
        while y < h
            invariant
                grid.wf(),
                grid.spec_width() == old(grid).spec_width(),
                grid.spec_height() == old(grid).spec_height(),
                y <= h,
                forall|i: int, j: int|
                    old(grid).in_bounds(i, j) && j < y ==> #[trigger] grid.at(i, j) == biome_only(
                        old(grid).at(i, j),
                        spec_beach_choice(*old(grid), i, j),
                    ),
                forall|i: int, j: int|
                    old(grid).in_bounds(i, j) && j >= y ==> #[trigger] grid.at(i, j) == old(
                        grid,
                    ).at(i, j),
                forall|i: int, j: int|
                    old(grid).in_bounds(i, j) ==> #[trigger] grid.at(i, j).is_water == old(
                        grid,
                    ).at(i, j).is_water,
            decreases h - y,
        {
            let mut x: usize = 0;
            while x < w
                invariant
                    grid.wf(),
                    grid.spec_width() == old(grid).spec_width(),
                    grid.spec_height() == old(grid).spec_height(),
                    y < h,
                    x <= w,
                    forall|i: int, j: int|
                        old(grid).in_bounds(i, j) && (j < y || (j == y && i < x))
                            ==> #[trigger] grid.at(i, j) == biome_only(
                            old(grid).at(i, j),
                            spec_beach_choice(*old(grid), i, j),
                        ),
                    forall|i: int, j: int|
                        old(grid).in_bounds(i, j) && (j > y || (j == y && i >= x))
                            ==> #[trigger] grid.at(i, j) == old(grid).at(i, j),
                    forall|i: int, j: int|
                        old(grid).in_bounds(i, j) ==> #[trigger] grid.at(i, j).is_water == old(
                            grid,
                        ).at(i, j).is_water,
                decreases w - x,
            {
                let mut c = grid.get(x, y);
                if !c.is_water && !c.has_river && c.elevation < BEACH_ELEV {
                    proof {
                        lemma_water_neighbors_eq(*grid, *old(grid), x as int, y as int);
                    }
                    if self.is_adjacent_to_water(grid, x, y) {
                        c.biome = BiomeType::Beach;
                        grid.set(x, y, c);
                    }
                }
                x = x + 1;
            }
            y = y + 1;
        }
    }

    /// Coastal refinement: Beach by default, coastal Forest where warm and
    /// wet; runs after smoothing and the beach pass and may override them.
    fn enhance_coastal_features(&self, grid: &mut Grid)
        requires
            old(grid).wf(),
        ensures
            final(grid).wf(),
            final(grid).spec_width() == old(grid).spec_width(),
            final(grid).spec_height() == old(grid).spec_height(),
            forall|x: int, y: int|
                old(grid).in_bounds(x, y) ==> #[trigger] final(grid).at(x, y) == biome_only(
                    old(grid).at(x, y),
                    spec_coastal_choice(*old(grid), x, y),
                ),
    {
        let w = grid.width();
        let h = grid.height();
        let mut y: usize = 0;
        while y < h
            invariant
                grid.wf(),
                grid.spec_width() == old(grid).spec_width(),
                grid.spec_height() == old(grid).spec_height(),
                y <= h,
                forall|i: int, j: int|
                    old(grid).in_bounds(i, j) && j < y ==> #[trigger] grid.at(i, j) == biome_only(
                        old(grid).at(i, j),
                        spec_coastal_choice(*old(grid), i, j),
                    ),
                forall|i: int, j: int|
                    old(grid).in_bounds(i, j) && j >= y ==> #[trigger] grid.at(i, j) == old(
                        grid,
                    ).at(i, j),
                forall|i: int, j: int|
                    old(grid).in_bounds(i, j) ==> #[trigger] grid.at(i, j).is_water == old(
                        grid,
                    ).at(i, j).is_water,
            decreases h - y,
        {
            let mut x: usize = 0;
            while x < w
                invariant
                    grid.wf(),
                    grid.spec_width() == old(grid).spec_width(),
                    grid.spec_height() == old(grid).spec_height(),
                    y < h,
                    x <= w,
                    forall|i: int, j: int|
                        old(grid).in_bounds(i, j) && (j < y || (j == y && i < x))
                            ==> #[trigger] grid.at(i, j) == biome_only(
                            old(grid).at(i, j),
                            spec_coastal_choice(*old(grid), i, j),
                        ),
                    forall|i: int, j: int|
                        old(grid).in_bounds(i, j) && (j > y || (j == y && i >= x))
                            ==> #[trigger] grid.at(i, j) == old(grid).at(i, j),
                    forall|i: int, j: int|
                        old(grid).in_bounds(i, j) ==> #[trigger] grid.at(i, j).is_water == old(
                            grid,
                        ).at(i, j).is_water,
                decreases w - x,
            {
                let mut c = grid.get(x, y);
                if !c.is_water && !c.has_river && c.elevation < COASTAL_ELEV {
                    proof {
                        lemma_water_neighbors_eq(*grid, *old(grid), x as int, y as int);
                    }
                    if self.is_adjacent_to_water(grid, x, y) {
                        if c.temperature > COASTAL_HOT && c.rainfall < COASTAL_DRY {
                            c.biome = BiomeType::Beach;
                        } else if c.temperature > COASTAL_MILD && c.rainfall > COASTAL_WET {
                            c.biome = BiomeType::Forest;
                        } else {
                            c.biome = BiomeType::Beach;
                        }
                        grid.set(x, y, c);
                    }
                }
                x = x + 1;
            }
            y = y + 1;
        }
    }

    /// Classifies every cell, smooths transitions, and refines coasts.
    /// Every cell ends with exactly `spec_assigned_biome` of the starting
    /// grid; water cells are Ocean, land never is, and river cells keep
    /// their biome untouched.
    #[verifier::rlimit(100)]
    pub fn assign_biomes(&self, grid: &mut Grid)
        requires
            old(grid).wf(),
        ensures
            final(grid).wf(),
            final(grid).spec_width() == old(grid).spec_width(),
            final(grid).spec_height() == old(grid).spec_height(),
            forall|x: int, y: int|
                old(grid).in_bounds(x, y) ==> #[trigger] final(grid).at(x, y) == biome_only(
                    old(grid).at(x, y),
                    spec_assigned_biome(*old(grid), x, y),
                ),
            forall|x: int, y: int|
                old(grid).in_bounds(x, y) && old(grid).at(x, y).is_water ==> #[trigger] final(grid).at(x, y).biome == BiomeType::Ocean,
            forall|x: int, y: int|
                old(grid).in_bounds(x, y) && !old(grid).at(x, y).is_water && !old(grid).at(
                    x,
                    y,
                ).has_river ==> #[trigger] final(grid).at(x, y).biome != BiomeType::Ocean,
            forall|x: int, y: int|
                old(grid).in_bounds(x, y) && !old(grid).at(x, y).is_water && old(grid).at(
                    x,
                    y,
                ).has_river ==> #[trigger] final(grid).at(x, y).biome == old(grid).at(x, y).biome,
    {
        let ghost g0 = *old(grid);
        self.classify_pass(grid);
        let ghost g1 = *grid;
        self.smooth_biome_transitions(grid);
        let ghost g2 = *grid;
        self.add_beaches(grid);
        let ghost g3 = *grid;
        self.enhance_coastal_features(grid);
        proof {
            reveal(spec_assigned_biome);
            assert forall|x: int, y: int| g0.in_bounds(x, y) implies #[trigger] grid.at(x, y)
                == biome_only(g0.at(x, y), spec_assigned_biome(g0, x, y)) by {
                let c0 = g0.at(x, y);
                lemma_smooth_bridge(g0, g1, x, y);
                assert(g2.at(x, y) == biome_only(c0, spec_smoothed_biome(g0, x, y)));
                lemma_water_neighbors_eq(g2, g0, x, y);
                lemma_water_neighbors_eq(g3, g0, x, y);
                if !c0.is_water && !c0.has_river {
                    lemma_smoothed_not_ocean(g0, x, y);
                }
            }
            assert forall|x: int, y: int|
                g0.in_bounds(x, y) && !g0.at(x, y).is_water && !g0.at(x, y).has_river
                implies #[trigger] grid.at(x, y).biome != BiomeType::Ocean by {
                lemma_smoothed_not_ocean(g0, x, y);
            }
        }
    }
}

/// When a grid's biomes are the base classification of a reference
/// grid's cells, smoothing it matches `spec_smoothed_biome` of that
/// reference grid.
proof fn lemma_smooth_bridge(g0: Grid, g1: Grid, x: int, y: int)
    requires
        g0.wf(),
        g1.spec_width() == g0.spec_width(),
        g1.spec_height() == g0.spec_height(),
        g0.in_bounds(x, y),
        forall|i: int, j: int|
            g0.in_bounds(i, j) ==> #[trigger] g1.at(i, j) == biome_only(
                g0.at(i, j),
                spec_classified(g0.at(i, j)),
            ),
    ensures
        spec_smooth_choice(g1, x, y) == spec_smoothed_biome(g0, x, y),
{
    let c0 = g0.at(x, y);
    let c1 = g1.at(x, y);
    assert(c1 == biome_only(c0, spec_classified(c0)));
    if 1 <= x && x < g0.spec_width() - 1 && 1 <= y && y < g0.spec_height() - 1 && !c0.is_water
        && !c0.has_river {
        assert(spec_nbr_biomes(g1, x, y) =~= spec_nbr_classified(g0, x, y));
    }
}

/// For a land, non-river cell outside coastal reach, the smoothed biome is
/// never Ocean.
proof fn lemma_smoothed_not_ocean(g: Grid, x: int, y: int)
    requires
        !g.at(x, y).is_water,
        !g.at(x, y).has_river,
    ensures
        spec_smoothed_biome(g, x, y) != BiomeType::Ocean,
{
    lemma_most_common_not_ocean(spec_nbr_classified(g, x, y));
}

} // verus!
