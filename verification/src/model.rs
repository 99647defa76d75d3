//! The data model: per-cell state, tectonic plates, the grid, and the final
//! output artifact.
//!
//! Elevation, temperature and rainfall are fixed-point values in thousandths
//! (an elevation of `2000` stands for 2.0 height units, a temperature of
//! `15000` for 15 degrees, a rainfall of `20000` for the ceiling of 20).

use vstd::prelude::*;

verus! {

/// Coarse ecological classification of a land or water cell.
#[derive(Clone, Copy, Debug, PartialEq, Eq, Structural)]
pub enum BiomeType {
    Ocean,
    Desert,
    Grassland,
    Forest,
    Tundra,
    Mountain,
    River,
    Beach,
    Rainforest,
}

/// Whether a tectonic plate is oceanic or continental.
#[derive(Clone, Copy, Debug, PartialEq, Eq, Structural)]
pub enum PlateType {
    Oceanic,
    Continental,
}

/// One grid position's full simulated state.
#[derive(Clone, Copy, Debug, PartialEq, Eq, Structural)]
pub struct TerrainCell {
    /// Height in thousandths; 0 is sea level, peaks exceed 2000.
    pub elevation: i64,
    /// Temperature in thousandths of a degree.
    pub temperature: i64,
    /// Accumulated moisture in thousandths, kept within [0, 20000].
    pub rainfall: i64,
    /// Index into the plate list of the owning plate.
    pub plate_id: usize,
    /// Set once by water-body thresholding; never reverts.
    pub is_water: bool,
    pub biome: BiomeType,
    /// Set only by the river stage; such a cell keeps its River biome.
    pub has_river: bool,
}

/// A tectonic region: a fixed center, a velocity that only enters boundary
/// stress, a cosmetic age, and its type. Coordinates and velocities are in
/// thousandths of a grid unit.
#[derive(Clone, Copy, Debug, PartialEq, Eq, Structural)]
pub struct TectonicPlate {
    pub id: usize,
    pub center_x: i64,
    pub center_y: i64,
    pub velocity_x: i64,
    pub velocity_y: i64,
    pub age: i64,
    pub plate_type: PlateType,
}

/// The parameters a run was made with, echoed into the output.
#[derive(Clone, Copy, Debug, PartialEq, Eq, Structural)]
pub struct GenerationParams {
    /// Share of cells to flood, in whole percent, clamped to [0, 100].
    pub water_percentage: u32,
    pub seed: u64,
    pub plate_count: usize,
}

/// Largest accepted grid extent along either axis.
pub const MAX_DIM: usize = 5000;

/// Every elevation the pipeline produces stays far below this bound
/// (thousandths); stages carry it to rule out arithmetic overflow.
pub const ELEV_CAP: i64 = 100_000;

/// The documented rainfall ceiling (thousandths of 20 units).
pub const RAIN_CAP: i64 = 20_000;

/// The temperature floor (thousandths of -20 degrees).
pub const TEMP_FLOOR: i64 = -20_000;

/// No derived temperature exceeds this (thousandths of 30 degrees).
pub const TEMP_CEIL: i64 = 30_000;

/// The rectangular, non-wrapping grid of cells, stored row-major.
pub struct Grid {
    pub width: usize,
    pub height: usize,
    pub cells: Vec<TerrainCell>,
}

impl Grid {
    /// The cell every position starts from: flat grassland at 15 degrees.
    pub open spec fn initial_cell() -> TerrainCell {
        TerrainCell {
            elevation: 0,
            temperature: 15000,
            rainfall: 0,
            plate_id: 0,
            is_water: false,
            biome: BiomeType::Grassland,
            has_river: false,
        }
    }

    /// Well-formedness: the backing vector matches the dimensions and the
    /// dimensions are small enough that index arithmetic cannot overflow.
    pub open spec fn wf(self) -> bool {
        &&& self.cells@.len() == self.width * self.height
        &&& self.width <= MAX_DIM
        &&& self.height <= MAX_DIM
    }

    pub open spec fn spec_width(self) -> int {
        self.width as int
    }

    pub open spec fn spec_height(self) -> int {
        self.height as int
    }

    /// The cell at column `x`, row `y`.
    pub open spec fn at(self, x: int, y: int) -> TerrainCell {
        self.cells@[y * self.width + x]
    }

    /// `(x, y)` lies on the grid.
    pub open spec fn in_bounds(self, x: int, y: int) -> bool {
        0 <= x < self.spec_width() && 0 <= y < self.spec_height()
    }

    pub proof fn lemma_index(self, x: int, y: int)
        requires
            self.wf(),
            self.in_bounds(x, y),
        ensures
            0 <= y * self.spec_width() + x < self.spec_width() * self.spec_height(),
            y * self.spec_width() + x < MAX_DIM * MAX_DIM,
    {
        assert(0 <= y * self.spec_width() + x < self.spec_width() * self.spec_height()
            && y * self.spec_width() + x < MAX_DIM * MAX_DIM)
            by (nonlinear_arith)
            requires
                0 <= x < self.spec_width(),
                0 <= y < self.spec_height(),
                self.spec_width() <= MAX_DIM,
                self.spec_height() <= MAX_DIM,
        ;
    }

    /// A flat row-major index corresponds to one grid position.
    pub proof fn lemma_flat_index(self, i: int)
        requires
            self.wf(),
            0 <= i < self.cells@.len(),
        ensures
            self.in_bounds(i % self.spec_width(), i / self.spec_width()),
            (i / self.spec_width()) * self.spec_width() + (i % self.spec_width()) == i,
            self.cells@[i] == self.at(i % self.spec_width(), i / self.spec_width()),
    {
        let w = self.spec_width();
        let h = self.spec_height();
        assert(w * h > 0);
        assert(w > 0 && h > 0) by (nonlinear_arith)
            requires
                w * h > 0,
                0 <= w,
                0 <= h,
        ;
        let x = i % w;
        let y = i / w;
        vstd::arithmetic::div_mod::lemma_fundamental_div_mod(i, w);
        assert(y < h) by (nonlinear_arith)
            requires
                i == w * y + x,
                0 <= x < w,
                i < w * h,
                0 < w,
                0 < h,
        ;
    }

    /// A fresh grid with every position set to the initial cell.
    pub fn new(width: usize, height: usize) -> (g: Grid)
        requires
            width <= MAX_DIM,
            height <= MAX_DIM,
        ensures
            g.wf(),
            g.spec_width() == width,
            g.spec_height() == height,
            forall|x: int, y: int| g.in_bounds(x, y) ==> g.at(x, y) == Grid::initial_cell(),
    {
        proof {
            assert(width * height <= MAX_DIM * MAX_DIM)
                by (nonlinear_arith)
                requires
                    width <= MAX_DIM,
                    height <= MAX_DIM,
            ;
        }
        let n = width * height;
        let mut cells: Vec<TerrainCell> = Vec::new();
        let mut i: usize = 0;
        while i < n
            invariant
                i <= n,
                n == width * height,
                cells@.len() == i,
                forall|k: int| 0 <= k < i ==> cells@[k] == Grid::initial_cell(),
            decreases n - i,
        {
            cells.push(TerrainCell {
                elevation: 0,
                temperature: 15000,
                rainfall: 0,
                plate_id: 0,
                is_water: false,
                biome: BiomeType::Grassland,
                has_river: false,
            });
            i = i + 1;
        }
        let g = Grid { width, height, cells };
        proof {
            assert forall|x: int, y: int| g.in_bounds(x, y) implies g.at(x, y)
                == Grid::initial_cell() by {
                g.lemma_index(x, y);
            }
        }
        g
    }

    pub fn width(&self) -> (w: usize)
        ensures
            w == self.spec_width(),
    {
        self.width
    }

    pub fn height(&self) -> (h: usize)
        ensures
            h == self.spec_height(),
    {
        self.height
    }

    pub fn get(&self, x: usize, y: usize) -> (c: TerrainCell)
        requires
            self.wf(),
            self.in_bounds(x as int, y as int),
        ensures
            c == self.at(x as int, y as int),
    {
        proof {
            self.lemma_index(x as int, y as int);
        }
        self.cells[y * self.width + x]
    }

    /// The cell at a flat row-major index.
    pub fn cell_at(&self, i: usize) -> (c: TerrainCell)
        requires
            self.wf(),
            i < self.cells@.len(),
        ensures
            c == self.cells@[i as int],
    {
        self.cells[i]
    }

    pub fn set(&mut self, x: usize, y: usize, c: TerrainCell)
        requires
            old(self).wf(),
            old(self).in_bounds(x as int, y as int),
        ensures
            final(self).wf(),
            final(self).spec_width() == old(self).spec_width(),
            final(self).spec_height() == old(self).spec_height(),
            final(self).at(x as int, y as int) == c,
            forall|i: int, j: int|
                old(self).in_bounds(i, j) && (i != x || j != y) ==> final(self).at(i, j) == old(
                    self,
                ).at(i, j),
    {
        proof {
            old(self).lemma_index(x as int, y as int);
        }
        let idx = y * self.width + x;
        self.cells.set(idx, c);
        proof {
            assert forall|i: int, j: int|
                old(self).in_bounds(i, j) && (i != x as int || j != y as int) implies self.at(i, j)
                == old(self).at(i, j) by {
                self.lemma_index(i, j);
                assert(j * self.spec_width() + i != y as int * self.spec_width() + x as int)
                    by (nonlinear_arith)
                    requires
                        0 <= i < self.spec_width(),
                        0 <= (x as int),
                        (x as int) < self.spec_width(),
                        0 <= j,
                        0 <= (y as int),
                        (i != x as int || j != y as int),
                ;
            }
        }
    }
}

/// The final output artifact: the grid, the plate list, and the echoed
/// generation parameters. Immutable once produced.
pub struct TerrainData {
    pub width: u32,
    pub height: u32,
    pub cells: Grid,
    pub plates: Vec<TectonicPlate>,
    pub generation_params: GenerationParams,
}

/// `(x, y)` is on the grid and holds water.
pub open spec fn spec_water_at(g: Grid, x: int, y: int) -> bool {
    g.in_bounds(x, y) && g.at(x, y).is_water
}

/// How many of the eight neighbours of `(x, y)` hold water.
pub open spec fn spec_water_neighbors(g: Grid, x: int, y: int) -> int {
    (if spec_water_at(g, x - 1, y - 1) {
        1int
    } else {
        0int
    }) + (if spec_water_at(g, x, y - 1) {
        1int
    } else {
        0int
    }) + (if spec_water_at(g, x + 1, y - 1) {
        1int
    } else {
        0int
    }) + (if spec_water_at(g, x - 1, y) {
        1int
    } else {
        0int
    }) + (if spec_water_at(g, x + 1, y) {
        1int
    } else {
        0int
    }) + (if spec_water_at(g, x - 1, y + 1) {
        1int
    } else {
        0int
    }) + (if spec_water_at(g, x, y + 1) {
        1int
    } else {
        0int
    }) + (if spec_water_at(g, x + 1, y + 1) {
        1int
    } else {
        0int
    })
}

/// Two grids with the same dimensions and the same water flags agree on
/// every water-neighbour count.
pub proof fn lemma_water_neighbors_eq(g1: Grid, g2: Grid, x: int, y: int)
    requires
        g1.spec_width() == g2.spec_width(),
        g1.spec_height() == g2.spec_height(),
        forall|i: int, j: int|
            g1.in_bounds(i, j) ==> #[trigger] g1.at(i, j).is_water == g2.at(i, j).is_water,
    ensures
        spec_water_neighbors(g1, x, y) == spec_water_neighbors(g2, x, y),
{
    assert(spec_water_at(g1, x - 1, y - 1) == spec_water_at(g2, x - 1, y - 1));
    assert(spec_water_at(g1, x, y - 1) == spec_water_at(g2, x, y - 1));
    assert(spec_water_at(g1, x + 1, y - 1) == spec_water_at(g2, x + 1, y - 1));
    assert(spec_water_at(g1, x - 1, y) == spec_water_at(g2, x - 1, y));
    assert(spec_water_at(g1, x + 1, y) == spec_water_at(g2, x + 1, y));
    assert(spec_water_at(g1, x - 1, y + 1) == spec_water_at(g2, x - 1, y + 1));
    assert(spec_water_at(g1, x, y + 1) == spec_water_at(g2, x, y + 1));
    assert(spec_water_at(g1, x + 1, y + 1) == spec_water_at(g2, x + 1, y + 1));
}

/// Whether `(xi, yi)` is on the grid and holds water.
pub fn water_at(grid: &Grid, xi: i64, yi: i64) -> (r: bool)
    requires
        grid.wf(),
        -2 <= xi,
        xi <= grid.spec_width() + 1,
        -2 <= yi,
        yi <= grid.spec_height() + 1,
    ensures
        r == spec_water_at(*grid, xi as int, yi as int),
{
    if xi >= 0 && yi >= 0 && (xi as usize) < grid.width() && (yi as usize) < grid.height() {
        grid.get(xi as usize, yi as usize).is_water
    } else {
        false
    }
}

/// Counts water cells among the eight neighbours of `(x, y)`.
pub fn count_water_neighbors(grid: &Grid, x: usize, y: usize) -> (n: i64)
    requires
        grid.wf(),
        grid.in_bounds(x as int, y as int),
    ensures
        n == spec_water_neighbors(*grid, x as int, y as int),
        0 <= n <= 8,
{
    let xi = x as i64;
    let yi = y as i64;
    let mut n: i64 = 0;
    if water_at(grid, xi - 1, yi - 1) {
        n = n + 1;
    }
    if water_at(grid, xi, yi - 1) {
        n = n + 1;
    }
    if water_at(grid, xi + 1, yi - 1) {
        n = n + 1;
    }
    if water_at(grid, xi - 1, yi) {
        n = n + 1;
    }
    if water_at(grid, xi + 1, yi) {
        n = n + 1;
    }
    if water_at(grid, xi - 1, yi + 1) {
        n = n + 1;
    }
    if water_at(grid, xi, yi + 1) {
        n = n + 1;
    }
    if water_at(grid, xi + 1, yi + 1) {
        n = n + 1;
    }
    n
}

} // verus!
