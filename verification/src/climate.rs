//! The climate stage: latitude- and elevation-driven temperature, moisture
//! advection along prevailing winds, convective rainfall, and rain shadows
//! leeward of sharp ridges.

use vstd::math::abs;
use vstd::prelude::*;
use crate::model::{count_water_neighbors, lemma_water_neighbors_eq, spec_water_neighbors, Grid, TerrainCell, ELEV_CAP, RAIN_CAP, TEMP_CEIL, TEMP_FLOOR};

verus! {

/// Temperature lost per full unit of elevation (thousandths of a degree).
pub const LAPSE_RATE: i64 = 6500;

/// Most rainfall one wind transfer can deposit (thousandths).
pub const ADVECT_MAX: i64 = 1000;

/// Latitude of a row in thousandths of the grid height, in `[0, 999]`.
pub open spec fn spec_latitude(y: int, h: int) -> int {
    1000 * y / h
}

/// Distance of a row from the vertical midline, in `[0, 500]` thousandths.
pub open spec fn spec_latitude_factor(y: int, h: int) -> int {
    abs(spec_latitude(y, h) - 500) as int
}

/// The temperature of a cell: a latitude base, cooled by elevation at the
/// lapse rate, floored at `TEMP_FLOOR`.
pub open spec fn spec_temperature(elev: int, y: int, h: int) -> int {
    let base = 30000 - 40 * spec_latitude_factor(y, h);
    let cooled = base - elev * LAPSE_RATE / 1000;
    if cooled < TEMP_FLOOR {
        TEMP_FLOOR as int
    } else {
        cooled
    }
}

/// Rows in the equatorward and poleward bands blow wind toward +x, the mid
/// band toward -x.
pub open spec fn spec_wind_forward(y: int, h: int) -> bool {
    let lat = spec_latitude(y, h);
    !(300 <= lat < 600)
}

/// The moisture one sweep step moves on from a cell whose stored fields
/// come from `c` but whose rainfall at that moment is `rain`: water
/// evaporates with temperature, land re-emits a tenth of its rainfall,
/// and a tenth of that moisture transfers downwind.
pub open spec fn spec_transfer_amount(c: TerrainCell, rain: int) -> int {
    let m = if c.is_water {
        let tf = (c.temperature + 20000) / 50;
        let tfc = if tf < 100 {
            100int
        } else if tf > 1000 {
            1000int
        } else {
            tf
        };
        tfc * 10
    } else {
        rain / 10
    };
    m / 10
}

/// The rainfall cell `i` of row `y` holds after the advection sweep over a
/// dry row. With the wind blowing forward, each cell receives one transfer
/// from its upwind neighbour, whose own rainfall arrived one step earlier,
/// so moisture compounds across the row; against the wind, each cell
/// receives the transfer of its still-dry upwind neighbour.
pub open spec fn spec_advected_rain(g: Grid, y: int, forward: bool, i: int) -> int
    decreases i,
{
    if forward {
        if i <= 0 {
            0
        } else {
            spec_transfer_amount(g.at(i - 1, y), spec_advected_rain(g, y, forward, i - 1))
        }
    } else {
        if i >= g.spec_width() - 1 {
            0
        } else {
            spec_transfer_amount(g.at(i + 1, y), 0)
        }
    }
}

/// The advected rainfall only depends on row `y` and the width, so it
/// transfers between grids that agree on them.
proof fn lemma_advected_rain_eq(g1: Grid, g2: Grid, y: int, forward: bool, i: int)
    requires
        0 <= i < g1.spec_width(),
        g1.spec_width() == g2.spec_width(),
        forall|k: int| 0 <= k < g1.spec_width() ==> #[trigger] g1.at(k, y) == g2.at(k, y),
    ensures
        spec_advected_rain(g1, y, forward, i) == spec_advected_rain(g2, y, forward, i),
    decreases i,
{
    if forward && i > 0 {
        lemma_advected_rain_eq(g1, g2, y, forward, i - 1);
        if 0 <= i - 1 < g1.spec_width() {
            assert(g1.at(i - 1, y) == g2.at(i - 1, y));
        }
    }
    if !forward && i < g1.spec_width() - 1 && 0 <= i + 1 < g1.spec_width() {
        assert(g1.at(i + 1, y) == g2.at(i + 1, y));
    }
}

/// The climate stage only writes temperature and rainfall.
pub open spec fn climate_frame(c0: TerrainCell, c1: TerrainCell) -> bool {
    &&& c1.elevation == c0.elevation
    &&& c1.plate_id == c0.plate_id
    &&& c1.is_water == c0.is_water
    &&& c1.biome == c0.biome
    &&& c1.has_river == c0.has_river
}

/// The rainfall a land cell ends the convective pass with: the old value
/// plus an elevation/temperature term and a convective bonus near warm
/// water, clamped at the ceiling. Water cells keep their rainfall.
pub open spec fn spec_convected_rain(g: Grid, x: int, y: int) -> int {
    let c = g.at(x, y);
    if c.is_water {
        c.rainfall as int
    } else {
        let elev_capped = if c.elevation > 1000 {
            1000int
        } else {
            c.elevation as int
        };
        let ef = 1000 - elev_capped;
        let tf = if 0 < c.temperature < 35000 {
            1000 - abs(c.temperature - 17500) * 1000 / 17500
        } else {
            100int
        };
        let conv = if c.temperature > 25000 {
            (c.temperature - 25000) / 10 * (spec_water_neighbors(g, x, y) * 125) * 3 / 1000
        } else {
            0int
        };
        let r = c.rainfall + ef * tf * 5 / 1000 + conv;
        if r > RAIN_CAP {
            RAIN_CAP as int
        } else {
            r
        }
    }
}

/// Derives temperature and rainfall for a grid whose elevation is populated.
pub struct ClimateSimulator {
    width: u32,
    height: u32,
}

impl ClimateSimulator {
    pub closed spec fn spec_width(self) -> int {
        self.width as int
    }

    pub closed spec fn spec_height(self) -> int {
        self.height as int
    }

    /// Matching dimensions and the elevation bounds every caller upholds.
    pub open spec fn fits(self, g: Grid) -> bool {
        &&& g.wf()
        &&& g.spec_width() == self.spec_width()
        &&& g.spec_height() == self.spec_height()
        &&& forall|x: int, y: int|
            g.in_bounds(x, y) ==> 0 <= #[trigger] g.at(x, y).elevation <= ELEV_CAP
    }

    pub fn new(width: u32, height: u32) -> (s: ClimateSimulator)
        ensures
            s.spec_width() == width,
            s.spec_height() == height,
    {
        ClimateSimulator { width, height }
    }

    /// Runs the climate passes in their documented order: temperature, wind
    /// advection, convective rainfall, rain shadows. Only temperature and
    /// rainfall change; final rainfall respects the documented bounds.
    pub fn simulate(&self, grid: &mut Grid)
        requires
            self.fits(*old(grid)),
            forall|x: int, y: int|
                old(grid).in_bounds(x, y) ==> #[trigger] old(grid).at(x, y).rainfall == 0,
        ensures
            final(grid).wf(),
            final(grid).spec_width() == old(grid).spec_width(),
            final(grid).spec_height() == old(grid).spec_height(),
            forall|x: int, y: int|
                old(grid).in_bounds(x, y) ==> climate_frame(
                    old(grid).at(x, y),
                    #[trigger] final(grid).at(x, y),
                ),
            forall|x: int, y: int|
                old(grid).in_bounds(x, y) ==> #[trigger] final(grid).at(x, y).temperature
                    == spec_temperature(
                    old(grid).at(x, y).elevation as int,
                    y,
                    self.spec_height(),
                ),
            forall|x: int, y: int|
                old(grid).in_bounds(x, y) ==> TEMP_FLOOR <= #[trigger] final(grid).at(x, y).temperature <= TEMP_CEIL,
            forall|x: int, y: int|
                old(grid).in_bounds(x, y) ==> 0 <= #[trigger] final(grid).at(x, y).rainfall
                    <= RAIN_CAP,
    {
        self.calculate_temperature(grid);
        self.simulate_prevailing_winds(grid);
        self.calculate_rainfall(grid);
        self.apply_rain_shadows(grid);
    }

    /// Writes every cell's temperature from its latitude and elevation.
    fn calculate_temperature(&self, grid: &mut Grid)
        requires
            self.fits(*old(grid)),
        ensures
            final(grid).wf(),
            final(grid).spec_width() == old(grid).spec_width(),
            final(grid).spec_height() == old(grid).spec_height(),
            forall|x: int, y: int|
                old(grid).in_bounds(x, y) ==> #[trigger] final(grid).at(x, y) == (TerrainCell {
                    temperature: spec_temperature(
                        old(grid).at(x, y).elevation as int,
                        y,
                        self.spec_height(),
                    ) as i64,
                    ..old(grid).at(x, y)
                }),
            forall|x: int, y: int|
                old(grid).in_bounds(x, y) ==> TEMP_FLOOR <= #[trigger] final(grid).at(x, y).temperature <= TEMP_CEIL,
    {
        let w = grid.width();
        let h = grid.height();
        let mut y: usize = 0;
        while y < h
            invariant
                grid.wf(),
                grid.spec_width() == old(grid).spec_width(),
                grid.spec_height() == old(grid).spec_height(),
                y <= h,
                forall|i: int, j: int|
                    old(grid).in_bounds(i, j) && j < y ==> #[trigger] grid.at(i, j) == (
                    TerrainCell {
                        temperature: spec_temperature(
                            old(grid).at(i, j).elevation as int,
                            j,
                            self.spec_height(),
                        ) as i64,
                        ..old(grid).at(i, j)
                    }),
                forall|i: int, j: int|
                    old(grid).in_bounds(i, j) && j >= y ==> #[trigger] grid.at(i, j) == old(
                        grid,
                    ).at(i, j),
            decreases h - y,
        {
            let mut x: usize = 0;
            while x < w
                invariant
                    grid.wf(),
                    grid.spec_width() == old(grid).spec_width(),
                    grid.spec_height() == old(grid).spec_height(),
                    y < h,
                    x <= w,
                    forall|i: int, j: int|
                        old(grid).in_bounds(i, j) && (j < y || (j == y && i < x))
                            ==> #[trigger] grid.at(i, j) == (TerrainCell {
                            temperature: spec_temperature(
                                old(grid).at(i, j).elevation as int,
                                j,
                                self.spec_height(),
                            ) as i64,
                            ..old(grid).at(i, j)
                        }),
                    forall|i: int, j: int|
                        old(grid).in_bounds(i, j) && (j > y || (j == y && i >= x))
                            ==> #[trigger] grid.at(i, j) == old(grid).at(i, j),
                decreases w - x,
            {
                let mut c = grid.get(x, y);
                let latitude = (1000 * (y as u64)) / (h as u64);
                let lat_factor: i64 = if latitude >= 500 {
                    (latitude - 500) as i64
                } else {
                    (500 - latitude) as i64
                };
                let base = 30000 - 40 * lat_factor;
                let cooling = (((c.elevation as u64) * (LAPSE_RATE as u64)) / 1000) as i64;
                let t = base - cooling;
                c.temperature = if t < TEMP_FLOOR {
                    TEMP_FLOOR
                } else {
                    t
                };
                grid.set(x, y, c);
                x = x + 1;
            }
            y = y + 1;
        }
        proof {
            assert forall|x: int, y: int|
                old(grid).in_bounds(x, y) implies TEMP_FLOOR <= #[trigger] grid.at(
                x,
                y,
            ).temperature <= TEMP_CEIL by {
                lemma_temperature_bounds(
                    old(grid).at(x, y).elevation as int,
                    y,
                    self.spec_height(),
                );
            }
        }
    }

    /// Sweeps each row along its prevailing wind, moving a tenth of each
    /// cell's atmospheric moisture to the next cell downwind. Starting from
    /// dry air, no cell ends above `ADVECT_MAX`.
    fn simulate_prevailing_winds(&self, grid: &mut Grid)
        requires
            self.fits(*old(grid)),
            forall|x: int, y: int|
                old(grid).in_bounds(x, y) ==> #[trigger] old(grid).at(x, y).rainfall == 0,
            forall|x: int, y: int|
                old(grid).in_bounds(x, y) ==> TEMP_FLOOR <= #[trigger] old(
                    grid,
                ).at(x, y).temperature <= TEMP_CEIL,
        ensures
            final(grid).wf(),
            final(grid).spec_width() == old(grid).spec_width(),
            final(grid).spec_height() == old(grid).spec_height(),
            forall|x: int, y: int|
                old(grid).in_bounds(x, y) ==> #[trigger] final(grid).at(x, y) == (TerrainCell {
                    rainfall: final(grid).at(x, y).rainfall,
                    ..old(grid).at(x, y)
                }),
            forall|x: int, y: int|
                old(grid).in_bounds(x, y) ==> 0 <= #[trigger] final(grid).at(x, y).rainfall
                    <= ADVECT_MAX,
            forall|x: int, y: int|
                old(grid).in_bounds(x, y) ==> #[trigger] final(grid).at(x, y).rainfall
                    == spec_advected_rain(
                    *old(grid),
                    y,
                    spec_wind_forward(y, old(grid).spec_height()),
                    x,
                ),
    {
        let w = grid.width();
        let h = grid.height();
        let mut y: usize = 0;
        while y < h
            invariant
                grid.wf(),
                grid.spec_width() == old(grid).spec_width(),
                grid.spec_height() == old(grid).spec_height(),
                y <= h,
                forall|i: int, j: int|
                    old(grid).in_bounds(i, j) && j < y ==> #[trigger] grid.at(i, j) == (
                    TerrainCell { rainfall: grid.at(i, j).rainfall, ..old(grid).at(i, j) }),
                forall|i: int, j: int|
                    old(grid).in_bounds(i, j) && j < y ==> 0 <= #[trigger] grid.at(i, j).rainfall
                        <= ADVECT_MAX,
                forall|i: int, j: int|
                    old(grid).in_bounds(i, j) && j < y ==> #[trigger] grid.at(i, j).rainfall
                        == spec_advected_rain(
                        *old(grid),
                        j,
                        spec_wind_forward(j, old(grid).spec_height()),
                        i,
                    ),
                forall|i: int, j: int|
                    old(grid).in_bounds(i, j) && j >= y ==> #[trigger] grid.at(i, j) == old(
                        grid,
                    ).at(i, j),
            decreases h - y,
        {
            let latitude = (1000 * (y as u64)) / (h as u64);
            let forward = !(300 <= latitude && latitude < 600);
            let ghost g_call = *grid;
            self.advect_row(grid, y, forward);
            proof {
                assert forall|i: int|
                    0 <= i < old(grid).spec_width() implies #[trigger] grid.at(i, y as int).rainfall
                    == spec_advected_rain(
                    *old(grid),
                    y as int,
                    spec_wind_forward(y as int, old(grid).spec_height()),
                    i,
                ) by {
                    lemma_advected_rain_eq(g_call, *old(grid), y as int, forward, i);
                }
            }
            y = y + 1;
        }
    }

    /// One row of wind advection along its prevailing direction; see
    /// `simulate_prevailing_winds`.
    fn advect_row(&self, grid: &mut Grid, y: usize, forward: bool)
        requires
            old(grid).wf(),
            0 <= (y as int) < old(grid).spec_height(),
            forward == spec_wind_forward(y as int, old(grid).spec_height()),
            forall|i: int, j: int|
                old(grid).in_bounds(i, j) ==> TEMP_FLOOR <= #[trigger] old(
                    grid,
                ).at(i, j).temperature <= TEMP_CEIL,
            forall|i: int|
                0 <= i < old(grid).spec_width() ==> #[trigger] old(grid).at(i, y as int).rainfall
                    == 0,
        ensures
            final(grid).wf(),
            final(grid).spec_width() == old(grid).spec_width(),
            final(grid).spec_height() == old(grid).spec_height(),
            forall|i: int, j: int|
                old(grid).in_bounds(i, j) && j != y ==> #[trigger] final(grid).at(i, j) == old(
                    grid,
                ).at(i, j),
            forall|i: int|
                0 <= i < old(grid).spec_width() ==> #[trigger] final(grid).at(i, y as int) == (
                TerrainCell {
                    rainfall: final(grid).at(i, y as int).rainfall,
                    ..old(grid).at(i, y as int)
                }),
            forall|i: int|
                0 <= i < old(grid).spec_width() ==> 0 <= #[trigger] final(grid).at(i, y as int).rainfall <= ADVECT_MAX,
            forall|i: int|
                0 <= i < old(grid).spec_width() ==> #[trigger] final(grid).at(i, y as int).rainfall
                    == spec_advected_rain(*old(grid), y as int, forward, i),
    {
        let w = grid.width();
        let mut x: usize = 0;
        while x < w
            invariant
                grid.wf(),
                grid.spec_width() == old(grid).spec_width(),
                grid.spec_height() == old(grid).spec_height(),
                x <= w,
                forall|i: int, j: int|
                    old(grid).in_bounds(i, j) && j != y ==> #[trigger] grid.at(i, j) == old(
                        grid,
                    ).at(i, j),
                forall|i: int|
                    0 <= i < old(grid).spec_width() ==> #[trigger] grid.at(i, y as int) == (
                    TerrainCell {
                        rainfall: grid.at(i, y as int).rainfall,
                        ..old(grid).at(i, y as int)
                    }),
                forall|i: int|
                    0 <= i < old(grid).spec_width() ==> 0 <= #[trigger] grid.at(
                        i,
                        y as int,
                    ).rainfall <= ADVECT_MAX,
                forward ==> forall|i: int|
                    x < i < old(grid).spec_width() ==> #[trigger] grid.at(i, y as int).rainfall
                        == 0,
                !forward ==> forall|i: int|
                    0 <= i < old(grid).spec_width() && x - 1 <= i ==> #[trigger] grid.at(
                        i,
                        y as int,
                    ).rainfall == 0,
                forward ==> forall|i: int|
                    0 <= i <= x && i < old(grid).spec_width() ==> #[trigger] grid.at(
                        i,
                        y as int,
                    ).rainfall == spec_advected_rain(*old(grid), y as int, forward, i),
                !forward ==> forall|i: int|
                    0 <= i <= x - 2 ==> #[trigger] grid.at(i, y as int).rainfall
                        == spec_advected_rain(*old(grid), y as int, forward, i),
            decreases w - x,
        {
            let c = grid.get(x, y);
            let moisture: i64 = if c.is_water {
                let tf = ((c.temperature + 20000) as u64) / 50;
                let tfc: u64 = if tf < 100 {
                    100
                } else if tf > 1000 {
                    1000
                } else {
                    tf
                };
                (tfc * 10) as i64
            } else {
                (((c.rainfall) as u64) / 10) as i64
            };
            let amount = ((moisture as u64) / 10) as i64;
            if forward {
                if x + 1 < w {
                    let mut t = grid.get(x + 1, y);
                    t.rainfall = t.rainfall + amount;
                    grid.set(x + 1, y, t);
                }
            } else {
                if x > 0 {
                    let mut t = grid.get(x - 1, y);
                    t.rainfall = t.rainfall + amount;
                    grid.set(x - 1, y, t);
                }
            }
            x = x + 1;
        }
    }

    /// Adds convective and elevation/temperature rainfall to each land cell,
    /// clamped at the ceiling; water cells are untouched.
    #[verifier::rlimit(100)]
    fn calculate_rainfall(&self, grid: &mut Grid)
        requires
            self.fits(*old(grid)),
            forall|x: int, y: int|
                old(grid).in_bounds(x, y) ==> 0 <= #[trigger] old(grid).at(x, y).rainfall
                    <= ADVECT_MAX,
            forall|x: int, y: int|
                old(grid).in_bounds(x, y) ==> TEMP_FLOOR <= #[trigger] old(
                    grid,
                ).at(x, y).temperature <= TEMP_CEIL,
        ensures
            final(grid).wf(),
            final(grid).spec_width() == old(grid).spec_width(),
            final(grid).spec_height() == old(grid).spec_height(),
            forall|x: int, y: int|
                old(grid).in_bounds(x, y) ==> #[trigger] final(grid).at(x, y) == (TerrainCell {
                    rainfall: spec_convected_rain(*old(grid), x, y) as i64,
                    ..old(grid).at(x, y)
                }),
            forall|x: int, y: int|
                old(grid).in_bounds(x, y) ==> 0 <= #[trigger] final(grid).at(x, y).rainfall
                    <= RAIN_CAP,
    {
        let w = grid.width();
        let h = grid.height();
        let ghost g0 = *grid;
        let mut y: usize = 0;
        while y < h
            invariant
                grid.wf(),
                grid.spec_width() == old(grid).spec_width(),
                grid.spec_height() == old(grid).spec_height(),
                y <= h,
                forall|i: int, j: int|
                    old(grid).in_bounds(i, j) && j < y ==> #[trigger] grid.at(i, j) == (
                    TerrainCell {
                        rainfall: spec_convected_rain(*old(grid), i, j) as i64,
                        ..old(grid).at(i, j)
                    }),
                forall|i: int, j: int|
                    old(grid).in_bounds(i, j) && j < y ==> 0 <= #[trigger] grid.at(i, j).rainfall
                        <= RAIN_CAP,
                forall|i: int, j: int|
                    old(grid).in_bounds(i, j) && j >= y ==> #[trigger] grid.at(i, j) == old(
                        grid,
                    ).at(i, j),
            decreases h - y,
        {
            let mut x: usize = 0;
            while x < w
                invariant
                    grid.wf(),
                    grid.spec_width() == old(grid).spec_width(),
                    grid.spec_height() == old(grid).spec_height(),
                    y < h,
                    x <= w,
                    forall|i: int, j: int|
                        old(grid).in_bounds(i, j) && (j < y || (j == y && i < x))
                            ==> #[trigger] grid.at(i, j) == (TerrainCell {
                            rainfall: spec_convected_rain(*old(grid), i, j) as i64,
                            ..old(grid).at(i, j)
                        }),
                    forall|i: int, j: int|
                        old(grid).in_bounds(i, j) && (j < y || (j == y && i < x)) ==> 0
                            <= #[trigger] grid.at(i, j).rainfall <= RAIN_CAP,
                    forall|i: int, j: int|
                        old(grid).in_bounds(i, j) && (j > y || (j == y && i >= x))
                            ==> #[trigger] grid.at(i, j) == old(grid).at(i, j),
                decreases w - x,
            {
                // The convective term reads the eight neighbours' water
                // flags of the starting grid; this pass never writes
                // is_water, so reading the current grid is the same.
                let snapshot_count = self.count_nearby_water_of_old(grid, x, y, Ghost(*old(grid)));
                let mut c = grid.get(x, y);
                if !c.is_water {
                    let elev_capped: u64 = if c.elevation > 1000 {
                        1000
                    } else {
                        c.elevation as u64
                    };
                    let ef: u64 = 1000 - elev_capped;
                    let tf: u64 = if 0 < c.temperature && c.temperature < 35000 {
                        let d: u64 = if c.temperature >= 17500 {
                            (c.temperature - 17500) as u64
                        } else {
                            (17500 - c.temperature) as u64
                        };
                        1000 - d * 1000 / 17500
                    } else {
                        100
                    };
                    let conv: u64 = if c.temperature > 25000 {
                        let heat = ((c.temperature - 25000) as u64) / 10;
                        let frac = (snapshot_count as u64) * 125;
                        proof {
                            assert(heat * frac <= 500_000)
                                by (nonlinear_arith)
                                requires
                                    heat <= 500,
                                    frac <= 1000,
                            ;
                        }
                        heat * frac * 3 / 1000
                    } else {
                        0
                    };
                    proof {
                        assert(ef * tf <= 1_000_000)
                            by (nonlinear_arith)
                            requires
                                ef <= 1000,
                                tf <= 1000,
                        ;
                    }
                    let r = c.rainfall + (ef * tf * 5 / 1000) as i64 + conv as i64;
                    c.rainfall = if r > RAIN_CAP {
                        RAIN_CAP
                    } else {
                        r
                    };
                    grid.set(x, y, c);
                }
                x = x + 1;
            }
            y = y + 1;
        }
    }

    /// Counts water neighbours, stated against the pass's starting grid,
    /// whose water flags agree with the current one.
    fn count_nearby_water_of_old(&self, grid: &Grid, x: usize, y: usize, Ghost(g0): Ghost<Grid>)
        -> (n: i64)
        requires
            grid.wf(),
            g0.wf(),
            grid.in_bounds(x as int, y as int),
            g0.spec_width() == grid.spec_width(),
            g0.spec_height() == grid.spec_height(),
            forall|i: int, j: int|
                g0.in_bounds(i, j) ==> #[trigger] grid.at(i, j).is_water == g0.at(i, j).is_water,
        ensures
            n == spec_water_neighbors(g0, x as int, y as int),
            0 <= n <= 8,
    {
        let n = count_water_neighbors(grid, x, y);
        proof {
            lemma_water_neighbors_eq(*grid, g0, x as int, y as int);
        }
        n
    }

    /// Wherever a row's elevation jumps by more than 0.3 units, rainfall on
    /// the next four cells is reduced in proportion to the jump and in
    /// inverse proportion to the distance, floored at zero.
    fn apply_rain_shadows(&self, grid: &mut Grid)
        requires
            self.fits(*old(grid)),
            forall|x: int, y: int|
                old(grid).in_bounds(x, y) ==> 0 <= #[trigger] old(grid).at(x, y).rainfall,
        ensures
            final(grid).wf(),
            final(grid).spec_width() == old(grid).spec_width(),
            final(grid).spec_height() == old(grid).spec_height(),
            forall|x: int, y: int|
                old(grid).in_bounds(x, y) ==> #[trigger] final(grid).at(x, y) == (TerrainCell {
                    rainfall: final(grid).at(x, y).rainfall,
                    ..old(grid).at(x, y)
                }),
            forall|x: int, y: int|
                old(grid).in_bounds(x, y) ==> 0 <= #[trigger] final(grid).at(x, y).rainfall <= old(
                    grid,
                ).at(x, y).rainfall,
    {
        let w = grid.width();
        let h = grid.height();
        let mut y: usize = 0;
        while y < h
            invariant
                grid.wf(),
                grid.spec_width() == old(grid).spec_width(),
                grid.spec_height() == old(grid).spec_height(),
                y <= h,
                forall|i: int, j: int|
                    old(grid).in_bounds(i, j) ==> #[trigger] grid.at(i, j) == (TerrainCell {
                        rainfall: grid.at(i, j).rainfall,
                        ..old(grid).at(i, j)
                    }),
                forall|i: int, j: int|
                    old(grid).in_bounds(i, j) ==> 0 <= #[trigger] grid.at(i, j).rainfall <= old(
                        grid,
                    ).at(i, j).rainfall,
            decreases h - y,
        {
            let mut x: usize = 1;
            while x < w
                invariant
                    grid.wf(),
                    grid.spec_width() == old(grid).spec_width(),
                    grid.spec_height() == old(grid).spec_height(),
                    y < h,
                    1 <= x,
                    forall|i: int, j: int|
                        old(grid).in_bounds(i, j) ==> #[trigger] grid.at(i, j) == (TerrainCell {
                            rainfall: grid.at(i, j).rainfall,
                            ..old(grid).at(i, j)
                        }),
                    forall|i: int, j: int|
                        old(grid).in_bounds(i, j) ==> 0 <= #[trigger] grid.at(i, j).rainfall
                            <= old(grid).at(i, j).rainfall,
                decreases w - x,
            {
                let cur = grid.get(x, y).elevation;
                let prev = grid.get(x - 1, y).elevation;
                if cur > prev + 300 {
                    let shadow = ((cur - prev) as u64) / 2;
                    let mut sx: usize = x + 1;
                    while sx < w && sx < x + 5
                        invariant
                            grid.wf(),
                            grid.spec_width() == old(grid).spec_width(),
                            grid.spec_height() == old(grid).spec_height(),
                            y < h,
                            x + 1 <= sx,
                            forall|i: int, j: int|
                                old(grid).in_bounds(i, j) ==> #[trigger] grid.at(i, j) == (
                                TerrainCell {
                                    rainfall: grid.at(i, j).rainfall,
                                    ..old(grid).at(i, j)
                                }),
                            forall|i: int, j: int|
                                old(grid).in_bounds(i, j) ==> 0 <= #[trigger] grid.at(
                                    i,
                                    j,
                                ).rainfall <= old(grid).at(i, j).rainfall,
                        decreases w - sx,
                    {
                        let reduction = (shadow / ((sx - x) as u64)) as i64;
                        let mut t = grid.get(sx, y);
                        let nr = t.rainfall - reduction;
                        t.rainfall = if nr < 0 {
                            0
                        } else {
                            nr
                        };
                        grid.set(sx, y, t);
                        sx = sx + 1;
                    }
                }
                x = x + 1;
            }
            y = y + 1;
        }
    }
}

/// The derived temperature always lies between the floor and the warmest
/// latitude base.
pub proof fn lemma_temperature_bounds(elev: int, y: int, h: int)
    requires
        0 <= elev,
        0 <= y < h,
    ensures
        TEMP_FLOOR <= spec_temperature(elev, y, h) <= TEMP_CEIL,
{
    assert(0 <= 1000 * y / h <= 999)
        by (nonlinear_arith)
        requires
            0 <= y < h,
    ;
    assert(elev * LAPSE_RATE / 1000 >= 0)
        by (nonlinear_arith)
        requires
            0 <= elev,
    ;
}

} // verus!
