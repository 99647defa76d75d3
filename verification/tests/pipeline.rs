use terragen::model::{BiomeType, Grid, TerrainData};
use terragen::terrain::TerrainGenerator;

fn cells_equal(a: &Grid, b: &Grid) -> bool {
    if a.width() != b.width() || a.height() != b.height() {
        return false;
    }
    for y in 0..a.height() {
        for x in 0..a.width() {
            if a.get(x, y) != b.get(x, y) {
                return false;
            }
        }
    }
    true
}

fn generate(width: u32, height: u32, wp: u32, seed: u64) -> TerrainData {
    let mut gen = TerrainGenerator::new(width, height, wp, seed);
    gen.generate()
}

#[test]
fn determinism_two_runs_identical() {
    let a = generate(24, 16, 30, 42);
    let b = generate(24, 16, 30, 42);
    assert_eq!(a.width, b.width);
    assert_eq!(a.height, b.height);
    assert_eq!(a.plates, b.plates);
    assert_eq!(a.generation_params.plate_count, b.generation_params.plate_count);
    assert!(cells_equal(&a.cells, &b.cells));
}

#[test]
fn different_seeds_differ() {
    let a = generate(24, 16, 30, 1);
    let b = generate(24, 16, 30, 2);
    assert!(!cells_equal(&a.cells, &b.cells) || a.plates != b.plates);
}

#[test]
fn plate_ownership_is_nearest_center() {
    let data = generate(20, 14, 30, 7);
    let g = &data.cells;
    for y in 0..g.height() {
        for x in 0..g.width() {
            let pid = g.get(x, y).plate_id;
            assert!(pid < data.plates.len());
            let d = |p: &terragen::model::TectonicPlate| {
                let dx = (x as i64) * 1000 - p.center_x;
                let dy = (y as i64) * 1000 - p.center_y;
                dx * dx + dy * dy
            };
            let own = d(&data.plates[pid]);
            for (k, p) in data.plates.iter().enumerate() {
                assert!(own <= d(p), "closer plate exists at ({x},{y})");
                if k < pid {
                    assert!(d(p) > own, "tie not broken by first index at ({x},{y})");
                }
            }
        }
    }
}

#[test]
fn water_and_ocean_coincide() {
    let data = generate(20, 20, 40, 11);
    let g = &data.cells;
    for y in 0..g.height() {
        for x in 0..g.width() {
            let c = g.get(x, y);
            assert_eq!(c.is_water, c.biome == BiomeType::Ocean, "at ({x},{y})");
        }
    }
}

#[test]
fn rainfall_stays_within_bounds() {
    let data = generate(24, 18, 30, 5);
    let g = &data.cells;
    for y in 0..g.height() {
        for x in 0..g.width() {
            let c = g.get(x, y);
            assert!(c.rainfall >= 0 && c.rainfall <= 20_000, "at ({x},{y}): {}", c.rainfall);
        }
    }
}

#[test]
fn river_cells_are_river_biome_on_land() {
    let data = generate(32, 24, 25, 9);
    let g = &data.cells;
    for y in 0..g.height() {
        for x in 0..g.width() {
            let c = g.get(x, y);
            if c.has_river {
                assert!(!c.is_water);
                assert_eq!(c.biome, BiomeType::River);
            }
        }
    }
}

#[test]
fn zero_water_share_floods_nothing() {
    let data = generate(10, 10, 0, 42);
    let g = &data.cells;
    for y in 0..g.height() {
        for x in 0..g.width() {
            let c = g.get(x, y);
            assert!(!c.is_water);
            assert!(c.biome != BiomeType::Ocean);
        }
    }
}

#[test]
fn full_water_share_floods_everything() {
    let data = generate(12, 12, 100, 3);
    let g = &data.cells;
    for y in 0..g.height() {
        for x in 0..g.width() {
            let c = g.get(x, y);
            assert!(c.is_water);
            assert_eq!(c.biome, BiomeType::Ocean);
            assert!(!c.has_river);
        }
    }
}

#[test]
fn parameters_are_echoed() {
    let data = generate(16, 12, 55, 77);
    assert_eq!(data.width, 16);
    assert_eq!(data.height, 12);
    assert_eq!(data.generation_params.water_percentage, 55);
    assert_eq!(data.generation_params.seed, 77);
    assert_eq!(data.generation_params.plate_count, data.plates.len());
    assert!(data.plates.len() >= 6 && data.plates.len() <= 9);
    for (i, p) in data.plates.iter().enumerate() {
        assert_eq!(p.id, i);
    }
}

#[test]
fn degenerate_grids_complete() {
    let a = generate(1, 1, 30, 42);
    assert_eq!(a.cells.width(), 1);
    let b = generate(0, 4, 30, 42);
    assert_eq!(b.cells.width(), 0);
    let c = generate(3, 1, 100, 42);
    assert_eq!(c.cells.height(), 1);
}
