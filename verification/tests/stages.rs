use terragen::biomes::BiomeAssigner;
use terragen::climate::ClimateSimulator;
use terragen::model::{BiomeType, Grid, PlateType, TectonicPlate};
use terragen::plates::PlateSimulator;
use terragen::rivers::RiverGenerator;
use terragen::terrain::TerrainGenerator;

fn set_cell(g: &mut Grid, x: usize, y: usize, f: impl Fn(&mut terragen::model::TerrainCell)) {
    let mut c = g.get(x, y);
    f(&mut c);
    g.set(x, y, c);
}

#[test]
fn fresh_grid_starts_from_initial_cell() {
    let g = Grid::new(3, 2);
    assert_eq!(g.width(), 3);
    assert_eq!(g.height(), 2);
    for y in 0..2 {
        for x in 0..3 {
            let c = g.get(x, y);
            assert_eq!(c.elevation, 0);
            assert_eq!(c.temperature, 15_000);
            assert_eq!(c.rainfall, 0);
            assert_eq!(c.plate_id, 0);
            assert!(!c.is_water);
            assert_eq!(c.biome, BiomeType::Grassland);
            assert!(!c.has_river);
        }
    }
}

#[test]
fn single_continental_plate_owns_all_cells() {
    let mut g = Grid::new(10, 10);
    let plate = TectonicPlate {
        id: 0,
        center_x: 5_500,
        center_y: 5_500,
        velocity_x: 100,
        velocity_y: -200,
        age: 1_000,
        plate_type: PlateType::Continental,
    };
    let plates = vec![plate];
    let sim = PlateSimulator::new(10, 10, 42);
    sim.assign_plate_ownership(&mut g, &plates);
    for y in 0..10 {
        for x in 0..10 {
            assert_eq!(g.get(x, y).plate_id, 0);
        }
    }
}

#[test]
fn temperature_formula_on_single_cell() {
    let mut g = Grid::new(1, 1);
    let sim = ClimateSimulator::new(1, 1);
    sim.simulate(&mut g);
    let c = g.get(0, 0);
    // Latitude 0/1 gives factor 500; base 30000 - 40 * 500 = 10000; no
    // elevation cooling on a flat cell.
    assert_eq!(c.temperature, 10_000);
    // Elevation factor 1000, temperature factor 572, times five: 2860.
    assert_eq!(c.rainfall, 2_860);
}

#[test]
fn climate_cools_high_ground() {
    let mut g = Grid::new(1, 2);
    set_cell(&mut g, 0, 0, |c| c.elevation = 2_000);
    let sim = ClimateSimulator::new(1, 2);
    sim.simulate(&mut g);
    // Row 0 of 2: latitude 0, factor 500, base 10000; cooling 2 * 6500.
    assert_eq!(g.get(0, 0).temperature, 10_000 - 13_000);
    // Row 1 of 2: latitude 500, factor 0, base 30000.
    assert_eq!(g.get(0, 1).temperature, 30_000);
}

#[test]
fn water_threshold_floods_lowest_half() {
    let mut g = Grid::new(2, 2);
    set_cell(&mut g, 0, 0, |c| c.elevation = 100);
    set_cell(&mut g, 1, 0, |c| c.elevation = 200);
    set_cell(&mut g, 0, 1, |c| c.elevation = 300);
    set_cell(&mut g, 1, 1, |c| c.elevation = 400);
    let gen = TerrainGenerator::new(2, 2, 50, 1);
    gen.assign_water_bodies(&mut g);
    assert!(g.get(0, 0).is_water);
    assert!(g.get(1, 0).is_water);
    assert!(!g.get(0, 1).is_water);
    assert!(!g.get(1, 1).is_water);
    assert_eq!(g.get(0, 0).biome, BiomeType::Ocean);
    assert_eq!(g.get(1, 0).biome, BiomeType::Ocean);
    assert_ne!(g.get(0, 1).biome, BiomeType::Ocean);
}

#[test]
fn water_threshold_handles_equal_elevations() {
    let mut g = Grid::new(2, 2);
    for y in 0..2 {
        for x in 0..2 {
            set_cell(&mut g, x, y, |c| c.elevation = 700);
        }
    }
    let gen = TerrainGenerator::new(2, 2, 25, 1);
    gen.assign_water_bodies(&mut g);
    // The k-th smallest equals every elevation, so all cells flood.
    for y in 0..2 {
        for x in 0..2 {
            assert!(g.get(x, y).is_water);
        }
    }
}

#[test]
fn biome_stage_keeps_river_cells() {
    let mut g = Grid::new(4, 4);
    set_cell(&mut g, 1, 1, |c| {
        c.has_river = true;
        c.biome = BiomeType::River;
        c.rainfall = 10_000;
        c.temperature = 20_000;
    });
    let assigner = BiomeAssigner::new();
    assigner.assign_biomes(&mut g);
    assert_eq!(g.get(1, 1).biome, BiomeType::River);
    assert!(g.get(1, 1).has_river);
}

#[test]
fn biome_stage_maps_water_to_ocean_and_land_off_ocean() {
    let mut g = Grid::new(4, 4);
    set_cell(&mut g, 0, 0, |c| c.is_water = true);
    set_cell(&mut g, 3, 3, |c| c.is_water = true);
    let assigner = BiomeAssigner::new();
    assigner.assign_biomes(&mut g);
    for y in 0..4 {
        for x in 0..4 {
            let c = g.get(x, y);
            assert_eq!(c.is_water, c.biome == BiomeType::Ocean, "at ({x},{y})");
        }
    }
}

#[test]
fn low_coast_next_to_water_becomes_beach() {
    let mut g = Grid::new(3, 3);
    set_cell(&mut g, 0, 1, |c| c.is_water = true);
    // Low, dry, mild land right next to the water.
    set_cell(&mut g, 1, 1, |c| {
        c.elevation = 200;
        c.temperature = 10_000;
        c.rainfall = 2_000;
    });
    let assigner = BiomeAssigner::new();
    assigner.assign_biomes(&mut g);
    assert_eq!(g.get(1, 1).biome, BiomeType::Beach);
}

#[test]
fn warm_wet_coast_becomes_forest() {
    let mut g = Grid::new(3, 3);
    set_cell(&mut g, 0, 1, |c| c.is_water = true);
    set_cell(&mut g, 1, 1, |c| {
        c.elevation = 200;
        c.temperature = 18_000;
        c.rainfall = 9_000;
    });
    let assigner = BiomeAssigner::new();
    assigner.assign_biomes(&mut g);
    assert_eq!(g.get(1, 1).biome, BiomeType::Forest);
}

#[test]
fn rainy_peak_is_selected_as_source_and_traced() {
    let mut g = Grid::new(5, 5);
    set_cell(&mut g, 2, 2, |c| {
        c.elevation = 3_000;
        c.rainfall = 8_000;
    });
    let gen = RiverGenerator::new(5, 5);
    let sources = gen.find_river_sources(&g);
    assert!(sources.contains(&(2, 2)));
    gen.generate_rivers(&mut g);
    let c = g.get(2, 2);
    assert!(c.has_river);
    assert_eq!(c.biome, BiomeType::River);
}

#[test]
fn flat_or_wet_cells_are_not_sources() {
    let mut g = Grid::new(5, 5);
    // High and rainy but not a local maximum: a higher neighbour.
    set_cell(&mut g, 2, 2, |c| {
        c.elevation = 3_000;
        c.rainfall = 8_000;
    });
    set_cell(&mut g, 3, 2, |c| c.elevation = 3_500);
    let gen = RiverGenerator::new(5, 5);
    let sources = gen.find_river_sources(&g);
    assert!(!sources.contains(&(2, 2)));
    // Dry peak: high elevation alone is not enough.
    let mut g2 = Grid::new(5, 5);
    set_cell(&mut g2, 2, 2, |c| c.elevation = 3_000);
    assert!(!gen.find_river_sources(&g2).contains(&(2, 2)));
}

#[test]
fn rivers_never_mark_water_cells() {
    let mut g = Grid::new(6, 6);
    for y in 0..6 {
        for x in 0..6 {
            set_cell(&mut g, x, y, |c| {
                c.is_water = true;
                c.biome = BiomeType::Ocean;
            });
        }
    }
    let gen = RiverGenerator::new(6, 6);
    gen.generate_rivers(&mut g);
    for y in 0..6 {
        for x in 0..6 {
            assert!(!g.get(x, y).has_river);
        }
    }
}
