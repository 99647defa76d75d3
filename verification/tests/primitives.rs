use terragen::biomes::BiomeAssigner;
use terragen::model::{BiomeType, TerrainCell};
use terragen::noise::sample;
use terragen::rng::{lattice, mix4, Rng};

fn cell(elevation: i64, temperature: i64, rainfall: i64) -> TerrainCell {
    TerrainCell {
        elevation,
        temperature,
        rainfall,
        plate_id: 0,
        is_water: false,
        biome: BiomeType::Grassland,
        has_river: false,
    }
}

#[test]
fn classification_decision_order() {
    let assigner = BiomeAssigner::new();
    assert_eq!(assigner.determine_biome(&cell(2_500, 20_000, 5_000)), BiomeType::Mountain);
    assert_eq!(assigner.determine_biome(&cell(1_600, 4_000, 5_000)), BiomeType::Tundra);
    assert_eq!(assigner.determine_biome(&cell(0, -6_000, 5_000)), BiomeType::Tundra);
    assert_eq!(assigner.determine_biome(&cell(500, 26_000, 1_000)), BiomeType::Desert);
    assert_eq!(assigner.determine_biome(&cell(500, 15_000, 1_000)), BiomeType::Grassland);
    assert_eq!(assigner.determine_biome(&cell(500, 5_000, 1_000)), BiomeType::Tundra);
    assert_eq!(assigner.determine_biome(&cell(500, 23_000, 13_000)), BiomeType::Rainforest);
    assert_eq!(assigner.determine_biome(&cell(500, 10_000, 7_000)), BiomeType::Forest);
    assert_eq!(assigner.determine_biome(&cell(500, 10_000, 4_000)), BiomeType::Grassland);
    assert_eq!(assigner.determine_biome(&cell(500, 16_000, 2_000)), BiomeType::Grassland);
    assert_eq!(assigner.determine_biome(&cell(500, 10_000, 2_000)), BiomeType::Tundra);
}

#[test]
fn mountain_threshold_is_strict() {
    let assigner = BiomeAssigner::new();
    // Exactly at the threshold the cell is not yet a mountain.
    assert_ne!(assigner.determine_biome(&cell(2_000, 20_000, 5_000)), BiomeType::Mountain);
    assert_eq!(assigner.determine_biome(&cell(2_001, 20_000, 5_000)), BiomeType::Mountain);
}

#[test]
fn most_common_biome_picks_majority() {
    let assigner = BiomeAssigner::new();
    let v = vec![
        BiomeType::Forest,
        BiomeType::Grassland,
        BiomeType::Forest,
        BiomeType::Ocean,
        BiomeType::Forest,
    ];
    assert_eq!(assigner.most_common_biome(&v), Some(BiomeType::Forest));
}

#[test]
fn most_common_biome_breaks_ties_by_first_occurrence() {
    let assigner = BiomeAssigner::new();
    let v = vec![BiomeType::Desert, BiomeType::Tundra, BiomeType::Desert, BiomeType::Tundra];
    assert_eq!(assigner.most_common_biome(&v), Some(BiomeType::Desert));
    let w = vec![BiomeType::Tundra, BiomeType::Desert, BiomeType::Desert, BiomeType::Tundra];
    assert_eq!(assigner.most_common_biome(&w), Some(BiomeType::Tundra));
}

#[test]
fn most_common_biome_ignores_ocean() {
    let assigner = BiomeAssigner::new();
    let v = vec![BiomeType::Ocean, BiomeType::Ocean, BiomeType::Ocean];
    assert_eq!(assigner.most_common_biome(&v), None);
    let empty: Vec<BiomeType> = Vec::new();
    assert_eq!(assigner.most_common_biome(&empty), None);
    let w = vec![BiomeType::Ocean, BiomeType::Ocean, BiomeType::Beach];
    assert_eq!(assigner.most_common_biome(&w), Some(BiomeType::Beach));
}

#[test]
fn rng_is_deterministic_per_seed() {
    let mut a = Rng::new(42);
    let mut b = Rng::new(42);
    for _ in 0..16 {
        assert_eq!(a.next_word(), b.next_word());
    }
    let mut c = Rng::new(43);
    let first: Vec<u64> = (0..8).map(|_| a.next_word()).collect();
    let other: Vec<u64> = (0..8).map(|_| c.next_word()).collect();
    assert_ne!(first, other);
}

#[test]
fn rng_ranges_are_respected() {
    let mut r = Rng::new(7);
    for _ in 0..200 {
        let v = r.gen_in(-1_500, 1_500);
        assert!(v >= -1_500 && v < 1_500);
    }
    let mut r2 = Rng::new(0);
    for _ in 0..50 {
        let v = r2.gen_in(0, 4);
        assert!(v >= 0 && v < 4);
    }
}

#[test]
fn noise_samples_are_bounded_and_deterministic() {
    for seed in [0u64, 1, 42, u64::MAX] {
        for (x, y) in [(0u64, 0u64), (13, 7), (4_999, 4_999), (250, 0)] {
            for f in [1u64, 30, 50, 80, 100, 200] {
                let a = sample(seed, 1, x, y, f);
                let b = sample(seed, 1, x, y, f);
                assert_eq!(a, b);
                assert!(a >= 0 && a <= 2_000);
            }
        }
    }
}

#[test]
fn noise_varies_with_seed_and_position() {
    let mut distinct = false;
    for x in 0..50u64 {
        if sample(1, 1, x, 0, 30) != sample(2, 1, x, 0, 30) {
            distinct = true;
        }
    }
    assert!(distinct);
}

#[test]
fn lattice_and_mix_are_pure() {
    assert_eq!(lattice(9, 2, 3, 4), lattice(9, 2, 3, 4));
    assert!(lattice(9, 2, 3, 4) >= 0 && lattice(9, 2, 3, 4) <= 2_000);
    assert_eq!(mix4(1, 2, 3, 4), mix4(1, 2, 3, 4));
    assert_ne!(mix4(1, 2, 3, 4), mix4(1, 2, 4, 3));
}
