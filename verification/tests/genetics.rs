use farmsim::crop::Crop;
use farmsim::crop::SeedData;
use farmsim::crop::Stage;
use farmsim::units::SCALE;

fn seed(species: Crop, q: i64) -> SeedData {
    SeedData { species, richness: q, volume: q }
}

#[test]
fn derive_equal_traits_low_extreme() {
    // quality 0: full hardiness, zero thirst
    let g = seed(Crop::Root, 0).derive();
    assert_eq!(g.max_health, 100 * SCALE as u64);
    assert_eq!(g.thirst, 0);
    let g = seed(Crop::Gourd, 0).derive();
    assert_eq!(g.max_health, 150 * SCALE as u64);
    assert_eq!(g.thirst, 0);
}

#[test]
fn derive_equal_traits_high_extreme() {
    // quality 1: zero hardiness, full thirst
    let g = seed(Crop::Bean, SCALE).derive();
    assert_eq!(g.max_health, 0);
    assert_eq!(g.thirst, 7 * SCALE as u64);
    let g = seed(Crop::Grass, SCALE).derive();
    assert_eq!(g.max_health, 0);
    assert_eq!(g.thirst, 8 * SCALE as u64);
}

#[test]
fn derive_equal_traits_midpoint() {
    // quality one half: hardiness one half, thirst half the base
    let g = seed(Crop::Bean, SCALE / 2).derive();
    assert_eq!(g.max_health, 50 * SCALE as u64);
    assert_eq!(g.thirst, 3_500_000);
}

#[test]
fn derive_midpoint_durations() {
    // at the trait midpoint agility vanishes: every duration is base * 1.5
    let g = seed(Crop::Bean, SCALE / 2).derive();
    assert_eq!(g.seedling_time, 15_000_000);
    assert_eq!(g.fibre_time, 30_000_000);
    assert_eq!(g.fruit_time, 30_000_000);
    assert_eq!(g.spread_time, 30_000_000);
    let g = seed(Crop::Root, SCALE / 2).derive();
    assert_eq!(g.seedling_time, 15_000_000);
    assert_eq!(g.fibre_time, 120_000_000);
}

#[test]
fn derive_extreme_durations() {
    // at the trait extremes agility is a quarter unit: base * 1.25
    let g = seed(Crop::Bean, 0).derive();
    assert_eq!(g.seedling_time, 12_500_000);
    assert_eq!(g.fibre_time, 25_000_000);
    let g = seed(Crop::Bean, SCALE).derive();
    assert_eq!(g.seedling_time, 12_500_000);
}

#[test]
fn derive_clamps_out_of_range_traits() {
    // out-of-range traits are clamped, never rejected
    let wild = SeedData { species: Crop::Gourd, richness: -3 * SCALE, volume: 9 * SCALE };
    let tame = SeedData { species: Crop::Gourd, richness: 0, volume: SCALE };
    assert_eq!(wild.derive(), tame.derive());
}

#[test]
fn crop_construction() {
    let s = seed(Crop::Bean, SCALE / 2);
    let c = s.crop();
    assert!(matches!(c.stage, Stage::Seedling));
    assert_eq!(c.growth, 0);
    assert_eq!(c.health, c.genome_derived.max_health as i64);
    assert_eq!(c.genome, s);
    assert_eq!(c.genome_derived, s.derive());
}

#[test]
fn crop_construction_clamps_genome() {
    let s = SeedData { species: Crop::Bean, richness: 2 * SCALE, volume: -1 };
    let c = s.crop();
    assert_eq!(c.genome.richness, SCALE);
    assert_eq!(c.genome.volume, 0);
}
