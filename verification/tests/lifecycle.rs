use farmsim::crop::Crop;
use farmsim::crop::CropField;
use farmsim::crop::SeedData;
use farmsim::crop::Stage;
use farmsim::crop::update_crops;
use farmsim::rng::Rng;
use farmsim::units::SCALE;
use farmsim::water::MoistureGrid;

fn seed(species: Crop, q: i64) -> SeedData {
    SeedData { species, richness: q, volume: q }
}

#[test]
fn zero_thirst_grows_a_full_unit_each_day() {
    // a crop that thirsts for nothing is never water-limited, even on a
    // bone-dry tile: one whole growth unit per day, health untouched
    let mut crops = CropField::new();
    let mut water = MoistureGrid::new();
    let mut rng = Rng::new();
    crops.place(10, 10, seed(Crop::Bean, 0));
    let max_health = seed(Crop::Bean, 0).derive().max_health as i64;
    for day in 1..=5 {
        update_crops(&mut crops, &mut water, &mut rng);
        let c = crops.get(10, 10).unwrap();
        assert_eq!(c.growth, day * SCALE);
        assert_eq!(c.health, max_health);
        assert!(matches!(c.stage, Stage::Seedling));
    }
}

#[test]
fn water_limited_growth_is_the_exact_fraction() {
    // available = 20 / 10 = 2 whole units, thirst 3.5: growth advances by
    // floor(available / thirst) in fixed-point steps
    let mut crops = CropField::new();
    let mut water = MoistureGrid::new();
    let mut rng = Rng::new();
    crops.place(10, 10, seed(Crop::Bean, SCALE / 2));
    water.set(10, 10, 20_000_000);
    update_crops(&mut crops, &mut water, &mut rng);
    let c = crops.get(10, 10).unwrap();
    assert_eq!(c.growth, 571_428);
    assert_eq!(c.health, 48_500_000);
    assert_eq!(water.get(10, 10), 18_000_000);
}

#[test]
fn plentiful_water_feeds_a_full_unit_and_clamps_health() {
    let mut crops = CropField::new();
    let mut water = MoistureGrid::new();
    let mut rng = Rng::new();
    crops.place(10, 10, seed(Crop::Bean, SCALE / 2));
    water.set(10, 10, 100_000_000);
    update_crops(&mut crops, &mut water, &mut rng);
    let c = crops.get(10, 10).unwrap();
    assert_eq!(c.growth, SCALE);
    // health would rise past the ceiling and is clamped to it
    assert_eq!(c.health, 50_000_000);
    // the uptake is drawn from the tile
    assert_eq!(water.get(10, 10), 90_000_000);
}

#[test]
fn starvation_kills_on_the_exact_day_and_decay_clears_the_tile() {
    // thirst 3.5 against no water: health 50 runs out during day 15
    let mut crops = CropField::new();
    let mut water = MoistureGrid::new();
    let mut rng = Rng::new();
    crops.place(10, 10, seed(Crop::Bean, SCALE / 2));
    for _ in 1..=14 {
        update_crops(&mut crops, &mut water, &mut rng);
        let c = crops.get(10, 10).unwrap();
        assert!(!matches!(c.stage, Stage::Dead));
    }
    update_crops(&mut crops, &mut water, &mut rng);
    let c = crops.get(10, 10).unwrap();
    assert!(matches!(c.stage, Stage::Dead));
    assert_eq!(c.health, -2_500_000);
    // it never grew, so one day of decay clears the tile
    assert_eq!(c.growth, 0);
    update_crops(&mut crops, &mut water, &mut rng);
    assert!(crops.get(10, 10).is_none());
}

#[test]
fn spreading_fills_all_eight_empty_neighbours() {
    // a well-watered Bean passes its last threshold on day 31, dies there
    // and sows all eight neighbours with bounded mutations of its genome
    let mut crops = CropField::new();
    let mut water = MoistureGrid::new();
    let mut rng = Rng::new();
    let parent = seed(Crop::Bean, SCALE / 2);
    crops.place(10, 10, parent);
    for day in 1..=31 {
        water.set(10, 10, 100_000_000);
        update_crops(&mut crops, &mut water, &mut rng);
        let c = crops.get(10, 10).unwrap();
        if day <= 15 {
            assert!(matches!(c.stage, Stage::Seedling));
        } else if day <= 30 {
            assert!(matches!(c.stage, Stage::FibreGrowth));
        } else {
            assert!(matches!(c.stage, Stage::Dead));
        }
    }
    let dead = crops.get(10, 10).unwrap();
    assert_eq!(dead.growth, 31 * SCALE);
    for di in -1i64..=1 {
        for dj in -1i64..=1 {
            if di == 0 && dj == 0 {
                continue;
            }
            let i = (10 + di) as usize;
            let j = (10 + dj) as usize;
            let child = crops.get(i, j).expect("neighbour was sown");
            assert!(matches!(child.stage, Stage::Seedling));
            assert_eq!(child.growth, 0);
            // the day's pass runs in row-major order, so a child sown into
            // a tile the pass has not reached yet lives its first (dry)
            // day at once and already paid one day of thirst
            let visited_later = di > 0 || (di == 0 && dj > 0);
            if visited_later {
                assert_eq!(
                    child.health,
                    child.genome_derived.max_health as i64 - child.genome_derived.thirst as i64
                );
            } else {
                assert_eq!(child.health, child.genome_derived.max_health as i64);
            }
            assert!(matches!(child.genome.species, Crop::Bean));
            // each trait within a tenth of a unit of the parent's, clamped
            assert!(child.genome.richness >= parent.richness - 100_000);
            assert!(child.genome.richness <= parent.richness + 100_000);
            assert!(child.genome.volume >= parent.volume - 100_000);
            assert!(child.genome.volume <= parent.volume + 100_000);
            assert!(0 <= child.genome.richness && child.genome.richness <= SCALE);
            assert!(0 <= child.genome.volume && child.genome.volume <= SCALE);
            assert_eq!(child.genome_derived, child.genome.derive());
        }
    }
    // nothing else was sown
    for i in 0..32usize {
        for j in 0..32usize {
            let near = (i as i64 - 10).abs() <= 1 && (j as i64 - 10).abs() <= 1;
            if !near {
                assert!(crops.get(i, j).is_none());
            }
        }
    }
}

#[test]
fn spreading_respects_the_two_ring_border() {
    // a parent on the edge of the interior sows only the neighbours that
    // lie inside the two-ring border
    let mut crops = CropField::new();
    let mut water = MoistureGrid::new();
    let mut rng = Rng::new();
    crops.place(2, 2, seed(Crop::Bean, SCALE / 2));
    for _ in 1..=31 {
        water.set(2, 2, 100_000_000);
        update_crops(&mut crops, &mut water, &mut rng);
    }
    assert!(matches!(crops.get(2, 2).unwrap().stage, Stage::Dead));
    // the three eligible neighbours
    assert!(crops.get(3, 2).is_some());
    assert!(crops.get(2, 3).is_some());
    assert!(crops.get(3, 3).is_some());
    // the five that lie in the border rings stay bare
    assert!(crops.get(1, 1).is_none());
    assert!(crops.get(1, 2).is_none());
    assert!(crops.get(1, 3).is_none());
    assert!(crops.get(2, 1).is_none());
    assert!(crops.get(3, 1).is_none());
}

#[test]
fn dead_crop_decays_until_removed() {
    // growth 31 at death, decay 2 per day: gone after 16 days of decay
    let mut crops = CropField::new();
    let mut water = MoistureGrid::new();
    let mut rng = Rng::new();
    crops.place(16, 16, seed(Crop::Bean, SCALE / 2));
    for _ in 1..=31 {
        water.set(16, 16, 100_000_000);
        update_crops(&mut crops, &mut water, &mut rng);
    }
    assert!(matches!(crops.get(16, 16).unwrap().stage, Stage::Dead));
    for day in 1..=15 {
        update_crops(&mut crops, &mut water, &mut rng);
        let c = crops.get(16, 16).expect("still decaying");
        assert_eq!(c.growth, (31 - 2 * day) * SCALE);
    }
    update_crops(&mut crops, &mut water, &mut rng);
    assert!(crops.get(16, 16).is_none());
}
