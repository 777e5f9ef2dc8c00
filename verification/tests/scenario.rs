use farmsim::crop::Crop;
use farmsim::crop::CropField;
use farmsim::crop::SeedData;
use farmsim::crop::Stage;
use farmsim::crop::update_crops;
use farmsim::rng::Rng;
use farmsim::units::SCALE;
use farmsim::water::MoistureGrid;
use farmsim::water::diffuse_water;
use farmsim::water::rain;

fn bean_half() -> SeedData {
    SeedData { species: Crop::Bean, richness: SCALE / 2, volume: SCALE / 2 }
}

fn flood(water: &mut MoistureGrid, v: u64) {
    for i in 0..32 {
        for j in 0..32 {
            water.set(i, j, v);
        }
    }
}

#[test]
fn lone_bean_first_days_exact() {
    // moisture 100 everywhere, no diffusion: the first day is exact
    let mut crops = CropField::new();
    let mut water = MoistureGrid::new();
    let mut rng = Rng::new();
    flood(&mut water, 100_000_000);
    crops.place(16, 16, bean_half());
    update_crops(&mut crops, &mut water, &mut rng);
    let c = crops.get(16, 16).unwrap();
    assert_eq!(c.growth, SCALE);
    assert_eq!(c.health, 50_000_000);
    assert!(matches!(c.stage, Stage::Seedling));
    assert_eq!(water.get(16, 16), 90_000_000);
    // untouched tiles keep their water
    assert_eq!(water.get(0, 0), 100_000_000);
    assert_eq!(water.get(15, 16), 100_000_000);
}

#[test]
fn lone_bean_reaches_fibre_when_growth_passes_seedling_time() {
    // ticked repeatedly with no diffusion, the crop leaves Seedling on
    // exactly the first day its growth exceeds its derived seedling time
    let mut crops = CropField::new();
    let mut water = MoistureGrid::new();
    let mut rng = Rng::new();
    flood(&mut water, 100_000_000);
    crops.place(16, 16, bean_half());
    let seedling_time = bean_half().derive().seedling_time as i64;
    let mut prev_growth: i64 = 0;
    let mut fibre_day: i64 = 0;
    for day in 1..=60 {
        update_crops(&mut crops, &mut water, &mut rng);
        let c = crops.get(16, 16).unwrap();
        if matches!(c.stage, Stage::FibreGrowth) && fibre_day == 0 {
            fibre_day = day;
            // it left Seedling on exactly the first day growth passed the
            // threshold
            assert!(prev_growth <= seedling_time);
            assert!(c.growth > seedling_time);
        }
        if fibre_day == 0 {
            assert!(matches!(c.stage, Stage::Seedling));
            assert!(c.growth <= seedling_time);
        }
        prev_growth = c.growth;
        if matches!(c.stage, Stage::Dead) {
            break;
        }
    }
    assert!(fibre_day > 0);
}

#[test]
fn lone_bean_on_a_drying_tile_starves_before_spreading() {
    // with no diffusion and no rain the tile dries out geometrically: the
    // crop turns water-limited, starves, decays away, and never spreads
    let mut crops = CropField::new();
    let mut water = MoistureGrid::new();
    let mut rng = Rng::new();
    flood(&mut water, 100_000_000);
    crops.place(16, 16, bean_half());
    let mut died = false;
    for _ in 1..=200 {
        update_crops(&mut crops, &mut water, &mut rng);
        match crops.get(16, 16) {
            Some(c) => {
                if matches!(c.stage, Stage::Dead) {
                    died = true;
                }
            },
            None => {},
        }
    }
    assert!(died);
    assert!(crops.get(16, 16).is_none());
    for di in -1i64..=1 {
        for dj in -1i64..=1 {
            if di == 0 && dj == 0 {
                continue;
            }
            assert!(crops.get((16 + di) as usize, (16 + dj) as usize).is_none());
        }
    }
}

#[test]
fn lone_bean_with_rain_spreads_into_its_eight_neighbours() {
    // kept watered, the crop passes every threshold, dies at its spread
    // threshold and sows all eight neighbours
    let mut crops = CropField::new();
    let mut water = MoistureGrid::new();
    let mut rng = Rng::new();
    flood(&mut water, 100_000_000);
    crops.place(16, 16, bean_half());
    let mut spread_day: i64 = 0;
    for day in 1..=60 {
        water.set(16, 16, 100_000_000);
        update_crops(&mut crops, &mut water, &mut rng);
        if matches!(crops.get(16, 16), Some(c) if matches!(c.stage, Stage::Dead)) {
            spread_day = day;
            break;
        }
    }
    assert_eq!(spread_day, 31);
    let dead = crops.get(16, 16).unwrap();
    assert!(dead.growth > dead.genome_derived.spread_time as i64);
    for di in -1i64..=1 {
        for dj in -1i64..=1 {
            if di == 0 && dj == 0 {
                continue;
            }
            let child = crops.get((16 + di) as usize, (16 + dj) as usize).unwrap();
            assert!(matches!(child.stage, Stage::Seedling));
        }
    }
}

#[test]
fn identical_runs_are_bit_identical() {
    // two full simulations from identical state and seed: crops, water and
    // stream agree tile for tile on every day
    let mut crops_a = CropField::new();
    let mut water_a = MoistureGrid::new();
    let mut rng_a = Rng::new();
    let mut crops_b = CropField::new();
    let mut water_b = MoistureGrid::new();
    let mut rng_b = Rng::new();
    for grid in [&mut water_a, &mut water_b] {
        flood(grid, 100_000_000);
    }
    for crops in [&mut crops_a, &mut crops_b] {
        crops.place(10, 10, SeedData { species: Crop::Root, richness: SCALE / 2, volume: SCALE / 2 });
        crops.place(10, 22, SeedData { species: Crop::Bean, richness: SCALE / 2, volume: SCALE / 2 });
        crops.place(22, 22, SeedData { species: Crop::Gourd, richness: SCALE / 2, volume: SCALE / 2 });
        crops.place(22, 10, SeedData { species: Crop::Grass, richness: SCALE / 2, volume: SCALE / 2 });
    }
    let mut since_rain = 0;
    for _ in 1..=120 {
        update_crops(&mut crops_a, &mut water_a, &mut rng_a);
        diffuse_water(&mut water_a);
        update_crops(&mut crops_b, &mut water_b, &mut rng_b);
        diffuse_water(&mut water_b);
        since_rain += 1;
        if since_rain >= 30 {
            since_rain = 0;
            rain(&mut water_a);
            rain(&mut water_b);
        }
        for i in 0..32 {
            for j in 0..32 {
                assert_eq!(water_a.get(i, j), water_b.get(i, j));
                assert_eq!(crops_a.get(i, j), crops_b.get(i, j));
            }
        }
    }
}
