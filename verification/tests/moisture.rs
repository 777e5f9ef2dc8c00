use farmsim::water::MoistureGrid;
use farmsim::water::MOIST_CAP;
use farmsim::water::diffuse_water;
use farmsim::water::rain;

fn total(m: &MoistureGrid) -> u64 {
    let mut sum: u64 = 0;
    for i in 0..32 {
        for j in 0..32 {
            sum += m.get(i, j);
        }
    }
    sum
}

#[test]
fn diffuse_single_cell_exact() {
    // one wet tile: it keeps 30%, each orthogonal neighbour gets 11.375%,
    // each diagonal neighbour 6.125%
    let mut m = MoistureGrid::new();
    m.set(10, 10, 100_000_000);
    diffuse_water(&mut m);
    assert_eq!(m.get(10, 10), 30_000_000);
    assert_eq!(m.get(9, 10), 11_375_000);
    assert_eq!(m.get(11, 10), 11_375_000);
    assert_eq!(m.get(10, 9), 11_375_000);
    assert_eq!(m.get(10, 11), 11_375_000);
    assert_eq!(m.get(9, 9), 6_125_000);
    assert_eq!(m.get(11, 9), 6_125_000);
    assert_eq!(m.get(9, 11), 6_125_000);
    assert_eq!(m.get(11, 11), 6_125_000);
    assert_eq!(m.get(8, 10), 0);
    assert_eq!(m.get(12, 12), 0);
}

#[test]
fn diffuse_conserves_mass() {
    // while all moisture sits at least three tiles from the edge, a pass
    // moves mass around but the total is exactly unchanged; each pass
    // widens the wet region by one ring, so starting from [6, 26) three
    // passes in a row stay inside that margin
    let mut m = MoistureGrid::new();
    for i in 6..26 {
        for j in 6..26 {
            m.set(i, j, ((i * 37 + j * 11) as u64) * 1_000_003);
        }
    }
    let before = total(&m);
    diffuse_water(&mut m);
    assert_eq!(total(&m), before);
    diffuse_water(&mut m);
    diffuse_water(&mut m);
    assert_eq!(total(&m), before);
}

#[test]
fn diffuse_keeps_border_tiles() {
    // tiles of the outermost two rings receive no inflow and lose nothing
    let mut m = MoistureGrid::new();
    for i in 0..32 {
        for j in 0..32 {
            m.set(i, j, ((i + 1) * (j + 3)) as u64 * 500_000);
        }
    }
    let mut before: Vec<u64> = Vec::new();
    for i in 0..32 {
        for j in 0..32 {
            before.push(m.get(i, j));
        }
    }
    diffuse_water(&mut m);
    for i in 0..32 {
        for j in 0..32 {
            let inner = 2 <= i && i < 30 && 2 <= j && j < 30;
            if !inner {
                assert_eq!(m.get(i, j), before[i * 32 + j]);
            }
        }
    }
}

#[test]
fn diffuse_border_only_is_fixed_point() {
    // a grid wet only on the border (the outermost two rings) is a fixed
    // point of diffusion: border tiles are not sources and receive nothing
    let mut m = MoistureGrid::new();
    for k in 0..32 {
        m.set(0, k, 70_000_000);
        m.set(31, k, 80_000_000);
        m.set(k, 0, 90_000_000);
        m.set(k, 31, 60_000_000);
    }
    for k in 1..31 {
        m.set(1, k, 55_000_000);
        m.set(30, k, 45_000_000);
        m.set(k, 1, 35_000_000);
        m.set(k, 30, 25_000_000);
    }
    let mut before: Vec<u64> = Vec::new();
    for i in 0..32 {
        for j in 0..32 {
            before.push(m.get(i, j));
        }
    }
    diffuse_water(&mut m);
    for i in 0..32 {
        for j in 0..32 {
            assert_eq!(m.get(i, j), before[i * 32 + j]);
        }
    }
}

#[test]
fn rain_averages_inner_tiles() {
    let mut m = MoistureGrid::new();
    m.set(5, 5, 100_000_000);
    m.set(0, 0, 40_000_000);
    m.set(1, 17, 40_000_000);
    rain(&mut m);
    // inner tile: averaged with 200 whole units
    assert_eq!(m.get(5, 5), 150_000_000);
    // dry inner tile: half the rain amount
    assert_eq!(m.get(10, 10), 100_000_000);
    // border tiles: untouched
    assert_eq!(m.get(0, 0), 40_000_000);
    assert_eq!(m.get(1, 17), 40_000_000);
}

#[test]
fn set_clamps_to_cap() {
    let mut m = MoistureGrid::new();
    m.set(4, 4, u64::MAX);
    assert_eq!(m.get(4, 4), MOIST_CAP);
}
