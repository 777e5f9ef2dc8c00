use farmsim::rng::Rng;
use farmsim::rng::rand_int;
use farmsim::rng::rand_proportion;
use farmsim::rng::rand_range;
use farmsim::units::SCALE;

#[test]
fn rand_int_hands_out_initial_words_first() {
    // the first four draws hand out the four starting words unchanged
    let mut r = Rng::new();
    assert_eq!(rand_int(&mut r), 32767);
    assert_eq!(rand_int(&mut r), 32767);
    assert_eq!(rand_int(&mut r), 32767);
    assert_eq!(rand_int(&mut r), 32767);
    // the fifth draw is the first mixed word:
    // 0x7FFF ^ (0x7FFF << 2) ^ 0x7FFF ^ (0x7FFF << 4) ^ (0x7FFF >> 1)
    //        ^ (0x7FFF << 6) ^ (0x7FFF >> 2)
    assert_eq!(rand_int(&mut r), 0x19DFCC);
}

#[test]
fn rand_formulas_exact_first_values() {
    // proportion: (32767 % 65536) * 1_000_000 / 65536
    let mut r = Rng::new();
    assert_eq!(rand_proportion(&mut r), 499_984);
    // range: 499_984 * 200_000 / 1_000_000 - 100_000
    let mut r = Rng::new();
    assert_eq!(rand_range(&mut r, -100_000, 100_000), -4);
}

#[test]
fn stream_is_deterministic() {
    let mut a = Rng::new();
    let mut b = Rng::new();
    for _ in 0..200 {
        assert_eq!(rand_int(&mut a), rand_int(&mut b));
    }
}

#[test]
fn stream_replays_from_state() {
    let mut a = Rng::from_state(7, 11, 13, 17);
    let mut b = Rng::from_state(7, 11, 13, 17);
    for _ in 0..50 {
        assert_eq!(rand_int(&mut a), rand_int(&mut b));
    }
}

#[test]
fn rand_proportion_stays_in_unit_range() {
    let mut r = Rng::new();
    for _ in 0..500 {
        let p = rand_proportion(&mut r);
        assert!(0 <= p && p < SCALE);
    }
}

#[test]
fn rand_range_stays_in_range() {
    let mut r = Rng::new();
    for _ in 0..500 {
        let v = rand_range(&mut r, -100_000, 100_000);
        assert!(-100_000 <= v && v < 100_000);
    }
    let v = rand_range(&mut r, 42, 42);
    assert_eq!(v, 42);
}
