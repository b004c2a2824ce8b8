use tufia::XorShift64;

#[test]
fn xorshift_first_value_from_seed_one() {
    let mut rng = XorShift64::new(1);
    assert_eq!(rng.next(), 1082269761);
}

#[test]
fn xorshift_second_value_from_seed_one() {
    let mut rng = XorShift64::new(1);
    rng.next();
    assert_eq!(rng.next(), 1152992998833853505);
}

#[test]
fn xorshift_state_is_the_last_value() {
    let mut rng = XorShift64 { a: 100 };
    let drawn = rng.next();
    assert_eq!(rng.a, drawn);
    assert_ne!(drawn, 100);
}

#[test]
fn xorshift_matches_the_shift_sequence() {
    let seeds: [u64; 5] = [1, 2, 100, 0xdead_beef, u64::MAX];
    for seed in seeds {
        let mut x = seed;
        x ^= x << 13;
        x ^= x >> 7;
        x ^= x << 17;
        let mut rng = XorShift64::new(seed);
        assert_eq!(rng.next(), x);
    }
}

#[test]
fn xorshift_zero_stays_zero() {
    let mut rng = XorShift64::new(0);
    assert_eq!(rng.next(), 0);
    assert_eq!(rng.a, 0);
}

#[test]
fn xorshift_same_seed_same_stream() {
    let mut a = XorShift64::new(12345);
    let mut b = XorShift64::new(12345);
    for _ in 0..50 {
        assert_eq!(a.next(), b.next());
    }
}
