use doomfire::FireRng;

#[test]
fn rng_is_deterministic_from_seed() {
    let mut a = FireRng::new(42);
    let mut b = FireRng::new(42);
    for _ in 0..100 {
        assert_eq!(a.next_decay(), b.next_decay());
    }
    assert_eq!(a.state, b.state);
}

#[test]
fn rng_matches_formula() {
    let mut r = FireRng::new(0);
    assert_eq!(r.next_decay(), 0);
    assert_eq!(r.state, 1442695040888963407);
    assert_eq!(r.next_decay(), 1);
    assert_eq!(r.state, 1876011003808476466);
    assert_eq!(r.next_decay(), 0);
    assert_eq!(r.state, 11166244414315200793);
    assert_eq!(r.next_decay(), 1);
    assert_eq!(r.state, 7401132627792533940);
}

#[test]
fn rng_draws_only_zero_or_one() {
    let mut r = FireRng::new(987654321);
    for _ in 0..1000 {
        let d = r.next_decay();
        assert!(d == 0 || d == 1);
    }
}

#[test]
fn rng_seed42_prefix() {
    let mut r = FireRng::new(42);
    let draws: Vec<usize> = (0..6).map(|_| r.next_decay()).collect();
    assert_eq!(draws, vec![1, 1, 1, 1, 0, 1]);
}
