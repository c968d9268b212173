use raytracer::distance::HORIZON;
use raytracer::intersection::{closest_intersection, Intersection};

fn step(state: &mut u64) -> u64 {
    *state = state.wrapping_mul(6364136223846793005).wrapping_add(1442695040888963407);
    *state
}

/// Which of two shapes at the given distances is struck first.
fn nearer(first: u64, second: u64) -> Option<usize> {
    let candidates = vec![
        Some(Intersection { point: (), distance: first }),
        Some(Intersection { point: (), distance: second }),
    ];
    closest_intersection(&candidates, None).map(|hit| hit.shape)
}

#[test]
fn keys_below_the_horizon_are_ordered_as_their_numbers() {
    let mut state = 2024;
    for _ in 0..5000 {
        let a = step(&mut state) % HORIZON;
        let b = step(&mut state) % HORIZON;
        let (x, y) = (f64::from_bits(a), f64::from_bits(b));
        assert!(x.is_finite() && y.is_finite() && x >= 0.0 && y >= 0.0);
        assert_eq!(a < b, x < y);
        assert_eq!(nearer(a, b), Some(if y < x { 1 } else { 0 }));
    }
}

#[test]
fn neighbouring_keys_are_neighbouring_numbers() {
    let mut state = 7;
    for _ in 0..5000 {
        let a = step(&mut state) % (HORIZON - 1);
        assert!(f64::from_bits(a) < f64::from_bits(a + 1));
        assert_eq!(nearer(a + 1, a), Some(1));
        assert_eq!(nearer(a, a + 1), Some(0));
    }
}

#[test]
fn keys_around_the_exponent_steps_are_in_order() {
    for exponent in 0u64..2046 {
        let last_of_this = (exponent << 52) | 0xF_FFFF_FFFF_FFFF;
        let first_of_next = (exponent + 1) << 52;
        assert!(first_of_next < HORIZON);
        assert!(f64::from_bits(last_of_this) < f64::from_bits(first_of_next));
        assert_eq!(nearer(first_of_next, last_of_this), Some(1));
    }
}

#[test]
fn every_key_from_the_horizon_on_is_out_of_reach() {
    assert_eq!(f64::from_bits(HORIZON), f64::MAX);
    assert_eq!(f64::from_bits(HORIZON + 1), f64::INFINITY);
    assert!(f64::from_bits(HORIZON + 2).is_nan());
    let mut state = 99;
    for _ in 0..5000 {
        let key = HORIZON + step(&mut state) % (u64::MAX - HORIZON + 1);
        let number = f64::from_bits(key);
        assert!(!(number < f64::MAX) || number.is_sign_negative());
        assert_eq!(nearer(key, key), None);
        assert_eq!(nearer(key, 0), Some(1));
    }
}
