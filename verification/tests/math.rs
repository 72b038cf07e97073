use fuel_vm::math::{checked_nth_root_from_guess, checked_pow};

/// The floor root as the VM computes it, from a floating-point first guess.
fn nth_root(target: u64, n: u64) -> Option<u64> {
    let guess = if n == 0 { 0 } else { (target as f64).powf((n as f64).recip()) as u64 };
    checked_nth_root_from_guess(target, n, guess)
}

#[test]
fn powers() {
    assert_eq!(checked_pow(2, 10), Some(1024));
    assert_eq!(checked_pow(2, 63), Some(1 << 63));
    assert_eq!(checked_pow(2, 64), None);
    assert_eq!(checked_pow(0, 0), Some(1));
    assert_eq!(checked_pow(0, 5), Some(0));
    assert_eq!(checked_pow(3, 40), Some(12157665459056928801));
    assert_eq!(checked_pow(3, 41), None);
}

#[test]
fn root_corner_cases() {
    assert_eq!(checked_nth_root_from_guess(5, 0, 7), None);
    assert_eq!(checked_nth_root_from_guess(5, 1, 7), Some(5));
    assert_eq!(checked_nth_root_from_guess(1, 3, 7), Some(1));
    assert_eq!(checked_nth_root_from_guess(0, 3, 7), Some(0));
    assert_eq!(checked_nth_root_from_guess(5, 5, 7), Some(1));
    assert_eq!(checked_nth_root_from_guess(u64::MAX, 65, 7), Some(1));
}

#[test]
fn root_corrects_the_guess() {
    assert_eq!(checked_nth_root_from_guess(1000, 3, 9), Some(10));
    assert_eq!(checked_nth_root_from_guess(1000, 3, 10), Some(10));
    assert_eq!(checked_nth_root_from_guess(1000, 3, 11), Some(10));
    assert_eq!(checked_nth_root_from_guess(999, 3, 10), Some(9));
    assert_eq!(checked_nth_root_from_guess(99, 2, 0), Some(1));
}

#[test]
fn roots_from_floating_point_guesses() {
    assert_eq!(nth_root(u64::MAX, 2), Some(u32::MAX as u64));
    assert_eq!(nth_root(u64::MAX, 3), Some(2642245));
    assert_eq!(nth_root(1 << 63, 63), Some(2));
    assert_eq!(nth_root((1 << 63) - 1, 63), Some(1));
    assert_eq!(nth_root(27, 3), Some(3));
    assert_eq!(nth_root(26, 3), Some(2));
    for t in 2u64..2000 {
        for n in 2u64..12 {
            let r = nth_root(t, n).unwrap();
            assert!(r.pow(n as u32) <= t);
            assert!((r + 1).checked_pow(n as u32).map_or(true, |p| p > t));
        }
    }
}
