use molyuu_updater::bignat::BigNat;

fn same(a: &BigNat, b: &BigNat) -> bool {
    a.at_most(b) && b.at_most(a)
}

#[test]
fn small_numbers_compare_as_integers() {
    let three = BigNat::from_u64(3);
    let five = BigNat::from_u64(5);
    assert!(three.at_most(&five));
    assert!(!five.at_most(&three));
    assert!(three.at_most(&three));
    assert!(BigNat::from_u64(0).at_most(&three));
}

#[test]
fn scaling_carries_into_the_next_limb() {
    let max = BigNat::from_u64(u64::MAX);
    // (2^64 - 1) * 2 = (2^64 - 1) + (2^64 - 1)
    assert!(same(&max.scale(2), &max.sum(&max)));
    // (2^64 - 1)^2 + 2 * (2^64 - 1) + 1 = 2^64 * 2^64
    let square = max.scale(u64::MAX);
    let lhs = square.sum(&max.scale(2)).sum(&BigNat::from_u64(1));
    let radix = max.sum(&BigNat::from_u64(1));
    let rhs = radix.scale(u64::MAX).sum(&radix);
    assert!(same(&lhs, &rhs));
    assert!(!lhs.at_most(&square));
    assert!(square.at_most(&lhs));
}

#[test]
fn scaling_by_zero_gives_zero() {
    let big = BigNat::from_u64(u64::MAX).scale(u64::MAX).scale(17);
    let zero = BigNat::from_u64(0);
    assert!(same(&big.scale(0), &zero));
    assert!(same(&big.sum(&zero), &big));
}

#[test]
fn comparison_looks_at_high_limbs_first() {
    let radix = BigNat::from_u64(u64::MAX).sum(&BigNat::from_u64(1));
    let low_heavy = BigNat::from_u64(u64::MAX);
    assert!(low_heavy.at_most(&radix));
    assert!(!radix.at_most(&low_heavy));
    let a = radix.scale(2).sum(&BigNat::from_u64(1));
    let b = radix.sum(&BigNat::from_u64(u64::MAX));
    assert!(b.at_most(&a));
    assert!(!a.at_most(&b));
}

#[test]
fn numbers_of_unlike_length_compare_by_value() {
    let radix = BigNat::from_u64(u64::MAX).sum(&BigNat::from_u64(1));
    // many limbs, all but the lowest zero
    let padded_seven = radix.scale(0).scale(0).sum(&BigNat::from_u64(7));
    let eight = BigNat::from_u64(8);
    assert!(padded_seven.at_most(&eight));
    assert!(!eight.at_most(&padded_seven));
}

#[test]
fn quotient_is_rounded_down_and_capped() {
    let thousand = BigNat::from_u64(1000);
    let seven = BigNat::from_u64(7);
    assert_eq!(thousand.quotient_capped(&seven, 200), Some(142));
    assert_eq!(thousand.quotient_capped(&seven, 142), Some(142));
    assert_eq!(thousand.quotient_capped(&seven, 100), Some(100));
    assert_eq!(seven.quotient_capped(&thousand, 100), Some(0));
    assert_eq!(thousand.quotient_capped(&thousand, 100), Some(1));
    assert_eq!(thousand.quotient_capped(&seven, 0), Some(0));
}

#[test]
fn quotient_by_zero_is_none() {
    let zero = BigNat::from_u64(0);
    assert_eq!(BigNat::from_u64(5).quotient_capped(&zero, 100), None);
    assert_eq!(zero.quotient_capped(&zero, 100), None);
    assert_eq!(zero.quotient_capped(&BigNat::from_u64(5), 100), Some(0));
}

#[test]
fn quotient_of_large_numbers() {
    let big = BigNat::from_u64(u64::MAX).scale(u64::MAX).scale(u64::MAX);
    let divisor = BigNat::from_u64(u64::MAX).scale(u64::MAX);
    assert_eq!(big.scale(37).quotient_capped(&big, 100), Some(37));
    assert_eq!(big.quotient_capped(&divisor.scale(u64::MAX / 3), 100), Some(3));
    assert_eq!(big.quotient_capped(&divisor, 100), Some(100));
}
