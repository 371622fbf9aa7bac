use dice_settle::payout::{compute_payout, payout_for, HOUSE_EDGE_BPS};
use dice_settle::DiceError;

#[test]
fn payout_multiplies_then_divides_twice() {
    // 1000 * 9850 / 49 / 100 = 9850000 / 49 = 201020 (rounded down), / 100 = 2010
    assert_eq!(compute_payout(1000, 50, 150), Ok(2010));
    assert_eq!(payout_for(1000, 50), Ok(2010));
    assert_eq!(HOUSE_EDGE_BPS, 150);
    assert_eq!(compute_payout(1000, 2, 150), Ok(98500));
    assert_eq!(compute_payout(1000, 100, 150), Ok(994));
    assert_eq!(compute_payout(0, 50, 150), Ok(0));
}

#[test]
fn payout_rejects_thresholds_without_divisor() {
    assert_eq!(compute_payout(1000, 1, 150), Err(DiceError::ArithmeticError));
    assert_eq!(compute_payout(1000, 0, 150), Err(DiceError::ArithmeticError));
}

#[test]
fn payout_rejects_edge_above_whole() {
    assert_eq!(compute_payout(1000, 50, 10001), Err(DiceError::ArithmeticError));
    assert_eq!(compute_payout(1000, 50, 10000), Ok(0));
}

#[test]
fn payout_rejects_result_beyond_u64() {
    assert_eq!(compute_payout(u64::MAX, 2, 150), Err(DiceError::ArithmeticError));
    assert_eq!(compute_payout(u64::MAX, 100, 150), Ok(((u64::MAX as u128) * 9850 / 99 / 100) as u64));
}

#[test]
fn payout_falls_as_threshold_rises() {
    let amount = 1_000_000u64;
    let mut last = u64::MAX;
    for t in 2u8..=100 {
        let p = compute_payout(amount, t, 150).unwrap();
        assert!(p < last);
        last = p;
    }
}

#[test]
fn payout_can_tie_for_tiny_stakes() {
    // 9850 / 97 = 101 and 9850 / 98 = 100: both round down to 1
    assert_eq!(compute_payout(1, 98, 150), Ok(1));
    assert_eq!(compute_payout(1, 99, 150), Ok(1));
}

#[test]
fn payout_rises_as_edge_falls() {
    let a = compute_payout(1000, 50, 150).unwrap();
    let b = compute_payout(1000, 50, 100).unwrap();
    let c = compute_payout(1000, 50, 0).unwrap();
    assert!(a < b && b < c);
    assert_eq!(c, 2040);
}
