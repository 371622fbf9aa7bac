//! Payout arithmetic for a winning wager.
use vstd::prelude::*;
use vstd::arithmetic::div_mod::{
    lemma_div_by_multiple,
    lemma_div_denominator,
    lemma_div_is_ordered,
    lemma_div_is_ordered_by_denominator,
    lemma_fundamental_div_mod,
    lemma_mod_bound,
};

use crate::errors::DiceError;

verus! {

/// The house edge, in basis points (1.5%).
pub const HOUSE_EDGE_BPS: u16 = 150;

/// Basis points in a whole.
pub const BPS_DENOMINATOR: u16 = 10000;

/// `amount * (10000 - edge_bps) / (threshold - 1) / 100`, each division
/// rounding down.
pub open spec fn payout_value(amount: int, threshold: int, edge_bps: int) -> int {
    amount * (10000 - edge_bps) / (threshold - 1) / 100
}

/// What the payout computation returns: an arithmetic error when the
/// threshold leaves no divisor, the edge exceeds a whole, or the payout does
/// not fit in a `u64`.
pub open spec fn payout_result(amount: u64, threshold: u8, edge_bps: u16) -> Result<u64, DiceError> {
    if threshold < 2 || edge_bps > 10000 || payout_value(
        amount as int,
        threshold as int,
        edge_bps as int,
    ) > u64::MAX {
        Err(DiceError::ArithmeticError)
    } else {
        Ok(payout_value(amount as int, threshold as int, edge_bps as int) as u64)
    }
}

/// The payout of a winning stake of `amount` at `threshold`, with each step
/// checked for overflow and division by zero.
pub fn compute_payout(amount: u64, threshold: u8, house_edge_bps: u16) -> (r: Result<u64, DiceError>)
    ensures
        r == payout_result(amount, threshold, house_edge_bps),
{
    let factor = match (BPS_DENOMINATOR as u128).checked_sub(house_edge_bps as u128) {
        Some(f) => f,
        None => return Err(DiceError::ArithmeticError),
    };
    let divisor = match (threshold as u128).checked_sub(1) {
        Some(d) => d,
        None => return Err(DiceError::ArithmeticError),
    };
    assert(amount as int * factor as int <= u64::MAX as int * 10000) by (nonlinear_arith)
        requires
            factor <= 10000,
    ;
    let scaled = match (amount as u128).checked_mul(factor) {
        Some(s) => s,
        None => return Err(DiceError::ArithmeticError),
    };
    let per_unit = match scaled.checked_div(divisor) {
        Some(q) => q,
        None => return Err(DiceError::ArithmeticError),
    };
    let payout = match per_unit.checked_div(100) {
        Some(q) => q,
        None => return Err(DiceError::ArithmeticError),
    };
    if payout > u64::MAX as u128 {
        return Err(DiceError::ArithmeticError);
    }
    Ok(payout as u64)
}

/// The payout of a winning stake at the fixed house edge.
pub fn payout_for(amount: u64, threshold: u8) -> (r: Result<u64, DiceError>)
    ensures
        r == payout_result(amount, threshold, HOUSE_EDGE_BPS),
{
    compute_payout(amount, threshold, HOUSE_EDGE_BPS)
}

proof fn lemma_two_divisions(x: int, d: int)
    requires
        x >= 0,
        d > 0,
    ensures
        x / d / 100 == x / (d * 100),
{
    lemma_div_denominator(x, d, 100);
}

/// For a fixed stake and edge, raising the threshold never raises the payout.
pub proof fn lemma_payout_non_increasing_in_threshold(amount: nat, t1: int, t2: int, edge_bps: int)
    requires
        2 <= t1 <= t2,
        0 <= edge_bps <= 10000,
    ensures
        payout_value(amount as int, t2, edge_bps) <= payout_value(amount as int, t1, edge_bps),
{
    let x: int = amount * (10000 - edge_bps);
    assert(x >= 0) by (nonlinear_arith)
        requires
            x == amount * (10000 - edge_bps),
            edge_bps <= 10000,
    ;
    lemma_div_is_ordered_by_denominator(x, t1 - 1, t2 - 1);
    lemma_div_is_ordered(x / (t2 - 1), x / (t1 - 1), 100);
}

/// For a fixed stake and edge, a higher threshold pays strictly less once the
/// stake is large enough for the two quotients to lie a whole unit apart:
/// `amount * (10000 - edge) * (t2 - t1) >= 100 * (t1 - 1) * (t2 - 1)`.
pub proof fn lemma_payout_decreasing_in_threshold(amount: nat, t1: int, t2: int, edge_bps: int)
    requires
        2 <= t1 < t2,
        0 <= edge_bps <= 10000,
        amount * (10000 - edge_bps) * (t2 - t1) >= 100 * (t1 - 1) * (t2 - 1),
    ensures
        payout_value(amount as int, t2, edge_bps) < payout_value(amount as int, t1, edge_bps),
{
    let x: int = amount * (10000 - edge_bps);
    let d1: int = t1 - 1;
    let d2: int = t2 - 1;
    assert(x >= 0) by (nonlinear_arith)
        requires
            x == amount * (10000 - edge_bps),
            edge_bps <= 10000,
    ;
    lemma_two_divisions(x, d1);
    lemma_two_divisions(x, d2);
    let q2: int = x / (d2 * 100);
    lemma_fundamental_div_mod(x, d2 * 100);
    lemma_mod_bound(x, d2 * 100);
    assert(d2 * 100 * q2 <= x) by (nonlinear_arith)
        requires
            x == (d2 * 100) * q2 + x % (d2 * 100),
            x % (d2 * 100) >= 0,
    ;
    assert(x * (d2 - d1) >= 100 * d1 * d2);
    assert(d1 * 100 * (q2 + 1) <= x) by (nonlinear_arith)
        requires
            d2 * 100 * q2 <= x,
            x * (d2 - d1) >= 100 * d1 * d2,
            0 < d1 < d2,
    ;
    lemma_div_by_multiple(q2 + 1, d1 * 100);
    assert(q2 >= 0) by (nonlinear_arith)
        requires
            q2 == x / (d2 * 100),
            x >= 0,
            d2 > 0,
    ;
    lemma_div_is_ordered(d1 * 100 * (q2 + 1), x, d1 * 100);
    assert((q2 + 1) * (d1 * 100) == d1 * 100 * (q2 + 1)) by (nonlinear_arith);
}

/// For a fixed stake and threshold, lowering the edge never lowers the payout.
pub proof fn lemma_payout_non_decreasing_as_edge_falls(amount: nat, threshold: int, e1: int, e2: int)
    requires
        2 <= threshold,
        0 <= e1 <= e2 <= 10000,
    ensures
        payout_value(amount as int, threshold, e2) <= payout_value(amount as int, threshold, e1),
{
    let x1: int = amount * (10000 - e1);
    let x2: int = amount * (10000 - e2);
    assert(0 <= x2 <= x1) by (nonlinear_arith)
        requires
            x1 == amount * (10000 - e1),
            x2 == amount * (10000 - e2),
            e1 <= e2 <= 10000,
    ;
    lemma_div_is_ordered(x2, x1, threshold - 1);
    lemma_div_is_ordered(x2 / (threshold - 1), x1 / (threshold - 1), 100);
}

/// For a fixed threshold, a lower edge pays strictly more once the stake is
/// large enough: `amount * (e2 - e1) >= 100 * (threshold - 1)`.
pub proof fn lemma_payout_increasing_as_edge_falls(amount: nat, threshold: int, e1: int, e2: int)
    requires
        2 <= threshold,
        0 <= e1 < e2 <= 10000,
        amount * (e2 - e1) >= 100 * (threshold - 1),
    ensures
        payout_value(amount as int, threshold, e2) < payout_value(amount as int, threshold, e1),
{
    let d: int = threshold - 1;
    let x1: int = amount * (10000 - e1);
    let x2: int = amount * (10000 - e2);
    assert(0 <= x2 && x1 - x2 == amount * (e2 - e1)) by (nonlinear_arith)
        requires
            x1 == amount * (10000 - e1),
            x2 == amount * (10000 - e2),
            e2 <= 10000,
    ;
    lemma_two_divisions(x1, d);
    lemma_two_divisions(x2, d);
    let q2: int = x2 / (d * 100);
    lemma_fundamental_div_mod(x2, d * 100);
    lemma_mod_bound(x2, d * 100);
    assert(d * 100 * q2 <= x2) by (nonlinear_arith)
        requires
            x2 == (d * 100) * q2 + x2 % (d * 100),
            x2 % (d * 100) >= 0,
    ;
    assert(d * 100 * (q2 + 1) <= x1) by (nonlinear_arith)
        requires
            d * 100 * q2 <= x2,
            x1 - x2 >= 100 * d,
    ;
    assert(q2 >= 0) by (nonlinear_arith)
        requires
            q2 == x2 / (d * 100),
            x2 >= 0,
            d > 0,
    ;
    lemma_div_by_multiple(q2 + 1, d * 100);
    lemma_div_is_ordered(d * 100 * (q2 + 1), x1, d * 100);
    assert((q2 + 1) * (d * 100) == d * 100 * (q2 + 1)) by (nonlinear_arith);
}

} // verus!
