//! The fee policy: a fixed basis-points rate applied to the gross amount of a
//! transfer, floor-divided, so that `net + fee == gross` exactly.

use vstd::arithmetic::div_mod::{
    lemma_div_pos_is_pos, lemma_fundamental_div_mod, lemma_hoist_over_denominator,
    lemma_multiply_divide_le, lemma_multiply_divide_lt,
};
use vstd::prelude::*;

verus! {

/// The transfer fee in basis points: 10.00%.
pub const TRANSFER_FEE_BPS: u128 = 10_00;

/// One whole, expressed in basis points.
pub const BPS_DENOMINATOR: u128 = 10_000;

/// The fee owed on a gross amount: `floor(amount * TRANSFER_FEE_BPS / 10_000)`.
pub open spec fn spec_fee_amount(amount: u128) -> int {
    amount * TRANSFER_FEE_BPS / (BPS_DENOMINATOR as int)
}

/// The fee never exceeds the gross amount it is charged on.
pub proof fn lemma_fee_amount_bounds(amount: u128)
    ensures
        0 <= spec_fee_amount(amount) <= amount,
{
    let a = amount as int;
    let r = TRANSFER_FEE_BPS as int;
    let d = BPS_DENOMINATOR as int;
    assert(0 <= a * r) by (nonlinear_arith)
        requires 0 <= a && 0 <= r;
    lemma_div_pos_is_pos(a * r, d);
    assert(a * r <= d * a) by (nonlinear_arith)
        requires 0 <= a && 0 <= r && r <= d;
    lemma_multiply_divide_le(a * r, d, a);
}

/// Computes the fee on `amount` without intermediate overflow by splitting
/// the amount into its quotient and remainder by the basis-point denominator.
pub fn fee_amount(amount: u128) -> (r: u128)
    ensures
        r == spec_fee_amount(amount),
        r <= amount,
{
    let q = amount / BPS_DENOMINATOR;
    let rem = amount % BPS_DENOMINATOR;
    proof {
        let a = amount as int;
        let rate = TRANSFER_FEE_BPS as int;
        let d = BPS_DENOMINATOR as int;
        lemma_fundamental_div_mod(a, d);
        // a == d * q + rem
        assert(q * rate <= a) by (nonlinear_arith)
            requires a == d * (q as int) + (rem as int) && 0 <= rem && 0 < rate < d && 0 <= q;
        assert(rem * rate < d * rate) by (nonlinear_arith)
            requires 0 <= rem < d && 0 < rate;
        lemma_multiply_divide_lt(rem as int * rate, d, rate);
        // the split quotient equals the direct quotient
        assert(a * rate == rem as int * rate + (q as int * rate) * d) by (nonlinear_arith)
            requires a == d * (q as int) + (rem as int);
        lemma_hoist_over_denominator(rem as int * rate, q as int * rate, BPS_DENOMINATOR as nat);
        assert(rem as int * rate / d + q as int * rate == spec_fee_amount(amount));
        lemma_div_pos_is_pos(rem as int * rate, d);
        lemma_fee_amount_bounds(amount);
    }
    let part_q = q * TRANSFER_FEE_BPS;
    let part_rem = rem * TRANSFER_FEE_BPS / BPS_DENOMINATOR;
    part_q + part_rem
}

} // verus!
