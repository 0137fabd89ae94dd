//! Parimutuel settlement: the fee, the pool that is left, and each winner's
//! share of it.
//!
//! Every quotient is truncated, so what the winners receive never exceeds
//! the pool after the fee; the remainder stays with the market.

use crate::arith::{try_add, try_div, try_mul, try_sub};
use crate::error::ErrorCode;
use vstd::prelude::*;

verus! {

/// One basis point is a ten-thousandth.
pub const BPS_DENOMINATOR: u64 = 10000;

/// The stake on the winning side.
pub open spec fn winning_pool(total_yes: int, total_no: int, outcome: bool) -> int {
    if outcome {
        total_yes
    } else {
        total_no
    }
}

/// The fee on a pool, truncated.
pub open spec fn fee_amount(total_pool: int, fee_bps: int) -> int {
    (total_pool * fee_bps) / 10000
}

/// What is left of a pool for the winners.
pub open spec fn pool_after_fee(total_pool: int, fee_bps: int) -> int {
    total_pool - fee_amount(total_pool, fee_bps)
}

/// A winner's share of the pool after the fee, truncated.
pub open spec fn share(stake: int, after_fee: int, winning: int) -> int {
    (stake * after_fee) / winning
}

/// Whether the payout of `stake` can be computed in 64 bits: no sum or
/// product overflows, the fee does not exceed the pool, and somebody bet on
/// the winning side.
pub open spec fn payout_defined(
    total_yes: u64,
    total_no: u64,
    fee_bps: u16,
    outcome: bool,
    stake: u64,
) -> bool {
    let pool = total_yes + total_no;
    &&& pool <= u64::MAX
    &&& winning_pool(total_yes as int, total_no as int, outcome) > 0
    &&& pool * fee_bps <= u64::MAX
    &&& fee_amount(pool, fee_bps as int) <= pool
    &&& stake * pool_after_fee(pool, fee_bps as int) <= u64::MAX
}

/// The payout of `stake` on the winning side of a market.
pub open spec fn payout_spec(
    total_yes: u64,
    total_no: u64,
    fee_bps: u16,
    outcome: bool,
    stake: u64,
) -> int {
    share(
        stake as int,
        pool_after_fee(total_yes + total_no, fee_bps as int),
        winning_pool(total_yes as int, total_no as int, outcome),
    )
}

/// A share never exceeds the numerator it was cut from.
pub proof fn lemma_share_bounds(stake: int, after_fee: int, winning: int)
    requires
        0 <= stake,
        0 <= after_fee,
        0 < winning,
    ensures
        0 <= share(stake, after_fee, winning) <= stake * after_fee,
        stake <= winning ==> share(stake, after_fee, winning) <= after_fee,
{
    assert(0 <= stake * after_fee) by (nonlinear_arith)
        requires
            0 <= stake,
            0 <= after_fee,
    ;
    let n = stake * after_fee;
    assert(0 <= n / winning <= n) by (nonlinear_arith)
        requires
            0 <= n,
            0 < winning,
    ;
    if stake <= winning {
        assert(n <= winning * after_fee) by (nonlinear_arith)
            requires
                n == stake * after_fee,
                stake <= winning,
                0 <= after_fee,
        ;
        assert(n / winning <= after_fee) by (nonlinear_arith)
            requires
                n <= winning * after_fee,
                0 < winning,
        ;
    }
}

/// The fee lies between nothing and the pool whenever the rate is at most
/// one whole.
pub proof fn lemma_fee_bounds(total_pool: int, fee_bps: int)
    requires
        0 <= total_pool,
        0 <= fee_bps,
    ensures
        0 <= fee_amount(total_pool, fee_bps),
        fee_bps <= 10000 ==> fee_amount(total_pool, fee_bps) <= total_pool,
        fee_bps == 0 ==> fee_amount(total_pool, fee_bps) == 0,
{
    let n = total_pool * fee_bps;
    assert(0 <= n) by (nonlinear_arith)
        requires
            n == total_pool * fee_bps,
            0 <= total_pool,
            0 <= fee_bps,
    ;
    assert(0 <= n / 10000);
    if fee_bps <= 10000 {
        assert(n <= total_pool * 10000) by (nonlinear_arith)
            requires
                n == total_pool * fee_bps,
                0 <= total_pool,
                fee_bps <= 10000,
        ;
    }
    if fee_bps == 0 {
        assert(n == 0) by (nonlinear_arith)
            requires
                n == total_pool * fee_bps,
                fee_bps == 0,
        ;
    }
}

/// Computes what a winning stake is paid.
///
/// Fails with `MathOverflow` exactly when [`payout_defined`] does not hold;
/// otherwise returns [`payout_spec`].
pub fn compute_payout(
    total_yes: u64,
    total_no: u64,
    fee_bps: u16,
    outcome: bool,
    stake: u64,
) -> (r: Result<u64, ErrorCode>)
    ensures
        payout_defined(total_yes, total_no, fee_bps, outcome, stake) ==> r == Ok::<u64, ErrorCode>(
            payout_spec(total_yes, total_no, fee_bps, outcome, stake) as u64,
        ) && payout_spec(total_yes, total_no, fee_bps, outcome, stake) <= u64::MAX,
        !payout_defined(total_yes, total_no, fee_bps, outcome, stake) ==> r == Err::<
            u64,
            ErrorCode,
        >(ErrorCode::MathOverflow),
{
    let total_pool = match try_add(total_yes, total_no) {
        Ok(v) => v,
        Err(e) => { return Err(e); },
    };
    let winning = if outcome {
        total_yes
    } else {
        total_no
    };
    if winning == 0 {
        return Err(ErrorCode::MathOverflow);
    }
    let scaled = match try_mul(total_pool, fee_bps as u64) {
        Ok(v) => v,
        Err(e) => { return Err(e); },
    };
    let fee = match try_div(scaled, BPS_DENOMINATOR) {
        Ok(v) => v,
        Err(e) => { return Err(e); },
    };
    let after_fee = match try_sub(total_pool, fee) {
        Ok(v) => v,
        Err(e) => { return Err(e); },
    };
    let numerator = match try_mul(stake, after_fee) {
        Ok(v) => v,
        Err(e) => { return Err(e); },
    };
    proof {
        lemma_share_bounds(stake as int, after_fee as int, winning as int);
    }
    try_div(numerator, winning)
}

} // verus!
