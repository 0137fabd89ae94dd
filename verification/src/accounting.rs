//! Sums over the bets of a market, and why the winners' shares never add up
//! to more than the pool that is left after the fee.

use crate::instructions::claim_payout;
use crate::payout::{fee_amount, lemma_fee_bounds, pool_after_fee, share, winning_pool};
use crate::record::{BetView, MarketView};
use vstd::prelude::*;

verus! {

/// The sum of `f` over all bets.
pub open spec fn total(bets: Seq<BetView>, f: spec_fn(BetView) -> int) -> int
    decreases bets.len(),
{
    if bets.len() == 0 {
        0
    } else {
        total(bets.drop_last(), f) + f(bets.last())
    }
}

/// Adding a bet adds its term.
pub proof fn lemma_total_push(bets: Seq<BetView>, b: BetView, f: spec_fn(BetView) -> int)
    ensures
        total(bets.push(b), f) == total(bets, f) + f(b),
{
    assert(bets.push(b).drop_last() =~= bets);
}

/// Replacing a bet replaces its term.
pub proof fn lemma_total_update(bets: Seq<BetView>, j: int, b: BetView, f: spec_fn(BetView) -> int)
    requires
        0 <= j < bets.len(),
    ensures
        total(bets.update(j, b), f) == total(bets, f) - f(bets[j]) + f(b),
    decreases bets.len(),
{
    let after = bets.update(j, b);
    if j == bets.len() - 1 {
        assert(after.drop_last() =~= bets.drop_last());
    } else {
        lemma_total_update(bets.drop_last(), j, b, f);
        assert(after.drop_last() =~= bets.drop_last().update(j, b));
    }
}

/// Two terms that agree on every bet have the same sum.
pub proof fn lemma_total_agree(
    bets: Seq<BetView>,
    f: spec_fn(BetView) -> int,
    g: spec_fn(BetView) -> int,
)
    requires
        forall|i: int| 0 <= i < bets.len() ==> f(#[trigger] bets[i]) == g(bets[i]),
    ensures
        total(bets, f) == total(bets, g),
    decreases bets.len(),
{
    if bets.len() > 0 {
        lemma_total_agree(bets.drop_last(), f, g);
    }
}

/// A term that is nowhere negative has a sum that is not negative, and
/// no single term exceeds the sum.
pub proof fn lemma_total_bounds(bets: Seq<BetView>, f: spec_fn(BetView) -> int)
    requires
        forall|i: int| 0 <= i < bets.len() ==> 0 <= f(#[trigger] bets[i]),
    ensures
        0 <= total(bets, f),
        forall|i: int| 0 <= i < bets.len() ==> f(#[trigger] bets[i]) <= total(bets, f),
    decreases bets.len(),
{
    if bets.len() > 0 {
        lemma_total_bounds(bets.drop_last(), f);
        assert forall|i: int| 0 <= i < bets.len() implies f(#[trigger] bets[i]) <= total(
            bets,
            f,
        ) by {
            if i < bets.len() - 1 {
                assert(bets.drop_last()[i] == bets[i]);
            }
        }
    }
}

/// A term that is zero on every bet sums to zero.
pub proof fn lemma_total_zero(bets: Seq<BetView>, f: spec_fn(BetView) -> int)
    requires
        forall|i: int| 0 <= i < bets.len() ==> f(#[trigger] bets[i]) == 0,
    ensures
        total(bets, f) == 0,
    decreases bets.len(),
{
    if bets.len() > 0 {
        lemma_total_zero(bets.drop_last(), f);
    }
}

/// The sum of a term that splits into two is the sum of the two sums.
pub proof fn lemma_total_split(
    bets: Seq<BetView>,
    whole: spec_fn(BetView) -> int,
    left: spec_fn(BetView) -> int,
    right: spec_fn(BetView) -> int,
)
    requires
        forall|i: int|
            0 <= i < bets.len() ==> whole(#[trigger] bets[i]) == left(bets[i]) + right(bets[i]),
    ensures
        total(bets, whole) == total(bets, left) + total(bets, right),
    decreases bets.len(),
{
    if bets.len() > 0 {
        lemma_total_split(bets.drop_last(), whole, left, right);
    }
}

/// Truncating each of two quotients loses at least as much as truncating
/// the quotient of the sum.
pub proof fn lemma_floor_superadditive(x: int, y: int, d: int)
    requires
        0 <= x,
        0 <= y,
        0 < d,
    ensures
        x / d + y / d <= (x + y) / d,
{
    assert(x / d + y / d <= (x + y) / d) by (nonlinear_arith)
        requires
            0 <= x,
            0 <= y,
            0 < d,
    ;
}

/// The stake of a bet if it is on `side` of the market `key`, else nothing.
pub open spec fn stake_on(key: Seq<u8>, side: bool) -> spec_fn(BetView) -> int {
    |b: BetView|
        if b.market == key && b.outcome == side {
            b.amount as int
        } else {
            0
        }
}

/// Everything that was staked on `side` of the market `key`.
pub open spec fn staked(bets: Seq<BetView>, key: Seq<u8>, side: bool) -> int {
    total(bets, stake_on(key, side))
}

/// Whether a bet is on the winning side of the resolved market `key`.
pub open spec fn is_winner(key: Seq<u8>, market: MarketView, b: BetView) -> bool {
    b.market == key && market.outcome == Some(b.outcome)
}

/// The payout of a bet if it wins in the market `key`, else nothing.
pub open spec fn winnings_of(key: Seq<u8>, market: MarketView) -> spec_fn(BetView) -> int {
    |b: BetView|
        if is_winner(key, market, b) {
            claim_payout(market, b)
        } else {
            0
        }
}

/// The payout of a bet if it wins and has been paid, else nothing.
pub open spec fn paid_of(key: Seq<u8>, market: MarketView) -> spec_fn(BetView) -> int {
    |b: BetView|
        if is_winner(key, market, b) && b.claimed {
            claim_payout(market, b)
        } else {
            0
        }
}

/// The payout of a bet if it wins and has not been paid, else nothing.
pub open spec fn owed_of(key: Seq<u8>, market: MarketView) -> spec_fn(BetView) -> int {
    |b: BetView|
        if is_winner(key, market, b) && !b.claimed {
            claim_payout(market, b)
        } else {
            0
        }
}

/// What all winners of the market `key` receive together.
pub open spec fn winnings(bets: Seq<BetView>, key: Seq<u8>, market: MarketView) -> int {
    total(bets, winnings_of(key, market))
}

/// What has been paid out of the market `key`.
pub open spec fn paid(bets: Seq<BetView>, key: Seq<u8>, market: MarketView) -> int {
    total(bets, paid_of(key, market))
}

/// What the market `key` still owes its winners.
pub open spec fn owed(bets: Seq<BetView>, key: Seq<u8>, market: MarketView) -> int {
    total(bets, owed_of(key, market))
}

/// The pool of a market.
pub open spec fn pool(market: MarketView) -> int {
    market.total_yes_bets + market.total_no_bets
}

/// The fee of a market.
pub open spec fn fee(market: MarketView) -> int {
    fee_amount(pool(market), market.fee_percentage as int)
}

/// What truncation leaves behind: the part of the pool after the fee that
/// no winner receives.
pub open spec fn dust(bets: Seq<BetView>, key: Seq<u8>, market: MarketView) -> int {
    pool(market) - fee(market) - winnings(bets, key, market)
}

/// No bet in the market `key` has a stake of nothing.
pub open spec fn stakes_positive(bets: Seq<BetView>, key: Seq<u8>) -> bool {
    forall|i: int|
        0 <= i < bets.len() && (#[trigger] bets[i]).market == key ==> bets[i].amount > 0
}

/// Every bet in the market `key` that has been paid is a winner.
pub open spec fn only_winners_paid(bets: Seq<BetView>, key: Seq<u8>, market: MarketView) -> bool {
    forall|i: int|
        0 <= i < bets.len() && (#[trigger] bets[i]).market == key && bets[i].claimed
            ==> is_winner(key, market, bets[i])
}

/// The books of the market `key` agree with its bets: the totals are the
/// sums of the stakes, no stake is zero, only winners of a resolved market
/// have been paid, and what the market holds and what it has paid out add
/// up to the pool.
pub open spec fn books_agree(bets: Seq<BetView>, key: Seq<u8>, market: MarketView) -> bool {
    &&& market.phase_consistent()
    &&& market.fee_percentage <= 10000
    &&& market.total_yes_bets == staked(bets, key, true)
    &&& market.total_no_bets == staked(bets, key, false)
    &&& stakes_positive(bets, key)
    &&& only_winners_paid(bets, key, market)
    &&& market.escrow_balance + paid(bets, key, market) == pool(market)
}

/// The winners' shares are cut from the stake on the winning side: together
/// they do not exceed that stake's share of the pool after the fee.
pub proof fn lemma_winnings_within_stake(bets: Seq<BetView>, key: Seq<u8>, market: MarketView)
    requires
        market.outcome.is_some(),
        market.fee_percentage <= 10000,
        winning_pool(
            market.total_yes_bets as int,
            market.total_no_bets as int,
            market.outcome.unwrap(),
        ) > 0,
    ensures
        0 <= winnings(bets, key, market) <= share(
            staked(bets, key, market.outcome.unwrap()),
            pool_after_fee(pool(market), market.fee_percentage as int),
            winning_pool(
                market.total_yes_bets as int,
                market.total_no_bets as int,
                market.outcome.unwrap(),
            ),
        ),
        0 <= staked(bets, key, market.outcome.unwrap()),
    decreases bets.len(),
{
    let side = market.outcome.unwrap();
    let after_fee = pool_after_fee(pool(market), market.fee_percentage as int);
    let wp = winning_pool(market.total_yes_bets as int, market.total_no_bets as int, side);
    lemma_fee_bounds(pool(market), market.fee_percentage as int);
    assert(0 <= after_fee);
    if bets.len() == 0 {
        assert(0 * after_fee == 0) by (nonlinear_arith);
        assert(0int / wp == 0) by (nonlinear_arith)
            requires
                wp > 0,
        ;
    } else {
        let rest = bets.drop_last();
        let b = bets.last();
        lemma_winnings_within_stake(rest, key, market);
        let s_rest = staked(rest, key, side);
        if is_winner(key, market, b) {
            let a = b.amount as int;
            assert(stake_on(key, side)(b) == a);
            assert(winnings_of(key, market)(b) == share(a, after_fee, wp));
            assert(0 <= s_rest * after_fee && 0 <= a * after_fee && (s_rest + a) * after_fee
                == s_rest * after_fee + a * after_fee) by (nonlinear_arith)
                requires
                    0 <= s_rest,
                    0 <= a,
                    0 <= after_fee,
            ;
            lemma_floor_superadditive(s_rest * after_fee, a * after_fee, wp);
            assert(0 <= (a * after_fee) / wp) by (nonlinear_arith)
                requires
                    0 <= a * after_fee,
                    0 < wp,
            ;
        } else {
            assert(winnings_of(key, market)(b) == 0);
            assert(stake_on(key, side)(b) == 0) by {
                if b.market == key && b.outcome == side {
                    assert(market.outcome == Some(b.outcome));
                }
            }
        }
    }
}

/// Together the winners of a market receive no more than the pool after the
/// fee.
pub proof fn lemma_winnings_within_pool(bets: Seq<BetView>, key: Seq<u8>, market: MarketView)
    requires
        books_agree(bets, key, market),
        market.resolved,
    ensures
        0 <= winnings(bets, key, market) <= pool_after_fee(
            pool(market),
            market.fee_percentage as int,
        ),
        pool_after_fee(pool(market), market.fee_percentage as int) == pool(market) - fee(market),
        0 <= fee(market) <= pool(market),
{
    let side = market.outcome.unwrap();
    let after_fee = pool_after_fee(pool(market), market.fee_percentage as int);
    let wp = winning_pool(market.total_yes_bets as int, market.total_no_bets as int, side);
    lemma_fee_bounds(pool(market), market.fee_percentage as int);
    if wp > 0 {
        lemma_winnings_within_stake(bets, key, market);
        assert(staked(bets, key, side) == wp);
        assert((wp * after_fee) / wp == after_fee) by (nonlinear_arith)
            requires
                wp > 0,
        ;
    } else {
        // Nobody bet on the winning side, so nobody wins.
        assert forall|i: int| 0 <= i < bets.len() implies 0 <= stake_on(key, side)(
            #[trigger] bets[i],
        ) by {}
        lemma_total_bounds(bets, stake_on(key, side));
        assert forall|i: int| 0 <= i < bets.len() implies winnings_of(key, market)(
            #[trigger] bets[i],
        ) == 0 by {
            if is_winner(key, market, bets[i]) {
                assert(stake_on(key, side)(bets[i]) == bets[i].amount);
                assert(stake_on(key, side)(bets[i]) <= total(bets, stake_on(key, side)));
            }
        }
        lemma_total_zero(bets, winnings_of(key, market));
    }
}

/// What has been paid and what is still owed are together what the winners
/// receive.
pub proof fn lemma_paid_and_owed(bets: Seq<BetView>, key: Seq<u8>, market: MarketView)
    ensures
        winnings(bets, key, market) == paid(bets, key, market) + owed(bets, key, market),
{
    lemma_total_split(
        bets,
        winnings_of(key, market),
        paid_of(key, market),
        owed_of(key, market),
    );
}

/// A market whose books agree holds at least what it still owes: every
/// winner who has not claimed yet can be paid in full. What it holds is
/// what it owes, the fee, and the dust.
pub proof fn lemma_solvent(bets: Seq<BetView>, key: Seq<u8>, market: MarketView)
    requires
        books_agree(bets, key, market),
        market.resolved,
    ensures
        market.escrow_balance >= owed(bets, key, market),
        market.escrow_balance == owed(bets, key, market) + fee(market) + dust(bets, key, market),
        dust(bets, key, market) >= 0,
        fee(market) >= 0,
{
    lemma_winnings_within_pool(bets, key, market);
    lemma_paid_and_owed(bets, key, market);
}

/// Of a resolved market whose books agree, what it holds and what it has
/// paid out are together at least the pool less the fee; the two are equal
/// exactly when the fee is nothing.
pub proof fn lemma_conservation(bets: Seq<BetView>, key: Seq<u8>, market: MarketView)
    requires
        books_agree(bets, key, market),
        market.resolved,
    ensures
        market.escrow_balance + paid(bets, key, market) >= pool(market) - fee(market),
        market.escrow_balance + paid(bets, key, market) == pool(market) - fee(market) <==> fee(
            market,
        ) == 0,
{
    lemma_fee_bounds(pool(market), market.fee_percentage as int);
}

} // verus!
