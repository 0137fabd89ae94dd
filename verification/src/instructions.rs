//! The four operations of a market: create it, bet on it, resolve it, and
//! claim the winnings.
//!
//! Each operation works on a context that holds the records it touches and
//! the identity of the signer, and reads the clock as an argument. It either
//! succeeds and writes the records, or fails and leaves the context exactly
//! as it was.

use crate::arith::{try_add, try_sub};
use crate::digest::{question_digest, question_digest_spec};
use crate::error::ErrorCode;
use crate::identity::{bytes_eq, Id};
use crate::payout::{compute_payout, payout_defined, payout_spec};
use crate::record::{
    Bet, BetView, Market, MarketView, DEFAULT_FEE_BPS, MAX_QUESTION_LENGTH,
};
use vstd::prelude::*;

verus! {

/// What creating a market touches.
#[derive(Debug)]
pub struct InitializeMarket {
    /// The blank record that becomes the market.
    pub market: Market,
    /// The signer, who becomes creator and resolution authority.
    pub creator: Id,
    /// Seed byte of the market's address.
    pub bump: u8,
}

/// What placing a bet touches.
#[derive(Debug)]
pub struct PlaceBet {
    /// The market that is bet on.
    pub market: Market,
    /// The market's address.
    pub market_key: Id,
    /// The blank record that becomes the bet.
    pub bet: Bet,
    /// The signer, who stakes the amount.
    pub bettor: Id,
    /// Seed byte of the bet's address.
    pub bump: u8,
}

/// What resolving a market touches.
#[derive(Debug)]
pub struct ResolveMarket {
    /// The market to resolve.
    pub market: Market,
    /// The signer.
    pub resolution_authority: Id,
}

/// What claiming the winnings touches.
#[derive(Debug)]
pub struct ClaimWinnings {
    /// The resolved market.
    pub market: Market,
    /// The market's address.
    pub market_key: Id,
    /// The bet that is claimed on.
    pub bet: Bet,
    /// The signer, who is paid.
    pub bettor: Id,
}

/// Why a market cannot be created, if it cannot. `digest` is the digest of
/// the question's bytes.
pub open spec fn initialize_error(
    question: Seq<char>,
    end_time: i64,
    question_hash: Seq<u8>,
    digest: Seq<u8>,
    now: i64,
) -> Option<ErrorCode> {
    if end_time <= now {
        Some(ErrorCode::InvalidEndTime)
    } else if digest != question_hash {
        Some(ErrorCode::HashMismatch)
    } else if vstd::utf8::encode_utf8(question).len() > 200 {
        Some(ErrorCode::QuestionTooLong)
    } else {
        None
    }
}

/// Creates a market, given the digest of the question's bytes.
///
/// Refuses a deadline that is not after `now`, a `question_hash` that
/// differs from `digest`, and a question of more than 200 bytes, in this
/// order. Otherwise the market starts open, unresolved and empty, with a fee
/// of one percent and the signer as its resolution authority.
pub fn initialize_market_with_digest(
    ctx: &mut InitializeMarket,
    question: String,
    end_time: i64,
    question_hash: [u8; 32],
    digest: [u8; 32],
    now: i64,
) -> (r: Result<(), ErrorCode>)
    ensures
        match initialize_error(question@, end_time, question_hash@, digest@, now) {
            Some(e) => r == Err::<(), ErrorCode>(e) && *final(ctx) == *old(ctx),
            None => {
                &&& r == Ok::<(), ErrorCode>(())
                &&& final(ctx).market@ == MarketView::created(
                    old(ctx).creator@,
                    question@,
                    question_hash@,
                    end_time,
                    old(ctx).bump,
                )
                &&& final(ctx).creator == old(ctx).creator
                &&& final(ctx).bump == old(ctx).bump
            },
        },
{
    if end_time <= now {
        return Err(ErrorCode::InvalidEndTime);
    }
    if !bytes_eq(&digest, &question_hash) {
        return Err(ErrorCode::HashMismatch);
    }
    if question.as_str().as_bytes().len() > MAX_QUESTION_LENGTH {
        return Err(ErrorCode::QuestionTooLong);
    }
    ctx.market.creator = ctx.creator;
    ctx.market.resolution_authority = ctx.creator;
    ctx.market.question = question;
    ctx.market.question_hash = question_hash;
    ctx.market.end_time = end_time;
    ctx.market.resolved = false;
    ctx.market.outcome = None;
    ctx.market.total_yes_bets = 0;
    ctx.market.total_no_bets = 0;
    ctx.market.fee_percentage = DEFAULT_FEE_BPS;
    ctx.market.escrow_balance = 0;
    ctx.market.bump = ctx.bump;
    Ok(())
}

/// Creates a market.
///
/// Computes the digest of the question and proceeds as
/// [`initialize_market_with_digest`]. A market that comes out of it is well
/// formed: its stored digest is the digest of its question.
pub fn initialize_market(
    ctx: &mut InitializeMarket,
    question: String,
    end_time: i64,
    question_hash: [u8; 32],
    now: i64,
) -> (r: Result<(), ErrorCode>)
    ensures
        match initialize_error(
            question@,
            end_time,
            question_hash@,
            question_digest_spec(question@),
            now,
        ) {
            Some(e) => r == Err::<(), ErrorCode>(e) && *final(ctx) == *old(ctx),
            None => {
                &&& r == Ok::<(), ErrorCode>(())
                &&& final(ctx).market@ == MarketView::created(
                    old(ctx).creator@,
                    question@,
                    question_hash@,
                    end_time,
                    old(ctx).bump,
                )
                &&& final(ctx).market@.wf()
                &&& final(ctx).creator == old(ctx).creator
                &&& final(ctx).bump == old(ctx).bump
            },
        },
{
    let digest = question_digest(question.as_str());
    initialize_market_with_digest(ctx, question, end_time, question_hash, digest, now)
}

/// Why a bet cannot be placed, if it cannot.
pub open spec fn place_bet_error(
    market: MarketView,
    amount: u64,
    outcome: bool,
    now: i64,
) -> Option<ErrorCode> {
    if market.resolved {
        Some(ErrorCode::MarketAlreadyResolved)
    } else if now >= market.end_time {
        Some(ErrorCode::BettingPeriodEnded)
    } else if amount == 0 {
        Some(ErrorCode::InvalidAmount)
    } else if (if outcome {
        market.total_yes_bets
    } else {
        market.total_no_bets
    }) + amount > u64::MAX || market.escrow_balance + amount > u64::MAX {
        Some(ErrorCode::MathOverflow)
    } else {
        None
    }
}

/// A market after a stake of `amount` on `outcome` has been added to it.
pub open spec fn market_after_bet(market: MarketView, amount: u64, outcome: bool) -> MarketView {
    MarketView {
        total_yes_bets: if outcome {
            (market.total_yes_bets + amount) as u64
        } else {
            market.total_yes_bets
        },
        total_no_bets: if outcome {
            market.total_no_bets
        } else {
            (market.total_no_bets + amount) as u64
        },
        escrow_balance: (market.escrow_balance + amount) as u64,
        ..market
    }
}

/// Places the signer's bet of `amount` on `outcome`.
///
/// Refuses a resolved market, a bet at or after the deadline, a stake of
/// zero, and a stake that would overflow the side's total or the escrow, in
/// this order. Otherwise the stake is added to the side's total and to the
/// escrow, and the bet record is written, unclaimed.
pub fn place_bet(ctx: &mut PlaceBet, amount: u64, outcome: bool, now: i64) -> (r: Result<
    (),
    ErrorCode,
>)
    ensures
        match place_bet_error(old(ctx).market@, amount, outcome, now) {
            Some(e) => r == Err::<(), ErrorCode>(e) && *final(ctx) == *old(ctx),
            None => {
                &&& r == Ok::<(), ErrorCode>(())
                &&& final(ctx).market@ == market_after_bet(old(ctx).market@, amount, outcome)
                &&& final(ctx).bet@ == (BetView {
                    bettor: old(ctx).bettor@,
                    market: old(ctx).market_key@,
                    amount,
                    outcome,
                    claimed: false,
                    bump: old(ctx).bump,
                })
                &&& final(ctx).market_key == old(ctx).market_key
                &&& final(ctx).bettor == old(ctx).bettor
                &&& final(ctx).bump == old(ctx).bump
            },
        },
{
    if ctx.market.resolved {
        return Err(ErrorCode::MarketAlreadyResolved);
    }
    if now >= ctx.market.end_time {
        return Err(ErrorCode::BettingPeriodEnded);
    }
    if amount == 0 {
        return Err(ErrorCode::InvalidAmount);
    }
    let side_total = if outcome {
        ctx.market.total_yes_bets
    } else {
        ctx.market.total_no_bets
    };
    let new_total = match try_add(side_total, amount) {
        Ok(v) => v,
        Err(e) => { return Err(e); },
    };
    let new_escrow = match try_add(ctx.market.escrow_balance, amount) {
        Ok(v) => v,
        Err(e) => { return Err(e); },
    };
    if outcome {
        ctx.market.total_yes_bets = new_total;
    } else {
        ctx.market.total_no_bets = new_total;
    }
    ctx.market.escrow_balance = new_escrow;
    ctx.bet.bettor = ctx.bettor;
    ctx.bet.market = ctx.market_key;
    ctx.bet.amount = amount;
    ctx.bet.outcome = outcome;
    ctx.bet.claimed = false;
    ctx.bet.bump = ctx.bump;
    Ok(())
}

/// Why a market cannot be resolved, if it cannot.
pub open spec fn resolve_error(market: MarketView, signer: Seq<u8>, now: i64) -> Option<ErrorCode> {
    if market.resolved {
        Some(ErrorCode::MarketAlreadyResolved)
    } else if now < market.end_time {
        Some(ErrorCode::BettingPeriodNotEnded)
    } else if signer != market.resolution_authority {
        Some(ErrorCode::UnauthorizedResolution)
    } else {
        None
    }
}

/// Declares the outcome of a market.
///
/// Refuses a market that is already resolved, a resolution before the
/// deadline, and a signer other than the resolution authority, in this
/// order. Otherwise the market is resolved with `outcome`; nothing else in
/// it changes.
pub fn resolve_market(ctx: &mut ResolveMarket, outcome: bool, now: i64) -> (r: Result<
    (),
    ErrorCode,
>)
    ensures
        match resolve_error(old(ctx).market@, old(ctx).resolution_authority@, now) {
            Some(e) => r == Err::<(), ErrorCode>(e) && *final(ctx) == *old(ctx),
            None => {
                &&& r == Ok::<(), ErrorCode>(())
                &&& final(ctx).market@ == (MarketView {
                    resolved: true,
                    outcome: Some(outcome),
                    ..old(ctx).market@
                })
                &&& final(ctx).resolution_authority == old(ctx).resolution_authority
            },
        },
{
    if ctx.market.resolved {
        return Err(ErrorCode::MarketAlreadyResolved);
    }
    if now < ctx.market.end_time {
        return Err(ErrorCode::BettingPeriodNotEnded);
    }
    if ctx.resolution_authority != ctx.market.resolution_authority {
        return Err(ErrorCode::UnauthorizedResolution);
    }
    ctx.market.resolved = true;
    ctx.market.outcome = Some(outcome);
    Ok(())
}

/// Why the winnings on a bet cannot be claimed, if they cannot.
pub open spec fn claim_error(
    market: MarketView,
    market_key: Seq<u8>,
    bet: BetView,
    signer: Seq<u8>,
) -> Option<ErrorCode> {
    if bet.bettor != signer || bet.market != market_key {
        Some(ErrorCode::InvalidBettor)
    } else if !market.resolved || market.outcome.is_none() {
        Some(ErrorCode::MarketNotResolved)
    } else if bet.outcome != market.outcome.unwrap() {
        Some(ErrorCode::NotAWinner)
    } else if bet.claimed {
        Some(ErrorCode::AlreadyClaimed)
    } else if !payout_defined(
        market.total_yes_bets,
        market.total_no_bets,
        market.fee_percentage,
        market.outcome.unwrap(),
        bet.amount,
    ) {
        Some(ErrorCode::MathOverflow)
    } else if claim_payout(market, bet) > market.escrow_balance {
        Some(ErrorCode::MathOverflow)
    } else {
        None
    }
}

/// What a winning bet is paid from a resolved market.
pub open spec fn claim_payout(market: MarketView, bet: BetView) -> int {
    payout_spec(
        market.total_yes_bets,
        market.total_no_bets,
        market.fee_percentage,
        market.outcome.unwrap(),
        bet.amount,
    )
}

/// Pays out the signer's winning bet and returns the amount paid.
///
/// Refuses a bet that is not the signer's or not on this market, an
/// unresolved market, a bet on the losing side, a bet already paid, and a
/// payout that cannot be computed or that the escrow cannot cover, in this
/// order. Otherwise the payout leaves the escrow and the bet is marked as
/// claimed; nothing else changes.
pub fn claim_winnings(ctx: &mut ClaimWinnings) -> (r: Result<u64, ErrorCode>)
    ensures
        match claim_error(
            old(ctx).market@,
            old(ctx).market_key@,
            old(ctx).bet@,
            old(ctx).bettor@,
        ) {
            Some(e) => r == Err::<u64, ErrorCode>(e) && *final(ctx) == *old(ctx),
            None => {
                &&& r == Ok::<u64, ErrorCode>(claim_payout(old(ctx).market@, old(ctx).bet@) as u64)
                &&& final(ctx).market@ == (MarketView {
                    escrow_balance: (old(ctx).market@.escrow_balance - claim_payout(
                        old(ctx).market@,
                        old(ctx).bet@,
                    )) as u64,
                    ..old(ctx).market@
                })
                &&& final(ctx).bet@ == (BetView { claimed: true, ..old(ctx).bet@ })
                &&& final(ctx).market_key == old(ctx).market_key
                &&& final(ctx).bettor == old(ctx).bettor
            },
        },
{
    if ctx.bet.bettor != ctx.bettor || ctx.bet.market != ctx.market_key {
        return Err(ErrorCode::InvalidBettor);
    }
    if !ctx.market.resolved {
        return Err(ErrorCode::MarketNotResolved);
    }
    let outcome = match ctx.market.outcome {
        Some(o) => o,
        None => { return Err(ErrorCode::MarketNotResolved); },
    };
    if ctx.bet.outcome != outcome {
        return Err(ErrorCode::NotAWinner);
    }
    if ctx.bet.claimed {
        return Err(ErrorCode::AlreadyClaimed);
    }
    let winnings = match compute_payout(
        ctx.market.total_yes_bets,
        ctx.market.total_no_bets,
        ctx.market.fee_percentage,
        outcome,
        ctx.bet.amount,
    ) {
        Ok(v) => v,
        Err(e) => { return Err(e); },
    };
    let new_escrow = match try_sub(ctx.market.escrow_balance, winnings) {
        Ok(v) => v,
        Err(e) => { return Err(e); },
    };
    ctx.market.escrow_balance = new_escrow;
    ctx.bet.claimed = true;
    Ok(winnings)
}

} // verus!
