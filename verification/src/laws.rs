//! What holds of every exchange, whatever was done to it.
//!
//! An [`Action`] is one accepted operation. The laws below are stated of a
//! single action, and of a history: a sequence of actions applied to an
//! exchange, each enabled where it is applied.

use crate::accounting::{
    dust, fee, lemma_conservation, lemma_solvent, lemma_winnings_within_pool, owed, paid, pool,
    winnings,
};
use crate::address::market_address_spec;
use crate::error::ErrorCode;
use crate::exchange::{
    lemma_bet_keeps_wf, lemma_claim_keeps_wf, lemma_create_keeps_wf, lemma_resolve_keeps_wf,
    ExchangeView,
};
use crate::instructions::{claim_error, place_bet_error};
use crate::record::{BetView, MarketView};
use vstd::prelude::*;

verus! {

/// One accepted operation on an exchange.
pub enum Action {
    /// Store the fresh market `created` under `key`.
    Create { key: Seq<u8>, created: MarketView },
    /// Place `placed` in the market at position `market`, at the time `now`.
    Bet { market: int, placed: BetView, now: i64 },
    /// Resolve the market at position `market` with `outcome`.
    Resolve { market: int, outcome: bool },
    /// Pay the bet at position `bet` out of the market at position `market`.
    Claim { market: int, bet: int },
}

impl ExchangeView {
    /// Whether the operations accept `action` on this exchange.
    pub open spec fn enabled(self, action: Action) -> bool {
        match action {
            Action::Create { key, created } => {
                &&& !self.has_market(key)
                &&& created.wf()
                &&& !created.resolved
                &&& created.total_yes_bets == 0
                &&& created.total_no_bets == 0
                &&& created.fee_percentage <= 10000
                &&& market_address_spec(self.program, created.creator, created.question_hash)
                    == Some((key, created.bump))
            },
            Action::Bet { market, placed, now } => {
                &&& 0 <= market < self.markets.len()
                &&& placed.market == self.keys[market]
                &&& !self.has_bet(placed.market, placed.bettor)
                &&& !placed.claimed
                &&& place_bet_error(
                    self.markets[market],
                    placed.amount,
                    placed.outcome,
                    now,
                ).is_none()
            },
            Action::Resolve { market, outcome } => {
                &&& 0 <= market < self.markets.len()
                &&& !self.markets[market].resolved
            },
            Action::Claim { market, bet } => {
                &&& 0 <= market < self.markets.len()
                &&& 0 <= bet < self.bets.len()
                &&& self.bets[bet].market == self.keys[market]
                &&& claim_error(
                    self.markets[market],
                    self.keys[market],
                    self.bets[bet],
                    self.bets[bet].bettor,
                ).is_none()
            },
        }
    }

    /// The exchange after `action`.
    pub open spec fn after(self, action: Action) -> ExchangeView {
        match action {
            Action::Create { key, created } => self.with_market(key, created),
            Action::Bet { market, placed, now } => self.with_bet(market, placed),
            Action::Resolve { market, outcome } => self.with_resolution(market, outcome),
            Action::Claim { market, bet } => self.with_claim(market, bet),
        }
    }

    /// Whether each of `actions` is enabled where it is applied, starting
    /// from this exchange.
    pub open spec fn accepts(self, actions: Seq<Action>) -> bool
        decreases actions.len(),
    {
        if actions.len() == 0 {
            true
        } else {
            self.accepts(actions.drop_last()) && self.after_all(actions.drop_last()).enabled(
                actions.last(),
            )
        }
    }

    /// The exchange after all of `actions`, in order.
    pub open spec fn after_all(self, actions: Seq<Action>) -> ExchangeView
        decreases actions.len(),
    {
        if actions.len() == 0 {
            self
        } else {
            self.after_all(actions.drop_last()).after(actions.last())
        }
    }
}

/// Every accepted action keeps a well-formed exchange well formed.
pub proof fn law_action_keeps_wf(ex: ExchangeView, action: Action)
    requires
        ex.wf(),
        ex.enabled(action),
    ensures
        ex.after(action).wf(),
{
    match action {
        Action::Create { key, created } => lemma_create_keeps_wf(ex, key, created),
        Action::Bet { market, placed, now } => lemma_bet_keeps_wf(ex, market, placed, now),
        Action::Resolve { market, outcome } => lemma_resolve_keeps_wf(ex, market, outcome),
        Action::Claim { market, bet } => lemma_claim_keeps_wf(ex, market, bet),
    }
}

/// An action never removes a record nor moves one: the markets and bets
/// that were stored stay at their positions, under their addresses.
pub proof fn law_records_stay(ex: ExchangeView, action: Action)
    requires
        ex.keys.len() == ex.markets.len(),
        ex.enabled(action),
    ensures
        ex.after(action).program == ex.program,
        ex.after(action).keys.len() == ex.after(action).markets.len(),
        ex.after(action).markets.len() >= ex.markets.len(),
        ex.after(action).bets.len() >= ex.bets.len(),
        forall|i: int| 0 <= i < ex.keys.len() ==> ex.after(action).keys[i] == ex.keys[i],
{
}

/// The totals of a market never decrease.
pub proof fn law_totals_never_decrease(ex: ExchangeView, action: Action, i: int)
    requires
        ex.keys.len() == ex.markets.len(),
        ex.enabled(action),
        0 <= i < ex.markets.len(),
    ensures
        ex.after(action).markets[i].total_yes_bets >= ex.markets[i].total_yes_bets,
        ex.after(action).markets[i].total_no_bets >= ex.markets[i].total_no_bets,
{
}

/// Only a bet moves the totals of a market, and only those of the market
/// it is placed in, by its stake on its side.
pub proof fn law_only_bets_move_totals(ex: ExchangeView, action: Action, i: int)
    requires
        ex.keys.len() == ex.markets.len(),
        ex.enabled(action),
        0 <= i < ex.markets.len(),
    ensures
        match action {
            Action::Bet { market, placed, now } if market == i => {
                &&& ex.after(action).markets[i].total_yes_bets == ex.markets[i].total_yes_bets + (
                if placed.outcome {
                    placed.amount as int
                } else {
                    0
                })
                &&& ex.after(action).markets[i].total_no_bets == ex.markets[i].total_no_bets + (
                if placed.outcome {
                    0
                } else {
                    placed.amount as int
                })
                &&& ex.after(action).markets[i].escrow_balance == ex.markets[i].escrow_balance
                    + placed.amount
            },
            _ => {
                &&& ex.after(action).markets[i].total_yes_bets == ex.markets[i].total_yes_bets
                &&& ex.after(action).markets[i].total_no_bets == ex.markets[i].total_no_bets
            },
        },
{
}

/// Once a market is resolved, it stays resolved, and its outcome and its
/// totals never change.
pub proof fn law_resolution_is_final(ex: ExchangeView, action: Action, i: int)
    requires
        ex.keys.len() == ex.markets.len(),
        ex.enabled(action),
        0 <= i < ex.markets.len(),
        ex.markets[i].resolved,
    ensures
        ex.after(action).markets[i].resolved,
        ex.after(action).markets[i].outcome == ex.markets[i].outcome,
        ex.after(action).markets[i].total_yes_bets == ex.markets[i].total_yes_bets,
        ex.after(action).markets[i].total_no_bets == ex.markets[i].total_no_bets,
{
}

/// What a market was created with never changes: its creator, its
/// resolution authority, its question and digest, its deadline and its
/// fee.
pub proof fn law_terms_are_fixed(ex: ExchangeView, action: Action, i: int)
    requires
        ex.keys.len() == ex.markets.len(),
        ex.enabled(action),
        0 <= i < ex.markets.len(),
    ensures
        ex.after(action).markets[i].creator == ex.markets[i].creator,
        ex.after(action).markets[i].resolution_authority == ex.markets[i].resolution_authority,
        ex.after(action).markets[i].question == ex.markets[i].question,
        ex.after(action).markets[i].question_hash == ex.markets[i].question_hash,
        ex.after(action).markets[i].end_time == ex.markets[i].end_time,
        ex.after(action).markets[i].fee_percentage == ex.markets[i].fee_percentage,
{
}

/// A bet keeps its bettor, its market, its stake and its side, and a bet
/// that has been paid stays paid.
pub proof fn law_bets_are_fixed(ex: ExchangeView, action: Action, j: int)
    requires
        ex.enabled(action),
        0 <= j < ex.bets.len(),
    ensures
        ex.after(action).bets[j].bettor == ex.bets[j].bettor,
        ex.after(action).bets[j].market == ex.bets[j].market,
        ex.after(action).bets[j].amount == ex.bets[j].amount,
        ex.after(action).bets[j].outcome == ex.bets[j].outcome,
        ex.bets[j].claimed ==> ex.after(action).bets[j].claimed,
{
}

/// A claim succeeds at most once: right after a bet has been paid, a
/// second claim on it is refused with `AlreadyClaimed`.
pub proof fn law_claim_succeeds_once(ex: ExchangeView, market: int, bet: int)
    requires
        ex.wf(),
        ex.enabled(Action::Claim { market, bet }),
    ensures
        ex.with_claim(market, bet).claim_result(ex.keys[market], ex.bets[bet].bettor) == Err::<
            int,
            ErrorCode,
        >(ErrorCode::AlreadyClaimed),
        !ex.with_claim(market, bet).enabled(Action::Claim { market, bet }),
{
    let after = ex.with_claim(market, bet);
    lemma_claim_keeps_wf(ex, market, bet);
    assert(after.market_at(ex.keys[market], market));
    assert(after.bet_at(ex.keys[market], ex.bets[bet].bettor, bet));
    after.lemma_market_index(ex.keys[market], market);
    after.lemma_bet_index(ex.keys[market], ex.bets[bet].bettor, bet);
}

/// Two stored markets never have the same creator and the same question
/// digest.
pub proof fn law_market_keys_are_unique(ex: ExchangeView, i: int, j: int)
    requires
        ex.wf(),
        0 <= i < ex.markets.len(),
        0 <= j < ex.markets.len(),
        i != j,
    ensures
        !(ex.markets[i].creator == ex.markets[j].creator && ex.markets[i].question_hash
            == ex.markets[j].question_hash),
        ex.keys[i] != ex.keys[j],
{
    assert(ex.market_ok(i));
    assert(ex.market_ok(j));
    if i < j {
        assert(ex.keys[i] != ex.keys[j]);
    } else {
        assert(ex.keys[j] != ex.keys[i]);
    }
}

/// A market cannot be created a second time: while one is stored for a
/// creator and a digest, creating another for the same two is refused.
pub proof fn law_duplicate_market_is_refused(
    ex: ExchangeView,
    i: int,
    question: Seq<char>,
    end_time: i64,
    now: i64,
)
    requires
        ex.wf(),
        0 <= i < ex.markets.len(),
    ensures
        ex.create_market_result(
            ex.markets[i].creator,
            question,
            end_time,
            ex.markets[i].question_hash,
            now,
        ).is_err(),
{
    assert(ex.market_ok(i));
    assert(ex.market_at(ex.keys[i], i));
}

/// The stored digest of every market is the digest of its question.
pub proof fn law_digest_is_bound(ex: ExchangeView, i: int)
    requires
        ex.wf(),
        0 <= i < ex.markets.len(),
    ensures
        ex.markets[i].hash_bound(),
        ex.markets[i].question_fits(),
{
    assert(ex.market_ok(i));
}

/// A second bet of one bettor in one market is refused with
/// `AlreadyExists`, whatever its stake, its side and the time.
pub proof fn law_duplicate_bet_is_refused(
    ex: ExchangeView,
    j: int,
    amount: u64,
    outcome: bool,
    now: i64,
)
    requires
        ex.wf(),
        0 <= j < ex.bets.len(),
    ensures
        ex.place_bet_result(ex.bets[j].market, ex.bets[j].bettor, amount, outcome, now) == Err::<
            (Seq<u8>, u8),
            ErrorCode,
        >(ErrorCode::AlreadyExists),
{
    assert(ex.has_market(ex.bets[j].market));
    assert(ex.bet_at(ex.bets[j].market, ex.bets[j].bettor, j));
}

/// Until it is resolved, a market holds exactly what was staked in it.
pub proof fn law_open_market_holds_the_stakes(ex: ExchangeView, i: int)
    requires
        ex.wf(),
        0 <= i < ex.markets.len(),
        !ex.markets[i].resolved,
    ensures
        ex.markets[i].escrow_balance == pool(ex.markets[i]),
        paid(ex.bets, ex.keys[i], ex.markets[i]) == 0,
{
    assert(ex.market_ok(i));
}

/// A resolved market holds at least what it still owes its winners: it
/// holds exactly what it owes, the fee, and the dust that truncation left
/// behind.
pub proof fn law_solvency(ex: ExchangeView, i: int)
    requires
        ex.wf(),
        0 <= i < ex.markets.len(),
        ex.markets[i].resolved,
    ensures
        ex.markets[i].escrow_balance >= owed(ex.bets, ex.keys[i], ex.markets[i]),
        ex.markets[i].escrow_balance == owed(ex.bets, ex.keys[i], ex.markets[i]) + fee(
            ex.markets[i],
        ) + dust(ex.bets, ex.keys[i], ex.markets[i]),
        dust(ex.bets, ex.keys[i], ex.markets[i]) >= 0,
        fee(ex.markets[i]) >= 0,
{
    assert(ex.market_ok(i));
    lemma_solvent(ex.bets, ex.keys[i], ex.markets[i]);
}

/// What a resolved market holds and what it has paid out are together the
/// pool, hence at least the pool less the fee. All its winners together
/// receive no more than the pool less the fee, and exactly that where
/// truncation left no dust.
pub proof fn law_conservation(ex: ExchangeView, i: int)
    requires
        ex.wf(),
        0 <= i < ex.markets.len(),
        ex.markets[i].resolved,
    ensures
        ex.markets[i].escrow_balance + paid(ex.bets, ex.keys[i], ex.markets[i]) == pool(
            ex.markets[i],
        ),
        ex.markets[i].escrow_balance + paid(ex.bets, ex.keys[i], ex.markets[i]) >= pool(
            ex.markets[i],
        ) - fee(ex.markets[i]),
        winnings(ex.bets, ex.keys[i], ex.markets[i]) <= pool(ex.markets[i]) - fee(ex.markets[i]),
        winnings(ex.bets, ex.keys[i], ex.markets[i]) == pool(ex.markets[i]) - fee(ex.markets[i])
            <==> dust(ex.bets, ex.keys[i], ex.markets[i]) == 0,
        0 <= fee(ex.markets[i]) <= pool(ex.markets[i]),
{
    assert(ex.market_ok(i));
    lemma_conservation(ex.bets, ex.keys[i], ex.markets[i]);
    lemma_winnings_within_pool(ex.bets, ex.keys[i], ex.markets[i]);
}

/// Every history that starts from a well-formed exchange ends in one.
pub proof fn law_history_keeps_wf(ex: ExchangeView, actions: Seq<Action>)
    requires
        ex.wf(),
        ex.accepts(actions),
    ensures
        ex.after_all(actions).wf(),
        ex.after_all(actions).markets.len() >= ex.markets.len(),
        ex.after_all(actions).bets.len() >= ex.bets.len(),
    decreases actions.len(),
{
    if actions.len() > 0 {
        law_history_keeps_wf(ex, actions.drop_last());
        let mid = ex.after_all(actions.drop_last());
        law_action_keeps_wf(mid, actions.last());
        law_records_stay(mid, actions.last());
    }
}

/// Over every history the totals of a market never decrease; once it is
/// resolved, its outcome and totals never change; and a bet that has been
/// paid stays paid, with the stake and the side it was placed with.
pub proof fn law_history_is_monotone(ex: ExchangeView, actions: Seq<Action>, i: int, j: int)
    requires
        ex.wf(),
        ex.accepts(actions),
    ensures
        0 <= i < ex.markets.len() ==> {
            let before = ex.markets[i];
            let after = ex.after_all(actions).markets[i];
            &&& after.total_yes_bets >= before.total_yes_bets
            &&& after.total_no_bets >= before.total_no_bets
            &&& before.resolved ==> after.resolved && after.outcome == before.outcome
                && after.total_yes_bets == before.total_yes_bets && after.total_no_bets
                == before.total_no_bets
        },
        0 <= j < ex.bets.len() ==> {
            let before = ex.bets[j];
            let after = ex.after_all(actions).bets[j];
            &&& after.amount == before.amount
            &&& after.outcome == before.outcome
            &&& before.claimed ==> after.claimed
        },
    decreases actions.len(),
{
    if actions.len() > 0 {
        law_history_is_monotone(ex, actions.drop_last(), i, j);
        law_history_keeps_wf(ex, actions.drop_last());
        let mid = ex.after_all(actions.drop_last());
        if 0 <= i < ex.markets.len() {
            law_totals_never_decrease(mid, actions.last(), i);
            if mid.markets[i].resolved {
                law_resolution_is_final(mid, actions.last(), i);
            }
        }
        if 0 <= j < ex.bets.len() {
            law_bets_are_fixed(mid, actions.last(), j);
        }
    }
}

/// A market that `create_market` stores is an accepted action.
pub proof fn law_creation_is_an_action(
    ex: ExchangeView,
    creator: Seq<u8>,
    question: Seq<char>,
    end_time: i64,
    question_hash: Seq<u8>,
    now: i64,
)
    requires
        ex.create_market_result(creator, question, end_time, question_hash, now).is_ok(),
    ensures
        ({
            let (key, bump) = ex.create_market_result(
                creator,
                question,
                end_time,
                question_hash,
                now,
            ).unwrap();
            ex.enabled(
                Action::Create {
                    key,
                    created: MarketView::created(creator, question, question_hash, end_time, bump),
                },
            )
        }),
{
}

/// A bet that `place_bet` stores is an accepted action.
pub proof fn law_betting_is_an_action(
    ex: ExchangeView,
    market_id: Seq<u8>,
    bettor: Seq<u8>,
    amount: u64,
    outcome: bool,
    now: i64,
)
    requires
        ex.wf(),
        ex.place_bet_result(market_id, bettor, amount, outcome, now).is_ok(),
    ensures
        ({
            let (key, bump) = ex.place_bet_result(market_id, bettor, amount, outcome, now).unwrap();
            ex.enabled(
                Action::Bet {
                    market: ex.market_index(market_id),
                    placed: BetView {
                        bettor,
                        market: market_id,
                        amount,
                        outcome,
                        claimed: false,
                        bump,
                    },
                    now,
                },
            )
        }),
{
    assert(ex.market_at(market_id, ex.market_index(market_id)));
}

/// A resolution that `resolve_market` accepts is an accepted action.
pub proof fn law_resolving_is_an_action(
    ex: ExchangeView,
    market_id: Seq<u8>,
    signer: Seq<u8>,
    outcome: bool,
    now: i64,
)
    requires
        ex.wf(),
        ex.resolve_result(market_id, signer, now).is_none(),
    ensures
        ex.enabled(Action::Resolve { market: ex.market_index(market_id), outcome }),
{
    assert(ex.market_at(market_id, ex.market_index(market_id)));
}

/// A claim that `claim_winnings` pays is an accepted action.
pub proof fn law_claiming_is_an_action(ex: ExchangeView, market_id: Seq<u8>, bettor: Seq<u8>)
    requires
        ex.wf(),
        ex.claim_result(market_id, bettor).is_ok(),
    ensures
        ex.enabled(
            Action::Claim {
                market: ex.market_index(market_id),
                bet: ex.bet_index(market_id, bettor),
            },
        ),
{
    assert(ex.market_at(market_id, ex.market_index(market_id)));
    assert(ex.bet_at(market_id, bettor, ex.bet_index(market_id, bettor)));
}

} // verus!
