//! The registry of markets and bets.
//!
//! An [`Exchange`] stores every market under the address derived from its
//! creator and the digest of its question, and at most one bet for each
//! pair of market and bettor. Its operations find the records, apply the
//! operation of the same name to them, and store the result; they keep the
//! books of every market in agreement with its bets.

use crate::accounting::{
    books_agree, is_winner, lemma_solvent, lemma_total_agree, lemma_total_bounds,
    lemma_total_push, lemma_total_update, lemma_total_zero, owed, owed_of, paid, paid_of,
    stake_on, staked,
};
use crate::address::{bet_address, bet_address_spec, market_address, market_address_spec};
use crate::digest::question_digest_spec;
use crate::error::ErrorCode;
use crate::identity::Id;
use crate::instructions::{
    claim_error, claim_payout, claim_winnings, initialize_error, initialize_market,
    market_after_bet, place_bet, place_bet_error, resolve_error, resolve_market, ClaimWinnings,
    InitializeMarket, PlaceBet, ResolveMarket,
};
use crate::payout::{
    lemma_fee_bounds, lemma_share_bounds, payout_defined, pool_after_fee, winning_pool,
};
use crate::record::{Bet, BetView, Market, MarketView};
use vstd::prelude::*;

verus! {

/// A stored market with its address.
#[derive(Debug)]
struct MarketEntry {
    key: Id,
    market: Market,
}

/// All markets and bets of one program.
#[derive(Debug)]
pub struct Exchange {
    program: Id,
    markets: Vec<MarketEntry>,
    bets: Vec<Bet>,
}

/// What an [`Exchange`] holds, as mathematical values: the markets in the
/// order of their creation, each with its address, and the bets in the
/// order of their placing.
pub struct ExchangeView {
    pub program: Seq<u8>,
    pub keys: Seq<Seq<u8>>,
    pub markets: Seq<MarketView>,
    pub bets: Seq<BetView>,
}

impl ExchangeView {
    /// The position of the market stored under `key`, if there is one.
    pub open spec fn market_at(self, key: Seq<u8>, i: int) -> bool {
        0 <= i < self.keys.len() && self.keys[i] == key
    }

    /// Whether a market is stored under `key`.
    pub open spec fn has_market(self, key: Seq<u8>) -> bool {
        exists|i: int| self.market_at(key, i)
    }

    /// The position of the bet of `bettor` in `market`, if there is one.
    pub open spec fn bet_at(self, market: Seq<u8>, bettor: Seq<u8>, j: int) -> bool {
        0 <= j < self.bets.len() && self.bets[j].market == market && self.bets[j].bettor == bettor
    }

    /// Whether `bettor` has a bet in `market`.
    pub open spec fn has_bet(self, market: Seq<u8>, bettor: Seq<u8>) -> bool {
        exists|j: int| self.bet_at(market, bettor, j)
    }

    /// No two markets share an address.
    pub open spec fn keys_distinct(self) -> bool {
        forall|i: int, j: int|
            0 <= i < j < self.keys.len() ==> #[trigger] self.keys[i] != #[trigger] self.keys[j]
    }

    /// No bettor has two bets in one market.
    pub open spec fn bets_distinct(self) -> bool {
        forall|i: int, j: int|
            0 <= i < j < self.bets.len() ==> !((#[trigger] self.bets[i]).market == (
            #[trigger] self.bets[j]).market && self.bets[i].bettor == self.bets[j].bettor)
    }

    /// The market at `i` is well formed, is stored under the address of
    /// its creator and digest, and its books agree with the bets.
    pub open spec fn market_ok(self, i: int) -> bool {
        &&& self.markets[i].wf()
        &&& market_address_spec(
            self.program,
            self.markets[i].creator,
            self.markets[i].question_hash,
        ) == Some((self.keys[i], self.markets[i].bump))
        &&& books_agree(self.bets, self.keys[i], self.markets[i])
    }

    /// What holds of an exchange between any two operations.
    pub open spec fn wf(self) -> bool {
        &&& self.keys.len() == self.markets.len()
        &&& self.keys_distinct()
        &&& self.bets_distinct()
        &&& forall|i: int| 0 <= i < self.markets.len() ==> self.market_ok(i)
        &&& forall|j: int|
            0 <= j < self.bets.len() ==> self.has_market((#[trigger] self.bets[j]).market)
    }
}

impl View for Exchange {
    type V = ExchangeView;

    closed spec fn view(&self) -> ExchangeView {
        ExchangeView {
            program: self.program@,
            keys: self.markets@.map_values(|e: MarketEntry| e.key@),
            markets: self.markets@.map_values(|e: MarketEntry| e.market@),
            bets: self.bets@.map_values(|b: Bet| b@),
        }
    }
}

impl Exchange {
    /// An exchange without markets or bets, owned by `program`.
    pub fn new(program: Id) -> (r: Exchange)
        ensures
            r@.wf(),
            r@.program == program@,
            r@.keys.len() == 0,
            r@.markets.len() == 0,
            r@.bets.len() == 0,
    {
        Exchange { program, markets: Vec::new(), bets: Vec::new() }
    }

    /// The number of markets.
    pub fn market_count(&self) -> (n: usize)
        ensures
            n == self@.markets.len(),
            n == self@.keys.len(),
    {
        self.markets.len()
    }

    /// The number of bets.
    pub fn bet_count(&self) -> (n: usize)
        ensures
            n == self@.bets.len(),
    {
        self.bets.len()
    }

    /// Finds the position of the market stored under `key`.
    fn find_market(&self, key: &Id) -> (r: Option<usize>)
        ensures
            match r {
                Some(i) => self@.market_at(key@, i as int),
                None => !self@.has_market(key@),
            },
    {
        let mut i: usize = 0;
        while i < self.markets.len()
            invariant
                0 <= i <= self.markets.len(),
                forall|k: int| 0 <= k < i ==> self@.keys[k] != key@,
            decreases self.markets.len() - i,
        {
            if self.markets[i].key == *key {
                return Some(i);
            }
            i += 1;
        }
        None
    }

    /// Finds the position of the bet of `bettor` in `market`.
    fn find_bet(&self, market: &Id, bettor: &Id) -> (r: Option<usize>)
        ensures
            match r {
                Some(j) => self@.bet_at(market@, bettor@, j as int),
                None => !self@.has_bet(market@, bettor@),
            },
    {
        let mut j: usize = 0;
        while j < self.bets.len()
            invariant
                0 <= j <= self.bets.len(),
                forall|k: int|
                    0 <= k < j ==> !(self@.bets[k].market == market@ && self@.bets[k].bettor
                        == bettor@),
            decreases self.bets.len() - j,
        {
            if self.bets[j].market == *market && self.bets[j].bettor == *bettor {
                return Some(j);
            }
            j += 1;
        }
        None
    }

    /// Looks up the market stored under `key`.
    pub fn market(&self, key: &Id) -> (r: Result<&Market, ErrorCode>)
        ensures
            match r {
                Ok(m) => exists|i: int| self@.market_at(key@, i) && self@.markets[i] == m@,
                Err(e) => e == ErrorCode::NotFound && !self@.has_market(key@),
            },
    {
        match self.find_market(key) {
            Some(i) => {
                let m = &self.markets[i].market;
                assert(self@.market_at(key@, i as int) && self@.markets[i as int] == m@);
                Ok(m)
            },
            None => Err(ErrorCode::NotFound),
        }
    }

    /// Looks up the bet of `bettor` in `market`.
    pub fn bet(&self, market: &Id, bettor: &Id) -> (r: Result<&Bet, ErrorCode>)
        ensures
            match r {
                Ok(b) => exists|j: int| self@.bet_at(market@, bettor@, j) && self@.bets[j] == b@,
                Err(e) => e == ErrorCode::NotFound && !self@.has_bet(market@, bettor@),
            },
    {
        match self.find_bet(market, bettor) {
            Some(j) => {
                let b = &self.bets[j];
                assert(self@.bet_at(market@, bettor@, j as int) && self@.bets[j as int] == b@);
                Ok(b)
            },
            None => Err(ErrorCode::NotFound),
        }
    }

    /// Creates a market of `creator` on `question` and returns its address.
    ///
    /// Refuses what [`initialize_market`] refuses; then a market whose
    /// address cannot be derived, with `NotFound`; then a market whose
    /// address is taken, with `AlreadyExists`. Otherwise the new market is
    /// stored behind all others.
    pub fn create_market(
        &mut self,
        creator: Id,
        question: String,
        end_time: i64,
        question_hash: [u8; 32],
        now: i64,
    ) -> (r: Result<Id, ErrorCode>)
        requires
            old(self)@.wf(),
        ensures
            final(self)@.wf(),
            match old(self)@.create_market_result(
                creator@,
                question@,
                end_time,
                question_hash@,
                now,
            ) {
                Err(e) => r == Err::<Id, ErrorCode>(e) && final(self)@ == old(self)@,
                Ok((key, bump)) => {
                    &&& match r {
                        Ok(id) => id@ == key,
                        Err(_) => false,
                    }
                    &&& final(self)@ == old(self)@.with_market(
                        key,
                        MarketView::created(creator@, question@, question_hash@, end_time, bump),
                    )
                },
            },
    {
        let derived = market_address(&self.program, &creator, &question_hash);
        let bump = match derived {
            Some((_, b)) => b,
            None => 0,
        };
        let mut ctx = InitializeMarket { market: Market::default(), creator, bump };
        let ghost asked = question@;
        match initialize_market(&mut ctx, question, end_time, question_hash, now) {
            Ok(()) => {},
            Err(e) => { return Err(e); },
        }
        let key = match derived {
            Some((address, _)) => address,
            None => { return Err(ErrorCode::NotFound); },
        };
        if self.find_market(&key).is_some() {
            return Err(ErrorCode::AlreadyExists);
        }
        let ghost before = self@;
        self.markets.push(MarketEntry { key, market: ctx.market });
        proof {
            let created = MarketView::created(creator@, asked, question_hash@, end_time, bump);
            assert(self@.keys =~= before.keys.push(key@));
            assert(self@.markets =~= before.markets.push(created));
            assert(self@ == before.with_market(key@, created));
            lemma_create_keeps_wf(before, key@, created);
        }
        Ok(key)
    }

    /// Places the bet of `bettor` in the market `market_id` and returns the
    /// bet's address.
    ///
    /// Refuses an unknown market with `NotFound`; then a bettor who already
    /// has a bet in this market, with `AlreadyExists`; then a bet whose
    /// address cannot be derived, with `NotFound`; then what [`place_bet`]
    /// refuses. Otherwise the stake enters the market and the bet is stored
    /// behind all others.
    pub fn place_bet(
        &mut self,
        market_id: Id,
        bettor: Id,
        amount: u64,
        outcome: bool,
        now: i64,
    ) -> (r: Result<Id, ErrorCode>)
        requires
            old(self)@.wf(),
        ensures
            final(self)@.wf(),
            match old(self)@.place_bet_result(market_id@, bettor@, amount, outcome, now) {
                Err(e) => r == Err::<Id, ErrorCode>(e) && final(self)@ == old(self)@,
                Ok((key, bump)) => {
                    &&& match r {
                        Ok(id) => id@ == key,
                        Err(_) => false,
                    }
                    &&& final(self)@ == old(self)@.with_bet(
                        old(self)@.market_index(market_id@),
                        BetView {
                            bettor: bettor@,
                            market: market_id@,
                            amount,
                            outcome,
                            claimed: false,
                            bump,
                        },
                    )
                },
            },
    {
        let i = match self.find_market(&market_id) {
            Some(i) => i,
            None => { return Err(ErrorCode::NotFound); },
        };
        proof {
            self@.lemma_market_index(market_id@, i as int);
        }
        if self.find_bet(&market_id, &bettor).is_some() {
            return Err(ErrorCode::AlreadyExists);
        }
        let (bet_key, bump) = match bet_address(&self.program, &market_id, &bettor) {
            Some(found) => found,
            None => { return Err(ErrorCode::NotFound); },
        };
        let mut ctx = PlaceBet {
            market: self.markets[i].market.duplicate(),
            market_key: market_id,
            bet: Bet::default(),
            bettor,
            bump,
        };
        match place_bet(&mut ctx, amount, outcome, now) {
            Ok(()) => {},
            Err(e) => { return Err(e); },
        }
        let ghost before = self@;
        let ghost placed = ctx.bet@;
        self.markets.set(i, MarketEntry { key: market_id, market: ctx.market });
        self.bets.push(ctx.bet);
        proof {
            assert(self@.keys =~= before.keys);
            assert(self@.markets =~= before.markets.update(
                i as int,
                market_after_bet(before.markets[i as int], amount, outcome),
            ));
            assert(self@.bets =~= before.bets.push(placed));
            assert(self@ == before.with_bet(i as int, placed));
            lemma_bet_keeps_wf(before, i as int, placed, now);
        }
        Ok(bet_key)
    }

    /// Declares the outcome of the market `market_id` on behalf of
    /// `signer`.
    ///
    /// Refuses an unknown market with `NotFound`, then what
    /// [`resolve_market`] refuses. Otherwise the market is resolved; no bet
    /// and no other market changes.
    pub fn resolve_market(&mut self, market_id: Id, signer: Id, outcome: bool, now: i64) -> (r:
        Result<(), ErrorCode>)
        requires
            old(self)@.wf(),
        ensures
            final(self)@.wf(),
            match old(self)@.resolve_result(market_id@, signer@, now) {
                Some(e) => r == Err::<(), ErrorCode>(e) && final(self)@ == old(self)@,
                None => {
                    &&& r == Ok::<(), ErrorCode>(())
                    &&& final(self)@ == old(self)@.with_resolution(
                        old(self)@.market_index(market_id@),
                        outcome,
                    )
                },
            },
    {
        let i = match self.find_market(&market_id) {
            Some(i) => i,
            None => { return Err(ErrorCode::NotFound); },
        };
        proof {
            self@.lemma_market_index(market_id@, i as int);
        }
        let mut ctx = ResolveMarket {
            market: self.markets[i].market.duplicate(),
            resolution_authority: signer,
        };
        match resolve_market(&mut ctx, outcome, now) {
            Ok(()) => {},
            Err(e) => { return Err(e); },
        }
        let ghost before = self@;
        self.markets.set(i, MarketEntry { key: market_id, market: ctx.market });
        proof {
            assert(self@.keys =~= before.keys);
            assert(self@.markets =~= before.with_resolution(i as int, outcome).markets);
            assert(self@ == before.with_resolution(i as int, outcome));
            lemma_resolve_keeps_wf(before, i as int, outcome);
        }
        Ok(())
    }

    /// Pays out the bet of `bettor` in the market `market_id` and returns
    /// the amount paid.
    ///
    /// Refuses an unknown market and an unknown bet with `NotFound`, then
    /// what [`claim_winnings`] refuses. Because the books of every market
    /// agree with its bets, the escrow always covers the payout:
    /// `MathOverflow` is returned only where the payout itself cannot be
    /// computed.
    pub fn claim_winnings(&mut self, market_id: Id, bettor: Id) -> (r: Result<u64, ErrorCode>)
        requires
            old(self)@.wf(),
        ensures
            final(self)@.wf(),
            match old(self)@.claim_result(market_id@, bettor@) {
                Err(e) => r == Err::<u64, ErrorCode>(e) && final(self)@ == old(self)@,
                Ok(payout) => {
                    &&& r == Ok::<u64, ErrorCode>(payout as u64)
                    &&& 0 <= payout <= old(self)@.markets[old(self)@.market_index(
                        market_id@,
                    )].escrow_balance
                    &&& final(self)@ == old(self)@.with_claim(
                        old(self)@.market_index(market_id@),
                        old(self)@.bet_index(market_id@, bettor@),
                    )
                },
            },
            r == Err::<u64, ErrorCode>(ErrorCode::MathOverflow) ==> {
                let m = old(self)@.markets[old(self)@.market_index(market_id@)];
                let b = old(self)@.bets[old(self)@.bet_index(market_id@, bettor@)];
                !payout_defined(
                    m.total_yes_bets,
                    m.total_no_bets,
                    m.fee_percentage,
                    m.outcome.unwrap(),
                    b.amount,
                )
            },
    {
        let i = match self.find_market(&market_id) {
            Some(i) => i,
            None => { return Err(ErrorCode::NotFound); },
        };
        let j = match self.find_bet(&market_id, &bettor) {
            Some(j) => j,
            None => { return Err(ErrorCode::NotFound); },
        };
        proof {
            self@.lemma_market_index(market_id@, i as int);
            self@.lemma_bet_index(market_id@, bettor@, j as int);
            lemma_claim_is_covered(self@, i as int, j as int);
        }
        let mut ctx = ClaimWinnings {
            market: self.markets[i].market.duplicate(),
            market_key: market_id,
            bet: self.bets[j],
            bettor,
        };
        let payout = match claim_winnings(&mut ctx) {
            Ok(v) => v,
            Err(e) => { return Err(e); },
        };
        let ghost before = self@;
        self.markets.set(i, MarketEntry { key: market_id, market: ctx.market });
        self.bets.set(j, ctx.bet);
        proof {
            assert(self@.keys =~= before.keys);
            assert(self@.markets =~= before.with_claim(i as int, j as int).markets);
            assert(self@.bets =~= before.with_claim(i as int, j as int).bets);
            assert(self@ == before.with_claim(i as int, j as int));
            lemma_claim_keeps_wf(before, i as int, j as int);
        }
        Ok(payout)
    }
}

impl ExchangeView {
    /// The position of the market stored under `key`.
    pub open spec fn market_index(self, key: Seq<u8>) -> int {
        choose|i: int| self.market_at(key, i)
    }

    /// The position of the bet of `bettor` in `market`.
    pub open spec fn bet_index(self, market: Seq<u8>, bettor: Seq<u8>) -> int {
        choose|j: int| self.bet_at(market, bettor, j)
    }

    /// A market is stored at one position only.
    pub proof fn lemma_market_index(self, key: Seq<u8>, i: int)
        requires
            self.keys_distinct(),
            self.market_at(key, i),
        ensures
            self.has_market(key),
            self.market_index(key) == i,
    {
        let c = self.market_index(key);
        assert(self.market_at(key, c));
        if c < i {
            assert(self.keys[c] != self.keys[i]);
        } else if i < c {
            assert(self.keys[i] != self.keys[c]);
        }
    }

    /// A bet is stored at one position only.
    pub proof fn lemma_bet_index(self, market: Seq<u8>, bettor: Seq<u8>, j: int)
        requires
            self.bets_distinct(),
            self.bet_at(market, bettor, j),
        ensures
            self.has_bet(market, bettor),
            self.bet_index(market, bettor) == j,
    {
        let c = self.bet_index(market, bettor);
        assert(self.bet_at(market, bettor, c));
        if c < j {
            assert(!(self.bets[c].market == self.bets[j].market && self.bets[c].bettor
                == self.bets[j].bettor));
        } else if j < c {
            assert(!(self.bets[j].market == self.bets[c].market && self.bets[j].bettor
                == self.bets[c].bettor));
        }
    }

    /// The exchange after `bet` has been placed in the market at `i`.
    pub open spec fn with_bet(self, i: int, bet: BetView) -> ExchangeView {
        ExchangeView {
            markets: self.markets.update(
                i,
                market_after_bet(self.markets[i], bet.amount, bet.outcome),
            ),
            bets: self.bets.push(bet),
            ..self
        }
    }

    /// Whether a bet can be placed, and under which address and seed byte.
    pub open spec fn place_bet_result(
        self,
        market_id: Seq<u8>,
        bettor: Seq<u8>,
        amount: u64,
        outcome: bool,
        now: i64,
    ) -> Result<(Seq<u8>, u8), ErrorCode> {
        if !self.has_market(market_id) {
            Err(ErrorCode::NotFound)
        } else if self.has_bet(market_id, bettor) {
            Err(ErrorCode::AlreadyExists)
        } else {
            match bet_address_spec(self.program, market_id, bettor) {
                None => Err(ErrorCode::NotFound),
                Some((key, bump)) => match place_bet_error(
                    self.markets[self.market_index(market_id)],
                    amount,
                    outcome,
                    now,
                ) {
                    Some(e) => Err(e),
                    None => Ok((key, bump)),
                },
            }
        }
    }

    /// The exchange after the market at `i` has been resolved.
    pub open spec fn with_resolution(self, i: int, outcome: bool) -> ExchangeView {
        ExchangeView {
            markets: self.markets.update(
                i,
                MarketView { resolved: true, outcome: Some(outcome), ..self.markets[i] },
            ),
            ..self
        }
    }

    /// Why a market cannot be resolved, if it cannot.
    pub open spec fn resolve_result(self, market_id: Seq<u8>, signer: Seq<u8>, now: i64) -> Option<
        ErrorCode,
    > {
        if !self.has_market(market_id) {
            Some(ErrorCode::NotFound)
        } else {
            resolve_error(self.markets[self.market_index(market_id)], signer, now)
        }
    }

    /// The exchange after the bet at `j` has been paid out of the market
    /// at `i`.
    pub open spec fn with_claim(self, i: int, j: int) -> ExchangeView {
        ExchangeView {
            markets: self.markets.update(
                i,
                MarketView {
                    escrow_balance: (self.markets[i].escrow_balance - claim_payout(
                        self.markets[i],
                        self.bets[j],
                    )) as u64,
                    ..self.markets[i]
                },
            ),
            bets: self.bets.update(j, BetView { claimed: true, ..self.bets[j] }),
            ..self
        }
    }

    /// What a claim pays, or why it is refused.
    pub open spec fn claim_result(self, market_id: Seq<u8>, bettor: Seq<u8>) -> Result<
        int,
        ErrorCode,
    > {
        if !self.has_market(market_id) {
            Err(ErrorCode::NotFound)
        } else if !self.has_bet(market_id, bettor) {
            Err(ErrorCode::NotFound)
        } else {
            let m = self.markets[self.market_index(market_id)];
            let b = self.bets[self.bet_index(market_id, bettor)];
            match claim_error(m, market_id, b, bettor) {
                Some(e) => Err(e),
                None => Ok(claim_payout(m, b)),
            }
        }
    }

    /// The exchange with one more market, stored under `key`.
    pub open spec fn with_market(self, key: Seq<u8>, market: MarketView) -> ExchangeView {
        ExchangeView { keys: self.keys.push(key), markets: self.markets.push(market), ..self }
    }

    /// Whether a market can be created, and under which address and seed
    /// byte.
    pub open spec fn create_market_result(
        self,
        creator: Seq<u8>,
        question: Seq<char>,
        end_time: i64,
        question_hash: Seq<u8>,
        now: i64,
    ) -> Result<(Seq<u8>, u8), ErrorCode> {
        match initialize_error(
            question,
            end_time,
            question_hash,
            question_digest_spec(question),
            now,
        ) {
            Some(e) => Err(e),
            None => match market_address_spec(self.program, creator, question_hash) {
                None => Err(ErrorCode::NotFound),
                Some((key, bump)) => if self.has_market(key) {
                    Err(ErrorCode::AlreadyExists)
                } else {
                    Ok((key, bump))
                },
            },
        }
    }
}

/// A market that nobody has bet on has nothing staked, paid or owed.
pub proof fn lemma_untouched_market(bets: Seq<BetView>, key: Seq<u8>, market: MarketView)
    requires
        forall|j: int| 0 <= j < bets.len() ==> (#[trigger] bets[j]).market != key,
    ensures
        staked(bets, key, true) == 0,
        staked(bets, key, false) == 0,
        paid(bets, key, market) == 0,
        owed(bets, key, market) == 0,
{
    lemma_total_zero(bets, stake_on(key, true));
    lemma_total_zero(bets, stake_on(key, false));
    lemma_total_zero(bets, paid_of(key, market));
    lemma_total_zero(bets, owed_of(key, market));
}

/// Storing a fresh, well-formed market under a free address keeps the
/// exchange well formed.
pub proof fn lemma_create_keeps_wf(before: ExchangeView, key: Seq<u8>, market: MarketView)
    requires
        before.wf(),
        !before.has_market(key),
        market.wf(),
        !market.resolved,
        market.total_yes_bets == 0,
        market.total_no_bets == 0,
        market.fee_percentage <= 10000,
        market_address_spec(before.program, market.creator, market.question_hash) == Some(
            (key, market.bump),
        ),
    ensures
        before.with_market(key, market).wf(),
{
    let after = before.with_market(key, market);
    let n = before.keys.len() as int;
    assert forall|i: int, j: int| 0 <= i < j < after.keys.len() implies #[trigger] after.keys[i]
        != #[trigger] after.keys[j] by {
        if j == n {
            assert(!before.market_at(key, i));
        }
    }
    assert forall|j: int| 0 <= j < after.bets.len() implies after.has_market(
        (#[trigger] after.bets[j]).market,
    ) by {
        let i = choose|i: int| before.market_at(before.bets[j].market, i);
        assert(after.market_at(after.bets[j].market, i));
    }
    assert forall|j: int| 0 <= j < before.bets.len() implies (#[trigger] before.bets[j]).market
        != key by {
        assert(before.has_market(before.bets[j].market));
    }
    lemma_untouched_market(before.bets, key, market);
    assert forall|i: int| 0 <= i < after.markets.len() implies after.market_ok(i) by {
        if i < n {
            assert(before.market_ok(i));
        }
    }
}

/// In a market that is not resolved nobody has been paid and nobody is
/// owed.
pub proof fn lemma_nothing_paid_before_resolution(
    bets: Seq<BetView>,
    key: Seq<u8>,
    market: MarketView,
)
    requires
        market.outcome.is_none(),
    ensures
        paid(bets, key, market) == 0,
        owed(bets, key, market) == 0,
{
    lemma_total_zero(bets, paid_of(key, market));
    lemma_total_zero(bets, owed_of(key, market));
}

/// A value that the books of the market `key` do not read leaves them as
/// they are: a bet added to another market.
pub proof fn lemma_books_ignore_foreign_bet(
    bets: Seq<BetView>,
    bet: BetView,
    key: Seq<u8>,
    market: MarketView,
)
    requires
        books_agree(bets, key, market),
        bet.market != key,
    ensures
        books_agree(bets.push(bet), key, market),
{
    lemma_total_push(bets, bet, stake_on(key, true));
    lemma_total_push(bets, bet, stake_on(key, false));
    lemma_total_push(bets, bet, paid_of(key, market));
    let after = bets.push(bet);
    assert forall|i: int|
        0 <= i < after.len() && (#[trigger] after[i]).market == key implies after[i].amount
        > 0 by {
        if i < bets.len() {
            assert(after[i] == bets[i]);
        }
    }
    assert forall|i: int|
        0 <= i < after.len() && (#[trigger] after[i]).market == key
            && after[i].claimed implies is_winner(key, market, after[i]) by {
        if i < bets.len() {
            assert(after[i] == bets[i]);
        }
    }
}

/// Placing an accepted bet keeps the exchange well formed.
pub proof fn lemma_bet_keeps_wf(before: ExchangeView, i: int, bet: BetView, now: i64)
    requires
        before.wf(),
        0 <= i < before.markets.len(),
        bet.market == before.keys[i],
        !before.has_bet(bet.market, bet.bettor),
        !bet.claimed,
        place_bet_error(before.markets[i], bet.amount, bet.outcome, now).is_none(),
    ensures
        before.with_bet(i, bet).wf(),
{
    let after = before.with_bet(i, bet);
    let key = before.keys[i];
    let m = before.markets[i];
    let m2 = after.markets[i];
    let n = before.bets.len() as int;
    assert(before.market_ok(i));
    assert forall|a: int, b: int| 0 <= a < b < after.bets.len() implies !((
    #[trigger] after.bets[a]).market == (#[trigger] after.bets[b]).market && after.bets[a].bettor
        == after.bets[b].bettor) by {
        if b == n {
            assert(!before.bet_at(bet.market, bet.bettor, a));
        } else {
            assert(after.bets[a] == before.bets[a] && after.bets[b] == before.bets[b]);
        }
    }
    assert forall|j: int| 0 <= j < after.bets.len() implies after.has_market(
        (#[trigger] after.bets[j]).market,
    ) by {
        if j == n {
            assert(after.market_at(bet.market, i));
        } else {
            let c = choose|c: int| before.market_at(before.bets[j].market, c);
            assert(after.market_at(after.bets[j].market, c));
        }
    }
    assert forall|k: int| 0 <= k < after.markets.len() implies after.market_ok(k) by {
        assert(before.market_ok(k));
        if k != i {
            if k < i {
                assert(before.keys[k] != before.keys[i]);
            } else {
                assert(before.keys[i] != before.keys[k]);
            }
            lemma_books_ignore_foreign_bet(before.bets, bet, before.keys[k], before.markets[k]);
        } else {
            assert(m.outcome.is_none());
            lemma_nothing_paid_before_resolution(before.bets, key, m);
            lemma_nothing_paid_before_resolution(after.bets, key, m2);
            lemma_total_push(before.bets, bet, stake_on(key, true));
            lemma_total_push(before.bets, bet, stake_on(key, false));
            assert forall|a: int|
                0 <= a < after.bets.len() && (#[trigger] after.bets[a]).market
                    == key implies after.bets[a].amount > 0 by {
                if a < n {
                    assert(after.bets[a] == before.bets[a]);
                }
            }
            assert forall|a: int|
                0 <= a < after.bets.len() && (#[trigger] after.bets[a]).market == key
                    && after.bets[a].claimed implies is_winner(
                key,
                m2,
                after.bets[a],
            ) by {
                if a < n {
                    assert(after.bets[a] == before.bets[a]);
                    assert(is_winner(key, m, before.bets[a]));
                }
            }
        }
    }
}

/// Resolving an unresolved market keeps the exchange well formed.
pub proof fn lemma_resolve_keeps_wf(before: ExchangeView, i: int, outcome: bool)
    requires
        before.wf(),
        0 <= i < before.markets.len(),
        !before.markets[i].resolved,
    ensures
        before.with_resolution(i, outcome).wf(),
{
    let after = before.with_resolution(i, outcome);
    let key = before.keys[i];
    let m = before.markets[i];
    let m2 = after.markets[i];
    assert(before.market_ok(i));
    assert forall|j: int| 0 <= j < after.bets.len() implies after.has_market(
        (#[trigger] after.bets[j]).market,
    ) by {
        let c = choose|c: int| before.market_at(before.bets[j].market, c);
        assert(after.market_at(after.bets[j].market, c));
    }
    assert forall|k: int| 0 <= k < after.markets.len() implies after.market_ok(k) by {
        assert(before.market_ok(k));
        if k == i {
            lemma_nothing_paid_before_resolution(before.bets, key, m);
            assert forall|a: int| 0 <= a < before.bets.len() implies paid_of(key, m2)(
                #[trigger] before.bets[a],
            ) == 0 by {
                if before.bets[a].market == key && before.bets[a].claimed {
                    assert(is_winner(key, m, before.bets[a]));
                }
            }
            lemma_total_zero(before.bets, paid_of(key, m2));
            assert forall|a: int|
                0 <= a < before.bets.len() && (#[trigger] before.bets[a]).market == key
                    && before.bets[a].claimed implies is_winner(
                key,
                m2,
                before.bets[a],
            ) by {
                assert(is_winner(key, m, before.bets[a]));
            }
        }
    }
}

/// In a well-formed exchange the escrow of a resolved market covers the
/// payout of each of its winners who has not been paid.
pub proof fn lemma_claim_is_covered(ex: ExchangeView, i: int, j: int)
    requires
        ex.wf(),
        0 <= i < ex.markets.len(),
        0 <= j < ex.bets.len(),
        ex.bets[j].market == ex.keys[i],
    ensures
        ({
            let m = ex.markets[i];
            let b = ex.bets[j];
            m.resolved && m.outcome == Some(b.outcome) && !b.claimed && payout_defined(
                m.total_yes_bets,
                m.total_no_bets,
                m.fee_percentage,
                b.outcome,
                b.amount,
            ) ==> 0 <= claim_payout(m, b) <= owed(ex.bets, ex.keys[i], m) <= m.escrow_balance
        }),
{
    let m = ex.markets[i];
    let b = ex.bets[j];
    let key = ex.keys[i];
    assert(ex.market_ok(i));
    if m.resolved && m.outcome == Some(b.outcome) && !b.claimed && payout_defined(
        m.total_yes_bets,
        m.total_no_bets,
        m.fee_percentage,
        b.outcome,
        b.amount,
    ) {
        let side = b.outcome;
        let wp = winning_pool(
            m.total_yes_bets as int,
            m.total_no_bets as int,
            side,
        );
        let after_fee = pool_after_fee(
            m.total_yes_bets + m.total_no_bets,
            m.fee_percentage as int,
        );
        assert forall|a: int| 0 <= a < ex.bets.len() implies 0 <= owed_of(key, m)(
            #[trigger] ex.bets[a],
        ) by {
            let x = ex.bets[a];
            if is_winner(key, m, x) && !x.claimed {
                lemma_share_bounds(x.amount as int, after_fee, wp);
            }
        }
        lemma_total_bounds(ex.bets, owed_of(key, m));
        assert(owed_of(key, m)(ex.bets[j]) == claim_payout(m, b));
        lemma_solvent(ex.bets, key, m);
    }
}

/// Replacing a bet of another market leaves the books of the market `key`
/// as they are.
pub proof fn lemma_books_ignore_foreign_update(
    bets: Seq<BetView>,
    j: int,
    bet: BetView,
    key: Seq<u8>,
    market: MarketView,
)
    requires
        books_agree(bets, key, market),
        0 <= j < bets.len(),
        bets[j].market != key,
        bet.market != key,
    ensures
        books_agree(bets.update(j, bet), key, market),
{
    lemma_total_update(bets, j, bet, stake_on(key, true));
    lemma_total_update(bets, j, bet, stake_on(key, false));
    lemma_total_update(bets, j, bet, paid_of(key, market));
    let after = bets.update(j, bet);
    assert forall|i: int|
        0 <= i < after.len() && (#[trigger] after[i]).market == key implies after[i].amount
        > 0 by {
        if i != j {
            assert(after[i] == bets[i]);
        }
    }
    assert forall|i: int|
        0 <= i < after.len() && (#[trigger] after[i]).market == key
            && after[i].claimed implies is_winner(key, market, after[i]) by {
        if i != j {
            assert(after[i] == bets[i]);
        }
    }
}

/// Paying out an accepted claim keeps the exchange well formed.
pub proof fn lemma_claim_keeps_wf(before: ExchangeView, i: int, j: int)
    requires
        before.wf(),
        0 <= i < before.markets.len(),
        0 <= j < before.bets.len(),
        before.bets[j].market == before.keys[i],
        claim_error(
            before.markets[i],
            before.keys[i],
            before.bets[j],
            before.bets[j].bettor,
        ).is_none(),
    ensures
        before.with_claim(i, j).wf(),
{
    let after = before.with_claim(i, j);
    let key = before.keys[i];
    let m = before.markets[i];
    let m2 = after.markets[i];
    let b = before.bets[j];
    let b2 = after.bets[j];
    let payout = claim_payout(m, b);
    assert(before.market_ok(i));
    lemma_fee_bounds(
        m.total_yes_bets + m.total_no_bets,
        m.fee_percentage as int,
    );
    lemma_share_bounds(
        b.amount as int,
        pool_after_fee(m.total_yes_bets + m.total_no_bets, m.fee_percentage as int),
        winning_pool(
            m.total_yes_bets as int,
            m.total_no_bets as int,
            m.outcome.unwrap(),
        ),
    );
    assert(0 <= payout <= m.escrow_balance);
    assert forall|a: int, c: int| 0 <= a < c < after.bets.len() implies !((
    #[trigger] after.bets[a]).market == (#[trigger] after.bets[c]).market && after.bets[a].bettor
        == after.bets[c].bettor) by {
        assert(after.bets[a].market == before.bets[a].market && after.bets[a].bettor
            == before.bets[a].bettor);
        assert(after.bets[c].market == before.bets[c].market && after.bets[c].bettor
            == before.bets[c].bettor);
        assert(!(before.bets[a].market == before.bets[c].market && before.bets[a].bettor
            == before.bets[c].bettor));
    }
    assert forall|a: int| 0 <= a < after.bets.len() implies after.has_market(
        (#[trigger] after.bets[a]).market,
    ) by {
        assert(after.bets[a].market == before.bets[a].market);
        let c = choose|c: int| before.market_at(before.bets[a].market, c);
        assert(after.market_at(after.bets[a].market, c));
    }
    assert forall|k: int| 0 <= k < after.markets.len() implies after.market_ok(k) by {
        assert(before.market_ok(k));
        if k != i {
            if k < i {
                assert(before.keys[k] != before.keys[i]);
            } else {
                assert(before.keys[i] != before.keys[k]);
            }
            lemma_books_ignore_foreign_update(
                before.bets,
                j,
                b2,
                before.keys[k],
                before.markets[k],
            );
        } else {
            lemma_total_update(before.bets, j, b2, stake_on(key, true));
            lemma_total_update(before.bets, j, b2, stake_on(key, false));
            lemma_total_update(before.bets, j, b2, paid_of(key, m));
            assert forall|a: int| 0 <= a < after.bets.len() implies paid_of(key, m2)(
                #[trigger] after.bets[a],
            ) == paid_of(key, m)(after.bets[a]) by {}
            lemma_total_agree(after.bets, paid_of(key, m2), paid_of(key, m));
            assert(paid_of(key, m)(b) == 0);
            assert(paid_of(key, m)(b2) == payout);
            assert forall|a: int|
                0 <= a < after.bets.len() && (#[trigger] after.bets[a]).market
                    == key implies after.bets[a].amount > 0 by {
                assert(after.bets[a].amount == before.bets[a].amount);
                assert(before.bets[a].market == key);
            }
            assert forall|a: int|
                0 <= a < after.bets.len() && (#[trigger] after.bets[a]).market == key
                    && after.bets[a].claimed implies is_winner(
                key,
                m2,
                after.bets[a],
            ) by {
                if a != j {
                    assert(after.bets[a] == before.bets[a]);
                    assert(is_winner(key, m, before.bets[a]));
                }
            }
        }
    }
}

} // verus!
