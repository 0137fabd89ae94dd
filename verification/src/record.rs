//! The two kinds of record that a market keeps: the market itself and one
//! bet for each bettor.

use crate::digest::question_digest_spec;
use crate::identity::Id;
use vstd::prelude::*;

verus! {

/// Longest question, in bytes, that a market record holds.
pub const MAX_QUESTION_LENGTH: usize = 200;

/// Bytes that the host keeps in front of a stored record to tell its kind.
pub const DISCRIMINATOR_LENGTH: usize = 8;

/// Fee of a new market, in basis points.
pub const DEFAULT_FEE_BPS: u16 = 100;

/// A yes/no proposition that can be bet on.
#[derive(Debug)]
pub struct Market {
    /// Who created the market.
    pub creator: Id,
    /// Who may resolve it.
    pub resolution_authority: Id,
    /// The proposition, in words.
    pub question: String,
    /// Digest of the question's bytes; part of the market's key.
    pub question_hash: [u8; 32],
    /// Deadline in seconds since the epoch: bets close and resolution opens.
    pub end_time: i64,
    /// Whether the outcome has been declared.
    pub resolved: bool,
    /// The declared outcome: `Some(true)` for yes, `Some(false)` for no.
    pub outcome: Option<bool>,
    /// Sum of the stakes on yes.
    pub total_yes_bets: u64,
    /// Sum of the stakes on no.
    pub total_no_bets: u64,
    /// Fee in basis points, fixed at creation.
    pub fee_percentage: u16,
    /// Currency that the market holds.
    pub escrow_balance: u64,
    /// Seed byte of the record's address.
    pub bump: u8,
}

/// What a [`Market`] holds, as mathematical values.
pub struct MarketView {
    pub creator: Seq<u8>,
    pub resolution_authority: Seq<u8>,
    pub question: Seq<char>,
    pub question_hash: Seq<u8>,
    pub end_time: i64,
    pub resolved: bool,
    pub outcome: Option<bool>,
    pub total_yes_bets: u64,
    pub total_no_bets: u64,
    pub fee_percentage: u16,
    pub escrow_balance: u64,
    pub bump: u8,
}

impl View for Market {
    type V = MarketView;

    open spec fn view(&self) -> MarketView {
        MarketView {
            creator: self.creator@,
            resolution_authority: self.resolution_authority@,
            question: self.question@,
            question_hash: self.question_hash@,
            end_time: self.end_time,
            resolved: self.resolved,
            outcome: self.outcome,
            total_yes_bets: self.total_yes_bets,
            total_no_bets: self.total_no_bets,
            fee_percentage: self.fee_percentage,
            escrow_balance: self.escrow_balance,
            bump: self.bump,
        }
    }
}

impl MarketView {
    /// The outcome is set exactly when the market is resolved.
    pub open spec fn phase_consistent(self) -> bool {
        self.resolved <==> self.outcome.is_some()
    }

    /// Until resolution the market holds exactly what was staked.
    pub open spec fn balanced(self) -> bool {
        !self.resolved ==> self.escrow_balance == self.total_yes_bets + self.total_no_bets
    }

    /// The stored digest is the digest of the stored question.
    pub open spec fn hash_bound(self) -> bool {
        self.question_hash == question_digest_spec(self.question)
    }

    /// The question fits into a record.
    pub open spec fn question_fits(self) -> bool {
        vstd::utf8::encode_utf8(self.question).len() <= 200
    }

    /// What holds of every market that the operations have produced.
    pub open spec fn wf(self) -> bool {
        &&& self.phase_consistent()
        &&& self.balanced()
        &&& self.hash_bound()
        &&& self.question_fits()
    }

    /// The market as it is right after creation.
    pub open spec fn created(
        creator: Seq<u8>,
        question: Seq<char>,
        question_hash: Seq<u8>,
        end_time: i64,
        bump: u8,
    ) -> MarketView {
        MarketView {
            creator,
            resolution_authority: creator,
            question,
            question_hash,
            end_time,
            resolved: false,
            outcome: None,
            total_yes_bets: 0,
            total_no_bets: 0,
            fee_percentage: DEFAULT_FEE_BPS,
            escrow_balance: 0,
            bump,
        }
    }
}

impl Market {
    /// Bytes to reserve for a stored market: the host's tag, two
    /// identities, the length-prefixed question at its longest, the
    /// deadline, the resolved flag, the two-byte outcome, both totals, the
    /// fee and the seed byte.
    pub fn space() -> (r: usize)
        ensures
            r == 306,
    {
        DISCRIMINATOR_LENGTH + 32 + 32 + 4 + MAX_QUESTION_LENGTH + 8 + 1 + 2 + 8 + 8 + 2 + 1
    }

    /// An independent copy of the record.
    pub fn duplicate(&self) -> (r: Market)
        ensures
            r@ == self@,
    {
        Market {
            creator: self.creator,
            resolution_authority: self.resolution_authority,
            question: self.question.clone(),
            question_hash: self.question_hash,
            end_time: self.end_time,
            resolved: self.resolved,
            outcome: self.outcome,
            total_yes_bets: self.total_yes_bets,
            total_no_bets: self.total_no_bets,
            fee_percentage: self.fee_percentage,
            escrow_balance: self.escrow_balance,
            bump: self.bump,
        }
    }
}

impl Default for Market {
    /// A blank record, as the host hands it out before initialisation.
    fn default() -> (r: Market)
        ensures
            r@ == (MarketView {
                creator: Seq::new(32, |i: int| 0u8),
                resolution_authority: Seq::new(32, |i: int| 0u8),
                question: Seq::<char>::empty(),
                question_hash: Seq::new(32, |i: int| 0u8),
                end_time: 0,
                resolved: false,
                outcome: None,
                total_yes_bets: 0,
                total_no_bets: 0,
                fee_percentage: 0,
                escrow_balance: 0,
                bump: 0,
            }),
    {
        let zero = [0u8; 32];
        let r = Market {
            creator: Id { bytes: zero },
            resolution_authority: Id { bytes: zero },
            question: String::new(),
            question_hash: zero,
            end_time: 0,
            resolved: false,
            outcome: None,
            total_yes_bets: 0,
            total_no_bets: 0,
            fee_percentage: 0,
            escrow_balance: 0,
            bump: 0,
        };
        assert(zero@ =~= Seq::new(32, |i: int| 0u8));
        r
    }
}

/// One bettor's stake in one market.
#[derive(Clone, Copy, Debug)]
pub struct Bet {
    /// Who placed the bet.
    pub bettor: Id,
    /// The market that the bet is on.
    pub market: Id,
    /// The stake.
    pub amount: u64,
    /// The side: `true` for yes.
    pub outcome: bool,
    /// Whether the winnings have been paid out.
    pub claimed: bool,
    /// Seed byte of the record's address.
    pub bump: u8,
}

/// What a [`Bet`] holds, as mathematical values.
pub struct BetView {
    pub bettor: Seq<u8>,
    pub market: Seq<u8>,
    pub amount: u64,
    pub outcome: bool,
    pub claimed: bool,
    pub bump: u8,
}

impl View for Bet {
    type V = BetView;

    open spec fn view(&self) -> BetView {
        BetView {
            bettor: self.bettor@,
            market: self.market@,
            amount: self.amount,
            outcome: self.outcome,
            claimed: self.claimed,
            bump: self.bump,
        }
    }
}

impl Bet {
    /// Bytes to reserve for a stored bet: the host's tag, two identities,
    /// the stake, the side, the claimed flag and the seed byte.
    pub fn space() -> (r: usize)
        ensures
            r == 83,
    {
        DISCRIMINATOR_LENGTH + 32 + 32 + 8 + 1 + 1 + 1
    }
}

impl Default for Bet {
    /// A blank record, as the host hands it out before a bet is placed.
    fn default() -> (r: Bet)
        ensures
            r@ == (BetView {
                bettor: Seq::new(32, |i: int| 0u8),
                market: Seq::new(32, |i: int| 0u8),
                amount: 0,
                outcome: false,
                claimed: false,
                bump: 0,
            }),
    {
        let zero = [0u8; 32];
        assert(zero@ =~= Seq::new(32, |i: int| 0u8));
        Bet {
            bettor: Id { bytes: zero },
            market: Id { bytes: zero },
            amount: 0,
            outcome: false,
            claimed: false,
            bump: 0,
        }
    }
}

} // verus!
