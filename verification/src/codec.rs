//! The stored form of the records.
//!
//! A record is stored as its fields in order: an identity as its 32 bytes,
//! an amount as 8 bytes and the fee as 2 bytes with the least significant
//! byte first, the deadline likewise in two's complement, a flag as one
//! byte that is 0 or 1, the outcome as two bytes (0 0 while unset, 1 0 for
//! no, 1 1 for yes), and the question as its length in 4 bytes followed by
//! its UTF-8 bytes. Reading accepts bytes behind the record and ignores
//! them. What a market holds and the digest of its question are not part
//! of its stored form: the host keeps the one and derives the address from
//! the other, and hands both to the reader.

use crate::error::ErrorCode;
use crate::identity::Id;
use crate::record::{Bet, BetView, Market, MarketView, MAX_QUESTION_LENGTH};
use vstd::bytes::{
    lemma_auto_spec_u16_to_from_le_bytes, lemma_auto_spec_u32_to_from_le_bytes,
    lemma_auto_spec_u64_to_from_le_bytes, spec_u16_from_le_bytes, spec_u16_to_le_bytes,
    spec_u32_from_le_bytes, spec_u32_to_le_bytes, spec_u64_from_le_bytes, spec_u64_to_le_bytes,
    u16_from_le_bytes, u16_to_le_bytes, u32_from_le_bytes, u32_to_le_bytes, u64_from_le_bytes,
    u64_to_le_bytes,
};
use vstd::prelude::*;
use vstd::slice::slice_subrange;
use vstd::string::StringSliceAdditionalSpecFns;
use vstd::utf8::{
    decode_utf8, encode_utf8, encode_utf8_decode_utf8, encode_utf8_valid_utf8, valid_utf8,
};

verus! {

/// Length of a stored bet.
pub const BET_BYTES: usize = 75;

/// Length of a stored market without its question.
pub const MARKET_FIXED_BYTES: usize = 98;

/// The byte of a flag.
pub open spec fn flag_byte(flag: bool) -> u8 {
    if flag {
        1
    } else {
        0
    }
}

/// The flag of a byte, if it is one.
pub open spec fn parse_flag(byte: u8) -> Option<bool> {
    if byte == 0 {
        Some(false)
    } else if byte == 1 {
        Some(true)
    } else {
        None
    }
}

/// The two bytes of an outcome.
pub open spec fn outcome_bytes(outcome: Option<bool>) -> Seq<u8> {
    match outcome {
        None => seq![0u8, 0u8],
        Some(side) => seq![1u8, flag_byte(side)],
    }
}

/// The outcome of two bytes, if they are one.
pub open spec fn parse_outcome(tag: u8, side: u8) -> Option<Option<bool>> {
    if tag == 0 && side == 0 {
        Some(None)
    } else if tag == 1 && side == 0 {
        Some(Some(false))
    } else if tag == 1 && side == 1 {
        Some(Some(true))
    } else {
        None
    }
}

/// The stored form of a bet.
pub open spec fn bet_bytes(bet: BetView) -> Seq<u8> {
    bet.bettor + bet.market + spec_u64_to_le_bytes(bet.amount) + seq![
        flag_byte(bet.outcome),
        flag_byte(bet.claimed),
        bet.bump,
    ]
}

/// The bet that the first 75 of `bytes` store, if they store one.
pub open spec fn parse_bet(bytes: Seq<u8>) -> Option<BetView> {
    if bytes.len() < 75 {
        None
    } else {
        match (parse_flag(bytes[72]), parse_flag(bytes[73])) {
            (Some(outcome), Some(claimed)) => Some(
                BetView {
                    bettor: bytes.subrange(0, 32),
                    market: bytes.subrange(32, 64),
                    amount: spec_u64_from_le_bytes(bytes.subrange(64, 72)),
                    outcome,
                    claimed,
                    bump: bytes[74],
                },
            ),
            _ => None,
        }
    }
}

/// Reading what was written yields the bet that was written, whatever
/// follows it.
pub proof fn law_bet_round_trip(bet: BetView, rest: Seq<u8>)
    requires
        bet.bettor.len() == 32,
        bet.market.len() == 32,
    ensures
        bet_bytes(bet).len() == 75,
        parse_bet(bet_bytes(bet) + rest) == Some(bet),
{
    lemma_auto_spec_u64_to_from_le_bytes();
    let amount = spec_u64_to_le_bytes(bet.amount);
    let bytes = bet_bytes(bet) + rest;
    assert(bytes.subrange(0, 32) =~= bet.bettor);
    assert(bytes.subrange(32, 64) =~= bet.market);
    assert(bytes.subrange(64, 72) =~= amount);
    assert(bytes[72] == flag_byte(bet.outcome));
    assert(bytes[73] == flag_byte(bet.claimed));
    assert(bytes[74] == bet.bump);
}

/// Appends `src` to `out`.
fn put(out: &mut Vec<u8>, src: &[u8])
    ensures
        final(out)@ == old(out)@ + src@,
{
    let mut i: usize = 0;
    while i < src.len()
        invariant
            0 <= i <= src.len(),
            out@ == old(out)@ + src@.subrange(0, i as int),
        decreases src.len() - i,
    {
        out.push(src[i]);
        i += 1;
        assert(out@ =~= old(out)@ + src@.subrange(0, i as int));
    }
    assert(src@.subrange(0, src@.len() as int) =~= src@);
}

/// The 32 bytes of `bytes` that start at `at`.
fn take_id(bytes: &[u8], at: usize) -> (r: [u8; 32])
    requires
        at + 32 <= bytes@.len(),
    ensures
        r@ == bytes@.subrange(at as int, at + 32),
{
    let n = bytes.len();
    let mut r = [0u8; 32];
    let mut i: usize = 0;
    while i < 32
        invariant
            0 <= i <= 32,
            n == bytes@.len(),
            at + 32 <= n,
            forall|k: int| 0 <= k < i ==> r@[k] == bytes@[at + k],
        decreases 32 - i,
    {
        r[i] = bytes[at + i];
        i += 1;
    }
    assert(r@ =~= bytes@.subrange(at as int, at + 32));
    r
}

/// Reads a flag.
fn take_flag(byte: u8) -> (r: Option<bool>)
    ensures
        r == parse_flag(byte),
{
    if byte == 0 {
        Some(false)
    } else if byte == 1 {
        Some(true)
    } else {
        None
    }
}

/// Writes a flag.
fn flag(value: bool) -> (r: u8)
    ensures
        r == flag_byte(value),
{
    if value {
        1
    } else {
        0
    }
}

/// Writes a bet in its stored form.
pub fn encode_bet(bet: &Bet) -> (r: Vec<u8>)
    ensures
        r@ == bet_bytes(bet@),
        r@.len() == 75,
{
    proof {
        lemma_auto_spec_u64_to_from_le_bytes();
    }
    let mut out: Vec<u8> = Vec::new();
    put(&mut out, bet.bettor.bytes.as_slice());
    put(&mut out, bet.market.bytes.as_slice());
    let amount = u64_to_le_bytes(bet.amount);
    put(&mut out, amount.as_slice());
    out.push(flag(bet.outcome));
    out.push(flag(bet.claimed));
    out.push(bet.bump);
    assert(out@ =~= bet_bytes(bet@));
    out
}

/// Reads a bet from its stored form.
///
/// Returns `None` where fewer than 75 bytes are given or a flag is neither
/// 0 nor 1, and the stored bet otherwise.
pub fn decode_bet(bytes: &[u8]) -> (r: Option<Bet>)
    ensures
        match r {
            Some(bet) => parse_bet(bytes@) == Some(bet@),
            None => parse_bet(bytes@).is_none(),
        },
{
    if bytes.len() < BET_BYTES {
        return None;
    }
    let outcome = match take_flag(bytes[72]) {
        Some(v) => v,
        None => { return None; },
    };
    let claimed = match take_flag(bytes[73]) {
        Some(v) => v,
        None => { return None; },
    };
    let bettor = take_id(bytes, 0);
    let market = take_id(bytes, 32);
    let amount = u64_from_le_bytes(slice_subrange(bytes, 64, 72));
    Some(
        Bet {
            bettor: Id { bytes: bettor },
            market: Id { bytes: market },
            amount,
            outcome,
            claimed,
            bump: bytes[74],
        },
    )
}

/// The stored form of a market.
pub open spec fn market_bytes(market: MarketView) -> Seq<u8> {
    let question = encode_utf8(market.question);
    market.creator + market.resolution_authority + spec_u32_to_le_bytes(question.len() as u32)
        + question + spec_u64_to_le_bytes(market.end_time as u64) + seq![
        flag_byte(market.resolved),
    ] + outcome_bytes(market.outcome) + spec_u64_to_le_bytes(market.total_yes_bets)
        + spec_u64_to_le_bytes(market.total_no_bets) + spec_u16_to_le_bytes(
        market.fee_percentage,
    ) + seq![market.bump]
}

/// The market that the front of `bytes` stores, if it stores one, with
/// the balance and the digest that the host supplies.
pub open spec fn parse_market(
    bytes: Seq<u8>,
    escrow_balance: u64,
    question_hash: Seq<u8>,
) -> Option<MarketView> {
    if bytes.len() < 68 {
        None
    } else {
        let n = spec_u32_from_le_bytes(bytes.subrange(64, 68)) as int;
        if n > 200 || bytes.len() < 98 + n {
            None
        } else {
            let question = bytes.subrange(68, 68 + n);
            let t = 68 + n;
            match (
                valid_utf8(question),
                parse_flag(bytes[t + 8]),
                parse_outcome(bytes[t + 9], bytes[t + 10]),
            ) {
                (true, Some(resolved), Some(outcome)) => Some(
                    MarketView {
                        creator: bytes.subrange(0, 32),
                        resolution_authority: bytes.subrange(32, 64),
                        question: decode_utf8(question),
                        question_hash,
                        end_time: spec_u64_from_le_bytes(bytes.subrange(t, t + 8)) as i64,
                        resolved,
                        outcome,
                        total_yes_bets: spec_u64_from_le_bytes(bytes.subrange(t + 11, t + 19)),
                        total_no_bets: spec_u64_from_le_bytes(bytes.subrange(t + 19, t + 27)),
                        fee_percentage: spec_u16_from_le_bytes(bytes.subrange(t + 27, t + 29)),
                        escrow_balance,
                        bump: bytes[t + 29],
                    },
                ),
                _ => None,
            }
        }
    }
}

/// A deadline survives being stored as an unsigned number.
pub proof fn lemma_deadline_round_trip(end_time: i64)
    ensures
        (end_time as u64) as i64 == end_time,
{
    assert((end_time as u64) as i64 == end_time) by (bit_vector);
}

/// Reading what was written yields the market that was written, whatever
/// follows it, provided the question fits into a record.
pub proof fn law_market_round_trip(market: MarketView, rest: Seq<u8>)
    requires
        market.creator.len() == 32,
        market.resolution_authority.len() == 32,
        market.question_fits(),
    ensures
        market_bytes(market).len() == 98 + encode_utf8(market.question).len(),
        market_bytes(market).len() <= 298,
        parse_market(market_bytes(market) + rest, market.escrow_balance, market.question_hash)
            == Some(market),
{
    lemma_auto_spec_u16_to_from_le_bytes();
    lemma_auto_spec_u32_to_from_le_bytes();
    lemma_auto_spec_u64_to_from_le_bytes();
    lemma_deadline_round_trip(market.end_time);
    encode_utf8_valid_utf8(market.question);
    encode_utf8_decode_utf8(market.question);
    let question = encode_utf8(market.question);
    let n = question.len() as int;
    let t = 68 + n;
    let bytes = market_bytes(market) + rest;
    assert(bytes.subrange(0, 32) =~= market.creator);
    assert(bytes.subrange(32, 64) =~= market.resolution_authority);
    assert(bytes.subrange(64, 68) =~= spec_u32_to_le_bytes(n as u32));
    assert(spec_u32_from_le_bytes(bytes.subrange(64, 68)) == n as u32);
    assert(bytes.subrange(68, 68 + n) =~= question);
    assert(bytes.subrange(t, t + 8) =~= spec_u64_to_le_bytes(market.end_time as u64));
    assert(bytes[t + 8] == flag_byte(market.resolved));
    assert(bytes[t + 9] == outcome_bytes(market.outcome)[0]);
    assert(bytes[t + 10] == outcome_bytes(market.outcome)[1]);
    assert(bytes.subrange(t + 11, t + 19) =~= spec_u64_to_le_bytes(market.total_yes_bets));
    assert(bytes.subrange(t + 19, t + 27) =~= spec_u64_to_le_bytes(market.total_no_bets));
    assert(bytes.subrange(t + 27, t + 29) =~= spec_u16_to_le_bytes(market.fee_percentage));
    assert(bytes[t + 29] == market.bump);
}

/// Calls `String::from_utf8`. The contract claims what the documentation
/// of the standard library says: the call succeeds exactly on valid UTF-8,
/// and the string it returns is made of the bytes it was given.
#[verifier::external_body]
fn string_from_utf8(bytes: Vec<u8>) -> (r: Option<String>)
    ensures
        match r {
            Some(text) => valid_utf8(bytes@) && encode_utf8(text@) == bytes@,
            None => !valid_utf8(bytes@),
        },
{
    match String::from_utf8(bytes) {
        Ok(text) => Some(text),
        Err(_) => None,
    }
}

/// Writes a market in its stored form.
///
/// Refuses a question of more than 200 bytes with `QuestionTooLong`: a
/// record has no room for it.
pub fn encode_market(market: &Market) -> (r: Result<Vec<u8>, ErrorCode>)
    ensures
        match r {
            Ok(bytes) => {
                &&& market@.question_fits()
                &&& bytes@ == market_bytes(market@)
                &&& bytes@.len() == 98 + encode_utf8(market@.question).len()
                &&& bytes@.len() + 8 <= 306
            },
            Err(e) => e == ErrorCode::QuestionTooLong && !market@.question_fits(),
        },
{
    proof {
        lemma_auto_spec_u16_to_from_le_bytes();
        lemma_auto_spec_u32_to_from_le_bytes();
        lemma_auto_spec_u64_to_from_le_bytes();
    }
    let text = market.question.as_str();
    let question = text.as_bytes();
    assert(question@ == text.spec_bytes());
    if question.len() > MAX_QUESTION_LENGTH {
        return Err(ErrorCode::QuestionTooLong);
    }
    let mut out: Vec<u8> = Vec::new();
    put(&mut out, market.creator.bytes.as_slice());
    put(&mut out, market.resolution_authority.bytes.as_slice());
    let length = u32_to_le_bytes(question.len() as u32);
    put(&mut out, length.as_slice());
    put(&mut out, question);
    let deadline = u64_to_le_bytes(#[verifier::truncate] (market.end_time as u64));
    put(&mut out, deadline.as_slice());
    out.push(flag(market.resolved));
    match market.outcome {
        None => {
            out.push(0);
            out.push(0);
        },
        Some(side) => {
            out.push(1);
            out.push(flag(side));
        },
    }
    let yes = u64_to_le_bytes(market.total_yes_bets);
    put(&mut out, yes.as_slice());
    let no = u64_to_le_bytes(market.total_no_bets);
    put(&mut out, no.as_slice());
    let fee = u16_to_le_bytes(market.fee_percentage);
    put(&mut out, fee.as_slice());
    out.push(market.bump);
    assert(out@ =~= market_bytes(market@));
    Ok(out)
}

/// Reads an outcome.
fn take_outcome(tag: u8, side: u8) -> (r: Option<Option<bool>>)
    ensures
        r == parse_outcome(tag, side),
{
    if tag == 0 && side == 0 {
        Some(None)
    } else if tag == 1 && side == 0 {
        Some(Some(false))
    } else if tag == 1 && side == 1 {
        Some(Some(true))
    } else {
        None
    }
}

/// Reads a market from its stored form, with the balance that the host
/// keeps for it and the digest that its address was derived from.
///
/// Returns `None` where the bytes end before the record does, the question
/// is longer than 200 bytes or not UTF-8, or a flag or the outcome is not
/// one of its stored forms; and the stored market otherwise.
pub fn decode_market(bytes: &[u8], escrow_balance: u64, question_hash: [u8; 32]) -> (r: Option<
    Market,
>)
    ensures
        match r {
            Some(market) => parse_market(bytes@, escrow_balance, question_hash@) == Some(market@),
            None => parse_market(bytes@, escrow_balance, question_hash@).is_none(),
        },
{
    if bytes.len() < 68 {
        return None;
    }
    let n = u32_from_le_bytes(slice_subrange(bytes, 64, 68)) as usize;
    if n > MAX_QUESTION_LENGTH || bytes.len() < MARKET_FIXED_BYTES + n {
        return None;
    }
    let t: usize = 68 + n;
    let resolved = take_flag(bytes[t + 8]);
    let outcome = take_outcome(bytes[t + 9], bytes[t + 10]);
    let mut raw: Vec<u8> = Vec::new();
    put(&mut raw, slice_subrange(bytes, 68, t));
    assert(raw@ =~= bytes@.subrange(68, 68 + n));
    let question = string_from_utf8(raw);
    match (question, resolved, outcome) {
        (Some(question), Some(resolved), Some(outcome)) => {
            proof {
                encode_utf8_decode_utf8(question@);
            }
            Some(
                Market {
                    creator: Id { bytes: take_id(bytes, 0) },
                    resolution_authority: Id { bytes: take_id(bytes, 32) },
                    question,
                    question_hash,
                    end_time: #[verifier::truncate] (u64_from_le_bytes(
                        slice_subrange(bytes, t, t + 8),
                    ) as i64),
                    resolved,
                    outcome,
                    total_yes_bets: u64_from_le_bytes(slice_subrange(bytes, t + 11, t + 19)),
                    total_no_bets: u64_from_le_bytes(slice_subrange(bytes, t + 19, t + 27)),
                    fee_percentage: u16_from_le_bytes(slice_subrange(bytes, t + 27, t + 29)),
                    escrow_balance,
                    bump: bytes[t + 29],
                },
            )
        },
        _ => None,
    }
}

} // verus!
