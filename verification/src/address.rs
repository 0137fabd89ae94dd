//! Addresses of stored records, derived from what names them.
//!
//! A market is named by its creator and the digest of its question, a bet by
//! its market and its bettor. The address of a record is derived from its
//! kind, these two names and the identity of the program that owns the
//! records, together with a seed byte that the derivation chooses.

use crate::identity::Id;
use anchor_lang::prelude::Pubkey;
use vstd::prelude::*;

verus! {

/// The address that the ledger derives for the seeds `tag`, `first` and
/// `second` under `program`, with the seed byte it found, or `None` where
/// no seed byte yields an address.
pub uninterp spec fn program_address(
    tag: Seq<u8>,
    first: Seq<u8>,
    second: Seq<u8>,
    program: Seq<u8>,
) -> Option<(Seq<u8>, u8)>;

/// Calls `Pubkey::try_find_program_address` with the three seeds in order
/// and hands back the address as bytes. The contract claims only that the
/// result is a function of the seeds and the program, which it names
/// [`program_address`].
#[verifier::external_body]
fn find_address(tag: &[u8], first: &[u8; 32], second: &[u8; 32], program: &[u8; 32]) -> (r: Option<
    ([u8; 32], u8),
>)
    ensures
        match r {
            Some((address, bump)) => program_address(tag@, first@, second@, program@) == Some(
                (address@, bump),
            ),
            None => program_address(tag@, first@, second@, program@).is_none(),
        },
{
    let owner = Pubkey::new_from_array(*program);
    match Pubkey::try_find_program_address(&[tag, &first[..], &second[..]], &owner) {
        Some((address, bump)) => Some((address.to_bytes(), bump)),
        None => None,
    }
}

/// The seed that marks a market's address: the ASCII bytes of `market`.
pub open spec fn market_tag() -> Seq<u8> {
    seq![109u8, 97u8, 114u8, 107u8, 101u8, 116u8]
}

/// The seed that marks a bet's address: the ASCII bytes of `bet`.
pub open spec fn bet_tag() -> Seq<u8> {
    seq![98u8, 101u8, 116u8]
}

/// The address of the market of `creator` on the question with digest
/// `question_hash`.
pub open spec fn market_address_spec(
    program: Seq<u8>,
    creator: Seq<u8>,
    question_hash: Seq<u8>,
) -> Option<(Seq<u8>, u8)> {
    program_address(market_tag(), creator, question_hash, program)
}

/// The address of the bet of `bettor` in `market`.
pub open spec fn bet_address_spec(program: Seq<u8>, market: Seq<u8>, bettor: Seq<u8>) -> Option<
    (Seq<u8>, u8),
> {
    program_address(bet_tag(), market, bettor, program)
}

/// Derives the address and seed byte of a market.
pub fn market_address(program: &Id, creator: &Id, question_hash: &[u8; 32]) -> (r: Option<(Id, u8)>)
    ensures
        match r {
            Some((address, bump)) => market_address_spec(program@, creator@, question_hash@)
                == Some((address@, bump)),
            None => market_address_spec(program@, creator@, question_hash@).is_none(),
        },
{
    let tag: [u8; 6] = [109, 97, 114, 107, 101, 116];
    assert(tag@ =~= market_tag());
    match find_address(tag.as_slice(), &creator.bytes, question_hash, &program.bytes) {
        Some((address, bump)) => Some((Id { bytes: address }, bump)),
        None => None,
    }
}

/// Derives the address and seed byte of a bet.
pub fn bet_address(program: &Id, market: &Id, bettor: &Id) -> (r: Option<(Id, u8)>)
    ensures
        match r {
            Some((address, bump)) => bet_address_spec(program@, market@, bettor@) == Some(
                (address@, bump),
            ),
            None => bet_address_spec(program@, market@, bettor@).is_none(),
        },
{
    let tag: [u8; 3] = [98, 101, 116];
    assert(tag@ =~= bet_tag());
    match find_address(tag.as_slice(), &market.bytes, &bettor.bytes, &program.bytes) {
        Some((address, bump)) => Some((Id { bytes: address }, bump)),
        None => None,
    }
}

} // verus!
