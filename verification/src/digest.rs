//! The digest that binds a market to its question.

use vstd::prelude::*;
use vstd::string::StringSliceAdditionalSpecFns;

verus! {

/// The SHA-256 digest of a byte string, as the hashing library computes it.
pub uninterp spec fn sha256(data: Seq<u8>) -> Seq<u8>;

/// Calls `anchor_lang::solana_program::hash::hash` and takes the bytes of
/// the `Hash` it returns. The contract claims only that the 32 bytes are a
/// function of the input bytes, which it names [`sha256`]; that the function
/// is SHA-256 is not something the verifier knows.
#[verifier::external_body]
fn sha256_of(data: &[u8]) -> (digest: [u8; 32])
    ensures
        digest@ == sha256(data@),
{
    anchor_lang::solana_program::hash::hash(data).to_bytes()
}

/// The digest of a question's UTF-8 bytes.
pub open spec fn question_digest_spec(question: Seq<char>) -> Seq<u8> {
    sha256(vstd::utf8::encode_utf8(question))
}

/// Computes the digest that a market on `question` must carry.
pub fn question_digest(question: &str) -> (digest: [u8; 32])
    ensures
        digest@ == question_digest_spec(question@),
{
    let bytes = question.as_bytes();
    assert(bytes@ == question.spec_bytes());
    sha256_of(bytes)
}

} // verus!
