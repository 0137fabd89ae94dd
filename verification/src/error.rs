use vstd::prelude::*;

verus! {

/// Why an operation was refused. A refused operation changes nothing.
#[derive(Clone, Copy, Debug, PartialEq, Eq, Structural)]
pub enum ErrorCode {
    /// The deadline of a new market is not in the future.
    InvalidEndTime,
    /// The market has already been resolved.
    MarketAlreadyResolved,
    /// A bet arrived at or after the deadline.
    BettingPeriodEnded,
    /// A resolution arrived before the deadline.
    BettingPeriodNotEnded,
    /// A bet of zero units.
    InvalidAmount,
    /// The signer is not the market's resolution authority.
    UnauthorizedResolution,
    /// A claim arrived before the market was resolved.
    MarketNotResolved,
    /// The bet is on the losing side.
    NotAWinner,
    /// The bet has already been paid out.
    AlreadyClaimed,
    /// A checked operation overflowed, underflowed or divided by zero.
    MathOverflow,
    /// The bet does not belong to the signer or to the market.
    InvalidBettor,
    /// The digest supplied with a question is not the digest of its bytes.
    HashMismatch,
    /// The question is longer than a market record can hold.
    QuestionTooLong,
    /// A record with the same key is already stored.
    AlreadyExists,
    /// No record is stored under the key.
    NotFound,
}

impl ErrorCode {
    /// The words that describe the error.
    pub open spec fn message_spec(self) -> Seq<char> {
        match self {
            ErrorCode::InvalidEndTime => "Invalid end time - must be in the future"@,
            ErrorCode::MarketAlreadyResolved => "Market has already been resolved"@,
            ErrorCode::BettingPeriodEnded => "Betting period has ended"@,
            ErrorCode::BettingPeriodNotEnded => "Betting period has not ended yet"@,
            ErrorCode::InvalidAmount => "Invalid bet amount"@,
            ErrorCode::UnauthorizedResolution => "Unauthorized to resolve market"@,
            ErrorCode::MarketNotResolved => "Market has not been resolved yet"@,
            ErrorCode::NotAWinner => "Bettor is not a winner"@,
            ErrorCode::AlreadyClaimed => "Winnings have already been claimed"@,
            ErrorCode::MathOverflow => "Math overflow"@,
            ErrorCode::InvalidBettor => "Invalid bettor"@,
            ErrorCode::HashMismatch => "Question hash does not match the question"@,
            ErrorCode::QuestionTooLong => "Question is too long"@,
            ErrorCode::AlreadyExists => "Record already exists"@,
            ErrorCode::NotFound => "Record not found"@,
        }
    }

    /// Describes the error in words.
    pub fn message(&self) -> (r: &'static str)
        ensures
            r@ == self.message_spec(),
    {
        match self {
            ErrorCode::InvalidEndTime => "Invalid end time - must be in the future",
            ErrorCode::MarketAlreadyResolved => "Market has already been resolved",
            ErrorCode::BettingPeriodEnded => "Betting period has ended",
            ErrorCode::BettingPeriodNotEnded => "Betting period has not ended yet",
            ErrorCode::InvalidAmount => "Invalid bet amount",
            ErrorCode::UnauthorizedResolution => "Unauthorized to resolve market",
            ErrorCode::MarketNotResolved => "Market has not been resolved yet",
            ErrorCode::NotAWinner => "Bettor is not a winner",
            ErrorCode::AlreadyClaimed => "Winnings have already been claimed",
            ErrorCode::MathOverflow => "Math overflow",
            ErrorCode::InvalidBettor => "Invalid bettor",
            ErrorCode::HashMismatch => "Question hash does not match the question",
            ErrorCode::QuestionTooLong => "Question is too long",
            ErrorCode::AlreadyExists => "Record already exists",
            ErrorCode::NotFound => "Record not found",
        }
    }
}

} // verus!
