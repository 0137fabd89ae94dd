use prediction_market::arith::{try_add, try_div, try_mul, try_sub};
use prediction_market::digest::question_digest;
use prediction_market::error::ErrorCode;
use prediction_market::identity::{bytes_eq, Id};
use prediction_market::instructions::{
    claim_winnings, initialize_market, initialize_market_with_digest, place_bet, resolve_market,
    ClaimWinnings, InitializeMarket, PlaceBet, ResolveMarket,
};
use prediction_market::payout::compute_payout;
use prediction_market::record::{Bet, Market};

fn who(n: u8) -> Id {
    Id::new([n; 32])
}

fn market_until(end_time: i64) -> Market {
    let mut m = Market::default();
    m.creator = who(1);
    m.resolution_authority = who(1);
    m.end_time = end_time;
    m.fee_percentage = 100;
    m
}

#[test]
fn checked_arithmetic_is_exact_or_fails() {
    assert_eq!(try_add(2, 3), Ok(5));
    assert_eq!(try_add(u64::MAX, 0), Ok(u64::MAX));
    assert_eq!(try_add(u64::MAX, 1), Err(ErrorCode::MathOverflow));
    assert_eq!(try_sub(5, 3), Ok(2));
    assert_eq!(try_sub(3, 3), Ok(0));
    assert_eq!(try_sub(3, 5), Err(ErrorCode::MathOverflow));
    assert_eq!(try_mul(6, 7), Ok(42));
    assert_eq!(try_mul(1 << 32, 1 << 31), Ok(1 << 63));
    assert_eq!(try_mul(1 << 32, 1 << 32), Err(ErrorCode::MathOverflow));
    assert_eq!(try_div(7, 2), Ok(3));
    assert_eq!(try_div(0, 9), Ok(0));
    assert_eq!(try_div(7, 0), Err(ErrorCode::MathOverflow));
}

#[test]
fn digest_is_sha256() {
    let expected: [u8; 32] = [
        0xba, 0x78, 0x16, 0xbf, 0x8f, 0x01, 0xcf, 0xea, 0x41, 0x41, 0x40, 0xde, 0x5d, 0xae, 0x22,
        0x23, 0xb0, 0x03, 0x61, 0xa3, 0x96, 0x17, 0x7a, 0x9c, 0xb4, 0x10, 0xff, 0x61, 0xf2, 0x00,
        0x15, 0xad,
    ];
    assert_eq!(question_digest("abc"), expected);
    let empty: [u8; 32] = [
        0xe3, 0xb0, 0xc4, 0x42, 0x98, 0xfc, 0x1c, 0x14, 0x9a, 0xfb, 0xf4, 0xc8, 0x99, 0x6f, 0xb9,
        0x24, 0x27, 0xae, 0x41, 0xe4, 0x64, 0x9b, 0x93, 0x4c, 0xa4, 0x95, 0x99, 0x1b, 0x78, 0x52,
        0xb8, 0x55,
    ];
    assert_eq!(question_digest(""), empty);
}

#[test]
fn identities_compare_by_bytes() {
    assert_eq!(who(4), who(4));
    assert_ne!(who(4), who(5));
    let mut almost = [4u8; 32];
    almost[31] = 5;
    assert_ne!(who(4), Id::new(almost));
    assert!(bytes_eq(&[7u8; 32], &[7u8; 32]));
    assert!(!bytes_eq(&[7u8; 32], &almost));
    assert_eq!(who(4).to_bytes(), [4u8; 32]);
}

#[test]
fn record_sizes() {
    assert_eq!(Market::space(), 306);
    assert_eq!(Bet::space(), 83);
}

#[test]
fn deadline_must_be_in_the_future() {
    let hash = question_digest("q");
    let mut ctx = InitializeMarket { market: Market::default(), creator: who(1), bump: 1 };
    assert_eq!(
        initialize_market(&mut ctx, "q".to_string(), 500, hash, 500),
        Err(ErrorCode::InvalidEndTime)
    );
    assert_eq!(
        initialize_market(&mut ctx, "q".to_string(), 499, hash, 500),
        Err(ErrorCode::InvalidEndTime)
    );
    assert_eq!(ctx.market.end_time, 0);
    assert_eq!(ctx.market.fee_percentage, 0);
    assert_eq!(initialize_market(&mut ctx, "q".to_string(), 501, hash, 500), Ok(()));
    assert_eq!(ctx.market.end_time, 501);
}

#[test]
fn digest_must_match_the_question() {
    let mut ctx = InitializeMarket { market: Market::default(), creator: who(1), bump: 1 };
    let other = question_digest("another question");
    assert_eq!(
        initialize_market(&mut ctx, "q".to_string(), 10, other, 0),
        Err(ErrorCode::HashMismatch)
    );
    assert_eq!(ctx.market.question, "");
    // The deadline is looked at first.
    assert_eq!(
        initialize_market(&mut ctx, "q".to_string(), 0, other, 0),
        Err(ErrorCode::InvalidEndTime)
    );
    // With the digest handed in, only the comparison decides.
    assert_eq!(
        initialize_market_with_digest(&mut ctx, "q".to_string(), 10, [3; 32], [4; 32], 0),
        Err(ErrorCode::HashMismatch)
    );
    assert_eq!(
        initialize_market_with_digest(&mut ctx, "q".to_string(), 10, [3; 32], [3; 32], 0),
        Ok(())
    );
    assert_eq!(ctx.market.question_hash, [3; 32]);
}

#[test]
fn question_may_have_two_hundred_bytes() {
    let fits = "x".repeat(200);
    let mut ctx = InitializeMarket { market: Market::default(), creator: who(1), bump: 1 };
    let hash = question_digest(&fits);
    assert_eq!(initialize_market(&mut ctx, fits.clone(), 10, hash, 0), Ok(()));
    assert_eq!(ctx.market.question, fits);

    let long = "x".repeat(201);
    let mut ctx = InitializeMarket { market: Market::default(), creator: who(1), bump: 1 };
    let hash = question_digest(&long);
    assert_eq!(
        initialize_market(&mut ctx, long, 10, hash, 0),
        Err(ErrorCode::QuestionTooLong)
    );
    // The length is counted in bytes, not in characters.
    let wide = "é".repeat(101);
    let hash = question_digest(&wide);
    assert_eq!(
        initialize_market(&mut ctx, wide, 10, hash, 0),
        Err(ErrorCode::QuestionTooLong)
    );
    let wide = "é".repeat(100);
    let hash = question_digest(&wide);
    assert_eq!(initialize_market(&mut ctx, wide, 10, hash, 0), Ok(()));
}

#[test]
fn zero_amount_is_invalid() {
    let mut ctx = PlaceBet {
        market: market_until(1000),
        market_key: who(9),
        bet: Bet::default(),
        bettor: who(2),
        bump: 0,
    };
    assert_eq!(place_bet(&mut ctx, 0, true, 10), Err(ErrorCode::InvalidAmount));
    assert_eq!(ctx.market.total_yes_bets, 0);
    assert_eq!(ctx.market.escrow_balance, 0);
    assert_eq!(ctx.bet.bettor, who(0));
}

#[test]
fn deadline_closes_bets_and_opens_resolution() {
    let mut ctx = PlaceBet {
        market: market_until(1000),
        market_key: who(9),
        bet: Bet::default(),
        bettor: who(2),
        bump: 0,
    };
    assert_eq!(place_bet(&mut ctx, 5, true, 1000), Err(ErrorCode::BettingPeriodEnded));
    assert_eq!(place_bet(&mut ctx, 5, true, 1001), Err(ErrorCode::BettingPeriodEnded));
    assert_eq!(place_bet(&mut ctx, 5, true, 999), Ok(()));
    assert_eq!(ctx.bet.amount, 5);
    assert_eq!(ctx.bet.bettor, who(2));
    assert_eq!(ctx.bet.market, who(9));
    assert!(ctx.bet.outcome);
    assert!(!ctx.bet.claimed);

    let mut ctx = ResolveMarket { market: market_until(1000), resolution_authority: who(1) };
    assert_eq!(resolve_market(&mut ctx, false, 999), Err(ErrorCode::BettingPeriodNotEnded));
    assert!(!ctx.market.resolved);
    assert_eq!(resolve_market(&mut ctx, false, 1000), Ok(()));
    assert!(ctx.market.resolved);
    assert_eq!(ctx.market.outcome, Some(false));
    assert_eq!(resolve_market(&mut ctx, true, 1000), Err(ErrorCode::MarketAlreadyResolved));
    assert_eq!(ctx.market.outcome, Some(false));
}

#[test]
fn resolved_market_takes_no_bets() {
    let mut m = market_until(1000);
    m.resolved = true;
    m.outcome = Some(true);
    let mut ctx =
        PlaceBet { market: m, market_key: who(9), bet: Bet::default(), bettor: who(2), bump: 0 };
    assert_eq!(place_bet(&mut ctx, 5, true, 10), Err(ErrorCode::MarketAlreadyResolved));
    assert_eq!(place_bet(&mut ctx, 0, true, 2000), Err(ErrorCode::MarketAlreadyResolved));
}

#[test]
fn bet_that_overflows_a_total_is_refused() {
    let mut m = market_until(1000);
    m.total_no_bets = u64::MAX - 4;
    m.escrow_balance = u64::MAX - 4;
    let mut ctx =
        PlaceBet { market: m, market_key: who(9), bet: Bet::default(), bettor: who(2), bump: 0 };
    assert_eq!(place_bet(&mut ctx, 5, false, 10), Err(ErrorCode::MathOverflow));
    assert_eq!(ctx.market.total_no_bets, u64::MAX - 4);
    // The other side's total has room, the escrow has not.
    assert_eq!(place_bet(&mut ctx, 5, true, 10), Err(ErrorCode::MathOverflow));
    assert_eq!(ctx.market.total_yes_bets, 0);
    assert_eq!(place_bet(&mut ctx, 4, true, 10), Ok(()));
    assert_eq!(ctx.market.total_yes_bets, 4);
    assert_eq!(ctx.market.escrow_balance, u64::MAX);
}

#[test]
fn pool_that_overflows_is_refused_at_claim() {
    assert_eq!(compute_payout(u64::MAX, 1, 100, true, 10), Err(ErrorCode::MathOverflow));
    let mut m = market_until(1000);
    m.total_yes_bets = u64::MAX;
    m.total_no_bets = 1;
    m.escrow_balance = u64::MAX;
    m.resolved = true;
    m.outcome = Some(true);
    let bet = Bet { bettor: who(2), market: who(9), amount: 10, outcome: true, claimed: false, bump: 0 };
    let mut ctx = ClaimWinnings { market: m, market_key: who(9), bet, bettor: who(2) };
    assert_eq!(claim_winnings(&mut ctx), Err(ErrorCode::MathOverflow));
    assert!(!ctx.bet.claimed);
    assert_eq!(ctx.market.escrow_balance, u64::MAX);
}

#[test]
fn empty_winning_pool_is_refused() {
    assert_eq!(compute_payout(0, 500, 100, true, 10), Err(ErrorCode::MathOverflow));
    assert_eq!(compute_payout(500, 0, 100, false, 10), Err(ErrorCode::MathOverflow));
    assert_eq!(compute_payout(0, 0, 100, false, 0), Err(ErrorCode::MathOverflow));
}

#[test]
fn payout_formula() {
    assert_eq!(compute_payout(300, 300, 100, true, 100), Ok(198));
    assert_eq!(compute_payout(300, 300, 100, true, 200), Ok(396));
    assert_eq!(compute_payout(3, 100, 100, true, 1), Ok(34));
    assert_eq!(compute_payout(3, 100, 100, true, 2), Ok(68));
    assert_eq!(compute_payout(100, 3, 100, false, 2), Ok(68));
    // fee 250 bps of 1000 is 25; 975 * 7 / 13 = 525
    assert_eq!(compute_payout(987, 13, 250, false, 7), Ok(525));
    // the whole pool as fee leaves nothing
    assert_eq!(compute_payout(10, 10, 10000, true, 10), Ok(0));
    // a fee above the pool cannot be taken
    assert_eq!(compute_payout(10, 10, 10001, true, 10), Ok(0));
    assert_eq!(compute_payout(10000, 10000, 10001, true, 10), Err(ErrorCode::MathOverflow));
    // products that leave 64 bits
    assert_eq!(compute_payout(1 << 62, 0, 4, true, 1), Err(ErrorCode::MathOverflow));
    assert_eq!(compute_payout(1 << 40, 0, 0, true, 1 << 40), Err(ErrorCode::MathOverflow));
    assert_eq!(compute_payout(1 << 31, 0, 0, true, 1 << 31), Ok(1 << 31));
}

#[test]
fn no_fee_distributes_the_whole_pool() {
    assert_eq!(compute_payout(300, 300, 0, true, 100), Ok(200));
    assert_eq!(compute_payout(300, 300, 0, true, 200), Ok(400));
    // modulo dust: 10 * 1 / 3 + 10 * 2 / 3 = 3 + 6
    assert_eq!(compute_payout(3, 7, 0, true, 1), Ok(3));
    assert_eq!(compute_payout(3, 7, 0, true, 2), Ok(6));
}

#[test]
fn claim_needs_the_bettor_and_the_market() {
    let mut m = market_until(1000);
    m.total_yes_bets = 10;
    m.escrow_balance = 10;
    m.resolved = true;
    m.outcome = Some(true);
    let bet = Bet { bettor: who(2), market: who(9), amount: 10, outcome: true, claimed: false, bump: 0 };
    let mut ctx = ClaimWinnings { market: m, market_key: who(9), bet, bettor: who(3) };
    assert_eq!(claim_winnings(&mut ctx), Err(ErrorCode::InvalidBettor));
    ctx.bettor = who(2);
    ctx.market_key = who(8);
    assert_eq!(claim_winnings(&mut ctx), Err(ErrorCode::InvalidBettor));
    assert!(!ctx.bet.claimed);
    assert_eq!(ctx.market.escrow_balance, 10);
    ctx.market_key = who(9);
    // 10 * (10 - 0) / 10: the fee of one percent truncates to nothing
    assert_eq!(claim_winnings(&mut ctx), Ok(10));
    assert!(ctx.bet.claimed);
    assert_eq!(ctx.market.escrow_balance, 0);
    assert_eq!(claim_winnings(&mut ctx), Err(ErrorCode::AlreadyClaimed));
}

#[test]
fn claim_that_the_escrow_cannot_cover_is_refused() {
    let mut m = market_until(1000);
    m.total_yes_bets = 100;
    m.total_no_bets = 100;
    m.escrow_balance = 197;
    m.resolved = true;
    m.outcome = Some(true);
    let bet = Bet { bettor: who(2), market: who(9), amount: 100, outcome: true, claimed: false, bump: 0 };
    let mut ctx = ClaimWinnings { market: m, market_key: who(9), bet, bettor: who(2) };
    assert_eq!(claim_winnings(&mut ctx), Err(ErrorCode::MathOverflow));
    assert_eq!(ctx.market.escrow_balance, 197);
    ctx.market.escrow_balance = 198;
    assert_eq!(claim_winnings(&mut ctx), Ok(198));
    assert_eq!(ctx.market.escrow_balance, 0);
}

#[test]
fn resolved_flag_without_outcome_counts_as_unresolved() {
    let mut m = market_until(1000);
    m.resolved = true;
    m.outcome = None;
    let bet = Bet { bettor: who(2), market: who(9), amount: 10, outcome: true, claimed: false, bump: 0 };
    let mut ctx = ClaimWinnings { market: m, market_key: who(9), bet, bettor: who(2) };
    assert_eq!(claim_winnings(&mut ctx), Err(ErrorCode::MarketNotResolved));
}

#[test]
fn errors_describe_themselves() {
    assert_eq!(ErrorCode::InvalidEndTime.message(), "Invalid end time - must be in the future");
    assert_eq!(ErrorCode::MarketAlreadyResolved.message(), "Market has already been resolved");
    assert_eq!(ErrorCode::BettingPeriodEnded.message(), "Betting period has ended");
    assert_eq!(ErrorCode::BettingPeriodNotEnded.message(), "Betting period has not ended yet");
    assert_eq!(ErrorCode::InvalidAmount.message(), "Invalid bet amount");
    assert_eq!(ErrorCode::UnauthorizedResolution.message(), "Unauthorized to resolve market");
    assert_eq!(ErrorCode::MarketNotResolved.message(), "Market has not been resolved yet");
    assert_eq!(ErrorCode::NotAWinner.message(), "Bettor is not a winner");
    assert_eq!(ErrorCode::AlreadyClaimed.message(), "Winnings have already been claimed");
    assert_eq!(ErrorCode::MathOverflow.message(), "Math overflow");
    assert_eq!(ErrorCode::InvalidBettor.message(), "Invalid bettor");
    assert_eq!(ErrorCode::HashMismatch.message(), "Question hash does not match the question");
    assert_eq!(ErrorCode::QuestionTooLong.message(), "Question is too long");
    assert_eq!(ErrorCode::AlreadyExists.message(), "Record already exists");
    assert_eq!(ErrorCode::NotFound.message(), "Record not found");
}

#[test]
fn blank_records_are_zeroed() {
    let m = Market::default();
    assert_eq!(m.creator, who(0));
    assert_eq!(m.resolution_authority, who(0));
    assert_eq!(m.question, "");
    assert_eq!(m.question_hash, [0; 32]);
    assert_eq!(m.end_time, 0);
    assert!(!m.resolved);
    assert_eq!(m.outcome, None);
    assert_eq!(m.total_yes_bets, 0);
    assert_eq!(m.total_no_bets, 0);
    assert_eq!(m.fee_percentage, 0);
    assert_eq!(m.escrow_balance, 0);
    assert_eq!(m.bump, 0);
    let b = Bet::default();
    assert_eq!(b.bettor, who(0));
    assert_eq!(b.market, who(0));
    assert_eq!(b.amount, 0);
    assert!(!b.outcome);
    assert!(!b.claimed);
    assert_eq!(b.bump, 0);
}

#[test]
fn duplicate_is_an_equal_record() {
    let mut m = market_until(1000);
    m.question = "Will it snow?".to_string();
    m.question_hash = question_digest("Will it snow?");
    m.total_yes_bets = 5;
    m.total_no_bets = 6;
    m.escrow_balance = 11;
    m.outcome = Some(false);
    m.resolved = true;
    m.bump = 3;
    let d = m.duplicate();
    assert_eq!(d.creator, m.creator);
    assert_eq!(d.resolution_authority, m.resolution_authority);
    assert_eq!(d.question, m.question);
    assert_eq!(d.question_hash, m.question_hash);
    assert_eq!(d.end_time, m.end_time);
    assert_eq!(d.resolved, m.resolved);
    assert_eq!(d.outcome, m.outcome);
    assert_eq!(d.total_yes_bets, m.total_yes_bets);
    assert_eq!(d.total_no_bets, m.total_no_bets);
    assert_eq!(d.fee_percentage, m.fee_percentage);
    assert_eq!(d.escrow_balance, m.escrow_balance);
    assert_eq!(d.bump, m.bump);
}
