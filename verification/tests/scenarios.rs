use prediction_market::digest::question_digest;
use prediction_market::error::ErrorCode;
use prediction_market::identity::Id;
use prediction_market::instructions::{
    claim_winnings, initialize_market, place_bet, resolve_market, ClaimWinnings, InitializeMarket,
    PlaceBet, ResolveMarket,
};
use prediction_market::record::{Bet, Market};

fn id(n: u8) -> Id {
    Id::new([n; 32])
}

fn open_market(creator: Id, question: &str, end_time: i64, now: i64) -> Market {
    let mut ctx = InitializeMarket { market: Market::default(), creator, bump: 254 };
    let hash = question_digest(question);
    assert_eq!(initialize_market(&mut ctx, question.to_string(), end_time, hash, now), Ok(()));
    ctx.market
}

fn bet_on(market: Market, key: Id, bettor: Id, amount: u64, outcome: bool, now: i64) -> (Market, Bet) {
    let mut ctx = PlaceBet { market, market_key: key, bet: Bet::default(), bettor, bump: 7 };
    assert_eq!(place_bet(&mut ctx, amount, outcome, now), Ok(()));
    (ctx.market, ctx.bet)
}

fn resolve(market: Market, signer: Id, outcome: bool, now: i64) -> Market {
    let mut ctx = ResolveMarket { market, resolution_authority: signer };
    assert_eq!(resolve_market(&mut ctx, outcome, now), Ok(()));
    ctx.market
}

fn claim(market: Market, key: Id, bet: Bet, bettor: Id) -> (Market, Bet, Result<u64, ErrorCode>) {
    let mut ctx = ClaimWinnings { market, market_key: key, bet, bettor };
    let r = claim_winnings(&mut ctx);
    (ctx.market, ctx.bet, r)
}

#[test]
fn new_market_starts_open_and_empty() {
    let m = open_market(id(1), "Will it rain?", 1000, 0);
    assert_eq!(m.creator, id(1));
    assert_eq!(m.resolution_authority, id(1));
    assert_eq!(m.question, "Will it rain?");
    assert_eq!(m.question_hash, question_digest("Will it rain?"));
    assert_eq!(m.end_time, 1000);
    assert!(!m.resolved);
    assert_eq!(m.outcome, None);
    assert_eq!(m.total_yes_bets, 0);
    assert_eq!(m.total_no_bets, 0);
    assert_eq!(m.fee_percentage, 100);
    assert_eq!(m.escrow_balance, 0);
    assert_eq!(m.bump, 254);
}

#[test]
fn basic_resolution_yes_wins() {
    let key = id(9);
    let (alice, bob, carol) = (id(1), id(2), id(3));
    let m = open_market(alice, "Will it rain tomorrow?", 1000, 0);
    let (m, a) = bet_on(m, key, alice, 100, true, 100);
    let (m, b) = bet_on(m, key, bob, 300, false, 100);
    let (m, c) = bet_on(m, key, carol, 200, true, 100);
    assert_eq!(m.total_yes_bets, 300);
    assert_eq!(m.total_no_bets, 300);
    assert_eq!(m.escrow_balance, 600);
    let m = resolve(m, alice, true, 1001);
    assert!(m.resolved);
    assert_eq!(m.outcome, Some(true));

    let (m, a, paid) = claim(m, key, a, alice);
    assert_eq!(paid, Ok(198));
    assert!(a.claimed);
    assert_eq!(m.escrow_balance, 402);

    let (m, b, refused) = claim(m, key, b, bob);
    assert_eq!(refused, Err(ErrorCode::NotAWinner));
    assert!(!b.claimed);
    assert_eq!(m.escrow_balance, 402);

    let (m, c, paid) = claim(m, key, c, carol);
    assert_eq!(paid, Ok(396));
    assert!(c.claimed);
    assert_eq!(m.escrow_balance, 6);
    assert_eq!(m.total_yes_bets, 300);
    assert_eq!(m.total_no_bets, 300);

    // A second claim is refused and moves nothing.
    let (m, a, again) = claim(m, key, a, alice);
    assert_eq!(again, Err(ErrorCode::AlreadyClaimed));
    assert!(a.claimed);
    assert_eq!(m.escrow_balance, 6);
}

#[test]
fn truncation_dust_stays_in_escrow() {
    let key = id(9);
    let (alice, bob, carol) = (id(1), id(2), id(3));
    let m = open_market(alice, "Will the river freeze?", 1000, 0);
    let (m, a) = bet_on(m, key, alice, 1, true, 1);
    let (m, b) = bet_on(m, key, bob, 2, true, 1);
    let (m, _c) = bet_on(m, key, carol, 100, false, 1);
    let m = resolve(m, alice, true, 1000);
    let (m, _, paid_a) = claim(m, key, a, alice);
    let (m, _, paid_b) = claim(m, key, b, bob);
    // pool 103, fee 1, after fee 102, winning pool 3
    assert_eq!(paid_a, Ok(34));
    assert_eq!(paid_b, Ok(68));
    assert_eq!(m.escrow_balance, 1);

    // pool 103, fee 1, after fee 102, winning pool 2 with stakes 1 and 1:
    // each receives 51, nothing is lost.
    let m = open_market(alice, "Will the lake freeze?", 1000, 0);
    let (m, a) = bet_on(m, key, alice, 1, true, 1);
    let (m, b) = bet_on(m, key, bob, 1, true, 1);
    let (m, _c) = bet_on(m, key, carol, 101, false, 1);
    let m = resolve(m, alice, true, 1000);
    let (m, _, paid_a) = claim(m, key, a, alice);
    let (m, _, paid_b) = claim(m, key, b, bob);
    assert_eq!(paid_a, Ok(51));
    assert_eq!(paid_b, Ok(51));
    assert_eq!(m.escrow_balance, 103 - 102);

    // pool 10, fee 0 (truncated), winning pool 3 with stakes 1 and 2:
    // shares 3 and 6, one unit of dust remains.
    let m = open_market(alice, "Will the pond freeze?", 1000, 0);
    let (m, a) = bet_on(m, key, alice, 1, true, 1);
    let (m, b) = bet_on(m, key, bob, 2, true, 1);
    let (m, _c) = bet_on(m, key, carol, 7, false, 1);
    let m = resolve(m, alice, true, 1000);
    let (m, _, paid_a) = claim(m, key, a, alice);
    let (m, _, paid_b) = claim(m, key, b, bob);
    assert_eq!(paid_a, Ok(3));
    assert_eq!(paid_b, Ok(6));
    assert_eq!(m.escrow_balance, 10 - 9);
}

#[test]
fn unauthorized_resolution_changes_nothing() {
    let (alice, mallory) = (id(1), id(66));
    let m = open_market(alice, "Will the bridge open?", 1000, 0);
    let mut ctx = ResolveMarket { market: m, resolution_authority: mallory };
    assert_eq!(resolve_market(&mut ctx, true, 1000), Err(ErrorCode::UnauthorizedResolution));
    assert!(!ctx.market.resolved);
    assert_eq!(ctx.market.outcome, None);
    assert_eq!(ctx.resolution_authority, mallory);
}

#[test]
fn claim_before_resolution_is_refused() {
    let key = id(9);
    let alice = id(1);
    let m = open_market(alice, "Will the train be late?", 1000, 0);
    let (m, a) = bet_on(m, key, alice, 50, true, 10);
    let (m, a, r) = claim(m, key, a, alice);
    assert_eq!(r, Err(ErrorCode::MarketNotResolved));
    assert!(!a.claimed);
    assert_eq!(m.escrow_balance, 50);
}

#[test]
fn one_sided_market_strands_the_pool() {
    let key = id(9);
    let (alice, bob) = (id(1), id(2));
    let m = open_market(alice, "Will the sun rise?", 1000, 0);
    let (m, a) = bet_on(m, key, alice, 200, true, 10);
    let (m, b) = bet_on(m, key, bob, 300, true, 10);
    assert_eq!(m.total_yes_bets, 500);
    assert_eq!(m.total_no_bets, 0);
    let m = resolve(m, alice, false, 2000);
    let (m, _, r) = claim(m, key, a, alice);
    assert_eq!(r, Err(ErrorCode::NotAWinner));
    let (m, _, r) = claim(m, key, b, bob);
    assert_eq!(r, Err(ErrorCode::NotAWinner));
    // Somebody who is recorded on the winning side still cannot be paid:
    // the winning pool is empty.
    let ghost_bet = Bet { bettor: id(3), market: key, amount: 10, outcome: false, claimed: false, bump: 0 };
    let (m, g, r) = claim(m, key, ghost_bet, id(3));
    assert_eq!(r, Err(ErrorCode::MathOverflow));
    assert!(!g.claimed);
    assert_eq!(m.escrow_balance, 500);
}
