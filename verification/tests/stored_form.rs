use prediction_market::codec::{decode_bet, decode_market, encode_bet, encode_market};
use prediction_market::error::ErrorCode;
use prediction_market::identity::Id;
use prediction_market::record::{Bet, Market};

fn sample_market() -> Market {
    Market {
        creator: Id::new([1; 32]),
        resolution_authority: Id::new([2; 32]),
        question: "Will it rain?".to_string(),
        question_hash: [3; 32],
        end_time: 0x0102030405060708,
        resolved: true,
        outcome: Some(true),
        total_yes_bets: 300,
        total_no_bets: 0x1122334455667788,
        fee_percentage: 0x0164,
        escrow_balance: 594,
        bump: 253,
    }
}

fn same_market(a: &Market, b: &Market) -> bool {
    a.creator == b.creator
        && a.resolution_authority == b.resolution_authority
        && a.question == b.question
        && a.question_hash == b.question_hash
        && a.end_time == b.end_time
        && a.resolved == b.resolved
        && a.outcome == b.outcome
        && a.total_yes_bets == b.total_yes_bets
        && a.total_no_bets == b.total_no_bets
        && a.fee_percentage == b.fee_percentage
        && a.escrow_balance == b.escrow_balance
        && a.bump == b.bump
}

fn same_bet(a: &Bet, b: &Bet) -> bool {
    a.bettor == b.bettor
        && a.market == b.market
        && a.amount == b.amount
        && a.outcome == b.outcome
        && a.claimed == b.claimed
        && a.bump == b.bump
}

#[test]
fn bet_is_stored_field_by_field() {
    let bet = Bet {
        bettor: Id::new([0xaa; 32]),
        market: Id::new([0xbb; 32]),
        amount: 0x0102030405060708,
        outcome: true,
        claimed: false,
        bump: 9,
    };
    let bytes = encode_bet(&bet);
    let mut expected = vec![0xaa; 32];
    expected.extend_from_slice(&[0xbb; 32]);
    expected.extend_from_slice(&[8, 7, 6, 5, 4, 3, 2, 1]);
    expected.extend_from_slice(&[1, 0, 9]);
    assert_eq!(bytes, expected);
    assert_eq!(bytes.len() + 8, Bet::space());
}

#[test]
fn bet_round_trip() {
    for (outcome, claimed) in [(false, false), (false, true), (true, false), (true, true)] {
        let bet = Bet {
            bettor: Id::new([5; 32]),
            market: Id::new([6; 32]),
            amount: u64::MAX - 1,
            outcome,
            claimed,
            bump: 255,
        };
        let back = decode_bet(&encode_bet(&bet)).unwrap();
        assert!(same_bet(&bet, &back));
    }
    let blank = decode_bet(&encode_bet(&Bet::default())).unwrap();
    assert!(same_bet(&blank, &Bet::default()));
}

#[test]
fn bet_reader_refuses_what_is_not_a_bet() {
    let bytes = encode_bet(&Bet::default());
    assert!(decode_bet(&bytes[..74]).is_none());
    assert!(decode_bet(&[]).is_none());
    let mut bad = bytes.clone();
    bad[72] = 2;
    assert!(decode_bet(&bad).is_none());
    let mut bad = bytes.clone();
    bad[73] = 255;
    assert!(decode_bet(&bad).is_none());
    // What follows the record is ignored.
    let mut padded = bytes.clone();
    padded.extend_from_slice(&[7; 8]);
    assert!(same_bet(&decode_bet(&padded).unwrap(), &Bet::default()));
}

#[test]
fn market_is_stored_field_by_field() {
    let bytes = encode_market(&sample_market()).unwrap();
    let mut expected = vec![1u8; 32];
    expected.extend_from_slice(&[2; 32]);
    expected.extend_from_slice(&[13, 0, 0, 0]);
    expected.extend_from_slice(b"Will it rain?");
    expected.extend_from_slice(&[8, 7, 6, 5, 4, 3, 2, 1]);
    expected.push(1);
    expected.extend_from_slice(&[1, 1]);
    expected.extend_from_slice(&[0x2c, 1, 0, 0, 0, 0, 0, 0]);
    expected.extend_from_slice(&[0x88, 0x77, 0x66, 0x55, 0x44, 0x33, 0x22, 0x11]);
    expected.extend_from_slice(&[0x64, 0x01]);
    expected.push(253);
    assert_eq!(bytes, expected);
    assert_eq!(bytes.len(), 98 + 13);
}

#[test]
fn outcome_takes_two_bytes() {
    let mut m = sample_market();
    let at = 32 + 32 + 4 + 13 + 8 + 1;
    m.outcome = None;
    assert_eq!(encode_market(&m).unwrap()[at..at + 2], [0, 0]);
    m.outcome = Some(false);
    assert_eq!(encode_market(&m).unwrap()[at..at + 2], [1, 0]);
    m.outcome = Some(true);
    assert_eq!(encode_market(&m).unwrap()[at..at + 2], [1, 1]);
}

#[test]
fn market_round_trip() {
    let m = sample_market();
    let bytes = encode_market(&m).unwrap();
    let back = decode_market(&bytes, m.escrow_balance, m.question_hash).unwrap();
    assert!(same_market(&m, &back));

    for outcome in [None, Some(false), Some(true)] {
        for end_time in [i64::MIN, -1, 0, 1, i64::MAX] {
            let mut m = sample_market();
            m.outcome = outcome;
            m.resolved = outcome.is_some();
            m.end_time = end_time;
            m.question = "Qué pasará? 日本".to_string();
            m.total_yes_bets = u64::MAX;
            m.fee_percentage = u16::MAX;
            let bytes = encode_market(&m).unwrap();
            let back = decode_market(&bytes, m.escrow_balance, m.question_hash).unwrap();
            assert!(same_market(&m, &back));
        }
    }
    let blank = Market::default();
    let bytes = encode_market(&blank).unwrap();
    assert_eq!(bytes.len(), 98);
    assert!(same_market(&decode_market(&bytes, 0, [0; 32]).unwrap(), &blank));
}

#[test]
fn market_reader_takes_balance_and_digest_from_the_host() {
    let m = sample_market();
    let bytes = encode_market(&m).unwrap();
    let back = decode_market(&bytes, 7, [8; 32]).unwrap();
    assert_eq!(back.escrow_balance, 7);
    assert_eq!(back.question_hash, [8; 32]);
    assert_eq!(back.question, m.question);
}

#[test]
fn longest_question_fills_the_record() {
    let mut m = sample_market();
    m.question = "q".repeat(200);
    let bytes = encode_market(&m).unwrap();
    assert_eq!(bytes.len() + 8, Market::space());
    assert!(same_market(&decode_market(&bytes, m.escrow_balance, m.question_hash).unwrap(), &m));
    m.question = "q".repeat(201);
    assert_eq!(encode_market(&m), Err(ErrorCode::QuestionTooLong));
}

#[test]
fn market_reader_refuses_what_is_not_a_market() {
    let m = sample_market();
    let bytes = encode_market(&m).unwrap();
    assert!(decode_market(&[], 0, [0; 32]).is_none());
    assert!(decode_market(&bytes[..67], 0, [0; 32]).is_none());
    assert!(decode_market(&bytes[..bytes.len() - 1], 0, [0; 32]).is_none());
    // a length above what a record holds
    let mut bad = bytes.clone();
    bad[64] = 201;
    bad.extend_from_slice(&[0; 400]);
    assert!(decode_market(&bad, 0, [0; 32]).is_none());
    // a question that is not UTF-8
    let mut bad = bytes.clone();
    bad[68] = 0xff;
    assert!(decode_market(&bad, 0, [0; 32]).is_none());
    // a resolved flag that is no flag
    let at = 32 + 32 + 4 + 13 + 8;
    let mut bad = bytes.clone();
    bad[at] = 2;
    assert!(decode_market(&bad, 0, [0; 32]).is_none());
    // an outcome that is none of the three
    let mut bad = bytes.clone();
    bad[at + 1] = 0;
    bad[at + 2] = 1;
    assert!(decode_market(&bad, 0, [0; 32]).is_none());
    let mut bad = bytes.clone();
    bad[at + 1] = 2;
    assert!(decode_market(&bad, 0, [0; 32]).is_none());
    // What follows the record is ignored.
    let mut padded = bytes.clone();
    padded.extend_from_slice(&[0; 100]);
    assert!(same_market(&decode_market(&padded, m.escrow_balance, m.question_hash).unwrap(), &m));
}
