use prediction_betting::engine::Engine;
use prediction_betting::{AccountId, Bet, BetDirection, ProgramState, Round, RoundStatus, TransferOutcome};

fn id(b: u8) -> AccountId {
    AccountId::new([b; 32])
}

fn sample_parts() -> (ProgramState, Vec<Round>, Vec<Bet>) {
    let mut e = Engine::initialize(id(1), id(2), 5);
    assert_eq!(e.create_round(id(1), 4, 0), Ok(()));
    assert_eq!(e.open_round(id(1), 4, 100), Ok(()));
    assert_eq!(e.place_bet(id(10), 4, 30, BetDirection::Up, 5, TransferOutcome::Completed), Ok(()));
    assert_eq!(e.place_bet(id(11), 4, 20, BetDirection::Down, 5, TransferOutcome::Completed), Ok(()));
    e.into_parts()
}

#[test]
fn parts_round_trip() {
    let (s, r, b) = sample_parts();
    let e = Engine::from_parts(s, r.clone(), b.clone()).unwrap();
    assert_eq!(e.round(4), Some(r[0]));
    assert_eq!(e.bet(4, id(11)), Some(b[1]));
    assert_eq!(e.state(), s);
}

#[test]
fn restore_rejects_bad_fee() {
    let (mut s, r, b) = sample_parts();
    s.house_fee_percentage = 101;
    assert!(Engine::from_parts(s, r, b).is_none());
}

#[test]
fn restore_rejects_duplicate_round() {
    let (s, mut r, b) = sample_parts();
    let copy = r[0];
    r.push(copy);
    assert!(Engine::from_parts(s, r, b).is_none());
}

#[test]
fn restore_rejects_duplicate_bet() {
    let (s, r, mut b) = sample_parts();
    let mut copy = b[0];
    copy.amount = 1;
    b.push(copy);
    assert!(Engine::from_parts(s, r, b).is_none());
}

#[test]
fn restore_rejects_pool_mismatch() {
    let (s, mut r, b) = sample_parts();
    r[0].pool_up = 31;
    assert!(Engine::from_parts(s, r, b).is_none());
}

#[test]
fn restore_rejects_orphan_or_empty_bet() {
    let (s, r, mut b) = sample_parts();
    b[0].round_id = 5;
    assert!(Engine::from_parts(s, r.clone(), b).is_none());
    let (s, r, mut b) = sample_parts();
    b.push(Bet { bettor: id(12), round_id: 4, amount: 0, direction: BetDirection::Up, timestamp: 5, claimed: false });
    assert!(Engine::from_parts(s, r, b).is_none());
}

#[test]
fn restore_rejects_winner_without_resolution() {
    let (s, mut r, b) = sample_parts();
    r[0].winning_direction = Some(BetDirection::Up);
    assert!(Engine::from_parts(s, r.clone(), b.clone()).is_none());
    r[0].status = RoundStatus::Resolved;
    assert!(Engine::from_parts(s, r, b).is_some());
}
