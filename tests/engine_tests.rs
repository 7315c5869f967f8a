use prediction_betting::engine::Engine;
use prediction_betting::{AccountId, BetDirection, ErrorCode, RoundStatus, TransferOutcome};

const DONE: TransferOutcome = TransferOutcome::Completed;

fn id(b: u8) -> AccountId {
    AccountId::new([b; 32])
}

fn authority() -> AccountId {
    id(1)
}

/// An engine with a 5% fee and round 7 created at t=0 and opened at price 100.
fn open_engine() -> Engine {
    let mut e = Engine::initialize(authority(), id(2), 5);
    assert_eq!(e.create_round(authority(), 7, 0), Ok(()));
    assert_eq!(e.open_round(authority(), 7, 100), Ok(()));
    e
}

#[test]
fn end_to_end_round() {
    let (a, b) = (id(10), id(11));
    let mut e = open_engine();
    let r = e.round(7).unwrap();
    assert_eq!(r.betting_deadline, 60);
    assert_eq!(r.resolution_time, 120);
    assert_eq!(r.entry_price, 100);
    assert_eq!(e.place_bet(a, 7, 100, BetDirection::Up, 10, DONE), Ok(()));
    assert_eq!(e.place_bet(b, 7, 200, BetDirection::Down, 20, DONE), Ok(()));
    assert_eq!(e.resolve_round(authority(), 7, 150, 120), Ok(()));
    assert_eq!(e.round(7).unwrap().winning_direction, Some(BetDirection::Up));
    assert_eq!(e.quote_claim(a, 7), Ok(290));
    assert_eq!(e.claim_winnings(a, 7, DONE), Ok(290));
    assert_eq!(e.claim_winnings(a, 7, DONE), Err(ErrorCode::AlreadyClaimed));
    assert_eq!(e.claim_winnings(b, 7, DONE), Err(ErrorCode::NotAWinner));
}

#[test]
fn initialize_sets_config() {
    let e = Engine::initialize(authority(), id(2), 5);
    let s = e.state();
    assert_eq!(s.authority, authority());
    assert_eq!(s.treasury, id(2));
    assert_eq!(s.current_round, 0);
    assert_eq!(s.total_volume, 0);
    assert_eq!(s.house_fee_percentage, 5);
    assert_eq!(e.round(0), None);
}

#[test]
fn create_round_starts_waiting() {
    let mut e = Engine::initialize(authority(), id(2), 5);
    assert_eq!(e.create_round(authority(), 3, 1000), Ok(()));
    let r = e.round(3).unwrap();
    assert_eq!(r.status, RoundStatus::Waiting);
    assert_eq!(r.entry_price, 0);
    assert_eq!(r.start_time, 1000);
    assert_eq!(r.betting_deadline, 1060);
    assert_eq!(r.resolution_time, 1120);
    assert_eq!((r.pool_up, r.pool_down), (0, 0));
    assert_eq!(r.winning_direction, None);
    assert_eq!(e.state().current_round, 1);
}

#[test]
fn create_round_rejects_duplicate_and_stranger() {
    let mut e = open_engine();
    assert_eq!(e.create_round(authority(), 7, 5), Err(ErrorCode::DuplicateRound));
    assert_eq!(e.create_round(id(9), 8, 5), Err(ErrorCode::Unauthorized));
    assert_eq!(e.round(8), None);
    assert_eq!(e.state().current_round, 1);
}

#[test]
fn create_round_rejects_overflowing_time() {
    let mut e = Engine::initialize(authority(), id(2), 5);
    assert_eq!(e.create_round(authority(), 1, i64::MAX - 100), Err(ErrorCode::Overflow));
    assert_eq!(e.create_round(authority(), 1, i64::MAX - 120), Ok(()));
}

#[test]
fn open_round_only_from_waiting() {
    let mut e = open_engine();
    assert_eq!(e.open_round(authority(), 7, 5), Err(ErrorCode::RoundNotBetting));
    assert_eq!(e.open_round(authority(), 8, 5), Err(ErrorCode::RoundNotFound));
    assert_eq!(e.round(7).unwrap().entry_price, 100);
}

#[test]
fn pools_track_admitted_stakes() {
    let mut e = open_engine();
    let bets = [(10u8, 5u64, BetDirection::Up), (11, 7, BetDirection::Down), (12, 11, BetDirection::Up)];
    let mut sum = 0;
    for (who, amount, dir) in bets {
        assert_eq!(e.place_bet(id(who), 7, amount, dir, 30, DONE), Ok(()));
        sum += amount;
        let r = e.round(7).unwrap();
        assert_eq!(r.pool_up + r.pool_down, sum);
    }
    let r = e.round(7).unwrap();
    assert_eq!((r.pool_up, r.pool_down), (16, 7));
    assert_eq!(e.state().total_volume, 23);
    let b = e.bet(7, id(11)).unwrap();
    assert_eq!((b.amount, b.direction, b.timestamp, b.claimed), (7, BetDirection::Down, 30, false));
}

#[test]
fn second_bet_of_same_bettor_is_refused() {
    let mut e = open_engine();
    assert_eq!(e.place_bet(id(10), 7, 50, BetDirection::Up, 10, DONE), Ok(()));
    assert_eq!(e.place_bet(id(10), 7, 80, BetDirection::Down, 11, DONE), Err(ErrorCode::DuplicateBet));
    let r = e.round(7).unwrap();
    assert_eq!((r.pool_up, r.pool_down), (50, 0));
    assert_eq!(e.state().total_volume, 50);
    assert_eq!(e.check_bet(id(10), 7, 1, BetDirection::Up, 12), Err(ErrorCode::DuplicateBet));
}

#[test]
fn bet_errors() {
    let mut e = open_engine();
    assert_eq!(e.place_bet(id(10), 8, 5, BetDirection::Up, 10, DONE), Err(ErrorCode::RoundNotFound));
    assert_eq!(e.place_bet(id(10), 7, 5, BetDirection::Up, 60, DONE), Err(ErrorCode::BettingClosed));
    assert_eq!(e.place_bet(id(10), 7, 0, BetDirection::Up, 10, DONE), Err(ErrorCode::InvalidAmount));
    assert_eq!(e.create_round(authority(), 9, 0), Ok(()));
    assert_eq!(e.place_bet(id(10), 9, 5, BetDirection::Up, 10, DONE), Err(ErrorCode::RoundNotBetting));
    assert_eq!(e.state().total_volume, 0);
}

#[test]
fn failed_stake_transfer_admits_nothing() {
    let mut e = open_engine();
    assert_eq!(
        e.place_bet(id(10), 7, 5, BetDirection::Up, 10, TransferOutcome::Failed),
        Err(ErrorCode::TransferFailed)
    );
    assert_eq!(e.bet(7, id(10)), None);
    assert_eq!(e.round(7).unwrap().pool_up, 0);
    assert_eq!(e.place_bet(id(10), 7, 5, BetDirection::Up, 10, DONE), Ok(()));
}

#[test]
fn overflowing_pool_is_refused() {
    let mut e = open_engine();
    assert_eq!(e.place_bet(id(10), 7, u64::MAX, BetDirection::Up, 10, DONE), Ok(()));
    assert_eq!(e.place_bet(id(11), 7, 1, BetDirection::Down, 10, DONE), Err(ErrorCode::Overflow));
    assert_eq!(e.round(7).unwrap().pool_down, 0);
}

#[test]
fn resolve_too_early_then_once() {
    let mut e = open_engine();
    assert_eq!(e.resolve_round(authority(), 7, 150, 119), Err(ErrorCode::TooEarlyToResolve));
    assert_eq!(e.round(7).unwrap().status, RoundStatus::Betting);
    assert_eq!(e.resolve_round(id(9), 7, 150, 120), Err(ErrorCode::Unauthorized));
    assert_eq!(e.resolve_round(authority(), 7, 150, 120), Ok(()));
    assert_eq!(e.resolve_round(authority(), 7, 50, 200), Err(ErrorCode::AlreadyResolved));
    let r = e.round(7).unwrap();
    assert_eq!(r.status, RoundStatus::Resolved);
    assert_eq!(r.settlement_price, 150);
    assert_eq!(r.winning_direction, Some(BetDirection::Up));
}

#[test]
fn tie_resolves_down() {
    let mut e = open_engine();
    assert_eq!(e.resolve_round(authority(), 7, 100, 120), Ok(()));
    assert_eq!(e.round(7).unwrap().winning_direction, Some(BetDirection::Down));
}

#[test]
fn waiting_round_cannot_be_resolved() {
    let mut e = Engine::initialize(authority(), id(2), 5);
    assert_eq!(e.create_round(authority(), 1, 0), Ok(()));
    assert_eq!(e.resolve_round(authority(), 1, 5, 500), Err(ErrorCode::RoundNotBetting));
    assert_eq!(e.resolve_round(authority(), 2, 5, 500), Err(ErrorCode::RoundNotFound));
}

#[test]
fn cancel_round_flows() {
    let mut e = open_engine();
    assert_eq!(e.cancel_round(id(9), 7), Err(ErrorCode::Unauthorized));
    assert_eq!(e.cancel_round(authority(), 7), Ok(()));
    assert_eq!(e.round(7).unwrap().status, RoundStatus::Cancelled);
    assert_eq!(e.cancel_round(authority(), 7), Err(ErrorCode::RoundNotBetting));
    assert_eq!(e.resolve_round(authority(), 7, 5, 500), Err(ErrorCode::RoundNotBetting));
    assert_eq!(e.place_bet(id(10), 7, 5, BetDirection::Up, 10, DONE), Err(ErrorCode::RoundNotBetting));
    let mut f = open_engine();
    assert_eq!(f.resolve_round(authority(), 7, 5, 500), Ok(()));
    assert_eq!(f.cancel_round(authority(), 7), Err(ErrorCode::AlreadyResolved));
}

#[test]
fn claim_is_paid_once() {
    let mut e = open_engine();
    assert_eq!(e.place_bet(id(10), 7, 100, BetDirection::Up, 10, DONE), Ok(()));
    assert_eq!(e.place_bet(id(11), 7, 200, BetDirection::Up, 10, DONE), Ok(()));
    assert_eq!(e.place_bet(id(12), 7, 600, BetDirection::Down, 10, DONE), Ok(()));
    assert_eq!(e.resolve_round(authority(), 7, 101, 130), Ok(()));
    assert_eq!(e.claim_winnings(id(10), 7, DONE), Ok(290));
    assert!(e.bet(7, id(10)).unwrap().claimed);
    assert_eq!(e.claim_winnings(id(10), 7, DONE), Err(ErrorCode::AlreadyClaimed));
    assert_eq!(e.quote_claim(id(10), 7), Err(ErrorCode::AlreadyClaimed));
    assert_eq!(e.claim_winnings(id(11), 7, DONE), Ok(580));
}

#[test]
fn failed_payout_transfer_keeps_bet_claimable() {
    let mut e = open_engine();
    assert_eq!(e.place_bet(id(10), 7, 100, BetDirection::Up, 10, DONE), Ok(()));
    assert_eq!(e.resolve_round(authority(), 7, 101, 130), Ok(()));
    assert_eq!(e.claim_winnings(id(10), 7, TransferOutcome::Failed), Err(ErrorCode::TransferFailed));
    assert!(!e.bet(7, id(10)).unwrap().claimed);
    assert_eq!(e.claim_winnings(id(10), 7, DONE), Ok(100));
}

#[test]
fn losing_claim_always_refused() {
    let mut e = open_engine();
    assert_eq!(e.place_bet(id(10), 7, 100, BetDirection::Up, 10, DONE), Ok(()));
    assert_eq!(e.place_bet(id(11), 7, 100, BetDirection::Down, 10, DONE), Ok(()));
    assert_eq!(e.resolve_round(authority(), 7, 90, 130), Ok(()));
    for _ in 0..3 {
        assert_eq!(e.claim_winnings(id(10), 7, DONE), Err(ErrorCode::NotAWinner));
    }
    assert!(!e.bet(7, id(10)).unwrap().claimed);
}

#[test]
fn claim_errors() {
    let mut e = open_engine();
    assert_eq!(e.place_bet(id(10), 7, 100, BetDirection::Up, 10, DONE), Ok(()));
    assert_eq!(e.claim_winnings(id(10), 7, DONE), Err(ErrorCode::RoundNotResolved));
    assert_eq!(e.claim_winnings(id(10), 8, DONE), Err(ErrorCode::RoundNotFound));
    assert_eq!(e.resolve_round(authority(), 7, 101, 130), Ok(()));
    assert_eq!(e.claim_winnings(id(11), 7, DONE), Err(ErrorCode::BetNotFound));
}

#[test]
fn account_ids_compare_by_bytes() {
    let mut a = [3u8; 32];
    let b = AccountId::new(a);
    assert!(b.equals(&AccountId::new(a)));
    a[31] = 4;
    assert!(!b.equals(&AccountId::new(a)));
}

#[test]
fn pools_frozen_after_resolution() {
    let mut e = open_engine();
    assert_eq!(e.place_bet(id(10), 7, 100, BetDirection::Up, 10, DONE), Ok(()));
    assert_eq!(e.resolve_round(authority(), 7, 101, 130), Ok(()));
    assert_eq!(e.place_bet(id(11), 7, 100, BetDirection::Down, 59, DONE), Err(ErrorCode::RoundNotBetting));
    let r = e.round(7).unwrap();
    assert_eq!((r.pool_up, r.pool_down), (100, 0));
    assert_eq!(e.state().total_volume, 100);
}
