use prediction_betting::calculate_payout;

#[test]
fn payout_splits_losing_pool_after_fee() {
    assert_eq!(calculate_payout(100, 300, 600, 5), 290);
}

#[test]
fn payout_is_zero_without_winners() {
    assert_eq!(calculate_payout(50, 0, 100, 5), 0);
}

#[test]
fn payout_single_winner_takes_whole_share() {
    assert_eq!(calculate_payout(100, 100, 200, 5), 290);
}

#[test]
fn payout_without_fee() {
    assert_eq!(calculate_payout(100, 300, 600, 0), 300);
}

#[test]
fn payout_with_full_fee_returns_stake() {
    assert_eq!(calculate_payout(100, 300, 600, 100), 100);
}

#[test]
fn payout_rounds_down() {
    // 1 + floor(1 * 10 / 3) = 4
    assert_eq!(calculate_payout(1, 3, 10, 0), 4);
}

#[test]
fn payout_on_large_pools_does_not_overflow() {
    let half: u64 = 1 << 63;
    assert_eq!(calculate_payout(half, half, half, 5), 17985575471866812825);
}

#[test]
fn payout_with_empty_losing_pool_returns_stake() {
    assert_eq!(calculate_payout(70, 70, 0, 5), 70);
}

#[test]
fn payouts_leave_bounded_dust() {
    let stakes: [u64; 3] = [1, 1, 1];
    let win: u64 = 3;
    let lose: u64 = 10;
    let total: u64 = stakes.iter().map(|s| calculate_payout(*s, win, lose, 0)).sum();
    let available = win + lose;
    assert_eq!(total, 12);
    assert!(total <= available);
    assert!(available - total <= stakes.len() as u64);
}
