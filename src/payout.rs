use vstd::prelude::*;
use vstd::arithmetic::div_mod::{
    lemma_div_by_multiple, lemma_div_is_ordered, lemma_div_pos_is_pos, lemma_fundamental_div_mod,
    lemma_fundamental_div_mod_converse_div, lemma_mod_pos_bound,
};
use vstd::arithmetic::mul::lemma_mul_upper_bound;

verus! {

/// The payout owed to a winning stake: the stake itself plus its proportional
/// share of the losing pool after the house fee, rounded down. Nothing is owed
/// when the winning pool is empty.
pub open spec fn payout_amount(stake: int, win_pool: int, lose_pool: int, fee: int) -> int {
    if win_pool == 0 {
        0
    } else {
        stake + (stake * lose_pool * (100 - fee)) / (win_pool * 100)
    }
}

/// A winner whose stake is part of the winning pool gets at least the stake
/// back and at most the stake plus the whole losing pool.
pub proof fn lemma_payout_bounds(stake: int, win_pool: int, lose_pool: int, fee: int)
    requires
        0 <= stake <= win_pool,
        0 < win_pool,
        0 <= lose_pool,
        0 <= fee <= 100,
    ensures
        stake <= payout_amount(stake, win_pool, lose_pool, fee) <= stake + lose_pool,
{
    let x = stake * lose_pool * (100 - fee);
    let d = win_pool * 100;
    assert(0 <= x <= lose_pool * d) by (nonlinear_arith)
        requires
            0 <= stake <= win_pool,
            0 <= lose_pool,
            0 <= fee <= 100,
            x == stake * lose_pool * (100 - fee),
            d == win_pool * 100,
    ;
    lemma_div_pos_is_pos(x, d);
    lemma_div_is_ordered(x, lose_pool * d, d);
    lemma_div_by_multiple(lose_pool, d);
}

/// Computes `payout_amount` in integer arithmetic, wide enough that no
/// intermediate product overflows.
pub fn calculate_payout(
    bet_amount: u64,
    total_winning_bets: u64,
    total_losing_bets: u64,
    house_fee_percentage: u8,
) -> (r: u64)
    requires
        house_fee_percentage <= 100,
        payout_amount(
            bet_amount as int,
            total_winning_bets as int,
            total_losing_bets as int,
            house_fee_percentage as int,
        ) <= u64::MAX,
    ensures
        r == payout_amount(
            bet_amount as int,
            total_winning_bets as int,
            total_losing_bets as int,
            house_fee_percentage as int,
        ),
        total_winning_bets > 0 ==> r >= bet_amount,
{
    if total_winning_bets == 0 {
        return 0;
    }
    let stake = bet_amount as u128;
    let win = total_winning_bets as u128;
    let lose = total_losing_bets as u128;
    let keep = (100 - house_fee_percentage) as u128;
    proof {
        lemma_mul_upper_bound(stake as int, u64::MAX as int, lose as int, u64::MAX as int);
        assert(u64::MAX * u64::MAX <= u128::MAX) by (nonlinear_arith);
    }
    let product: u128 = stake * lose;
    let denom: u128 = win * 100;
    let quot: u128 = product / denom;
    let rem: u128 = product % denom;
    proof {
        lemma_fundamental_div_mod(product as int, denom as int);
        assert(quot * 100 <= product) by (nonlinear_arith)
            requires
                quot * denom <= product,
                denom >= 100,
                quot >= 0,
        ;
        lemma_mul_upper_bound(quot as int, quot as int, keep as int, 100);
        lemma_mul_upper_bound(rem as int, denom as int, keep as int, 100);
        assert(denom <= u64::MAX * 100);
        assert(denom * 100 <= u64::MAX * 10000) by (nonlinear_arith)
            requires
                denom <= u64::MAX * 100,
        ;
    }
    let high: u128 = quot * keep;
    let low: u128 = (rem * keep) / denom;
    proof {
        let lr = (rem as int * keep as int) % (denom as int);
        lemma_fundamental_div_mod((rem * keep) as int, denom as int);
        assert(product * keep == (high + low) * denom + lr) by (nonlinear_arith)
            requires
                product == denom * quot + rem,
                rem * keep == denom * low + lr,
                high == quot * keep,
        ;
        lemma_fundamental_div_mod_converse_div(
            (product * keep) as int,
            denom as int,
            (high + low) as int,
            lr as int,
        );
        assert(stake * lose * keep == product * keep);
    }
    let extra = high + low;
    (extra as u64) + bet_amount
}

/// Sum of the stakes of a round's winners.
pub open spec fn total_stake(stakes: Seq<u64>) -> int
    decreases stakes.len(),
{
    if stakes.len() == 0 {
        0
    } else {
        total_stake(stakes.drop_last()) + stakes.last()
    }
}

/// Sum of what each of those stakes is owed.
pub open spec fn total_payout(stakes: Seq<u64>, win_pool: int, lose_pool: int, fee: int) -> int
    decreases stakes.len(),
{
    if stakes.len() == 0 {
        0
    } else {
        total_payout(stakes.drop_last(), win_pool, lose_pool, fee) + payout_amount(
            stakes.last() as int,
            win_pool,
            lose_pool,
            fee,
        )
    }
}

/// The shares of the losing pool, summed over the winners and scaled by the
/// divisor, lie within one divisor per winner below the exact amount.
proof fn lemma_shares_sum(stakes: Seq<u64>, win_pool: int, lose_pool: int, fee: int)
    requires
        win_pool > 0,
        0 <= lose_pool,
        0 <= fee <= 100,
    ensures
        ({
            let shares = total_payout(stakes, win_pool, lose_pool, fee) - total_stake(stakes);
            let exact = total_stake(stakes) * lose_pool * (100 - fee);
            let d = win_pool * 100;
            &&& shares * d <= exact
            &&& shares * d > exact - stakes.len() * d || stakes.len() == 0
            &&& shares >= 0
        }),
    decreases stakes.len(),
{
    if stakes.len() > 0 {
        let rest = stakes.drop_last();
        lemma_shares_sum(rest, win_pool, lose_pool, fee);
        let s = stakes.last() as int;
        let x = s * lose_pool * (100 - fee);
        let d = win_pool * 100;
        let f = x / d;
        assert(x >= 0) by (nonlinear_arith)
            requires
                s >= 0,
                lose_pool >= 0,
                fee <= 100,
                x == s * lose_pool * (100 - fee),
        ;
        lemma_fundamental_div_mod(x, d);
        lemma_mod_pos_bound(x, d);
        lemma_div_pos_is_pos(x, d);
        let prev = total_payout(rest, win_pool, lose_pool, fee) - total_stake(rest);
        let shares = total_payout(stakes, win_pool, lose_pool, fee) - total_stake(stakes);
        let n = rest.len();
        assert(shares == prev + f);
        let t = total_stake(rest);
        assert(shares * d <= (t + s) * lose_pool * (100 - fee)
            && shares * d > (t + s) * lose_pool * (100 - fee) - (n + 1) * d) by (nonlinear_arith)
            requires
                shares == prev + f,
                prev * d <= t * lose_pool * (100 - fee),
                prev * d > t * lose_pool * (100 - fee) - n * d || n == 0,
                n == 0 ==> prev == 0 && t == 0,
                x == d * f + x % d,
                0 <= x % d < d,
                x == s * lose_pool * (100 - fee),
                d > 0,
        ;
    }
}

/// Paying every winner of a round never pays out more than the winning pool
/// plus the losing pool's share after the fee, and what rounding leaves behind
/// is less than one unit per winner.
pub proof fn lemma_payouts_within_pools(stakes: Seq<u64>, lose_pool: int, fee: int)
    requires
        total_stake(stakes) > 0,
        0 <= lose_pool,
        0 <= fee <= 100,
    ensures
        ({
            let w = total_stake(stakes);
            let available = w + lose_pool * (100 - fee) / 100;
            let paid = total_payout(stakes, w, lose_pool, fee);
            &&& paid <= available
            &&& available - paid < stakes.len()
        }),
{
    let w = total_stake(stakes);
    lemma_shares_sum(stakes, w, lose_pool, fee);
    let shares = total_payout(stakes, w, lose_pool, fee) - w;
    let lk = lose_pool * (100 - fee);
    let n = stakes.len() as int;
    assert(shares * 100 <= lk && shares * 100 > lk - n * 100) by (nonlinear_arith)
        requires
            shares * (w * 100) <= w * lose_pool * (100 - fee),
            shares * (w * 100) > w * lose_pool * (100 - fee) - n * (w * 100) || n == 0,
            n == 0 ==> w == 0,
            lk == lose_pool * (100 - fee),
            w > 0,
    ;
    lemma_fundamental_div_mod(lk, 100);
    lemma_mod_pos_bound(lk, 100);
}

} // verus!
