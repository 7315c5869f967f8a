use vstd::prelude::*;
use crate::types::{Bet, BetDirection, Round, RoundStatus};
use crate::model::{bet_matches, pool_sum, round_exists};

verus! {

/// Position of the first round with identifier `id`.
pub(crate) fn find_round_in(rounds: &Vec<Round>, id: u64) -> (r: Option<usize>)
    ensures
        match r {
            Some(i) => i < rounds@.len() && rounds@[i as int].round_id == id,
            None => !round_exists(rounds@, id),
        },
{
    let mut i: usize = 0;
    while i < rounds.len()
        invariant
            i <= rounds@.len(),
            forall|j: int| 0 <= j < i ==> #[trigger] rounds@[j].round_id != id,
        decreases rounds@.len() - i,
    {
        if rounds[i].round_id == id {
            return Some(i);
        }
        i = i + 1;
    }
    None
}

/// Whether no two rounds share an identifier.
pub(crate) fn round_ids_unique(rounds: &Vec<Round>) -> (r: bool)
    ensures
        r == (forall|i: int, j: int|
            0 <= i < rounds@.len() && 0 <= j < rounds@.len() && #[trigger] rounds@[i].round_id
                == #[trigger] rounds@[j].round_id ==> i == j),
{
    let n = rounds.len();
    let mut i: usize = 0;
    while i < n
        invariant
            n == rounds@.len(),
            i <= n,
            forall|a: int, b: int|
                0 <= a < i && 0 <= b < n && #[trigger] rounds@[a].round_id
                    == #[trigger] rounds@[b].round_id ==> a == b,
        decreases n - i,
    {
        let mut j: usize = 0;
        while j < n
            invariant
                n == rounds@.len(),
                i < n,
                j <= n,
                forall|a: int, b: int|
                    0 <= a < i && 0 <= b < n && #[trigger] rounds@[a].round_id
                        == #[trigger] rounds@[b].round_id ==> a == b,
                forall|b: int|
                    0 <= b < j && rounds@[i as int].round_id == #[trigger] rounds@[b].round_id
                        ==> b == i,
            decreases n - j,
        {
            if j != i && rounds[i].round_id == rounds[j].round_id {
                return false;
            }
            j = j + 1;
        }
        assert forall|a: int, b: int|
            0 <= a < i + 1 && 0 <= b < n && #[trigger] rounds@[a].round_id
                == #[trigger] rounds@[b].round_id implies a == b by {
            if a == i && b != i {
                assert(rounds@[i as int].round_id == rounds@[b].round_id);
            }
        }
        i = i + 1;
    }
    true
}

/// Whether no bettor has two bets on one round.
pub(crate) fn bet_keys_unique(bets: &Vec<Bet>) -> (r: bool)
    ensures
        r == (forall|i: int, j: int|
            0 <= i < bets@.len() && 0 <= j < bets@.len() && bet_matches(
                #[trigger] bets@[i],
                bets@[j].round_id,
                #[trigger] bets@[j].bettor,
            ) ==> i == j),
{
    let n = bets.len();
    let mut i: usize = 0;
    while i < n
        invariant
            n == bets@.len(),
            i <= n,
            forall|a: int, b: int|
                0 <= a < i && 0 <= b < n && bet_matches(
                    #[trigger] bets@[a],
                    bets@[b].round_id,
                    #[trigger] bets@[b].bettor,
                ) ==> a == b,
        decreases n - i,
    {
        let mut j: usize = 0;
        while j < n
            invariant
                n == bets@.len(),
                i < n,
                j <= n,
                forall|a: int, b: int|
                    0 <= a < i && 0 <= b < n && bet_matches(
                        #[trigger] bets@[a],
                        bets@[b].round_id,
                        #[trigger] bets@[b].bettor,
                    ) ==> a == b,
                forall|b: int|
                    0 <= b < j && bet_matches(
                        bets@[i as int],
                        bets@[b].round_id,
                        #[trigger] bets@[b].bettor,
                    ) ==> b == i,
            decreases n - j,
        {
            if j != i && bets[i].round_id == bets[j].round_id && bets[i].bettor.equals(
                &bets[j].bettor,
            ) {
                return false;
            }
            j = j + 1;
        }
        i = i + 1;
    }
    true
}

/// Whether every bet has a positive stake and belongs to one of the rounds.
pub(crate) fn bets_placed(rounds: &Vec<Round>, bets: &Vec<Bet>) -> (r: bool)
    ensures
        r == ((forall|k: int|
            0 <= k < bets@.len() ==> round_exists(rounds@, #[trigger] bets@[k].round_id)) && (
        forall|k: int| 0 <= k < bets@.len() ==> #[trigger] bets@[k].amount > 0)),
{
    let mut k: usize = 0;
    while k < bets.len()
        invariant
            k <= bets@.len(),
            forall|j: int| 0 <= j < k ==> round_exists(rounds@, #[trigger] bets@[j].round_id),
            forall|j: int| 0 <= j < k ==> #[trigger] bets@[j].amount > 0,
        decreases bets@.len() - k,
    {
        if bets[k].amount == 0 || find_round_in(rounds, bets[k].round_id).is_none() {
            return false;
        }
        k = k + 1;
    }
    true
}

/// Sum of the stakes on side `dir` of round `id`.
pub(crate) fn pool_total(bets: &Vec<Bet>, id: u64, dir: BetDirection) -> (r: u128)
    ensures
        r == pool_sum(bets@, id, dir),
{
    let mut sum: u128 = 0;
    let mut k: usize = 0;
    while k < bets.len()
        invariant
            k <= bets@.len(),
            sum == pool_sum(bets@.take(k as int), id, dir),
            sum <= k * 0xFFFF_FFFF_FFFF_FFFF,
        decreases bets@.len() - k,
    {
        assert(bets@.take(k + 1).drop_last() =~= bets@.take(k as int));
        let b = bets[k];
        if b.round_id == id && b.direction == dir {
            sum = sum + b.amount as u128;
        }
        k = k + 1;
    }
    assert(bets@.take(k as int) =~= bets@);
    sum
}

/// Whether each round's pools are the sums of the stakes on its sides, fit
/// together in a `u64`, and whether the round has a winner exactly when it is
/// resolved.
pub(crate) fn rounds_consistent(rounds: &Vec<Round>, bets: &Vec<Bet>) -> (r: bool)
    ensures
        r == (forall|i: int|
            #![trigger rounds@[i]]
            0 <= i < rounds@.len() ==> {
                &&& rounds@[i].pool_up == pool_sum(bets@, rounds@[i].round_id, BetDirection::Up)
                &&& rounds@[i].pool_down == pool_sum(
                    bets@,
                    rounds@[i].round_id,
                    BetDirection::Down,
                )
                &&& rounds@[i].pool_up + rounds@[i].pool_down <= u64::MAX
                &&& (rounds@[i].status == RoundStatus::Resolved
                    <==> rounds@[i].winning_direction is Some)
            }),
{
    let mut i: usize = 0;
    while i < rounds.len()
        invariant
            i <= rounds@.len(),
            forall|a: int|
                #![trigger rounds@[a]]
                0 <= a < i ==> {
                    &&& rounds@[a].pool_up == pool_sum(bets@, rounds@[a].round_id, BetDirection::Up)
                    &&& rounds@[a].pool_down == pool_sum(
                        bets@,
                        rounds@[a].round_id,
                        BetDirection::Down,
                    )
                    &&& rounds@[a].pool_up + rounds@[a].pool_down <= u64::MAX
                    &&& (rounds@[a].status == RoundStatus::Resolved
                        <==> rounds@[a].winning_direction is Some)
                },
        decreases rounds@.len() - i,
    {
        let r = rounds[i];
        let up = pool_total(bets, r.round_id, BetDirection::Up);
        let down = pool_total(bets, r.round_id, BetDirection::Down);
        let resolved = match r.status {
            RoundStatus::Resolved => true,
            _ => false,
        };
        if up != r.pool_up as u128 || down != r.pool_down as u128 || r.pool_up > u64::MAX
            - r.pool_down || resolved != r.winning_direction.is_some() {
            return false;
        }
        i = i + 1;
    }
    true
}

} // verus!
