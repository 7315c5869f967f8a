use vstd::prelude::*;
use crate::types::{AccountId, Bet, BetDirection, ErrorCode, Round, RoundStatus, TransferOutcome};
use crate::model::{
    bet_exists, bet_matches, claimed, lemma_pools_split_stakes, resolved,
    round_exists, staked, winner_for, EngineView,
};

verus! {

/// The two pools of every round together hold exactly the sum of the stakes of
/// the bets admitted on it.
pub proof fn lemma_pools_hold_all_stakes(v: EngineView, id: u64)
    requires
        v.wf(),
        round_exists(v.rounds, id),
    ensures
        v.round(id).pool_up + v.round(id).pool_down == staked(v.bets, id),
{
    let i = choose|i: int| 0 <= i < v.rounds.len() && #[trigger] v.rounds[i].round_id == id;
    assert(v.rounds[i] == v.round(id));
    lemma_pools_split_stakes(v.bets, id);
}

/// Admitting a bet adds exactly its stake to the stakes of its round and to
/// that round's pools.
pub proof fn lemma_admitted_bet_adds_stake(
    v: EngineView,
    bettor: AccountId,
    id: u64,
    amount: u64,
    dir: BetDirection,
    now: i64,
)
    requires
        v.wf(),
        v.bet_outcome(bettor, id, amount, dir, now, TransferOutcome::Completed) is None,
    ensures
        ({
            let w = v.bet_step(bettor, id, amount, dir, now, TransferOutcome::Completed);
            &&& staked(w.bets, id) == staked(v.bets, id) + amount
            &&& w.state.total_volume == v.state.total_volume + amount
        }),
{
    let w = v.bet_step(bettor, id, amount, dir, now, TransferOutcome::Completed);
    assert(w.bets.drop_last() =~= v.bets);
}

/// Once a bettor has a bet on a round, every further bet of that bettor on that
/// round is refused, with `DuplicateBet` whenever the round is still open, its
/// deadline is ahead and the stake is positive; a refused bet changes nothing.
pub proof fn lemma_bet_at_most_once(
    v: EngineView,
    bettor: AccountId,
    id: u64,
    amount: u64,
    dir: BetDirection,
    now: i64,
    amount2: u64,
    dir2: BetDirection,
    now2: i64,
    transfer2: TransferOutcome,
)
    requires
        v.wf(),
        v.bet_outcome(bettor, id, amount, dir, now, TransferOutcome::Completed) is None,
    ensures
        ({
            let w = v.bet_step(bettor, id, amount, dir, now, TransferOutcome::Completed);
            &&& w.bet_outcome(bettor, id, amount2, dir2, now2, transfer2) is Some
            &&& w.bet_step(bettor, id, amount2, dir2, now2, transfer2) == w
            &&& (w.round(id).status == RoundStatus::Betting && now2 < w.round(id).betting_deadline
                && amount2 > 0) ==> w.bet_error(bettor, id, amount2, dir2, now2) == Some(
                ErrorCode::DuplicateBet,
            )
        }),
{
    let w = v.bet_step(bettor, id, amount, dir, now, TransferOutcome::Completed);
    let last = w.bets.len() - 1;
    assert(bet_matches(w.bets[last], id, bettor));
    let i = choose|i: int| 0 <= i < v.rounds.len() && #[trigger] v.rounds[i].round_id == id;
    assert(w.rounds[i].round_id == id);
    assert(bet_exists(w.bets, id, bettor));
}

/// The pools of a resolved round are frozen: no bet is admitted on it, so every
/// claim against it divides by the same pools.
pub proof fn lemma_pools_frozen_after_resolution(
    v: EngineView,
    bettor: AccountId,
    id: u64,
    amount: u64,
    dir: BetDirection,
    now: i64,
    transfer: TransferOutcome,
)
    requires
        round_exists(v.rounds, id),
        v.round(id).status == RoundStatus::Resolved,
    ensures
        v.bet_error(bettor, id, amount, dir, now) == Some(ErrorCode::RoundNotBetting),
        v.bet_step(bettor, id, amount, dir, now, transfer) == v,
{
}

/// A round that is open for bets cannot be resolved before its resolution
/// time; the refusal changes nothing.
pub proof fn lemma_no_early_resolution(
    v: EngineView,
    caller: AccountId,
    id: u64,
    settlement_price: u64,
    now: i64,
)
    requires
        caller.same(v.state.authority),
        round_exists(v.rounds, id),
        v.round(id).status == RoundStatus::Betting,
        now < v.round(id).resolution_time,
    ensures
        v.resolve_error(caller, id, now) == Some(ErrorCode::TooEarlyToResolve),
        v.resolve_step(caller, id, settlement_price, now) == v,
{
}

/// A round is resolved at most once: after a successful resolution the winner
/// is fixed by the price, and any later resolution by the authority fails with
/// `AlreadyResolved` and leaves the outcome unchanged.
pub proof fn lemma_resolve_once(
    v: EngineView,
    caller: AccountId,
    id: u64,
    settlement_price: u64,
    now: i64,
    caller2: AccountId,
    settlement_price2: u64,
    now2: i64,
)
    requires
        v.wf(),
        v.resolve_error(caller, id, now) is None,
        caller2.same(v.state.authority),
    ensures
        ({
            let w = v.resolve_step(caller, id, settlement_price, now);
            &&& w.round(id).winning_direction == Some(
                winner_for(v.round(id).entry_price, settlement_price),
            )
            &&& w.resolve_error(caller2, id, now2) == Some(ErrorCode::AlreadyResolved)
            &&& w.resolve_step(caller2, id, settlement_price2, now2) == w
        }),
{
    let w = v.resolve_step(caller, id, settlement_price, now);
    let f = |r: Round| resolved(r, settlement_price);
    let i = choose|i: int| 0 <= i < v.rounds.len() && #[trigger] v.rounds[i].round_id == id;
    assert(w.rounds[i] == f(v.rounds[i]));
    assert(w.rounds[i].round_id == id);
    let j = choose|j: int| 0 <= j < w.rounds.len() && #[trigger] w.rounds[j].round_id == id;
    if v.rounds[j].round_id != id {
        assert(w.rounds[j] == v.rounds[j]);
    }
    assert(v.rounds[j].round_id == id);
    assert(i == j);
}

/// A winning bet is paid once: a completed claim marks it claimed, and every
/// later claim of it fails with `AlreadyClaimed` and changes nothing, so no
/// second transfer is asked for.
pub proof fn lemma_claim_once(v: EngineView, bettor: AccountId, id: u64, transfer2: TransferOutcome)
    requires
        v.wf(),
        v.claim_error(bettor, id) is None,
    ensures
        ({
            let w = v.claim_step(bettor, id, TransferOutcome::Completed);
            &&& w.bet(id, bettor).claimed
            &&& w.claim_error(bettor, id) == Some(ErrorCode::AlreadyClaimed)
            &&& w.claim_step(bettor, id, transfer2) == w
        }),
{
    let w = v.claim_step(bettor, id, TransferOutcome::Completed);
    let f = |b: Bet| if bet_matches(b, id, bettor) { claimed(b) } else { b };
    assert(w.rounds == v.rounds);
    let i = choose|i: int| 0 <= i < v.bets.len() && bet_matches(#[trigger] v.bets[i], id, bettor);
    assert(w.bets[i] == f(v.bets[i]));
    assert(bet_matches(w.bets[i], id, bettor));
    assert(bet_exists(w.bets, id, bettor));
    let j = choose|j: int| 0 <= j < w.bets.len() && bet_matches(#[trigger] w.bets[j], id, bettor);
    assert(w.bets[j] == f(v.bets[j]));
    assert(bet_matches(v.bets[j], id, bettor));
    assert(bet_matches(v.bets[i], v.bets[j].round_id, v.bets[j].bettor));
    assert(i == j);
}

/// A bet on the losing side of a resolved round is refused with `NotAWinner`
/// and the refusal changes nothing, so every repeated claim meets the same
/// refusal.
pub proof fn lemma_losing_bet_never_paid(
    v: EngineView,
    bettor: AccountId,
    id: u64,
    transfer: TransferOutcome,
)
    requires
        round_exists(v.rounds, id),
        v.round(id).status == RoundStatus::Resolved,
        bet_exists(v.bets, id, bettor),
        Some(v.bet(id, bettor).direction) != v.round(id).winning_direction,
    ensures
        v.claim_error(bettor, id) == Some(ErrorCode::NotAWinner),
        v.claim_step(bettor, id, transfer) == v,
{
}

} // verus!
