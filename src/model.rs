use vstd::prelude::*;
use crate::types::{AccountId, Bet, BetDirection, ErrorCode, ProgramState, Round, RoundStatus, TransferOutcome};
use crate::payout::payout_amount;

verus! {

/// Seconds after creation during which bets are admitted.
pub const BETTING_WINDOW: i64 = 60;

/// Seconds after creation from which the round can be resolved.
pub const TOTAL_WINDOW: i64 = 120;

/// Mathematical state of an engine: its configuration, every round ever
/// created and every bet ever admitted, in order of creation.
pub struct EngineView {
    pub state: ProgramState,
    pub rounds: Seq<Round>,
    pub bets: Seq<Bet>,
}

pub open spec fn round_exists(rounds: Seq<Round>, id: u64) -> bool {
    exists|i: int| 0 <= i < rounds.len() && #[trigger] rounds[i].round_id == id
}

/// The round with identifier `id` (meaningful when it exists).
pub open spec fn round_of(rounds: Seq<Round>, id: u64) -> Round {
    rounds[choose|i: int| 0 <= i < rounds.len() && #[trigger] rounds[i].round_id == id]
}

pub open spec fn bet_matches(b: Bet, id: u64, bettor: AccountId) -> bool {
    b.round_id == id && b.bettor.same(bettor)
}

pub open spec fn bet_exists(bets: Seq<Bet>, id: u64, bettor: AccountId) -> bool {
    exists|i: int| 0 <= i < bets.len() && bet_matches(#[trigger] bets[i], id, bettor)
}

/// The bet of `bettor` on round `id` (meaningful when it exists).
pub open spec fn bet_of(bets: Seq<Bet>, id: u64, bettor: AccountId) -> Bet {
    bets[choose|i: int| 0 <= i < bets.len() && bet_matches(#[trigger] bets[i], id, bettor)]
}

/// Sum of the stakes placed on side `dir` of round `id`.
pub open spec fn pool_sum(bets: Seq<Bet>, id: u64, dir: BetDirection) -> int
    decreases bets.len(),
{
    if bets.len() == 0 {
        0
    } else {
        let b = bets.last();
        pool_sum(bets.drop_last(), id, dir) + if b.round_id == id && b.direction == dir {
            b.amount as int
        } else {
            0
        }
    }
}

/// Sum of all the stakes placed on round `id`.
pub open spec fn staked(bets: Seq<Bet>, id: u64) -> int
    decreases bets.len(),
{
    if bets.len() == 0 {
        0
    } else {
        let b = bets.last();
        staked(bets.drop_last(), id) + if b.round_id == id {
            b.amount as int
        } else {
            0
        }
    }
}

pub open spec fn pool_of(r: Round, dir: BetDirection) -> u64 {
    match dir {
        BetDirection::Up => r.pool_up,
        BetDirection::Down => r.pool_down,
    }
}

pub open spec fn opposite(dir: BetDirection) -> BetDirection {
    match dir {
        BetDirection::Up => BetDirection::Down,
        BetDirection::Down => BetDirection::Up,
    }
}

/// Up wins only on a strictly higher settlement price; a tie goes to Down.
pub open spec fn winner_for(entry_price: u64, settlement_price: u64) -> BetDirection {
    if settlement_price > entry_price {
        BetDirection::Up
    } else {
        BetDirection::Down
    }
}

pub open spec fn fresh_round(id: u64, now: i64) -> Round {
    Round {
        round_id: id,
        status: RoundStatus::Waiting,
        entry_price: 0,
        settlement_price: 0,
        start_time: now,
        betting_deadline: (now + BETTING_WINDOW) as i64,
        resolution_time: (now + TOTAL_WINDOW) as i64,
        pool_up: 0,
        pool_down: 0,
        winning_direction: None,
    }
}

pub open spec fn opened(r: Round, entry_price: u64) -> Round {
    Round { status: RoundStatus::Betting, entry_price, ..r }
}

pub open spec fn cancelled(r: Round) -> Round {
    Round { status: RoundStatus::Cancelled, ..r }
}

pub open spec fn with_stake(r: Round, dir: BetDirection, amount: u64) -> Round {
    match dir {
        BetDirection::Up => Round { pool_up: (r.pool_up + amount) as u64, ..r },
        BetDirection::Down => Round { pool_down: (r.pool_down + amount) as u64, ..r },
    }
}

pub open spec fn resolved(r: Round, settlement_price: u64) -> Round {
    Round {
        status: RoundStatus::Resolved,
        settlement_price,
        winning_direction: Some(winner_for(r.entry_price, settlement_price)),
        ..r
    }
}

pub open spec fn claimed(b: Bet) -> Bet {
    Bet { claimed: true, ..b }
}

/// Whether an operation succeeded: `Ok` when no error applies, else that error.
pub open spec fn outcome_of<T>(err: Option<ErrorCode>, value: T) -> Result<T, ErrorCode> {
    match err {
        Some(e) => Err(e),
        None => Ok(value),
    }
}

impl EngineView {
    /// Well-formedness: the fee is a percentage, round identifiers and
    /// (round, bettor) pairs are unique, every bet belongs to a round and has a
    /// positive stake, each pool
    /// is the sum of the stakes on its side, and a round has a winner exactly
    /// when it is resolved.
    pub open spec fn wf(self) -> bool {
        &&& self.state.house_fee_percentage <= 100
        &&& forall|i: int, j: int|
            0 <= i < self.rounds.len() && 0 <= j < self.rounds.len()
                && #[trigger] self.rounds[i].round_id == #[trigger] self.rounds[j].round_id
                ==> i == j
        &&& forall|i: int, j: int|
            0 <= i < self.bets.len() && 0 <= j < self.bets.len() && bet_matches(
                #[trigger] self.bets[i],
                self.bets[j].round_id,
                #[trigger] self.bets[j].bettor,
            ) ==> i == j
        &&& forall|k: int|
            0 <= k < self.bets.len() ==> round_exists(self.rounds, #[trigger] self.bets[k].round_id)
        &&& forall|k: int| 0 <= k < self.bets.len() ==> #[trigger] self.bets[k].amount > 0
        &&& forall|i: int|
            #![trigger self.rounds[i]]
            0 <= i < self.rounds.len() ==> {
                &&& self.rounds[i].pool_up == pool_sum(
                    self.bets,
                    self.rounds[i].round_id,
                    BetDirection::Up,
                )
                &&& self.rounds[i].pool_down == pool_sum(
                    self.bets,
                    self.rounds[i].round_id,
                    BetDirection::Down,
                )
                &&& self.rounds[i].pool_up + self.rounds[i].pool_down <= u64::MAX
                &&& (self.rounds[i].status == RoundStatus::Resolved
                    <==> self.rounds[i].winning_direction is Some)
            }
    }

    pub open spec fn round(self, id: u64) -> Round {
        round_of(self.rounds, id)
    }

    pub open spec fn bet(self, id: u64, bettor: AccountId) -> Bet {
        bet_of(self.bets, id, bettor)
    }

    pub open spec fn map_round(self, id: u64, f: spec_fn(Round) -> Round) -> Seq<Round> {
        self.rounds.map_values(|r: Round| if r.round_id == id { f(r) } else { r })
    }

    // ---- creating a round ----
    pub open spec fn create_error(self, caller: AccountId, id: u64, now: i64) -> Option<
        ErrorCode,
    > {
        if !caller.same(self.state.authority) {
            Some(ErrorCode::Unauthorized)
        } else if round_exists(self.rounds, id) {
            Some(ErrorCode::DuplicateRound)
        } else if self.state.current_round == u64::MAX || now > i64::MAX - TOTAL_WINDOW {
            Some(ErrorCode::Overflow)
        } else {
            None
        }
    }

    pub open spec fn create_step(self, caller: AccountId, id: u64, now: i64) -> EngineView {
        if self.create_error(caller, id, now) is Some {
            self
        } else {
            EngineView {
                state: ProgramState {
                    current_round: (self.state.current_round + 1) as u64,
                    ..self.state
                },
                rounds: self.rounds.push(fresh_round(id, now)),
                bets: self.bets,
            }
        }
    }

    // ---- opening a round for bets ----
    pub open spec fn open_error(self, caller: AccountId, id: u64) -> Option<ErrorCode> {
        if !caller.same(self.state.authority) {
            Some(ErrorCode::Unauthorized)
        } else if !round_exists(self.rounds, id) {
            Some(ErrorCode::RoundNotFound)
        } else if self.round(id).status != RoundStatus::Waiting {
            Some(ErrorCode::RoundNotBetting)
        } else {
            None
        }
    }

    pub open spec fn open_step(self, caller: AccountId, id: u64, entry_price: u64) -> EngineView {
        if self.open_error(caller, id) is Some {
            self
        } else {
            EngineView { rounds: self.map_round(id, |r: Round| opened(r, entry_price)), ..self }
        }
    }

    // ---- cancelling a round ----
    pub open spec fn cancel_error(self, caller: AccountId, id: u64) -> Option<ErrorCode> {
        if !caller.same(self.state.authority) {
            Some(ErrorCode::Unauthorized)
        } else if !round_exists(self.rounds, id) {
            Some(ErrorCode::RoundNotFound)
        } else if self.round(id).status == RoundStatus::Resolved {
            Some(ErrorCode::AlreadyResolved)
        } else if self.round(id).status == RoundStatus::Cancelled {
            Some(ErrorCode::RoundNotBetting)
        } else {
            None
        }
    }

    pub open spec fn cancel_step(self, caller: AccountId, id: u64) -> EngineView {
        if self.cancel_error(caller, id) is Some {
            self
        } else {
            EngineView { rounds: self.map_round(id, |r: Round| cancelled(r)), ..self }
        }
    }

    // ---- placing a bet ----
    pub open spec fn bet_error(
        self,
        bettor: AccountId,
        id: u64,
        amount: u64,
        dir: BetDirection,
        now: i64,
    ) -> Option<ErrorCode> {
        if !round_exists(self.rounds, id) {
            Some(ErrorCode::RoundNotFound)
        } else if self.round(id).status != RoundStatus::Betting {
            Some(ErrorCode::RoundNotBetting)
        } else if now >= self.round(id).betting_deadline {
            Some(ErrorCode::BettingClosed)
        } else if amount == 0 {
            Some(ErrorCode::InvalidAmount)
        } else if bet_exists(self.bets, id, bettor) {
            Some(ErrorCode::DuplicateBet)
        } else if self.round(id).pool_up + self.round(id).pool_down + amount > u64::MAX
            || self.state.total_volume + amount > u64::MAX {
            Some(ErrorCode::Overflow)
        } else {
            None
        }
    }

    /// The error of a bet placement whose stake transfer reported `transfer`.
    pub open spec fn bet_outcome(
        self,
        bettor: AccountId,
        id: u64,
        amount: u64,
        dir: BetDirection,
        now: i64,
        transfer: TransferOutcome,
    ) -> Option<ErrorCode> {
        match self.bet_error(bettor, id, amount, dir, now) {
            Some(e) => Some(e),
            None => if transfer == TransferOutcome::Failed {
                Some(ErrorCode::TransferFailed)
            } else {
                None
            },
        }
    }

    pub open spec fn bet_step(
        self,
        bettor: AccountId,
        id: u64,
        amount: u64,
        dir: BetDirection,
        now: i64,
        transfer: TransferOutcome,
    ) -> EngineView {
        if self.bet_outcome(bettor, id, amount, dir, now, transfer) is Some {
            self
        } else {
            EngineView {
                state: ProgramState {
                    total_volume: (self.state.total_volume + amount) as u64,
                    ..self.state
                },
                rounds: self.map_round(id, |r: Round| with_stake(r, dir, amount)),
                bets: self.bets.push(
                    Bet {
                        bettor,
                        round_id: id,
                        amount,
                        direction: dir,
                        timestamp: now,
                        claimed: false,
                    },
                ),
            }
        }
    }

    // ---- resolving a round ----
    pub open spec fn resolve_error(self, caller: AccountId, id: u64, now: i64) -> Option<
        ErrorCode,
    > {
        if !caller.same(self.state.authority) {
            Some(ErrorCode::Unauthorized)
        } else if !round_exists(self.rounds, id) {
            Some(ErrorCode::RoundNotFound)
        } else if self.round(id).status == RoundStatus::Resolved {
            Some(ErrorCode::AlreadyResolved)
        } else if self.round(id).status != RoundStatus::Betting {
            Some(ErrorCode::RoundNotBetting)
        } else if now < self.round(id).resolution_time {
            Some(ErrorCode::TooEarlyToResolve)
        } else {
            None
        }
    }

    pub open spec fn resolve_step(
        self,
        caller: AccountId,
        id: u64,
        settlement_price: u64,
        now: i64,
    ) -> EngineView {
        if self.resolve_error(caller, id, now) is Some {
            self
        } else {
            EngineView { rounds: self.map_round(id, |r: Round| resolved(r, settlement_price)), ..self }
        }
    }

    // ---- claiming a payout ----
    pub open spec fn claim_error(self, bettor: AccountId, id: u64) -> Option<ErrorCode> {
        if !round_exists(self.rounds, id) {
            Some(ErrorCode::RoundNotFound)
        } else if self.round(id).status != RoundStatus::Resolved {
            Some(ErrorCode::RoundNotResolved)
        } else if !bet_exists(self.bets, id, bettor) {
            Some(ErrorCode::BetNotFound)
        } else if Some(self.bet(id, bettor).direction) != self.round(id).winning_direction {
            Some(ErrorCode::NotAWinner)
        } else if self.bet(id, bettor).claimed {
            Some(ErrorCode::AlreadyClaimed)
        } else {
            None
        }
    }

    /// What the bet of `bettor` on round `id` is owed, from the round's final pools.
    pub open spec fn payout_due(self, bettor: AccountId, id: u64) -> int {
        let r = self.round(id);
        let b = self.bet(id, bettor);
        payout_amount(
            b.amount as int,
            pool_of(r, b.direction) as int,
            pool_of(r, opposite(b.direction)) as int,
            self.state.house_fee_percentage as int,
        )
    }

    pub open spec fn claim_outcome(self, bettor: AccountId, id: u64, transfer: TransferOutcome) -> Option<
        ErrorCode,
    > {
        match self.claim_error(bettor, id) {
            Some(e) => Some(e),
            None => if transfer == TransferOutcome::Failed {
                Some(ErrorCode::TransferFailed)
            } else {
                None
            },
        }
    }

    pub open spec fn claim_step(self, bettor: AccountId, id: u64, transfer: TransferOutcome) -> EngineView {
        if self.claim_outcome(bettor, id, transfer) is Some {
            self
        } else {
            EngineView {
                bets: self.bets.map_values(
                    |b: Bet| if bet_matches(b, id, bettor) { claimed(b) } else { b },
                ),
                ..self
            }
        }
    }
}

pub proof fn lemma_pool_nonneg(bets: Seq<Bet>, id: u64, dir: BetDirection)
    ensures
        pool_sum(bets, id, dir) >= 0,
    decreases bets.len(),
{
    if bets.len() > 0 {
        lemma_pool_nonneg(bets.drop_last(), id, dir);
    }
}

pub proof fn lemma_pool_push(bets: Seq<Bet>, b: Bet, id: u64, dir: BetDirection)
    ensures
        pool_sum(bets.push(b), id, dir) == pool_sum(bets, id, dir) + if b.round_id == id
            && b.direction == dir {
            b.amount as int
        } else {
            0
        },
{
    assert(bets.push(b).drop_last() =~= bets);
}

/// A side of a round on which nobody has bet holds nothing.
pub proof fn lemma_pool_absent(bets: Seq<Bet>, id: u64, dir: BetDirection)
    requires
        forall|k: int| 0 <= k < bets.len() ==> #[trigger] bets[k].round_id != id,
    ensures
        pool_sum(bets, id, dir) == 0,
    decreases bets.len(),
{
    if bets.len() > 0 {
        lemma_pool_absent(bets.drop_last(), id, dir);
    }
}

/// Marking a bet as claimed leaves every pool as it was.
pub proof fn lemma_pool_after_claim(
    bets: Seq<Bet>,
    id: u64,
    bettor: AccountId,
    pid: u64,
    dir: BetDirection,
)
    ensures
        pool_sum(
            bets.map_values(|b: Bet| if bet_matches(b, id, bettor) { claimed(b) } else { b }),
            pid,
            dir,
        ) == pool_sum(bets, pid, dir),
    decreases bets.len(),
{
    if bets.len() > 0 {
        let f = |b: Bet| if bet_matches(b, id, bettor) { claimed(b) } else { b };
        assert(bets.map_values(f).drop_last() =~= bets.drop_last().map_values(f));
        lemma_pool_after_claim(bets.drop_last(), id, bettor, pid, dir);
    }
}

/// A stake is part of the pool of its side.
pub proof fn lemma_stake_in_pool(bets: Seq<Bet>, k: int)
    requires
        0 <= k < bets.len(),
    ensures
        bets[k].amount <= pool_sum(bets, bets[k].round_id, bets[k].direction),
    decreases bets.len(),
{
    let b = bets[k];
    if k == bets.len() - 1 {
        lemma_pool_nonneg(bets.drop_last(), b.round_id, b.direction);
    } else {
        lemma_stake_in_pool(bets.drop_last(), k);
        assert(bets.drop_last()[k] == b);
    }
}

/// The two pools of a round together hold every stake placed on it.
pub proof fn lemma_pools_split_stakes(bets: Seq<Bet>, id: u64)
    ensures
        pool_sum(bets, id, BetDirection::Up) + pool_sum(bets, id, BetDirection::Down) == staked(
            bets,
            id,
        ),
    decreases bets.len(),
{
    if bets.len() > 0 {
        lemma_pools_split_stakes(bets.drop_last(), id);
    }
}

} // verus!
