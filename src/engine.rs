use vstd::prelude::*;
use crate::types::{AccountId, Bet, BetDirection, ErrorCode, ProgramState, Round, RoundStatus, TransferOutcome};
use crate::payout::{calculate_payout, lemma_payout_bounds};
use crate::restore::{bet_keys_unique, bets_placed, find_round_in, round_ids_unique, rounds_consistent};
use crate::model::{
    bet_exists, bet_matches, cancelled, claimed, fresh_round, lemma_pool_absent,
    lemma_pool_after_claim, lemma_pool_push, lemma_stake_in_pool, opened, opposite, outcome_of,
    pool_of, pool_sum, resolved, round_exists, with_stake, EngineView, BETTING_WINDOW, TOTAL_WINDOW,
};

verus! {

/// The betting engine: configuration, the round registry and the bet ledger.
/// Every operation either commits whole or leaves the engine as it was.
pub struct Engine {
    state: ProgramState,
    rounds: Vec<Round>,
    bets: Vec<Bet>,
}

impl View for Engine {
    type V = EngineView;

    closed spec fn view(&self) -> EngineView {
        EngineView { state: self.state, rounds: self.rounds@, bets: self.bets@ }
    }
}

/// In a well-formed engine the round found at `i` is the round of its identifier.
proof fn lemma_round_at(v: EngineView, i: int)
    requires
        v.wf(),
        0 <= i < v.rounds.len(),
    ensures
        round_exists(v.rounds, v.rounds[i].round_id),
        v.round(v.rounds[i].round_id) == v.rounds[i],
{
    let id = v.rounds[i].round_id;
    assert(round_exists(v.rounds, id));
}

/// In a well-formed engine the bet found at `k` is the bet of its key.
proof fn lemma_bet_at(v: EngineView, k: int)
    requires
        v.wf(),
        0 <= k < v.bets.len(),
    ensures
        bet_exists(v.bets, v.bets[k].round_id, v.bets[k].bettor),
        v.bet(v.bets[k].round_id, v.bets[k].bettor) == v.bets[k],
{
    let b = v.bets[k];
    assert(bet_matches(v.bets[k], b.round_id, b.bettor));
    assert(bet_exists(v.bets, b.round_id, b.bettor));
}

/// Replacing the round at `i` by `f` of it, where `f` keeps the identifier and
/// the pools and pairs a winner with the resolved state, keeps the engine
/// well formed and is the same as mapping `f` over the round with that identifier.
proof fn lemma_replace_round(
    old_v: EngineView,
    v: EngineView,
    i: int,
    id: u64,
    f: spec_fn(Round) -> Round,
)
    requires
        old_v.wf(),
        0 <= i < old_v.rounds.len(),
        old_v.rounds[i].round_id == id,
        v.state == old_v.state,
        v.bets == old_v.bets,
        v.rounds == old_v.rounds.update(i, f(old_v.rounds[i])),
        f(old_v.rounds[i]).round_id == id,
        f(old_v.rounds[i]).pool_up == old_v.rounds[i].pool_up,
        f(old_v.rounds[i]).pool_down == old_v.rounds[i].pool_down,
        f(old_v.rounds[i]).status == RoundStatus::Resolved <==> f(
            old_v.rounds[i],
        ).winning_direction is Some,
    ensures
        v.wf(),
        v.rounds == old_v.map_round(id, f),
{
    assert forall|k: int| 0 <= k < v.bets.len() implies round_exists(
        v.rounds,
        #[trigger] v.bets[k].round_id,
    ) by {
        let bid = v.bets[k].round_id;
        assert(round_exists(old_v.rounds, bid));
        let j = choose|j: int| 0 <= j < old_v.rounds.len() && #[trigger] old_v.rounds[j].round_id == bid;
        assert(v.rounds[j].round_id == bid);
    }
    assert(v.rounds =~= old_v.map_round(id, f));
}

impl Engine {
    /// The engine's records satisfy `EngineView::wf`; every operation keeps them so.
    pub open spec fn wf(&self) -> bool {
        self@.wf()
    }

    /// Sets up an engine with no rounds, no bets and the given fee.
    pub fn initialize(authority: AccountId, treasury: AccountId, house_fee_percentage: u8) -> (r:
        Engine)
        requires
            house_fee_percentage <= 100,
        ensures
            r.wf(),
            r@ == (EngineView {
                state: ProgramState {
                    authority,
                    treasury,
                    current_round: 0,
                    total_volume: 0,
                    house_fee_percentage,
                },
                rounds: Seq::empty(),
                bets: Seq::empty(),
            }),
    {
        let r = Engine {
            state: ProgramState {
                authority,
                treasury,
                current_round: 0,
                total_volume: 0,
                house_fee_percentage,
            },
            rounds: Vec::new(),
            bets: Vec::new(),
        };
        assert(r@.rounds =~= Seq::<Round>::empty());
        assert(r@.bets =~= Seq::<Bet>::empty());
        r
    }

    /// Rebuilds an engine from stored records, provided they are well formed:
    /// a fee of at most 100, unique round identifiers and (round, bettor)
    /// pairs, positive stakes on existing rounds, pools that match the stakes,
    /// and a winner exactly on resolved rounds.
    pub fn from_parts(state: ProgramState, rounds: Vec<Round>, bets: Vec<Bet>) -> (r: Option<Engine>)
        ensures
            match r {
                Some(e) => e.wf() && e@ == (EngineView { state, rounds: rounds@, bets: bets@ }),
                None => !(EngineView { state, rounds: rounds@, bets: bets@ }).wf(),
            },
    {
        if state.house_fee_percentage > 100 || !round_ids_unique(&rounds) || !bet_keys_unique(&bets)
            || !bets_placed(&rounds, &bets) || !rounds_consistent(&rounds, &bets) {
            return None;
        }
        Some(Engine { state, rounds, bets })
    }

    /// Takes the engine apart into its configuration, its rounds and its bets.
    pub fn into_parts(self) -> (r: (ProgramState, Vec<Round>, Vec<Bet>))
        ensures
            r.0 == self@.state,
            r.1@ == self@.rounds,
            r.2@ == self@.bets,
    {
        (self.state, self.rounds, self.bets)
    }

    fn find_round(&self, id: u64) -> (r: Option<usize>)
        ensures
            match r {
                Some(i) => i < self.rounds@.len() && self.rounds@[i as int].round_id == id,
                None => !round_exists(self.rounds@, id),
            },
    {
        find_round_in(&self.rounds, id)
    }

    fn find_bet(&self, id: u64, bettor: &AccountId) -> (r: Option<usize>)
        ensures
            match r {
                Some(k) => k < self.bets@.len() && bet_matches(self.bets@[k as int], id, *bettor),
                None => !bet_exists(self.bets@, id, *bettor),
            },
    {
        let mut k: usize = 0;
        while k < self.bets.len()
            invariant
                k <= self.bets@.len(),
                forall|j: int| 0 <= j < k ==> !bet_matches(#[trigger] self.bets@[j], id, *bettor),
            decreases self.bets@.len() - k,
        {
            if self.bets[k].round_id == id && self.bets[k].bettor.equals(bettor) {
                return Some(k);
            }
            k = k + 1;
        }
        None
    }

    /// Creates round `round_id` in the `Waiting` state, with its betting deadline
    /// and resolution time counted from `now`, and counts it.
    pub fn create_round(&mut self, caller: AccountId, round_id: u64, now: i64) -> (r: Result<
        (),
        ErrorCode,
    >)
        requires
            old(self).wf(),
        ensures
            final(self).wf(),
            r == outcome_of(old(self)@.create_error(caller, round_id, now), ()),
            final(self)@ == old(self)@.create_step(caller, round_id, now),
    {
        if !caller.equals(&self.state.authority) {
            return Err(ErrorCode::Unauthorized);
        }
        if self.find_round(round_id).is_some() {
            return Err(ErrorCode::DuplicateRound);
        }
        if self.state.current_round == u64::MAX || now > i64::MAX - TOTAL_WINDOW {
            return Err(ErrorCode::Overflow);
        }
        let ghost old_v = self@;
        let round = Round {
            round_id,
            status: RoundStatus::Waiting,
            entry_price: 0,
            settlement_price: 0,
            start_time: now,
            betting_deadline: now + BETTING_WINDOW,
            resolution_time: now + TOTAL_WINDOW,
            pool_up: 0,
            pool_down: 0,
            winning_direction: None,
        };
        self.rounds.push(round);
        self.state.current_round = self.state.current_round + 1;
        proof {
            let v = self@;
            assert(round == fresh_round(round_id, now));
            assert forall|k: int| 0 <= k < old_v.bets.len() implies #[trigger] old_v.bets[k].round_id
                != round_id by {
                assert(round_exists(old_v.rounds, old_v.bets[k].round_id));
            }
            lemma_pool_absent(old_v.bets, round_id, BetDirection::Up);
            lemma_pool_absent(old_v.bets, round_id, BetDirection::Down);
            assert forall|k: int| 0 <= k < v.bets.len() implies round_exists(
                v.rounds,
                #[trigger] v.bets[k].round_id,
            ) by {
                let id = v.bets[k].round_id;
                assert(round_exists(old_v.rounds, id));
                let i = choose|i: int| 0 <= i < old_v.rounds.len() && #[trigger] old_v.rounds[i].round_id == id;
                assert(v.rounds[i] == old_v.rounds[i]);
            }
            assert(v.rounds =~= old_v.rounds.push(fresh_round(round_id, now)));
        }
        Ok(())
    }

    /// Opens a waiting round for bets, recording its entry price.
    pub fn open_round(&mut self, caller: AccountId, round_id: u64, entry_price: u64) -> (r: Result<
        (),
        ErrorCode,
    >)
        requires
            old(self).wf(),
        ensures
            final(self).wf(),
            r == outcome_of(old(self)@.open_error(caller, round_id), ()),
            final(self)@ == old(self)@.open_step(caller, round_id, entry_price),
    {
        if !caller.equals(&self.state.authority) {
            return Err(ErrorCode::Unauthorized);
        }
        let i = match self.find_round(round_id) {
            Some(i) => i,
            None => return Err(ErrorCode::RoundNotFound),
        };
        let ghost old_v = self@;
        proof {
            lemma_round_at(old_v, i as int);
        }
        let mut round = self.rounds[i];
        if round.status != RoundStatus::Waiting {
            return Err(ErrorCode::RoundNotBetting);
        }
        round.status = RoundStatus::Betting;
        round.entry_price = entry_price;
        self.rounds.set(i, round);
        proof {
            lemma_replace_round(old_v, self@, i as int, round_id, |r: Round| opened(r, entry_price));
        }
        Ok(())
    }

    /// Cancels a round that is waiting or open for bets; no winner is ever set.
    pub fn cancel_round(&mut self, caller: AccountId, round_id: u64) -> (r: Result<(), ErrorCode>)
        requires
            old(self).wf(),
        ensures
            final(self).wf(),
            r == outcome_of(old(self)@.cancel_error(caller, round_id), ()),
            final(self)@ == old(self)@.cancel_step(caller, round_id),
    {
        if !caller.equals(&self.state.authority) {
            return Err(ErrorCode::Unauthorized);
        }
        let i = match self.find_round(round_id) {
            Some(i) => i,
            None => return Err(ErrorCode::RoundNotFound),
        };
        let ghost old_v = self@;
        proof {
            lemma_round_at(old_v, i as int);
        }
        let mut round = self.rounds[i];
        match round.status {
            RoundStatus::Resolved => return Err(ErrorCode::AlreadyResolved),
            RoundStatus::Cancelled => return Err(ErrorCode::RoundNotBetting),
            _ => {},
        }
        round.status = RoundStatus::Cancelled;
        self.rounds.set(i, round);
        proof {
            lemma_replace_round(old_v, self@, i as int, round_id, |r: Round| cancelled(r));
        }
        Ok(())
    }

    /// Tells whether a bet would be admitted, without admitting it.
    pub fn check_bet(
        &self,
        bettor: AccountId,
        round_id: u64,
        amount: u64,
        direction: BetDirection,
        now: i64,
    ) -> (r: Result<(), ErrorCode>)
        requires
            self.wf(),
        ensures
            r == outcome_of(self@.bet_error(bettor, round_id, amount, direction, now), ()),
    {
        let i = match self.find_round(round_id) {
            Some(i) => i,
            None => return Err(ErrorCode::RoundNotFound),
        };
        proof {
            lemma_round_at(self@, i as int);
        }
        let round = self.rounds[i];
        if round.status != RoundStatus::Betting {
            return Err(ErrorCode::RoundNotBetting);
        }
        if now >= round.betting_deadline {
            return Err(ErrorCode::BettingClosed);
        }
        if amount == 0 {
            return Err(ErrorCode::InvalidAmount);
        }
        if self.find_bet(round_id, &bettor).is_some() {
            return Err(ErrorCode::DuplicateBet);
        }
        if amount > u64::MAX - round.pool_up - round.pool_down || amount > u64::MAX
            - self.state.total_volume {
            return Err(ErrorCode::Overflow);
        }
        Ok(())
    }

    /// Admits a bet of `amount` on `direction` of round `round_id`, given what
    /// the ledger reported for moving the stake from the bettor to custody.
    /// The stake joins its side's pool and the total volume; a refused or failed
    /// transfer leaves everything as it was.
    pub fn place_bet(
        &mut self,
        bettor: AccountId,
        round_id: u64,
        amount: u64,
        direction: BetDirection,
        now: i64,
        transfer: TransferOutcome,
    ) -> (r: Result<(), ErrorCode>)
        requires
            old(self).wf(),
        ensures
            final(self).wf(),
            r == outcome_of(
                old(self)@.bet_outcome(bettor, round_id, amount, direction, now, transfer),
                (),
            ),
            final(self)@ == old(self)@.bet_step(bettor, round_id, amount, direction, now, transfer),
    {
        match self.check_bet(bettor, round_id, amount, direction, now) {
            Err(e) => return Err(e),
            Ok(()) => {},
        }
        match transfer {
            TransferOutcome::Failed => return Err(ErrorCode::TransferFailed),
            TransferOutcome::Completed => {},
        }
        let i = match self.find_round(round_id) {
            Some(i) => i,
            None => return Err(ErrorCode::RoundNotFound),
        };
        let ghost old_v = self@;
        proof {
            lemma_round_at(old_v, i as int);
        }
        let mut round = self.rounds[i];
        match direction {
            BetDirection::Up => round.pool_up = round.pool_up + amount,
            BetDirection::Down => round.pool_down = round.pool_down + amount,
        }
        let bet = Bet { bettor, round_id, amount, direction, timestamp: now, claimed: false };
        self.rounds.set(i, round);
        self.bets.push(bet);
        self.state.total_volume = self.state.total_volume + amount;
        proof {
            let v = self@;
            assert(round == with_stake(old_v.rounds[i as int], direction, amount));
            assert(v.rounds =~= old_v.map_round(round_id, |r: Round| with_stake(r, direction, amount)));
            assert(v.bets =~= old_v.bets.push(bet));
            assert forall|j: int| #![trigger v.rounds[j]] 0 <= j < v.rounds.len() implies {
                &&& v.rounds[j].pool_up == pool_sum(v.bets, v.rounds[j].round_id, BetDirection::Up)
                &&& v.rounds[j].pool_down == pool_sum(v.bets, v.rounds[j].round_id, BetDirection::Down)
                &&& v.rounds[j].pool_up + v.rounds[j].pool_down <= u64::MAX
                &&& (v.rounds[j].status == RoundStatus::Resolved <==> v.rounds[j].winning_direction is Some)
            } by {
                lemma_pool_push(old_v.bets, bet, old_v.rounds[j].round_id, BetDirection::Up);
                lemma_pool_push(old_v.bets, bet, old_v.rounds[j].round_id, BetDirection::Down);
            }
            assert forall|k: int| 0 <= k < v.bets.len() implies round_exists(
                v.rounds,
                #[trigger] v.bets[k].round_id,
            ) by {
                let bid = v.bets[k].round_id;
                if k < old_v.bets.len() {
                    assert(old_v.bets[k] == v.bets[k]);
                    assert(round_exists(old_v.rounds, bid));
                    let j = choose|j: int| 0 <= j < old_v.rounds.len() && #[trigger] old_v.rounds[j].round_id == bid;
                    assert(v.rounds[j].round_id == bid);
                } else {
                    assert(v.rounds[i as int].round_id == bid);
                }
            }
            assert forall|a: int, b: int|
                0 <= a < v.bets.len() && 0 <= b < v.bets.len() && bet_matches(
                    #[trigger] v.bets[a],
                    v.bets[b].round_id,
                    #[trigger] v.bets[b].bettor,
                ) implies a == b by {
                if a < old_v.bets.len() && b == old_v.bets.len() {
                    assert(bet_matches(old_v.bets[a], round_id, bettor));
                } else if a == old_v.bets.len() && b < old_v.bets.len() {
                    assert(bet_matches(old_v.bets[b], round_id, bettor));
                }
            }
        }
        Ok(())
    }

    /// Resolves an open round once its resolution time has come: records the
    /// settlement price and fixes the winner, Up only on a strictly higher price.
    pub fn resolve_round(
        &mut self,
        caller: AccountId,
        round_id: u64,
        settlement_price: u64,
        now: i64,
    ) -> (r: Result<(), ErrorCode>)
        requires
            old(self).wf(),
        ensures
            final(self).wf(),
            r == outcome_of(old(self)@.resolve_error(caller, round_id, now), ()),
            final(self)@ == old(self)@.resolve_step(caller, round_id, settlement_price, now),
    {
        if !caller.equals(&self.state.authority) {
            return Err(ErrorCode::Unauthorized);
        }
        let i = match self.find_round(round_id) {
            Some(i) => i,
            None => return Err(ErrorCode::RoundNotFound),
        };
        let ghost old_v = self@;
        proof {
            lemma_round_at(old_v, i as int);
        }
        let mut round = self.rounds[i];
        match round.status {
            RoundStatus::Resolved => return Err(ErrorCode::AlreadyResolved),
            RoundStatus::Betting => {},
            _ => return Err(ErrorCode::RoundNotBetting),
        }
        if now < round.resolution_time {
            return Err(ErrorCode::TooEarlyToResolve);
        }
        let winner = if settlement_price > round.entry_price {
            BetDirection::Up
        } else {
            BetDirection::Down
        };
        round.status = RoundStatus::Resolved;
        round.settlement_price = settlement_price;
        round.winning_direction = Some(winner);
        self.rounds.set(i, round);
        proof {
            lemma_replace_round(
                old_v,
                self@,
                i as int,
                round_id,
                |r: Round| resolved(r, settlement_price),
            );
        }
        Ok(())
    }

    /// The payout that a claim of `bettor` on round `round_id` would receive,
    /// or the error it would meet, without claiming.
    pub fn quote_claim(&self, bettor: AccountId, round_id: u64) -> (r: Result<u64, ErrorCode>)
        requires
            self.wf(),
        ensures
            match r {
                Ok(p) => self@.claim_error(bettor, round_id) is None && p == self@.payout_due(
                    bettor,
                    round_id,
                ),
                Err(e) => self@.claim_error(bettor, round_id) == Some(e),
            },
            self@.claim_error(bettor, round_id) is None ==> self@.bet(round_id, bettor).amount
                <= self@.payout_due(bettor, round_id) <= u64::MAX,
    {
        let i = match self.find_round(round_id) {
            Some(i) => i,
            None => return Err(ErrorCode::RoundNotFound),
        };
        proof {
            lemma_round_at(self@, i as int);
        }
        let round = self.rounds[i];
        let winner = match round.winning_direction {
            Some(d) => d,
            None => return Err(ErrorCode::RoundNotResolved),
        };
        if round.status != RoundStatus::Resolved {
            return Err(ErrorCode::RoundNotResolved);
        }
        let k = match self.find_bet(round_id, &bettor) {
            Some(k) => k,
            None => return Err(ErrorCode::BetNotFound),
        };
        proof {
            lemma_bet_at(self@, k as int);
        }
        let bet = self.bets[k];
        if bet.direction != winner {
            return Err(ErrorCode::NotAWinner);
        }
        if bet.claimed {
            return Err(ErrorCode::AlreadyClaimed);
        }
        let (win_pool, lose_pool) = match winner {
            BetDirection::Up => (round.pool_up, round.pool_down),
            BetDirection::Down => (round.pool_down, round.pool_up),
        };
        proof {
            lemma_stake_in_pool(self@.bets, k as int);
            assert(win_pool == pool_of(round, bet.direction));
            assert(lose_pool == pool_of(round, opposite(bet.direction)));
            lemma_payout_bounds(
                bet.amount as int,
                win_pool as int,
                lose_pool as int,
                self.state.house_fee_percentage as int,
            );
        }
        Ok(calculate_payout(bet.amount, win_pool, lose_pool, self.state.house_fee_percentage))
    }

    /// Pays out the winning bet of `bettor` on a resolved round, given what the
    /// ledger reported for moving the payout from custody to the bettor. The bet
    /// is marked claimed only with a completed transfer, so a bet is paid at
    /// most once; any refusal leaves everything as it was.
    pub fn claim_winnings(&mut self, bettor: AccountId, round_id: u64, transfer: TransferOutcome) -> (r:
        Result<u64, ErrorCode>)
        requires
            old(self).wf(),
        ensures
            final(self).wf(),
            match r {
                Ok(p) => old(self)@.claim_outcome(bettor, round_id, transfer) is None && p == old(
                    self,
                )@.payout_due(bettor, round_id),
                Err(e) => old(self)@.claim_outcome(bettor, round_id, transfer) == Some(e),
            },
            final(self)@ == old(self)@.claim_step(bettor, round_id, transfer),
    {
        let payout = match self.quote_claim(bettor, round_id) {
            Err(e) => return Err(e),
            Ok(p) => p,
        };
        match transfer {
            TransferOutcome::Failed => return Err(ErrorCode::TransferFailed),
            TransferOutcome::Completed => {},
        }
        let k = match self.find_bet(round_id, &bettor) {
            Some(k) => k,
            None => return Err(ErrorCode::BetNotFound),
        };
        let ghost old_v = self@;
        let mut bet = self.bets[k];
        bet.claimed = true;
        self.bets.set(k, bet);
        proof {
            let v = self@;
            let f = |b: Bet| if bet_matches(b, round_id, bettor) { claimed(b) } else { b };
            assert forall|j: int| 0 <= j < old_v.bets.len() implies #[trigger] v.bets[j] == f(
                old_v.bets[j],
            ) by {
                if j != k {
                    assert(!bet_matches(old_v.bets[j], old_v.bets[k as int].round_id, old_v.bets[k as int].bettor));
                }
            }
            assert(v.bets =~= old_v.bets.map_values(f));
            assert forall|j: int| #![trigger v.rounds[j]] 0 <= j < v.rounds.len() implies {
                &&& v.rounds[j].pool_up == pool_sum(v.bets, v.rounds[j].round_id, BetDirection::Up)
                &&& v.rounds[j].pool_down == pool_sum(v.bets, v.rounds[j].round_id, BetDirection::Down)
            } by {
                lemma_pool_after_claim(old_v.bets, round_id, bettor, old_v.rounds[j].round_id, BetDirection::Up);
                lemma_pool_after_claim(old_v.bets, round_id, bettor, old_v.rounds[j].round_id, BetDirection::Down);
            }
            assert forall|a: int, b: int|
                0 <= a < v.bets.len() && 0 <= b < v.bets.len() && bet_matches(
                    #[trigger] v.bets[a],
                    v.bets[b].round_id,
                    #[trigger] v.bets[b].bettor,
                ) implies a == b by {
                assert(bet_matches(old_v.bets[a], old_v.bets[b].round_id, old_v.bets[b].bettor));
            }
            assert forall|j: int| 0 <= j < v.bets.len() implies round_exists(
                v.rounds,
                #[trigger] v.bets[j].round_id,
            ) by {
                assert(round_exists(old_v.rounds, old_v.bets[j].round_id));
            }
            assert forall|j: int| 0 <= j < v.bets.len() implies #[trigger] v.bets[j].amount > 0 by {
                assert(old_v.bets[j].amount > 0);
            }
        }
        Ok(payout)
    }

    /// The configuration and the global counters.
    pub fn state(&self) -> (r: ProgramState)
        ensures
            r == self@.state,
    {
        self.state
    }

    /// The round with identifier `round_id`, if there is one.
    pub fn round(&self, round_id: u64) -> (r: Option<Round>)
        requires
            self.wf(),
        ensures
            r == if round_exists(self@.rounds, round_id) {
                Some(self@.round(round_id))
            } else {
                None
            },
    {
        match self.find_round(round_id) {
            Some(i) => {
                proof {
                    lemma_round_at(self@, i as int);
                }
                Some(self.rounds[i])
            },
            None => None,
        }
    }

    /// The bet of `bettor` on round `round_id`, if there is one.
    pub fn bet(&self, round_id: u64, bettor: AccountId) -> (r: Option<Bet>)
        requires
            self.wf(),
        ensures
            r == if bet_exists(self@.bets, round_id, bettor) {
                Some(self@.bet(round_id, bettor))
            } else {
                None
            },
    {
        match self.find_bet(round_id, &bettor) {
            Some(k) => {
                proof {
                    lemma_bet_at(self@, k as int);
                }
                Some(self.bets[k])
            },
            None => None,
        }
    }
}

} // verus!
