use vstd::prelude::*;

verus! {

/// Identity of an account (a bettor, the authority or the custody account):
/// the 32 bytes of its public key.
#[derive(Debug, Clone, Copy, PartialEq, Eq)]
pub struct AccountId {
    pub bytes: [u8; 32],
}

impl AccountId {
    /// Two identities are the same account when their key bytes agree.
    pub open spec fn same(self, other: AccountId) -> bool {
        self.bytes@ == other.bytes@
    }

    pub fn new(bytes: [u8; 32]) -> (r: AccountId)
        ensures
            r.bytes@ == bytes@,
    {
        AccountId { bytes }
    }

    /// Compares the key bytes one by one.
    pub fn equals(&self, other: &AccountId) -> (r: bool)
        ensures
            r == self.same(*other),
    {
        let mut i: usize = 0;
        while i < 32
            invariant
                i <= 32,
                self.bytes@.len() == 32,
                other.bytes@.len() == 32,
                forall|j: int| 0 <= j < i ==> self.bytes@[j] == other.bytes@[j],
            decreases 32 - i,
        {
            if self.bytes[i] != other.bytes[i] {
                return false;
            }
            i = i + 1;
        }
        assert(self.bytes@ =~= other.bytes@);
        true
    }
}

/// The side of a binary round that a bet wagers on.
#[derive(Debug, Clone, Copy, PartialEq, Eq, Structural)]
pub enum BetDirection {
    Up,
    Down,
}

/// Lifecycle of a round: `Waiting -> Betting -> Resolved`, with `Cancelled`
/// reachable from `Waiting` or `Betting`. `Resolved` and `Cancelled` are terminal.
#[derive(Debug, Clone, Copy, PartialEq, Eq, Structural)]
pub enum RoundStatus {
    Waiting,
    Betting,
    Resolved,
    Cancelled,
}

/// Every way an engine operation can be refused.
#[derive(Debug, Clone, Copy, PartialEq, Eq, Structural)]
pub enum ErrorCode {
    /// The caller is not the engine's authority.
    Unauthorized,
    /// A round with this identifier already exists.
    DuplicateRound,
    /// No round has this identifier.
    RoundNotFound,
    /// The round is not in the state the operation needs (opening a round
    /// that is not waiting; betting on or resolving a round that is not open).
    RoundNotBetting,
    /// The betting deadline has passed.
    BettingClosed,
    /// A stake must be positive.
    InvalidAmount,
    /// The bettor already has a bet on this round.
    DuplicateBet,
    /// The resolution time has not been reached.
    TooEarlyToResolve,
    /// The round was resolved before; its outcome stands.
    AlreadyResolved,
    /// Claims are only taken on resolved rounds.
    RoundNotResolved,
    /// The bettor has no bet on this round.
    BetNotFound,
    /// The bet is on the losing side.
    NotAWinner,
    /// The bet was paid out before.
    AlreadyClaimed,
    /// A total or a timestamp would not fit its integer type.
    Overflow,
    /// The ledger refused the transfer that the operation depends on.
    TransferFailed,
}

/// What the ledger reported for the transfer that an operation depends on.
#[derive(Debug, Clone, Copy, PartialEq, Eq, Structural)]
pub enum TransferOutcome {
    Completed,
    Failed,
}

/// Engine configuration and global counters.
#[derive(Debug, Clone, Copy, PartialEq, Eq)]
pub struct ProgramState {
    /// The only identity allowed to create, open, cancel and resolve rounds.
    pub authority: AccountId,
    /// The custody account that holds stakes until they are paid out.
    pub treasury: AccountId,
    /// Number of rounds created so far.
    pub current_round: u64,
    /// Sum of the stakes of every admitted bet.
    pub total_volume: u64,
    /// Percentage of the losing pool that the house keeps, at most 100.
    pub house_fee_percentage: u8,
}

/// One timed betting cycle with a single binary outcome.
#[derive(Debug, Clone, Copy, PartialEq, Eq)]
pub struct Round {
    pub round_id: u64,
    pub status: RoundStatus,
    /// Reference price recorded when betting opens.
    pub entry_price: u64,
    /// Price the round was resolved with; zero until then.
    pub settlement_price: u64,
    pub start_time: i64,
    /// Bets are admitted strictly before this time.
    pub betting_deadline: i64,
    /// The round can be resolved from this time on.
    pub resolution_time: i64,
    pub pool_up: u64,
    pub pool_down: u64,
    /// Unset until the round is resolved, then fixed for good.
    pub winning_direction: Option<BetDirection>,
}

/// A wager of one bettor on one round.
#[derive(Debug, Clone, Copy, PartialEq, Eq)]
pub struct Bet {
    pub bettor: AccountId,
    pub round_id: u64,
    pub amount: u64,
    pub direction: BetDirection,
    pub timestamp: i64,
    pub claimed: bool,
}

} // verus!
