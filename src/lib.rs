//! A pari-mutuel prediction-betting engine: timed binary rounds, bet admission,
//! price-based resolution and exactly-once payout of winning bets.
//!
//! Rounds follow the create-then-open flow: `Engine::create_round` registers a
//! waiting round, and `Engine::open_round` records its entry price and admits
//! bets. Ledger transfers and the clock belong to the caller: operations take
//! the current time and the outcome of the transfer they depend on.

pub mod types;
pub mod payout;
pub mod model;
pub mod restore;
pub mod engine;
pub mod laws;

pub use types::{AccountId, Bet, BetDirection, ErrorCode, ProgramState, Round, RoundStatus, TransferOutcome};
pub use payout::calculate_payout;
pub use engine::Engine;
