//! Provably-fair dice wager settlement.
//!
//! A player commits a stake and a threshold; the house later resolves the
//! wager with an Ed25519 signature over the wager's canonical bytes. The
//! signature is hashed into an outcome in `1..=100`, and the player wins when
//! the threshold is strictly above the outcome.
//!
//! The `goal` module holds the rules of a companion staking program, where a
//! stake is claimed back by meeting a deadline or forfeited to a charity.
pub mod attest;
pub mod bytes;
pub mod errors;
pub mod goal;
pub mod outcome;
pub mod payout;
pub mod table;
pub mod wager;

pub use errors::{AmmError, DiceError, FitStakeError};
