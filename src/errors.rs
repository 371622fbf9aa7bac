use vstd::prelude::*;

verus! {

/// Errors of the dice settlement engine.
#[derive(Clone, Copy, Debug, PartialEq, Eq, Structural)]
pub enum DiceError {
    /// A stake of zero.
    InvalidAmount,
    /// A threshold outside `2..=100`.
    InvalidThreshold,
    /// The paying side holds less than the transfer asks for.
    InsufficientFunds,
    /// A pending wager already uses this player and seed.
    DuplicateWager,
    /// No pending wager has this player and seed.
    WagerNotFound,
    /// The attached signature instruction does not attest the wager.
    SignatureVerificationError,
    /// Overflow or division by zero in the payout arithmetic.
    ArithmeticError,
}

/// Errors of the goal staking program.
#[derive(Clone, Copy, Debug, PartialEq, Eq, Structural)]
pub enum FitStakeError {
    DefaultError,
    ArithmeticError,
    InsufficientFunds,
    StakingZeroLamports,
    GoalDeadlineNotPassed,
    GoalDeadlinePassed,
    GoalAlreadyCompleted,
    GoalForfeited,
    UserNotAuthority,
    InvalidReferral,
}

/// Errors of the constant-product pool program.
#[derive(Clone, Copy, Debug, PartialEq, Eq, Structural)]
pub enum AmmError {
    DefaultError,
    PoolLocked,
    InvalidAmount,
    SlippageExceeded,
}

} // verus!
