//! Goal staking: a user stakes lamports on a goal with a deadline, claims
//! the stake back by completing the goal in time, or forfeits it after the
//! deadline, minus a fee, to a charity.
use vstd::prelude::*;

use crate::errors::FitStakeError;

verus! {

/// Where a goal stands.
#[derive(Clone, Copy, Debug, PartialEq, Eq, Structural)]
pub enum GoalStatus {
    Incomplete,
    Complete,
    Forfeited,
}

/// A staked goal.
#[derive(Clone, Debug)]
pub struct GoalAccount {
    pub user: [u8; 32],
    pub seed: u64,
    pub stake_amount: u64,
    /// Unix time after which the goal can no longer be claimed.
    pub deadline: i64,
    pub status: GoalStatus,
    /// The charity that receives a forfeited stake.
    pub charity: [u8; 32],
    pub details: String,
    pub bump: u8,
    pub vault_bump: u8,
}

/// How a forfeited stake is split.
#[derive(Clone, Copy, Debug, PartialEq, Eq, Structural)]
pub struct ForfeitSplit {
    /// The part kept by the program vault.
    pub fee: u64,
    /// The part sent to the charity.
    pub remainder: u64,
}

/// The outcome of claiming a goal at time `now`: the stake goes back to the
/// user while the deadline has not passed and the goal is still open.
pub open spec fn claim_result(g: GoalAccount, now: i64) -> Result<u64, FitStakeError> {
    if now > g.deadline {
        Err(FitStakeError::GoalDeadlinePassed)
    } else if g.status == GoalStatus::Complete {
        Err(FitStakeError::GoalAlreadyCompleted)
    } else if g.status == GoalStatus::Forfeited {
        Err(FitStakeError::GoalForfeited)
    } else {
        Ok(g.stake_amount)
    }
}

/// The outcome of forfeiting a goal at time `now` with a fee of
/// `fee_per_mille` thousandths: the fee rounds down and the charity gets
/// the rest.
pub open spec fn forfeit_result(g: GoalAccount, now: i64, fee_per_mille: u64) -> Result<
    ForfeitSplit,
    FitStakeError,
> {
    if now < g.deadline {
        Err(FitStakeError::GoalDeadlineNotPassed)
    } else if g.status == GoalStatus::Complete {
        Err(FitStakeError::GoalAlreadyCompleted)
    } else if g.status == GoalStatus::Forfeited {
        Err(FitStakeError::GoalForfeited)
    } else if g.stake_amount * fee_per_mille > u64::MAX || g.stake_amount * fee_per_mille / 1000
        > g.stake_amount {
        Err(FitStakeError::ArithmeticError)
    } else {
        let fee = g.stake_amount * fee_per_mille / 1000;
        Ok(ForfeitSplit { fee: fee as u64, remainder: (g.stake_amount - fee) as u64 })
    }
}

impl GoalAccount {
    /// Opens a goal staking `stake_amount` for a user who holds
    /// `user_lamports`, which must exceed the stake.
    pub fn init_goal(
        user: [u8; 32],
        user_lamports: u64,
        seed: u64,
        stake_amount: u64,
        deadline: i64,
        charity: [u8; 32],
        details: String,
        bump: u8,
        vault_bump: u8,
    ) -> (r: Result<GoalAccount, FitStakeError>)
        ensures
            user_lamports <= stake_amount ==> r == Err::<GoalAccount, FitStakeError>(
                FitStakeError::InsufficientFunds,
            ),
            user_lamports > stake_amount ==> (r matches Ok(g) && g.user == user && g.seed == seed
                && g.stake_amount == stake_amount && g.deadline == deadline && g.status
                == GoalStatus::Incomplete && g.charity == charity && g.details@ == details@ && g.bump
                == bump && g.vault_bump == vault_bump),
    {
        if user_lamports <= stake_amount {
            return Err(FitStakeError::InsufficientFunds);
        }
        Ok(
            GoalAccount {
                user,
                seed,
                stake_amount,
                deadline,
                status: GoalStatus::Incomplete,
                charity,
                details,
                bump,
                vault_bump,
            },
        )
    }

    /// The stake to return to the user on completing the goal at `now`.
    pub fn claim_stake(&self, now: i64) -> (r: Result<u64, FitStakeError>)
        ensures
            r == claim_result(*self, now),
    {
        if now > self.deadline {
            return Err(FitStakeError::GoalDeadlinePassed);
        }
        if self.status == GoalStatus::Complete {
            return Err(FitStakeError::GoalAlreadyCompleted);
        }
        if self.status == GoalStatus::Forfeited {
            return Err(FitStakeError::GoalForfeited);
        }
        Ok(self.stake_amount)
    }

    /// The fee and charity parts of the stake on forfeiting the goal at `now`.
    pub fn forfeit_stake(&self, now: i64, fee_per_mille: u64) -> (r: Result<ForfeitSplit, FitStakeError>)
        ensures
            r == forfeit_result(*self, now, fee_per_mille),
            r matches Ok(s) ==> s.fee + s.remainder == self.stake_amount,
    {
        if now < self.deadline {
            return Err(FitStakeError::GoalDeadlineNotPassed);
        }
        if self.status == GoalStatus::Complete {
            return Err(FitStakeError::GoalAlreadyCompleted);
        }
        if self.status == GoalStatus::Forfeited {
            return Err(FitStakeError::GoalForfeited);
        }
        let stake = self.stake_amount;
        let scaled = match stake.checked_mul(fee_per_mille) {
            Some(v) => v,
            None => return Err(FitStakeError::ArithmeticError),
        };
        let fee = scaled / 1000;
        let remainder = match stake.checked_sub(fee) {
            Some(v) => v,
            None => return Err(FitStakeError::ArithmeticError),
        };
        Ok(ForfeitSplit { fee, remainder })
    }

    /// Records that the goal was completed.
    pub fn mark_complete(&mut self)
        ensures
            final(self).status == GoalStatus::Complete,
            final(self).stake_amount == old(self).stake_amount,
            final(self).deadline == old(self).deadline,
            final(self).user == old(self).user,
            final(self).charity == old(self).charity,
    {
        self.status = GoalStatus::Complete;
    }

    /// Records that the goal was forfeited.
    pub fn mark_forfeited(&mut self)
        ensures
            final(self).status == GoalStatus::Forfeited,
            final(self).stake_amount == old(self).stake_amount,
            final(self).deadline == old(self).deadline,
            final(self).user == old(self).user,
            final(self).charity == old(self).charity,
    {
        self.status = GoalStatus::Forfeited;
    }
}

/// A referral code and how many users signed up with it.
#[derive(Clone, Debug)]
pub struct ReferralAccount {
    pub name: String,
    pub referral_count: u64,
    pub referral_code: String,
    pub bump: u8,
}

impl ReferralAccount {
    /// Counts one more user signed up with this code.
    pub fn increment_referral_count(&mut self) -> (r: Result<(), FitStakeError>)
        ensures
            old(self).referral_count < u64::MAX ==> (r is Ok && final(self).referral_count
                == old(self).referral_count + 1),
            old(self).referral_count == u64::MAX ==> (r == Err::<(), FitStakeError>(
                FitStakeError::ArithmeticError,
            ) && final(self).referral_count == old(self).referral_count),
    {
        match self.referral_count.checked_add(1) {
            Some(n) => {
                self.referral_count = n;
                Ok(())
            },
            None => Err(FitStakeError::ArithmeticError),
        }
    }
}

/// A user may only be registered for the wallet that signs as that user.
pub fn check_user_wallet(user: &[u8; 32], wallet: &[u8; 32]) -> (r: Result<(), FitStakeError>)
    ensures
        r is Ok <==> user@ == wallet@,
        r is Err ==> r == Err::<(), FitStakeError>(FitStakeError::UserNotAuthority),
{
    if crate::bytes::bytes_equal(user.as_slice(), wallet.as_slice()) {
        Ok(())
    } else {
        Err(FitStakeError::UserNotAuthority)
    }
}

} // verus!
