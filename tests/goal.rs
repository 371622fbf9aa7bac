use dice_settle::goal::{check_user_wallet, ForfeitSplit, GoalAccount, GoalStatus, ReferralAccount};
use dice_settle::FitStakeError;

fn goal(stake: u64, deadline: i64) -> GoalAccount {
    GoalAccount::init_goal([4u8; 32], stake + 1, 9, stake, deadline, [5u8; 32], "run 5k".to_string(), 250, 251)
        .unwrap()
}

#[test]
fn init_goal_needs_more_than_the_stake() {
    let r = GoalAccount::init_goal([4u8; 32], 100, 9, 100, 10, [5u8; 32], String::new(), 1, 2);
    assert!(matches!(r, Err(FitStakeError::InsufficientFunds)));
    let g = GoalAccount::init_goal([4u8; 32], 101, 9, 100, 10, [5u8; 32], "x".to_string(), 1, 2).unwrap();
    assert_eq!(g.status, GoalStatus::Incomplete);
    assert_eq!((g.seed, g.stake_amount, g.deadline, g.bump, g.vault_bump), (9, 100, 10, 1, 2));
    assert_eq!(g.details, "x");
}

#[test]
fn claim_before_deadline_returns_stake() {
    let g = goal(1000, 100);
    assert_eq!(g.claim_stake(100), Ok(1000));
    assert_eq!(g.claim_stake(101), Err(FitStakeError::GoalDeadlinePassed));
}

#[test]
fn claim_of_closed_goal_is_refused() {
    let mut g = goal(1000, 100);
    g.mark_complete();
    assert_eq!(g.status, GoalStatus::Complete);
    assert_eq!(g.claim_stake(50), Err(FitStakeError::GoalAlreadyCompleted));
    assert_eq!(g.forfeit_stake(150, 50), Err(FitStakeError::GoalAlreadyCompleted));
    let mut g = goal(1000, 100);
    g.mark_forfeited();
    assert_eq!(g.status, GoalStatus::Forfeited);
    assert_eq!(g.claim_stake(50), Err(FitStakeError::GoalForfeited));
    assert_eq!(g.forfeit_stake(150, 50), Err(FitStakeError::GoalForfeited));
}

#[test]
fn forfeit_splits_fee_and_remainder() {
    let g = goal(1000, 100);
    assert_eq!(g.forfeit_stake(99, 50), Err(FitStakeError::GoalDeadlineNotPassed));
    assert_eq!(g.forfeit_stake(100, 50), Ok(ForfeitSplit { fee: 50, remainder: 950 }));
    let g = goal(999, 100);
    assert_eq!(g.forfeit_stake(100, 50), Ok(ForfeitSplit { fee: 49, remainder: 950 }));
}

#[test]
fn forfeit_reports_arithmetic_errors() {
    let g = goal(u64::MAX - 1, 100);
    assert_eq!(g.forfeit_stake(100, 50), Err(FitStakeError::ArithmeticError));
    let g = goal(1000, 100);
    assert_eq!(g.forfeit_stake(100, 2000), Err(FitStakeError::ArithmeticError));
    assert_eq!(g.forfeit_stake(100, 1000), Ok(ForfeitSplit { fee: 1000, remainder: 0 }));
}

#[test]
fn referral_count_increments() {
    let mut r = ReferralAccount { name: "a".to_string(), referral_count: 0, referral_code: "c".to_string(), bump: 1 };
    assert_eq!(r.increment_referral_count(), Ok(()));
    assert_eq!(r.referral_count, 1);
    r.referral_count = u64::MAX;
    assert_eq!(r.increment_referral_count(), Err(FitStakeError::ArithmeticError));
    assert_eq!(r.referral_count, u64::MAX);
}

#[test]
fn user_must_match_wallet() {
    assert_eq!(check_user_wallet(&[1u8; 32], &[1u8; 32]), Ok(()));
    assert_eq!(check_user_wallet(&[1u8; 32], &[2u8; 32]), Err(FitStakeError::UserNotAuthority));
}
