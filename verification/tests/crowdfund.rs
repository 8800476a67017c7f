use soroban_templates::address::{Addr, AddressKind};
use soroban_templates::crowdfund::{CrowdfundContract, FundingTier, Milestone, Refund, DEFAULT_CLAIM_WINDOW};
use soroban_templates::errors::CrowdfundError;

fn account(n: u8) -> Addr {
    Addr { kind: AddressKind::Account, key: [n; 32] }
}

fn campaign(cap: Option<i128>, window: Option<u32>) -> CrowdfundContract {
    let mut c = CrowdfundContract::new();
    let tiers = vec![
        FundingTier { threshold: 500, description: b"sticker".to_vec() },
        FundingTier { threshold: 2_000, description: b"poster".to_vec() },
    ];
    c.initialize(account(1), account(2), 1_000, 100, tiers, cap, window, 10).unwrap();
    c
}

#[test]
fn initialize_validates_parameters() {
    let mut c = CrowdfundContract::new();
    assert_eq!(c.initialize(account(1), account(2), 0, 100, vec![], None, None, 10), Err(CrowdfundError::InvalidGoal));
    assert_eq!(c.initialize(account(1), account(2), 10, 10, vec![], None, None, 10), Err(CrowdfundError::InvalidDeadline));
    let bad = vec![FundingTier { threshold: 0, description: vec![] }];
    assert_eq!(c.initialize(account(1), account(2), 10, 11, bad, None, None, 10), Err(CrowdfundError::InvalidTier));
    assert_eq!(c.initialize(account(1), account(2), 10, 11, vec![], Some(0), None, 10), Err(CrowdfundError::InvalidAmount));
    assert!(c.campaign.is_none());
    assert_eq!(c.initialize(account(1), account(2), 10, 11, vec![], None, None, 10), Ok(()));
    assert_eq!(c.campaign.as_ref().unwrap().claim_window, DEFAULT_CLAIM_WINDOW);
    assert_eq!(c.initialize(account(1), account(2), 10, 11, vec![], None, None, 10), Err(CrowdfundError::AlreadyInitialized));
}

#[test]
fn pledges_accumulate_and_respect_cap() {
    let mut c = campaign(Some(700), None);
    assert_eq!(c.pledge(account(3), 0, 0, 20), Err(CrowdfundError::InvalidAmount));
    assert_eq!(c.pledge(account(3), 400, 0, 20), Ok(400));
    assert_eq!(c.pledge(account(3), 300, 400, 20), Ok(700));
    assert_eq!(c.pledge(account(3), 1, 700, 20), Err(CrowdfundError::PledgeCapExceeded));
    assert_eq!(c.pledge(account(3), 1, i128::MAX, 20), Err(CrowdfundError::Overflow));
    assert_eq!(c.pledge(account(4), 10, 0, 101), Err(CrowdfundError::DeadlinePassed));
    let info = c.get_info().unwrap();
    assert_eq!(info.total_pledged, 700);
    assert!(info.tiers[0].met);
    assert!(!info.tiers[1].met);
    assert_eq!(info.tiers[1].description, b"poster".to_vec());
}

#[test]
fn withdraw_only_before_goal_and_deadline() {
    let mut c = campaign(None, None);
    c.pledge(account(3), 400, 0, 20).unwrap();
    assert_eq!(c.withdraw(0, 20), Err(CrowdfundError::NothingToWithdraw));
    assert_eq!(c.withdraw(400, 20), Ok(400));
    assert_eq!(c.get_info().unwrap().total_pledged, 0);
    c.pledge(account(3), 1_000, 0, 20).unwrap();
    assert_eq!(c.withdraw(1_000, 20), Err(CrowdfundError::GoalAlreadyMet));
    assert_eq!(c.withdraw(1_000, 101), Err(CrowdfundError::DeadlinePassed));
}

#[test]
fn claim_after_deadline_when_goal_met() {
    let mut c = campaign(None, None);
    c.pledge(account(3), 1_200, 0, 20).unwrap();
    assert_eq!(c.claim(100), Err(CrowdfundError::DeadlineNotReached));
    assert_eq!(c.claim(101), Ok(1_200));
    assert_eq!(c.claim(102), Err(CrowdfundError::AlreadyClaimed));
    assert_eq!(c.refund(1_200, 5_000_000), Err(CrowdfundError::GoalAlreadyMet));
}

#[test]
fn claim_fails_when_goal_not_met_and_refund_succeeds() {
    let mut c = campaign(None, None);
    c.pledge(account(3), 300, 0, 20).unwrap();
    assert_eq!(c.claim(101), Err(CrowdfundError::GoalNotMet));
    assert_eq!(c.refund(300, 100), Err(CrowdfundError::DeadlineNotReached));
    assert_eq!(c.refund(300, 101), Ok(Refund { amount: 300, expired_claim_deadline: None }));
    assert_eq!(c.refund(0, 101), Err(CrowdfundError::NothingToWithdraw));
}

#[test]
fn refund_after_claim_window_lapses() {
    let mut c = campaign(None, Some(50));
    c.pledge(account(3), 1_000, 0, 20).unwrap();
    assert_eq!(c.refund(1_000, 150), Err(CrowdfundError::GoalAlreadyMet));
    assert_eq!(c.refund(1_000, 151), Ok(Refund { amount: 1_000, expired_claim_deadline: Some(150) }));
}

#[test]
fn deadline_extends_once() {
    let mut c = campaign(None, None);
    assert_eq!(c.extend_deadline(100, 20), Err(CrowdfundError::InvalidDeadline));
    assert_eq!(c.extend_deadline(200, 20), Ok(()));
    assert_eq!(c.extend_deadline(300, 20), Err(CrowdfundError::DeadlineAlreadyExtended));
    assert_eq!(c.get_info().unwrap().deadline, 200);
    assert_eq!(c.pledge(account(3), 10, 0, 150), Ok(10));
}

#[test]
fn milestones_release_once() {
    let mut c = campaign(None, None);
    let ms = vec![
        Milestone { milestone_id: 1, amount: 300, description: b"alpha".to_vec(), votes_required: 1 },
        Milestone { milestone_id: 2, amount: 700, description: b"beta".to_vec(), votes_required: 2 },
    ];
    c.set_milestones(ms, 20).unwrap();
    assert_eq!(c.request_milestone_release(3, false), Err(CrowdfundError::MilestoneNotFound));
    assert_eq!(c.request_milestone_release(2, false), Ok(()));
    assert_eq!(c.vote_milestone(0, 2, true, None), Err(CrowdfundError::NothingToWithdraw));
    assert_eq!(c.vote_milestone(50, 9, true, None), Err(CrowdfundError::MilestoneNotFound));
    assert_eq!(c.vote_milestone(50, 2, true, None), Ok(()));
    assert_eq!(c.release_milestone(2, false), Err(CrowdfundError::MilestoneNotReady));
    assert_eq!(c.vote_milestone(80, 2, true, None), Ok(()));
    assert_eq!(c.release_milestone(2, false), Ok(700));
    assert_eq!(c.release_milestone(2, true), Err(CrowdfundError::MilestoneAlreadyReleased));
    assert_eq!(CrowdfundContract::new().vote_milestone(50, 2, true, None), Err(CrowdfundError::MilestoneNotFound));
}

#[test]
fn changed_votes_are_counted_once() {
    let mut c = campaign(None, None);
    let ms = vec![Milestone { milestone_id: 5, amount: 100, description: vec![], votes_required: 2 }];
    c.set_milestones(ms, 20).unwrap();
    assert_eq!(c.release_milestone(5, false), Err(CrowdfundError::MilestoneNotReady));
    c.vote_milestone(10, 5, true, None).unwrap();
    // The same contributor approving again does not add a second vote.
    c.vote_milestone(10, 5, true, Some(true)).unwrap();
    assert_eq!(c.release_milestone(5, false), Err(CrowdfundError::MilestoneNotReady));
    // Withdrawing an approval takes it back.
    c.vote_milestone(10, 5, false, Some(true)).unwrap();
    c.vote_milestone(20, 5, true, None).unwrap();
    assert_eq!(c.release_milestone(5, false), Err(CrowdfundError::MilestoneNotReady));
    c.vote_milestone(10, 5, true, Some(false)).unwrap();
    assert_eq!(c.release_milestone(5, false), Ok(100));
}

#[test]
fn pledge_with_whitelisted_token() {
    let mut c = campaign(None, None);
    let alt = account(7);
    assert_eq!(c.pledge_with_token(alt, 10, 0, 0, 20), Err(CrowdfundError::TokenNotWhitelisted));
    c.whitelist_tokens(vec![alt], account(8)).unwrap();
    assert_eq!(c.pledge_with_token(alt, 10, 5, 40, 20), Ok((15, 50)));
    assert_eq!(c.pledge_with_token(alt, -1, 5, 40, 20), Err(CrowdfundError::InvalidAmount));
    assert_eq!(c.pledge_with_token(alt, 1, 5, i128::MAX, 20), Err(CrowdfundError::Overflow));
    assert_eq!(c.get_info().unwrap().total_pledged, 10);
}
