//! All-or-nothing crowdfunding campaign.
//!
//! Contributors pledge tokens toward a funding goal before a deadline. If the
//! goal is met the creator claims the funds after the deadline; otherwise, or
//! if the creator lets the claim window lapse, contributors refund their
//! pledges. Before the goal is reached a contributor may withdraw.
//!
//! [`CrowdfundContract`] holds the contract's instance storage; per-address
//! records kept in persistent storage (pledges, per-token pledges, milestone
//! releases) are passed in and the values to store are handed back.
use vstd::prelude::*;
use crate::address::Addr;
use crate::errors::CrowdfundError;
use crate::seqs::{contains_addr, copy_addrs};

verus! {

/// Ledgers in the default claim window (about 90 days at 5 s per ledger).
pub const DEFAULT_CLAIM_WINDOW: u32 = 1_555_200;

/// A stretch goal: crossing `threshold` unlocks the reward in `description`.
#[derive(Debug)]
pub struct FundingTier {
    pub threshold: i128,
    pub description: Vec<u8>,
}

/// A funding tier along with whether the total pledged has met its threshold.
#[derive(Debug)]
pub struct TierStatus {
    pub threshold: i128,
    pub description: Vec<u8>,
    pub met: bool,
}

/// A tranche of the funds, released to the creator on request.
#[derive(Debug)]
pub struct Milestone {
    pub milestone_id: u32,
    pub amount: i128,
    pub description: Vec<u8>,
    pub votes_required: u32,
}

/// Campaign details returned by `get_info`.
#[derive(Debug)]
pub struct CrowdfundInfo {
    pub creator: Addr,
    pub token: Addr,
    pub goal: i128,
    pub deadline: u32,
    pub total_pledged: i128,
    pub claimed: bool,
    pub tiers: Vec<TierStatus>,
    pub max_pledge_per_address: Option<i128>,
}

/// The campaign's stored state.
#[derive(Debug)]
pub struct Campaign {
    pub creator: Addr,
    pub token: Addr,
    pub goal: i128,
    pub deadline: u32,
    pub total_pledged: i128,
    pub claimed: bool,
    pub tiers: Vec<FundingTier>,
    pub deadline_extended: bool,
    pub max_pledge_per_address: Option<i128>,
    /// Ledgers after the deadline within which the creator must claim.
    pub claim_window: u32,
    pub milestones: Vec<Milestone>,
    /// Approving votes cast on each milestone, by its position in `milestones`.
    pub approvals: Vec<u32>,
    pub whitelisted_tokens: Vec<Addr>,
    pub oracle: Option<Addr>,
}

/// The crowdfunding contract's instance storage: `None` until initialised.
#[derive(Debug)]
pub struct CrowdfundContract {
    pub campaign: Option<Campaign>,
}

/// The outcome of a successful refund.
#[derive(Clone, Copy, Debug, PartialEq, Eq)]
pub struct Refund {
    /// The amount returned to the pledger.
    pub amount: i128,
    /// The ledger after which the creator lost the right to claim, when the
    /// goal was met but the claim window has lapsed.
    pub expired_claim_deadline: Option<u32>,
}

/// `x + y`, or `u32::MAX` when the sum does not fit.
pub open spec fn sat_add(x: u32, y: u32) -> u32 {
    if x + y > u32::MAX {
        u32::MAX
    } else {
        (x + y) as u32
    }
}

/// Whether `x + y` fits in an `i128`.
pub open spec fn fits_i128(x: int) -> bool {
    i128::MIN <= x <= i128::MAX
}

/// The index of the first milestone with id `id`, if any.
pub open spec fn first_milestone(ms: Seq<Milestone>, id: u32) -> Option<int> {
    if exists|i: int| 0 <= i < ms.len() && ms[i].milestone_id == id {
        Some(
            choose|i: int|
                0 <= i < ms.len() && ms[i].milestone_id == id && forall|j: int|
                    0 <= j < i ==> ms[j].milestone_id != id,
        )
    } else {
        None
    }
}

fn find_milestone(ms: &Vec<Milestone>, id: u32) -> (r: Option<usize>)
    ensures
        r matches Some(i) ==> first_milestone(ms@, id) == Some(i as int) && i < ms@.len(),
        r is None ==> first_milestone(ms@, id) is None,
{
    let mut i: usize = 0;
    while i < ms.len()
        invariant
            i <= ms@.len(),
            forall|j: int| 0 <= j < i ==> ms@[j].milestone_id != id,
        decreases ms@.len() - i,
    {
        if ms[i].milestone_id == id {
            proof {
                let k = choose|k: int|
                    0 <= k < ms@.len() && ms@[k].milestone_id == id && forall|j: int|
                        0 <= j < k ==> ms@[j].milestone_id != id;
                if k < i {
                } else if k > i {
                    assert(ms@[i as int].milestone_id == id);
                }
            }
            return Some(i);
        }
        i = i + 1;
    }
    None
}

fn copy_bytes(s: &Vec<u8>) -> (r: Vec<u8>)
    ensures
        r@ == s@,
{
    let mut r: Vec<u8> = Vec::new();
    crate::bytes::append_bytes(&mut r, s.as_slice());
    r
}

/// A vote tally after a contributor whose earlier vote was `previous` votes
/// `approve`: an earlier approval is taken back, a new one counted.
pub open spec fn tally_after(t: u32, previous: Option<bool>, approve: bool) -> u32 {
    let withdrawn: u32 = if previous == Some(true) && t > 0 {
        (t - 1) as u32
    } else {
        t
    };
    if approve {
        sat_add(withdrawn, 1)
    } else {
        withdrawn
    }
}

fn zero_tallies(n: usize) -> (v: Vec<u32>)
    ensures
        v@ == Seq::new(n as nat, |i: int| 0u32),
{
    let mut v: Vec<u32> = Vec::new();
    let mut i: usize = 0;
    while i < n
        invariant
            i <= n,
            v@ == Seq::new(i as nat, |j: int| 0u32),
        decreases n - i,
    {
        v.push(0);
        i = i + 1;
        assert(v@ =~= Seq::new(i as nat, |j: int| 0u32));
    }
    v
}

/// Whether every tier has a positive threshold.
fn tiers_valid(tiers: &Vec<FundingTier>) -> (b: bool)
    ensures
        b == forall|i: int| 0 <= i < tiers@.len() ==> tiers@[i].threshold > 0,
{
    let mut i: usize = 0;
    while i < tiers.len()
        invariant
            i <= tiers@.len(),
            forall|j: int| 0 <= j < i ==> tiers@[j].threshold > 0,
        decreases tiers@.len() - i,
    {
        if tiers[i].threshold <= 0 {
            return false;
        }
        i = i + 1;
    }
    true
}

/// `s` reports the tier `t` as met exactly when `total` reaches its threshold.
pub open spec fn reports_tier(s: TierStatus, t: FundingTier, total: i128) -> bool {
    &&& s.threshold == t.threshold
    &&& s.description@ == t.description@
    &&& s.met == (total >= t.threshold)
}

/// The total pledged has reached the funding goal.
pub open spec fn goal_met(c: Campaign) -> bool {
    c.total_pledged >= c.goal
}

/// The last ledger at which the creator may still claim a successful campaign.
pub open spec fn claim_deadline(c: Campaign) -> u32 {
    sat_add(c.deadline, c.claim_window)
}

/// What `claim` answers at `ledger`.
pub open spec fn claim_outcome(campaign: Option<Campaign>, ledger: u32) -> Result<i128, CrowdfundError> {
    match campaign {
        None => Err(CrowdfundError::NotInitialized),
        Some(c) => if ledger <= c.deadline {
            Err(CrowdfundError::DeadlineNotReached)
        } else if c.claimed {
            Err(CrowdfundError::AlreadyClaimed)
        } else if !goal_met(c) {
            Err(CrowdfundError::GoalNotMet)
        } else {
            Ok(c.total_pledged)
        },
    }
}

/// `nc` is `c` marked claimed, everything else unchanged.
pub open spec fn claimed_from(c: Campaign, nc: Campaign) -> bool {
    &&& nc.claimed
    &&& nc.same_terms(&c)
    &&& nc.same_milestones(&c)
    &&& nc.same_tokens(&c)
    &&& nc.deadline == c.deadline
    &&& nc.total_pledged == c.total_pledged
    &&& nc.deadline_extended == c.deadline_extended
}

/// What `refund` answers at `ledger` for a pledge of `pledge`.
pub open spec fn refund_outcome(campaign: Option<Campaign>, pledge: i128, ledger: u32) -> Result<Refund, CrowdfundError> {
    match campaign {
        None => Err(CrowdfundError::NotInitialized),
        Some(c) => if ledger <= c.deadline {
            Err(CrowdfundError::DeadlineNotReached)
        } else if goal_met(c) && c.claimed {
            Err(CrowdfundError::GoalAlreadyMet)
        } else if goal_met(c) && ledger <= claim_deadline(c) {
            Err(CrowdfundError::GoalAlreadyMet)
        } else if pledge <= 0 {
            Err(CrowdfundError::NothingToWithdraw)
        } else {
            Ok(
                Refund {
                    amount: pledge,
                    expired_claim_deadline: if goal_met(c) {
                        Some(claim_deadline(c))
                    } else {
                        None
                    },
                },
            )
        },
    }
}

/// Once a claim has succeeded, every refund is refused: the pledged funds
/// go either to the creator or back to the contributors, never to both.
pub proof fn lemma_claimed_campaign_refuses_refunds(
    c: Campaign,
    nc: Campaign,
    claim_ledger: u32,
    pledge: i128,
    ledger: u32,
)
    requires
        claim_outcome(Some(c), claim_ledger) is Ok,
        claimed_from(c, nc),
    ensures
        refund_outcome(Some(nc), pledge, ledger) is Err,
{
}

/// Up to the end of the claim window a campaign is settled one way only: it
/// cannot be both claimed by the creator and refunded to a contributor.
/// After the deadline and within the window, an unclaimed campaign can be
/// claimed exactly when the goal is met, and refunded exactly when it is not
/// (to a contributor with a pledge).
pub proof fn lemma_claim_or_refund(c: Campaign, pledge: i128, ledger: u32)
    ensures
        ledger <= claim_deadline(c) ==> !(claim_outcome(Some(c), ledger) is Ok && refund_outcome(
            Some(c),
            pledge,
            ledger,
        ) is Ok),
        c.deadline < ledger <= claim_deadline(c) && !c.claimed ==> {
            &&& (claim_outcome(Some(c), ledger) is Ok <==> goal_met(c))
            &&& (refund_outcome(Some(c), pledge, ledger) is Ok <==> !goal_met(c) && pledge > 0)
        },
{
}

/// After the deadline, a campaign that missed its goal refunds every positive
/// pledge in full, however long after the deadline; one that met its goal but
/// was never claimed refunds in full once the claim window has closed,
/// naming the claim deadline that lapsed.
pub proof fn lemma_refunds_after_deadline(c: Campaign, pledge: i128, ledger: u32)
    ensures
        ledger > c.deadline && c.total_pledged < c.goal && pledge > 0 ==> refund_outcome(
            Some(c),
            pledge,
            ledger,
        ) == Ok::<Refund, CrowdfundError>(Refund { amount: pledge, expired_claim_deadline: None }),
        ledger > c.deadline + c.claim_window && c.total_pledged >= c.goal && !c.claimed && pledge > 0
            ==> refund_outcome(Some(c), pledge, ledger) == Ok::<Refund, CrowdfundError>(
            Refund {
                amount: pledge,
                expired_claim_deadline: Some((c.deadline + c.claim_window) as u32),
            },
        ),
{
}

/// How a contributor's vote moves a milestone's approval tally: a vote that
/// neither withdraws nor gives an approval leaves it as it is, a new approval
/// adds one, a withdrawn approval is taken off, and a repeated approval
/// counts once.
pub proof fn lemma_vote_tally(t: u32, previous: Option<bool>, approve: bool)
    ensures
        previous != Some(true) && !approve ==> tally_after(t, previous, approve) == t,
        previous != Some(true) && approve && t < u32::MAX ==> tally_after(t, previous, approve) == t + 1,
        previous == Some(true) && !approve && t > 0 ==> tally_after(t, previous, approve) == t - 1,
        previous == Some(true) && approve && t > 0 ==> tally_after(t, previous, approve) == t,
{
}

impl Campaign {
    /// Everything but the running totals and flags is as in `other`.
    pub open spec fn same_terms(&self, other: &Campaign) -> bool {
        &&& self.creator == other.creator
        &&& self.token == other.token
        &&& self.goal == other.goal
        &&& self.tiers@ == other.tiers@
        &&& self.max_pledge_per_address == other.max_pledge_per_address
        &&& self.claim_window == other.claim_window
    }

    /// The milestones and their vote tallies are as in `other`.
    pub open spec fn same_milestones(&self, other: &Campaign) -> bool {
        &&& self.milestones@ == other.milestones@
        &&& self.approvals@ == other.approvals@
    }

    /// The accepted tokens and the price oracle are as in `other`.
    pub open spec fn same_tokens(&self, other: &Campaign) -> bool {
        &&& self.whitelisted_tokens@ == other.whitelisted_tokens@
        &&& self.oracle == other.oracle
    }

    /// Every milestone has a vote tally.
    pub open spec fn wf(&self) -> bool {
        self.approvals@.len() == self.milestones@.len()
    }
}

impl CrowdfundContract {
    /// A contract that has not been initialised.
    pub fn new() -> (c: Self)
        ensures
            c.campaign is None,
    {
        CrowdfundContract { campaign: None }
    }

    /// Initialise the campaign: a funding `goal` in `token` to be reached by
    /// the `deadline` ledger, optional stretch `tiers`, an optional cap on
    /// each address's total pledge, and the claim window (default about 90
    /// days of ledgers).
    pub fn initialize(
        &mut self,
        creator: Addr,
        token: Addr,
        goal: i128,
        deadline: u32,
        tiers: Vec<FundingTier>,
        max_pledge_per_address: Option<i128>,
        claim_window: Option<u32>,
        current_ledger: u32,
    ) -> (r: Result<(), CrowdfundError>)
        ensures
            r == (if old(self).campaign is Some {
                Err(CrowdfundError::AlreadyInitialized)
            } else if goal <= 0 {
                Err(CrowdfundError::InvalidGoal)
            } else if deadline <= current_ledger {
                Err(CrowdfundError::InvalidDeadline)
            } else if exists|i: int| 0 <= i < tiers@.len() && tiers@[i].threshold <= 0 {
                Err(CrowdfundError::InvalidTier)
            } else if max_pledge_per_address is Some && max_pledge_per_address->Some_0 <= 0 {
                Err(CrowdfundError::InvalidAmount)
            } else {
                Ok(())
            }),
            r is Err ==> *final(self) == *old(self),
            r is Ok ==> final(self).campaign is Some,
            r is Ok ==> ({
                let c = final(self).campaign->Some_0;
                &&& c.creator == creator
                &&& c.token == token
                &&& c.goal == goal
                &&& c.deadline == deadline
                &&& c.total_pledged == 0
                &&& !c.claimed
                &&& c.tiers@ == tiers@
                &&& !c.deadline_extended
                &&& c.max_pledge_per_address == max_pledge_per_address
                &&& c.claim_window == (match claim_window {
                    Some(w) => w,
                    None => DEFAULT_CLAIM_WINDOW,
                })
                &&& c.milestones@.len() == 0
                &&& c.approvals@.len() == 0
                &&& c.whitelisted_tokens@.len() == 0
                &&& c.oracle is None
            }),
    {
        if self.campaign.is_some() {
            return Err(CrowdfundError::AlreadyInitialized);
        }
        if goal <= 0 {
            return Err(CrowdfundError::InvalidGoal);
        }
        if deadline <= current_ledger {
            return Err(CrowdfundError::InvalidDeadline);
        }
        if !tiers_valid(&tiers) {
            return Err(CrowdfundError::InvalidTier);
        }
        if let Some(cap) = max_pledge_per_address {
            if cap <= 0 {
                return Err(CrowdfundError::InvalidAmount);
            }
        }
        let window = match claim_window {
            Some(w) => w,
            None => DEFAULT_CLAIM_WINDOW,
        };
        self.campaign = Some(
            Campaign {
                creator,
                token,
                goal,
                deadline,
                total_pledged: 0,
                claimed: false,
                tiers,
                deadline_extended: false,
                max_pledge_per_address,
                claim_window: window,
                milestones: Vec::new(),
                approvals: Vec::new(),
                whitelisted_tokens: Vec::new(),
                oracle: None,
            },
        );
        Ok(())
    }

    /// Pledge `amount` tokens before the deadline; `existing` is the pledger's
    /// current pledge. Returns the pledger's new pledge; the caller collects
    /// `amount` from the pledger.
    pub fn pledge(&mut self, pledger: Addr, amount: i128, existing: i128, current_ledger: u32) -> (r: Result<i128, CrowdfundError>)
        ensures
            r == (if amount <= 0 {
                Err(CrowdfundError::InvalidAmount)
            } else {
                match old(self).campaign {
                    None => Err(CrowdfundError::NotInitialized),
                    Some(c) => if current_ledger > c.deadline {
                        Err(CrowdfundError::DeadlinePassed)
                    } else if !fits_i128(existing + amount) {
                        Err(CrowdfundError::Overflow)
                    } else if c.max_pledge_per_address is Some && existing + amount
                        > c.max_pledge_per_address->Some_0 {
                        Err(CrowdfundError::PledgeCapExceeded)
                    } else if !fits_i128(c.total_pledged + amount) {
                        Err(CrowdfundError::Overflow)
                    } else {
                        Ok((existing + amount) as i128)
                    },
                }
            }),
            r is Err ==> *final(self) == *old(self),
            r is Ok ==> final(self).campaign is Some,
            r is Ok ==> ({
                let c = old(self).campaign->Some_0;
                let nc = final(self).campaign->Some_0;
                &&& nc.total_pledged == c.total_pledged + amount
                &&& (goal_met(c) ==> goal_met(nc))
                &&& nc.same_terms(&c)
                &&& nc.same_milestones(&c)
                &&& nc.same_tokens(&c)
                &&& nc.deadline == c.deadline
                &&& nc.claimed == c.claimed
                &&& nc.deadline_extended == c.deadline_extended
            }),
    {
        if amount <= 0 {
            return Err(CrowdfundError::InvalidAmount);
        }
        match &mut self.campaign {
            None => Err(CrowdfundError::NotInitialized),
            Some(c) => {
                if current_ledger > c.deadline {
                    return Err(CrowdfundError::DeadlinePassed);
                }
                let new_pledge = match existing.checked_add(amount) {
                    Some(p) => p,
                    None => {
                        return Err(CrowdfundError::Overflow);
                    },
                };
                if let Some(cap) = c.max_pledge_per_address {
                    if new_pledge > cap {
                        return Err(CrowdfundError::PledgeCapExceeded);
                    }
                }
                let new_total = match c.total_pledged.checked_add(amount) {
                    Some(t) => t,
                    None => {
                        return Err(CrowdfundError::Overflow);
                    },
                };
                c.total_pledged = new_total;
                Ok(new_pledge)
            },
        }
    }

    /// Withdraw the pledger's whole pledge (`pledge`) before the deadline,
    /// while the goal is not yet met. Returns the amount to send back; the
    /// caller deletes the pledge record.
    pub fn withdraw(&mut self, pledge: i128, current_ledger: u32) -> (r: Result<i128, CrowdfundError>)
        requires
            old(self).campaign is Some ==> ({
                let c = old(self).campaign->Some_0;
                current_ledger <= c.deadline && !goal_met(c) && pledge > 0 ==> fits_i128(
                    c.total_pledged - pledge,
                )
            }),
        ensures
            r == (match old(self).campaign {
                None => Err(CrowdfundError::NotInitialized),
                Some(c) => if current_ledger > c.deadline {
                    Err(CrowdfundError::DeadlinePassed)
                } else if c.total_pledged >= c.goal {
                    Err(CrowdfundError::GoalAlreadyMet)
                } else if pledge <= 0 {
                    Err(CrowdfundError::NothingToWithdraw)
                } else {
                    Ok(pledge)
                },
            }),
            r is Err ==> *final(self) == *old(self),
            r is Ok ==> final(self).campaign is Some,
            r is Ok ==> ({
                let c = old(self).campaign->Some_0;
                let nc = final(self).campaign->Some_0;
                &&& nc.total_pledged == c.total_pledged - pledge
                &&& !goal_met(c)
                &&& nc.same_terms(&c)
                &&& nc.same_milestones(&c)
                &&& nc.same_tokens(&c)
                &&& nc.deadline == c.deadline
                &&& nc.claimed == c.claimed
                &&& nc.deadline_extended == c.deadline_extended
            }),
    {
        match &mut self.campaign {
            None => Err(CrowdfundError::NotInitialized),
            Some(c) => {
                if current_ledger > c.deadline {
                    return Err(CrowdfundError::DeadlinePassed);
                }
                if c.total_pledged >= c.goal {
                    return Err(CrowdfundError::GoalAlreadyMet);
                }
                if pledge <= 0 {
                    return Err(CrowdfundError::NothingToWithdraw);
                }
                c.total_pledged = c.total_pledged - pledge;
                Ok(pledge)
            },
        }
    }

    /// Extend the deadline once, before it has passed.
    pub fn extend_deadline(&mut self, new_deadline: u32, current_ledger: u32) -> (r: Result<(), CrowdfundError>)
        ensures
            r == (match old(self).campaign {
                None => Err(CrowdfundError::NotInitialized),
                Some(c) => if current_ledger > c.deadline {
                    Err(CrowdfundError::DeadlinePassed)
                } else if c.deadline_extended {
                    Err(CrowdfundError::DeadlineAlreadyExtended)
                } else if new_deadline <= c.deadline {
                    Err(CrowdfundError::InvalidDeadline)
                } else {
                    Ok(())
                },
            }),
            r is Err ==> *final(self) == *old(self),
            r is Ok ==> final(self).campaign is Some,
            r is Ok ==> ({
                let c = old(self).campaign->Some_0;
                let nc = final(self).campaign->Some_0;
                &&& nc.deadline == new_deadline
                &&& nc.deadline_extended
                &&& nc.same_terms(&c)
                &&& nc.same_milestones(&c)
                &&& nc.same_tokens(&c)
                &&& nc.total_pledged == c.total_pledged
                &&& nc.claimed == c.claimed
            }),
    {
        match &mut self.campaign {
            None => Err(CrowdfundError::NotInitialized),
            Some(c) => {
                if current_ledger > c.deadline {
                    return Err(CrowdfundError::DeadlinePassed);
                }
                if c.deadline_extended {
                    return Err(CrowdfundError::DeadlineAlreadyExtended);
                }
                if new_deadline <= c.deadline {
                    return Err(CrowdfundError::InvalidDeadline);
                }
                c.deadline = new_deadline;
                c.deadline_extended = true;
                Ok(())
            },
        }
    }

    /// The creator claims every pledged token after the deadline when the
    /// goal is met. Returns the amount to send to the creator.
    pub fn claim(&mut self, current_ledger: u32) -> (r: Result<i128, CrowdfundError>)
        ensures
            r == claim_outcome(old(self).campaign, current_ledger),
            r is Err ==> *final(self) == *old(self),
            r is Ok ==> final(self).campaign is Some,
            r is Ok ==> claimed_from(old(self).campaign->Some_0, final(self).campaign->Some_0),
    {
        match &mut self.campaign {
            None => Err(CrowdfundError::NotInitialized),
            Some(c) => {
                if current_ledger <= c.deadline {
                    return Err(CrowdfundError::DeadlineNotReached);
                }
                if c.claimed {
                    return Err(CrowdfundError::AlreadyClaimed);
                }
                if c.total_pledged < c.goal {
                    return Err(CrowdfundError::GoalNotMet);
                }
                c.claimed = true;
                Ok(c.total_pledged)
            },
        }
    }

    /// Refund the pledger's whole pledge (`pledge`) after the deadline when
    /// the goal was not met, or when it was met but the creator let the claim
    /// window lapse without claiming. The caller deletes the pledge record.
    pub fn refund(&self, pledge: i128, current_ledger: u32) -> (r: Result<Refund, CrowdfundError>)
        ensures
            r == refund_outcome(self.campaign, pledge, current_ledger),
    {
        match &self.campaign {
            None => Err(CrowdfundError::NotInitialized),
            Some(c) => {
                if current_ledger <= c.deadline {
                    return Err(CrowdfundError::DeadlineNotReached);
                }
                let mut expired: Option<u32> = None;
                if c.total_pledged >= c.goal {
                    if c.claimed {
                        return Err(CrowdfundError::GoalAlreadyMet);
                    }
                    let claim_deadline = c.deadline.saturating_add(c.claim_window);
                    if current_ledger <= claim_deadline {
                        return Err(CrowdfundError::GoalAlreadyMet);
                    }
                    expired = Some(claim_deadline);
                }
                if pledge <= 0 {
                    return Err(CrowdfundError::NothingToWithdraw);
                }
                Ok(Refund { amount: pledge, expired_claim_deadline: expired })
            },
        }
    }

    /// Set the milestones for tranche-based release, before the deadline.
    pub fn set_milestones(&mut self, milestones: Vec<Milestone>, current_ledger: u32) -> (r: Result<(), CrowdfundError>)
        ensures
            r == (match old(self).campaign {
                None => Err(CrowdfundError::NotInitialized),
                Some(c) => if current_ledger > c.deadline {
                    Err(CrowdfundError::DeadlinePassed)
                } else {
                    Ok(())
                },
            }),
            r is Err ==> *final(self) == *old(self),
            r is Ok ==> final(self).campaign is Some,
            r is Ok ==> ({
                let c = old(self).campaign->Some_0;
                let nc = final(self).campaign->Some_0;
                &&& nc.milestones@ == milestones@
                &&& nc.approvals@ == Seq::new(milestones@.len(), |i: int| 0u32)
                &&& nc.same_terms(&c)
                &&& nc.same_tokens(&c)
                &&& nc.deadline == c.deadline
                &&& nc.total_pledged == c.total_pledged
                &&& nc.claimed == c.claimed
                &&& nc.deadline_extended == c.deadline_extended
            }),
    {
        match &mut self.campaign {
            None => Err(CrowdfundError::NotInitialized),
            Some(c) => {
                if current_ledger > c.deadline {
                    return Err(CrowdfundError::DeadlinePassed);
                }
                let tallies = zero_tallies(milestones.len());
                c.milestones = milestones;
                c.approvals = tallies;
                Ok(())
            },
        }
    }

    /// The creator asks for a milestone's release; `released` is whether it
    /// has been released already.
    pub fn request_milestone_release(&self, milestone_id: u32, released: bool) -> (r: Result<(), CrowdfundError>)
        ensures
            r == (match self.campaign {
                None => Err(CrowdfundError::NotInitialized),
                Some(c) => if first_milestone(c.milestones@, milestone_id) is None {
                    Err(CrowdfundError::MilestoneNotFound)
                } else if released {
                    Err(CrowdfundError::MilestoneAlreadyReleased)
                } else {
                    Ok(())
                },
            }),
    {
        match &self.campaign {
            None => Err(CrowdfundError::NotInitialized),
            Some(c) => {
                if find_milestone(&c.milestones, milestone_id).is_none() {
                    return Err(CrowdfundError::MilestoneNotFound);
                }
                if released {
                    return Err(CrowdfundError::MilestoneAlreadyReleased);
                }
                Ok(())
            },
        }
    }

    /// A contributor (one whose pledge `voter_pledge` is positive) votes on a
    /// milestone; `previous` is the contributor's earlier vote on it, if any.
    /// The milestone's tally counts approving votes: an earlier approval is
    /// taken back and a new one added (both saturating). The caller records
    /// the vote.
    pub fn vote_milestone(
        &mut self,
        voter_pledge: i128,
        milestone_id: u32,
        approve: bool,
        previous: Option<bool>,
    ) -> (r: Result<(), CrowdfundError>)
        requires
            old(self).campaign is Some ==> old(self).campaign->Some_0.wf(),
        ensures
            r == (if voter_pledge <= 0 {
                Err(CrowdfundError::NothingToWithdraw)
            } else {
                match old(self).campaign {
                    None => Err(CrowdfundError::MilestoneNotFound),
                    Some(c) => if first_milestone(c.milestones@, milestone_id) is None {
                        Err(CrowdfundError::MilestoneNotFound)
                    } else {
                        Ok(())
                    },
                }
            }),
            r is Err ==> *final(self) == *old(self),
            r is Ok ==> final(self).campaign is Some,
            r is Ok ==> ({
                let c = old(self).campaign->Some_0;
                let nc = final(self).campaign->Some_0;
                let i = first_milestone(c.milestones@, milestone_id)->Some_0;
                &&& nc.approvals@ == c.approvals@.update(
                    i,
                    tally_after(c.approvals@[i], previous, approve),
                )
                &&& nc.milestones@ == c.milestones@
                &&& nc.wf()
                &&& nc.same_terms(&c)
                &&& nc.same_tokens(&c)
                &&& nc.deadline == c.deadline
                &&& nc.total_pledged == c.total_pledged
                &&& nc.claimed == c.claimed
                &&& nc.deadline_extended == c.deadline_extended
            }),
    {
        if voter_pledge <= 0 {
            return Err(CrowdfundError::NothingToWithdraw);
        }
        match &mut self.campaign {
            None => Err(CrowdfundError::MilestoneNotFound),
            Some(c) => {
                match find_milestone(&c.milestones, milestone_id) {
                    None => Err(CrowdfundError::MilestoneNotFound),
                    Some(i) => {
                        let t = c.approvals[i];
                        let withdrawn = match previous {
                            Some(true) => t.saturating_sub(1),
                            _ => t,
                        };
                        let tally = if approve {
                            withdrawn.saturating_add(1)
                        } else {
                            withdrawn
                        };
                        c.approvals.set(i, tally);
                        Ok(())
                    },
                }
            },
        }
    }

    /// Release a milestone's funds to the creator once its required votes
    /// are cast; `released` is whether it has been released already.
    /// Returns the amount to send; the caller marks the milestone released.
    pub fn release_milestone(&self, milestone_id: u32, released: bool) -> (r: Result<i128, CrowdfundError>)
        requires
            self.campaign is Some ==> self.campaign->Some_0.wf(),
        ensures
            r == (match self.campaign {
                None => Err(CrowdfundError::NotInitialized),
                Some(c) => match first_milestone(c.milestones@, milestone_id) {
                    None => Err(CrowdfundError::MilestoneNotFound),
                    Some(i) => if released {
                        Err(CrowdfundError::MilestoneAlreadyReleased)
                    } else if c.approvals@[i] < c.milestones@[i].votes_required {
                        Err(CrowdfundError::MilestoneNotReady)
                    } else {
                        Ok(c.milestones@[i].amount)
                    },
                },
            }),
    {
        match &self.campaign {
            None => Err(CrowdfundError::NotInitialized),
            Some(c) => {
                match find_milestone(&c.milestones, milestone_id) {
                    None => Err(CrowdfundError::MilestoneNotFound),
                    Some(i) => {
                        if released {
                            return Err(CrowdfundError::MilestoneAlreadyReleased);
                        }
                        if c.approvals[i] < c.milestones[i].votes_required {
                            return Err(CrowdfundError::MilestoneNotReady);
                        }
                        Ok(c.milestones[i].amount)
                    },
                }
            },
        }
    }

    /// Set the tokens accepted by `pledge_with_token`, and the price oracle.
    pub fn whitelist_tokens(&mut self, tokens: Vec<Addr>, oracle: Addr) -> (r: Result<(), CrowdfundError>)
        ensures
            r == (if old(self).campaign is None {
                Err(CrowdfundError::NotInitialized)
            } else {
                Ok(())
            }),
            r is Err ==> *final(self) == *old(self),
            r is Ok ==> final(self).campaign is Some,
            r is Ok ==> ({
                let c = old(self).campaign->Some_0;
                let nc = final(self).campaign->Some_0;
                &&& nc.whitelisted_tokens@ == tokens@
                &&& nc.oracle == Some(oracle)
                &&& nc.same_terms(&c)
                &&& nc.same_milestones(&c)
                &&& nc.deadline == c.deadline
                &&& nc.total_pledged == c.total_pledged
                &&& nc.claimed == c.claimed
                &&& nc.deadline_extended == c.deadline_extended
            }),
    {
        match &mut self.campaign {
            None => Err(CrowdfundError::NotInitialized),
            Some(c) => {
                c.whitelisted_tokens = tokens;
                c.oracle = Some(oracle);
                Ok(())
            },
        }
    }

    /// Pledge `amount` of a whitelisted `token`, valued one-for-one in the
    /// campaign's unit; `existing` is the pledger's current pledge in that
    /// token and `token_total` the total pledged in it. Returns the new
    /// per-token pledge and per-token total; the caller collects `amount`.
    pub fn pledge_with_token(
        &mut self,
        token: Addr,
        amount: i128,
        existing: i128,
        token_total: i128,
        current_ledger: u32,
    ) -> (r: Result<(i128, i128), CrowdfundError>)
        ensures
            r == (if amount <= 0 {
                Err(CrowdfundError::InvalidAmount)
            } else {
                match old(self).campaign {
                    None => Err(CrowdfundError::NotInitialized),
                    Some(c) => if current_ledger > c.deadline {
                        Err(CrowdfundError::DeadlinePassed)
                    } else if !c.whitelisted_tokens@.contains(token) {
                        Err(CrowdfundError::TokenNotWhitelisted)
                    } else if c.oracle is None {
                        Err(CrowdfundError::NotInitialized)
                    } else if !fits_i128(existing + amount) || !fits_i128(token_total + amount)
                        || !fits_i128(c.total_pledged + amount) {
                        Err(CrowdfundError::Overflow)
                    } else {
                        Ok(((existing + amount) as i128, (token_total + amount) as i128))
                    },
                }
            }),
            r is Err ==> *final(self) == *old(self),
            r is Ok ==> final(self).campaign is Some,
            r is Ok ==> ({
                let c = old(self).campaign->Some_0;
                let nc = final(self).campaign->Some_0;
                &&& nc.total_pledged == c.total_pledged + amount
                &&& (goal_met(c) ==> goal_met(nc))
                &&& nc.same_terms(&c)
                &&& nc.same_milestones(&c)
                &&& nc.same_tokens(&c)
                &&& nc.deadline == c.deadline
                &&& nc.claimed == c.claimed
                &&& nc.deadline_extended == c.deadline_extended
            }),
    {
        if amount <= 0 {
            return Err(CrowdfundError::InvalidAmount);
        }
        match &mut self.campaign {
            None => Err(CrowdfundError::NotInitialized),
            Some(c) => {
                if current_ledger > c.deadline {
                    return Err(CrowdfundError::DeadlinePassed);
                }
                if !contains_addr(&c.whitelisted_tokens, &token) {
                    return Err(CrowdfundError::TokenNotWhitelisted);
                }
                if c.oracle.is_none() {
                    return Err(CrowdfundError::NotInitialized);
                }
                let new_pledge = match existing.checked_add(amount) {
                    Some(p) => p,
                    None => {
                        return Err(CrowdfundError::Overflow);
                    },
                };
                let new_token_total = match token_total.checked_add(amount) {
                    Some(t) => t,
                    None => {
                        return Err(CrowdfundError::Overflow);
                    },
                };
                let new_total = match c.total_pledged.checked_add(amount) {
                    Some(t) => t,
                    None => {
                        return Err(CrowdfundError::Overflow);
                    },
                };
                c.total_pledged = new_total;
                Ok((new_pledge, new_token_total))
            },
        }
    }

    /// Campaign details, with which funding tiers the total pledged has met.
    pub fn get_info(&self) -> (r: Result<CrowdfundInfo, CrowdfundError>)
        ensures
            self.campaign is None ==> r is Err && r->Err_0 == CrowdfundError::NotInitialized,
            self.campaign is Some ==> r is Ok && ({
                let c = self.campaign->Some_0;
                let info = r->Ok_0;
                &&& info.creator == c.creator
                &&& info.token == c.token
                &&& info.goal == c.goal
                &&& info.deadline == c.deadline
                &&& info.total_pledged == c.total_pledged
                &&& info.claimed == c.claimed
                &&& info.max_pledge_per_address == c.max_pledge_per_address
                &&& info.tiers@.len() == c.tiers@.len()
                &&& forall|i: int|
                    0 <= i < info.tiers@.len() ==> reports_tier(
                        #[trigger] info.tiers@[i],
                        c.tiers@[i],
                        c.total_pledged,
                    )
            }),
    {
        match &self.campaign {
            None => Err(CrowdfundError::NotInitialized),
            Some(c) => {
                let mut tiers: Vec<TierStatus> = Vec::new();
                let mut i: usize = 0;
                while i < c.tiers.len()
                    invariant
                        i <= c.tiers@.len(),
                        tiers@.len() == i,
                        forall|j: int|
                            0 <= j < i ==> reports_tier(
                                #[trigger] tiers@[j],
                                c.tiers@[j],
                                c.total_pledged,
                            ),
                    decreases c.tiers@.len() - i,
                {
                    let t = &c.tiers[i];
                    let status = TierStatus {
                        threshold: t.threshold,
                        description: copy_bytes(&t.description),
                        met: c.total_pledged >= t.threshold,
                    };
                    let ghost before = tiers@;
                    tiers.push(status);
                    assert forall|j: int| 0 <= j < i + 1 implies reports_tier(
                        #[trigger] tiers@[j],
                        c.tiers@[j],
                        c.total_pledged,
                    ) by {
                        if j < i {
                            assert(tiers@[j] == before[j]);
                        }
                    }
                    i = i + 1;
                }
                Ok(
                    CrowdfundInfo {
                        creator: c.creator,
                        token: c.token,
                        goal: c.goal,
                        deadline: c.deadline,
                        total_pledged: c.total_pledged,
                        claimed: c.claimed,
                        tiers,
                        max_pledge_per_address: c.max_pledge_per_address,
                    },
                )
            },
        }
    }
}

} // verus!
