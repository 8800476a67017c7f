//! Storage keys and proposal lifecycle states of the DAO governance contract.
use vstd::prelude::*;

verus! {

/// Persistent-storage keys (per-proposal data).
#[derive(Clone, Copy, Debug, PartialEq, Eq, Structural)]
pub enum ProposalKey {
    Proposal(u32),
}

/// Lifecycle state of a governance proposal.
#[derive(Clone, Copy, Debug, PartialEq, Eq, Structural)]
pub enum ProposalState {
    /// Voting is open.
    Active,
    /// Voting closed and the proposal passed; waiting out the execution timelock.
    Queued,
    /// Timelock expired: the proposal has been executed on-chain.
    Executed,
    /// Cancelled by the admin, a security-council veto, or the original proposer.
    Cancelled,
}

impl ProposalState {
    /// The numeric tag stored on chain for this state.
    pub open spec fn spec_tag(self) -> u32 {
        match self {
            ProposalState::Active => 0,
            ProposalState::Queued => 1,
            ProposalState::Executed => 2,
            ProposalState::Cancelled => 3,
        }
    }

    /// The numeric tag stored on chain for this state.
    pub fn tag(&self) -> (t: u32)
        ensures
            t == self.spec_tag(),
    {
        match self {
            ProposalState::Active => 0,
            ProposalState::Queued => 1,
            ProposalState::Executed => 2,
            ProposalState::Cancelled => 3,
        }
    }

    /// Lower-case name of the state, as it is displayed.
    pub fn label(&self) -> (s: &'static str)
        ensures
            s@ == (match self {
                ProposalState::Active => "active"@,
                ProposalState::Queued => "queued"@,
                ProposalState::Executed => "executed"@,
                ProposalState::Cancelled => "cancelled"@,
            }),
    {
        match self {
            ProposalState::Active => "active",
            ProposalState::Queued => "queued",
            ProposalState::Executed => "executed",
            ProposalState::Cancelled => "cancelled",
        }
    }
}

} // verus!
