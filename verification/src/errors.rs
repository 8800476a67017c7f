//! Error enums of the contract templates and their stable numeric codes.
//!
//! Each contract reports failures through a numbered error code; the numbers
//! are part of the on-chain interface and must never change, so every enum
//! exposes them through a `code` method whose contract fixes each number.
use vstd::prelude::*;

verus! {

/// Errors returned by the airdrop contract.
#[derive(Clone, Copy, Debug, PartialEq, Eq, Structural)]
pub enum AirdropError {
    AlreadyInitialized,
    NotInitialized,
    Unauthorized,
    /// Merkle root has not been set yet.
    RootNotSet,
    /// The provided merkle proof is invalid.
    InvalidProof,
    /// This address has already claimed their airdrop.
    AlreadyClaimed,
    /// Claim amount is zero or negative.
    InvalidAmount,
    /// The claim deadline has passed; no further claims are accepted.
    ClaimWindowClosed,
    /// The contract does not hold enough unlocked balance of the token to pay the claim.
    InsufficientBalance,
    /// Vesting parameters are out of range.
    InvalidVestingConfig,
    /// No vesting schedule exists for this recipient and token.
    NoVestingSchedule,
    /// No vested tokens are currently releasable.
    NothingToRelease,
    /// A batch contains the same `(recipient, token)` pair more than once.
    DuplicateEntry,
    /// An arithmetic operation overflowed.
    ArithmeticOverflow,
    /// `claim_batch` was called with no entries.
    EmptyBatch,
    /// The round already has a root and its claim window is still open.
    RoundActive,
    /// The recipient is not an ed25519 account address.
    InvalidSignature,
    /// The claim deadline has not passed yet.
    ClaimWindowNotClosed,
    /// The contract holds no tokens to sweep.
    NothingToSweep,
}

impl AirdropError {
    pub open spec fn spec_code(self) -> u32 {
        match self {
            AirdropError::AlreadyInitialized => 1,
            AirdropError::NotInitialized => 2,
            AirdropError::Unauthorized => 3,
            AirdropError::RootNotSet => 4,
            AirdropError::InvalidProof => 5,
            AirdropError::AlreadyClaimed => 6,
            AirdropError::InvalidAmount => 7,
            AirdropError::ClaimWindowClosed => 8,
            AirdropError::InsufficientBalance => 9,
            AirdropError::InvalidVestingConfig => 10,
            AirdropError::NoVestingSchedule => 11,
            AirdropError::NothingToRelease => 12,
            AirdropError::DuplicateEntry => 13,
            AirdropError::ArithmeticOverflow => 14,
            AirdropError::EmptyBatch => 15,
            AirdropError::RoundActive => 16,
            AirdropError::InvalidSignature => 17,
            AirdropError::ClaimWindowNotClosed => 18,
            AirdropError::NothingToSweep => 19,
        }
    }

    /// The contract error code reported on chain.
    pub fn code(&self) -> (c: u32)
        ensures
            c == self.spec_code(),
    {
        match self {
            AirdropError::AlreadyInitialized => 1,
            AirdropError::NotInitialized => 2,
            AirdropError::Unauthorized => 3,
            AirdropError::RootNotSet => 4,
            AirdropError::InvalidProof => 5,
            AirdropError::AlreadyClaimed => 6,
            AirdropError::InvalidAmount => 7,
            AirdropError::ClaimWindowClosed => 8,
            AirdropError::InsufficientBalance => 9,
            AirdropError::InvalidVestingConfig => 10,
            AirdropError::NoVestingSchedule => 11,
            AirdropError::NothingToRelease => 12,
            AirdropError::DuplicateEntry => 13,
            AirdropError::ArithmeticOverflow => 14,
            AirdropError::EmptyBatch => 15,
            AirdropError::RoundActive => 16,
            AirdropError::InvalidSignature => 17,
            AirdropError::ClaimWindowNotClosed => 18,
            AirdropError::NothingToSweep => 19,
        }
    }
}

/// Errors returned by the auction contract.
#[derive(Clone, Copy, Debug, PartialEq, Eq, Structural)]
pub enum AuctionError {
    AlreadyInitialized,
    NotInitialized,
    AuctionEnded,
    AuctionNotEnded,
    BidTooLow,
    AlreadyEnded,
    NoBids,
    NotAuthorized,
    InvalidAmount,
    InvalidDeadline,
    NothingToWithdraw,
    /// The auction ended but the highest bid did not meet the reserve price.
    ReserveNotMet,
    /// `cancel` was called after a bid outside the cancellation grace window.
    BidAlreadyPlaced,
    /// A checked arithmetic operation on bid, refund, or price values overflowed.
    Overflow,
    /// The call does not apply to this auction's mode (English vs. Dutch).
    WrongMode,
    /// `buy` was called before the Dutch auction's `start_ledger`.
    AuctionNotStarted,
    /// Exactly one of `nft_contract` / `token_id` was supplied.
    InvalidNftParams,
}

impl AuctionError {
    pub open spec fn spec_code(self) -> u32 {
        match self {
            AuctionError::AlreadyInitialized => 1,
            AuctionError::NotInitialized => 2,
            AuctionError::AuctionEnded => 3,
            AuctionError::AuctionNotEnded => 4,
            AuctionError::BidTooLow => 5,
            AuctionError::AlreadyEnded => 6,
            AuctionError::NoBids => 7,
            AuctionError::NotAuthorized => 8,
            AuctionError::InvalidAmount => 9,
            AuctionError::InvalidDeadline => 10,
            AuctionError::NothingToWithdraw => 11,
            AuctionError::ReserveNotMet => 12,
            AuctionError::BidAlreadyPlaced => 13,
            AuctionError::Overflow => 14,
            AuctionError::WrongMode => 15,
            AuctionError::AuctionNotStarted => 16,
            AuctionError::InvalidNftParams => 17,
        }
    }

    /// The contract error code reported on chain.
    pub fn code(&self) -> (c: u32)
        ensures
            c == self.spec_code(),
    {
        match self {
            AuctionError::AlreadyInitialized => 1,
            AuctionError::NotInitialized => 2,
            AuctionError::AuctionEnded => 3,
            AuctionError::AuctionNotEnded => 4,
            AuctionError::BidTooLow => 5,
            AuctionError::AlreadyEnded => 6,
            AuctionError::NoBids => 7,
            AuctionError::NotAuthorized => 8,
            AuctionError::InvalidAmount => 9,
            AuctionError::InvalidDeadline => 10,
            AuctionError::NothingToWithdraw => 11,
            AuctionError::ReserveNotMet => 12,
            AuctionError::BidAlreadyPlaced => 13,
            AuctionError::Overflow => 14,
            AuctionError::WrongMode => 15,
            AuctionError::AuctionNotStarted => 16,
            AuctionError::InvalidNftParams => 17,
        }
    }

    /// Human-readable description of the error.
    pub fn message(&self) -> (m: &'static str)
        ensures
            m@ == (match self {
                AuctionError::AlreadyInitialized => "already initialized"@,
                AuctionError::NotInitialized => "not initialized"@,
                AuctionError::AuctionEnded => "auction has ended"@,
                AuctionError::AuctionNotEnded => "auction has not ended"@,
                AuctionError::BidTooLow => "bid too low"@,
                AuctionError::AlreadyEnded => "auction already settled"@,
                AuctionError::NoBids => "no bids placed"@,
                AuctionError::NotAuthorized => "not authorized"@,
                AuctionError::InvalidAmount => "invalid amount"@,
                AuctionError::InvalidDeadline => "invalid deadline"@,
                AuctionError::NothingToWithdraw => "nothing to withdraw"@,
                AuctionError::ReserveNotMet => "reserve price not met"@,
                AuctionError::BidAlreadyPlaced => "cannot cancel after a bid outside the grace window"@,
                AuctionError::Overflow => "arithmetic overflow"@,
                AuctionError::WrongMode => "operation not supported in this auction mode"@,
                AuctionError::AuctionNotStarted => "auction has not started"@,
                AuctionError::InvalidNftParams => "nft_contract and token_id must be supplied together"@,
            }),
    {
        match self {
            AuctionError::AlreadyInitialized => "already initialized",
            AuctionError::NotInitialized => "not initialized",
            AuctionError::AuctionEnded => "auction has ended",
            AuctionError::AuctionNotEnded => "auction has not ended",
            AuctionError::BidTooLow => "bid too low",
            AuctionError::AlreadyEnded => "auction already settled",
            AuctionError::NoBids => "no bids placed",
            AuctionError::NotAuthorized => "not authorized",
            AuctionError::InvalidAmount => "invalid amount",
            AuctionError::InvalidDeadline => "invalid deadline",
            AuctionError::NothingToWithdraw => "nothing to withdraw",
            AuctionError::ReserveNotMet => "reserve price not met",
            AuctionError::BidAlreadyPlaced => "cannot cancel after a bid outside the grace window",
            AuctionError::Overflow => "arithmetic overflow",
            AuctionError::WrongMode => "operation not supported in this auction mode",
            AuctionError::AuctionNotStarted => "auction has not started",
            AuctionError::InvalidNftParams => "nft_contract and token_id must be supplied together",
        }
    }
}

/// Errors returned by the ballot contract.
#[derive(Clone, Copy, Debug, PartialEq, Eq, Structural)]
pub enum BallotError {
    AlreadyInitialized,
    NotInitialized,
    Unauthorized,
    NotRegistered,
    AlreadyVoted,
    InvalidChoice,
    VotingClosed,
    VotingAlreadyStarted,
    InvalidWindow,
    VotingNotStarted,
    NoChoices,
    InvalidRanking,
    DuplicateRanking,
    VotingNotClosed,
    TallyNotAvailable,
}

impl BallotError {
    pub open spec fn spec_code(self) -> u32 {
        match self {
            BallotError::AlreadyInitialized => 1,
            BallotError::NotInitialized => 2,
            BallotError::Unauthorized => 3,
            BallotError::NotRegistered => 4,
            BallotError::AlreadyVoted => 5,
            BallotError::InvalidChoice => 6,
            BallotError::VotingClosed => 7,
            BallotError::VotingAlreadyStarted => 8,
            BallotError::InvalidWindow => 9,
            BallotError::VotingNotStarted => 10,
            BallotError::NoChoices => 11,
            BallotError::InvalidRanking => 12,
            BallotError::DuplicateRanking => 13,
            BallotError::VotingNotClosed => 12,
            BallotError::TallyNotAvailable => 13,
        }
    }

    /// The contract error code reported on chain.
    pub fn code(&self) -> (c: u32)
        ensures
            c == self.spec_code(),
    {
        match self {
            BallotError::AlreadyInitialized => 1,
            BallotError::NotInitialized => 2,
            BallotError::Unauthorized => 3,
            BallotError::NotRegistered => 4,
            BallotError::AlreadyVoted => 5,
            BallotError::InvalidChoice => 6,
            BallotError::VotingClosed => 7,
            BallotError::VotingAlreadyStarted => 8,
            BallotError::InvalidWindow => 9,
            BallotError::VotingNotStarted => 10,
            BallotError::NoChoices => 11,
            BallotError::InvalidRanking => 12,
            BallotError::DuplicateRanking => 13,
            BallotError::VotingNotClosed => 12,
            BallotError::TallyNotAvailable => 13,
        }
    }

    /// Human-readable description of the error.
    pub fn message(&self) -> (m: &'static str)
        ensures
            m@ == (match self {
                BallotError::AlreadyInitialized => "already initialized"@,
                BallotError::NotInitialized => "not initialized"@,
                BallotError::Unauthorized => "not authorized"@,
                BallotError::NotRegistered => "voter not registered"@,
                BallotError::AlreadyVoted => "voter has already voted"@,
                BallotError::InvalidChoice => "invalid vote choice"@,
                BallotError::VotingClosed => "voting is closed"@,
                BallotError::VotingAlreadyStarted => "voting already started"@,
                BallotError::InvalidWindow => "invalid voting window"@,
                BallotError::VotingNotStarted => "voting not started"@,
                BallotError::NoChoices => "no choices provided"@,
                BallotError::InvalidRanking => "invalid preference ranking"@,
                BallotError::DuplicateRanking => "duplicate choice in ranking"@,
                BallotError::VotingNotClosed => "voting window has not closed"@,
                BallotError::TallyNotAvailable => "tally not available"@,
            }),
    {
        match self {
            BallotError::AlreadyInitialized => "already initialized",
            BallotError::NotInitialized => "not initialized",
            BallotError::Unauthorized => "not authorized",
            BallotError::NotRegistered => "voter not registered",
            BallotError::AlreadyVoted => "voter has already voted",
            BallotError::InvalidChoice => "invalid vote choice",
            BallotError::VotingClosed => "voting is closed",
            BallotError::VotingAlreadyStarted => "voting already started",
            BallotError::InvalidWindow => "invalid voting window",
            BallotError::VotingNotStarted => "voting not started",
            BallotError::NoChoices => "no choices provided",
            BallotError::InvalidRanking => "invalid preference ranking",
            BallotError::DuplicateRanking => "duplicate choice in ranking",
            BallotError::VotingNotClosed => "voting window has not closed",
            BallotError::TallyNotAvailable => "tally not available",
        }
    }
}

/// Errors returned by the bonding-curve contract.
#[derive(Clone, Copy, Debug, PartialEq, Eq, Structural)]
pub enum BondingCurveError {
    AlreadyInitialized,
    NotInitialized,
    Unauthorized,
    InvalidAmount,
    InsufficientReserve,
    Overflow,
    InvalidFee,
    InvalidConfiguration,
}

impl BondingCurveError {
    pub open spec fn spec_code(self) -> u32 {
        match self {
            BondingCurveError::AlreadyInitialized => 1,
            BondingCurveError::NotInitialized => 2,
            BondingCurveError::Unauthorized => 3,
            BondingCurveError::InvalidAmount => 4,
            BondingCurveError::InsufficientReserve => 5,
            BondingCurveError::Overflow => 6,
            BondingCurveError::InvalidFee => 7,
            BondingCurveError::InvalidConfiguration => 8,
        }
    }

    /// The contract error code reported on chain.
    pub fn code(&self) -> (c: u32)
        ensures
            c == self.spec_code(),
    {
        match self {
            BondingCurveError::AlreadyInitialized => 1,
            BondingCurveError::NotInitialized => 2,
            BondingCurveError::Unauthorized => 3,
            BondingCurveError::InvalidAmount => 4,
            BondingCurveError::InsufficientReserve => 5,
            BondingCurveError::Overflow => 6,
            BondingCurveError::InvalidFee => 7,
            BondingCurveError::InvalidConfiguration => 8,
        }
    }

    /// Human-readable description of the error.
    pub fn message(&self) -> (m: &'static str)
        ensures
            m@ == (match self {
                BondingCurveError::AlreadyInitialized => "already initialized"@,
                BondingCurveError::NotInitialized => "not initialized"@,
                BondingCurveError::Unauthorized => "not authorized"@,
                BondingCurveError::InvalidAmount => "invalid amount"@,
                BondingCurveError::InsufficientReserve => "insufficient reserve"@,
                BondingCurveError::Overflow => "arithmetic overflow"@,
                BondingCurveError::InvalidFee => "invalid fee"@,
                BondingCurveError::InvalidConfiguration => "invalid curve configuration"@,
            }),
    {
        match self {
            BondingCurveError::AlreadyInitialized => "already initialized",
            BondingCurveError::NotInitialized => "not initialized",
            BondingCurveError::Unauthorized => "not authorized",
            BondingCurveError::InvalidAmount => "invalid amount",
            BondingCurveError::InsufficientReserve => "insufficient reserve",
            BondingCurveError::Overflow => "arithmetic overflow",
            BondingCurveError::InvalidFee => "invalid fee",
            BondingCurveError::InvalidConfiguration => "invalid curve configuration",
        }
    }
}

/// Errors returned by the lottery contract.
#[derive(Clone, Copy, Debug, PartialEq, Eq, Structural)]
pub enum LotteryError {
    AlreadyInitialized,
    NotInitialized,
    Unauthorized,
    LotteryClosed,
    DrawAlreadyDone,
    DrawNotDone,
    InvalidTicketPrice,
    CommitAlreadySubmitted,
    RevealMismatch,
    NoTickets,
    InvalidRevealDeadline,
    RefundNotAvailable,
    NothingToRefund,
    InvalidWinnerConfig,
    InsufficientParticipants,
    InvalidTicketCap,
    TicketCapExceeded,
}

impl LotteryError {
    pub open spec fn spec_code(self) -> u32 {
        match self {
            LotteryError::AlreadyInitialized => 1,
            LotteryError::NotInitialized => 2,
            LotteryError::Unauthorized => 3,
            LotteryError::LotteryClosed => 4,
            LotteryError::DrawAlreadyDone => 5,
            LotteryError::DrawNotDone => 6,
            LotteryError::InvalidTicketPrice => 7,
            LotteryError::CommitAlreadySubmitted => 8,
            LotteryError::RevealMismatch => 9,
            LotteryError::NoTickets => 10,
            LotteryError::InvalidRevealDeadline => 11,
            LotteryError::RefundNotAvailable => 12,
            LotteryError::NothingToRefund => 13,
            LotteryError::InvalidWinnerConfig => 14,
            LotteryError::InsufficientParticipants => 15,
            LotteryError::InvalidTicketCap => 16,
            LotteryError::TicketCapExceeded => 17,
        }
    }

    /// The contract error code reported on chain.
    pub fn code(&self) -> (c: u32)
        ensures
            c == self.spec_code(),
    {
        match self {
            LotteryError::AlreadyInitialized => 1,
            LotteryError::NotInitialized => 2,
            LotteryError::Unauthorized => 3,
            LotteryError::LotteryClosed => 4,
            LotteryError::DrawAlreadyDone => 5,
            LotteryError::DrawNotDone => 6,
            LotteryError::InvalidTicketPrice => 7,
            LotteryError::CommitAlreadySubmitted => 8,
            LotteryError::RevealMismatch => 9,
            LotteryError::NoTickets => 10,
            LotteryError::InvalidRevealDeadline => 11,
            LotteryError::RefundNotAvailable => 12,
            LotteryError::NothingToRefund => 13,
            LotteryError::InvalidWinnerConfig => 14,
            LotteryError::InsufficientParticipants => 15,
            LotteryError::InvalidTicketCap => 16,
            LotteryError::TicketCapExceeded => 17,
        }
    }

    /// Human-readable description of the error.
    pub fn message(&self) -> (m: &'static str)
        ensures
            m@ == (match self {
                LotteryError::AlreadyInitialized => "already initialized"@,
                LotteryError::NotInitialized => "not initialized"@,
                LotteryError::Unauthorized => "not authorized"@,
                LotteryError::LotteryClosed => "lottery closed"@,
                LotteryError::DrawAlreadyDone => "draw already done"@,
                LotteryError::DrawNotDone => "draw not done"@,
                LotteryError::InvalidTicketPrice => "invalid ticket price"@,
                LotteryError::CommitAlreadySubmitted => "commit already submitted"@,
                LotteryError::RevealMismatch => "reveal mismatch"@,
                LotteryError::NoTickets => "no tickets"@,
                LotteryError::InvalidRevealDeadline => "invalid reveal deadline"@,
                LotteryError::RefundNotAvailable => "refund not available"@,
                LotteryError::NothingToRefund => "nothing to refund"@,
                LotteryError::InvalidWinnerConfig => "invalid winner config"@,
                LotteryError::InsufficientParticipants => "insufficient participants"@,
                LotteryError::InvalidTicketCap => "invalid ticket cap"@,
                LotteryError::TicketCapExceeded => "ticket cap exceeded"@,
            }),
    {
        match self {
            LotteryError::AlreadyInitialized => "already initialized",
            LotteryError::NotInitialized => "not initialized",
            LotteryError::Unauthorized => "not authorized",
            LotteryError::LotteryClosed => "lottery closed",
            LotteryError::DrawAlreadyDone => "draw already done",
            LotteryError::DrawNotDone => "draw not done",
            LotteryError::InvalidTicketPrice => "invalid ticket price",
            LotteryError::CommitAlreadySubmitted => "commit already submitted",
            LotteryError::RevealMismatch => "reveal mismatch",
            LotteryError::NoTickets => "no tickets",
            LotteryError::InvalidRevealDeadline => "invalid reveal deadline",
            LotteryError::RefundNotAvailable => "refund not available",
            LotteryError::NothingToRefund => "nothing to refund",
            LotteryError::InvalidWinnerConfig => "invalid winner config",
            LotteryError::InsufficientParticipants => "insufficient participants",
            LotteryError::InvalidTicketCap => "invalid ticket cap",
            LotteryError::TicketCapExceeded => "ticket cap exceeded",
        }
    }
}

/// Errors returned by the crowdfunding contract.
#[derive(Clone, Copy, Debug, PartialEq, Eq, Structural)]
pub enum CrowdfundError {
    AlreadyInitialized,
    NotInitialized,
    InvalidGoal,
    InvalidDeadline,
    InvalidTier,
    InvalidAmount,
    DeadlinePassed,
    Overflow,
    PledgeCapExceeded,
    GoalAlreadyMet,
    NothingToWithdraw,
    DeadlineAlreadyExtended,
    NotAuthorized,
    DeadlineNotReached,
    GoalNotMet,
    AlreadyClaimed,
    MilestoneNotFound,
    MilestoneNotReady,
    MilestoneAlreadyReleased,
    TokenNotWhitelisted,
    InvalidTokenPrice,
}

impl CrowdfundError {
    pub open spec fn spec_code(self) -> u32 {
        match self {
            CrowdfundError::AlreadyInitialized => 1,
            CrowdfundError::NotInitialized => 2,
            CrowdfundError::InvalidGoal => 3,
            CrowdfundError::InvalidDeadline => 4,
            CrowdfundError::InvalidTier => 5,
            CrowdfundError::InvalidAmount => 6,
            CrowdfundError::DeadlinePassed => 7,
            CrowdfundError::Overflow => 8,
            CrowdfundError::PledgeCapExceeded => 9,
            CrowdfundError::GoalAlreadyMet => 10,
            CrowdfundError::NothingToWithdraw => 11,
            CrowdfundError::DeadlineAlreadyExtended => 12,
            CrowdfundError::NotAuthorized => 13,
            CrowdfundError::DeadlineNotReached => 14,
            CrowdfundError::GoalNotMet => 15,
            CrowdfundError::AlreadyClaimed => 16,
            CrowdfundError::MilestoneNotFound => 17,
            CrowdfundError::MilestoneNotReady => 18,
            CrowdfundError::MilestoneAlreadyReleased => 19,
            CrowdfundError::TokenNotWhitelisted => 20,
            CrowdfundError::InvalidTokenPrice => 21,
        }
    }

    /// The contract error code reported on chain.
    pub fn code(&self) -> (c: u32)
        ensures
            c == self.spec_code(),
    {
        match self {
            CrowdfundError::AlreadyInitialized => 1,
            CrowdfundError::NotInitialized => 2,
            CrowdfundError::InvalidGoal => 3,
            CrowdfundError::InvalidDeadline => 4,
            CrowdfundError::InvalidTier => 5,
            CrowdfundError::InvalidAmount => 6,
            CrowdfundError::DeadlinePassed => 7,
            CrowdfundError::Overflow => 8,
            CrowdfundError::PledgeCapExceeded => 9,
            CrowdfundError::GoalAlreadyMet => 10,
            CrowdfundError::NothingToWithdraw => 11,
            CrowdfundError::DeadlineAlreadyExtended => 12,
            CrowdfundError::NotAuthorized => 13,
            CrowdfundError::DeadlineNotReached => 14,
            CrowdfundError::GoalNotMet => 15,
            CrowdfundError::AlreadyClaimed => 16,
            CrowdfundError::MilestoneNotFound => 17,
            CrowdfundError::MilestoneNotReady => 18,
            CrowdfundError::MilestoneAlreadyReleased => 19,
            CrowdfundError::TokenNotWhitelisted => 20,
            CrowdfundError::InvalidTokenPrice => 21,
        }
    }
}

} // verus!
