use soroban_templates::errors::{AirdropError, AuctionError, BondingCurveError, LotteryError};

fn render(lines: &[(&str, u32)]) -> String {
    let mut out = String::new();
    for (name, code) in lines {
        out.push_str(&format!("{} = {}\n", name, code));
    }
    out
}

#[test]
fn airdrop_error_codes_match_snapshot() {
    let rendered = render(&[
        ("AirdropError::AlreadyInitialized", AirdropError::AlreadyInitialized.code()),
        ("AirdropError::NotInitialized", AirdropError::NotInitialized.code()),
        ("AirdropError::Unauthorized", AirdropError::Unauthorized.code()),
        ("AirdropError::RootNotSet", AirdropError::RootNotSet.code()),
        ("AirdropError::InvalidProof", AirdropError::InvalidProof.code()),
        ("AirdropError::AlreadyClaimed", AirdropError::AlreadyClaimed.code()),
        ("AirdropError::InvalidAmount", AirdropError::InvalidAmount.code()),
        ("AirdropError::ClaimWindowClosed", AirdropError::ClaimWindowClosed.code()),
    ]);
    assert_eq!(
        rendered,
        "AirdropError::AlreadyInitialized = 1\n\
AirdropError::NotInitialized = 2\n\
AirdropError::Unauthorized = 3\n\
AirdropError::RootNotSet = 4\n\
AirdropError::InvalidProof = 5\n\
AirdropError::AlreadyClaimed = 6\n\
AirdropError::InvalidAmount = 7\n\
AirdropError::ClaimWindowClosed = 8\n"
    );
}

#[test]
fn auction_error_codes_match_snapshot() {
    let rendered = render(&[
        ("AuctionError::AlreadyInitialized", AuctionError::AlreadyInitialized.code()),
        ("AuctionError::NotInitialized", AuctionError::NotInitialized.code()),
        ("AuctionError::AuctionEnded", AuctionError::AuctionEnded.code()),
        ("AuctionError::AuctionNotEnded", AuctionError::AuctionNotEnded.code()),
        ("AuctionError::BidTooLow", AuctionError::BidTooLow.code()),
        ("AuctionError::AlreadyEnded", AuctionError::AlreadyEnded.code()),
        ("AuctionError::NoBids", AuctionError::NoBids.code()),
        ("AuctionError::NotAuthorized", AuctionError::NotAuthorized.code()),
        ("AuctionError::InvalidAmount", AuctionError::InvalidAmount.code()),
        ("AuctionError::InvalidDeadline", AuctionError::InvalidDeadline.code()),
        ("AuctionError::NothingToWithdraw", AuctionError::NothingToWithdraw.code()),
        ("AuctionError::ReserveNotMet", AuctionError::ReserveNotMet.code()),
        ("AuctionError::BidAlreadyPlaced", AuctionError::BidAlreadyPlaced.code()),
        ("AuctionError::Overflow", AuctionError::Overflow.code()),
        ("AuctionError::WrongMode", AuctionError::WrongMode.code()),
        ("AuctionError::AuctionNotStarted", AuctionError::AuctionNotStarted.code()),
        ("AuctionError::InvalidNftParams", AuctionError::InvalidNftParams.code()),
    ]);
    assert_eq!(
        rendered,
        "AuctionError::AlreadyInitialized = 1\n\
AuctionError::NotInitialized = 2\n\
AuctionError::AuctionEnded = 3\n\
AuctionError::AuctionNotEnded = 4\n\
AuctionError::BidTooLow = 5\n\
AuctionError::AlreadyEnded = 6\n\
AuctionError::NoBids = 7\n\
AuctionError::NotAuthorized = 8\n\
AuctionError::InvalidAmount = 9\n\
AuctionError::InvalidDeadline = 10\n\
AuctionError::NothingToWithdraw = 11\n\
AuctionError::ReserveNotMet = 12\n\
AuctionError::BidAlreadyPlaced = 13\n\
AuctionError::Overflow = 14\n\
AuctionError::WrongMode = 15\n\
AuctionError::AuctionNotStarted = 16\n\
AuctionError::InvalidNftParams = 17\n"
    );
}

#[test]
fn bonding_curve_error_codes_match_snapshot() {
    let rendered = render(&[
        ("BondingCurveError::AlreadyInitialized", BondingCurveError::AlreadyInitialized.code()),
        ("BondingCurveError::NotInitialized", BondingCurveError::NotInitialized.code()),
        ("BondingCurveError::Unauthorized", BondingCurveError::Unauthorized.code()),
        ("BondingCurveError::InvalidAmount", BondingCurveError::InvalidAmount.code()),
        ("BondingCurveError::InsufficientReserve", BondingCurveError::InsufficientReserve.code()),
        ("BondingCurveError::Overflow", BondingCurveError::Overflow.code()),
    ]);
    assert_eq!(
        rendered,
        "BondingCurveError::AlreadyInitialized = 1\n\
BondingCurveError::NotInitialized = 2\n\
BondingCurveError::Unauthorized = 3\n\
BondingCurveError::InvalidAmount = 4\n\
BondingCurveError::InsufficientReserve = 5\n\
BondingCurveError::Overflow = 6\n"
    );
}

#[test]
fn lottery_error_codes_match_snapshot() {
    let rendered = render(&[
        ("LotteryError::AlreadyInitialized", LotteryError::AlreadyInitialized.code()),
        ("LotteryError::NotInitialized", LotteryError::NotInitialized.code()),
        ("LotteryError::Unauthorized", LotteryError::Unauthorized.code()),
        ("LotteryError::LotteryClosed", LotteryError::LotteryClosed.code()),
        ("LotteryError::DrawAlreadyDone", LotteryError::DrawAlreadyDone.code()),
        ("LotteryError::DrawNotDone", LotteryError::DrawNotDone.code()),
        ("LotteryError::InvalidTicketPrice", LotteryError::InvalidTicketPrice.code()),
        ("LotteryError::CommitAlreadySubmitted", LotteryError::CommitAlreadySubmitted.code()),
        ("LotteryError::RevealMismatch", LotteryError::RevealMismatch.code()),
        ("LotteryError::NoTickets", LotteryError::NoTickets.code()),
        ("LotteryError::InvalidRevealDeadline", LotteryError::InvalidRevealDeadline.code()),
        ("LotteryError::RefundNotAvailable", LotteryError::RefundNotAvailable.code()),
        ("LotteryError::NothingToRefund", LotteryError::NothingToRefund.code()),
        ("LotteryError::InvalidWinnerConfig", LotteryError::InvalidWinnerConfig.code()),
        ("LotteryError::InsufficientParticipants", LotteryError::InsufficientParticipants.code()),
        ("LotteryError::InvalidTicketCap", LotteryError::InvalidTicketCap.code()),
        ("LotteryError::TicketCapExceeded", LotteryError::TicketCapExceeded.code()),
    ]);
    assert_eq!(
        rendered,
        "LotteryError::AlreadyInitialized = 1\n\
LotteryError::NotInitialized = 2\n\
LotteryError::Unauthorized = 3\n\
LotteryError::LotteryClosed = 4\n\
LotteryError::DrawAlreadyDone = 5\n\
LotteryError::DrawNotDone = 6\n\
LotteryError::InvalidTicketPrice = 7\n\
LotteryError::CommitAlreadySubmitted = 8\n\
LotteryError::RevealMismatch = 9\n\
LotteryError::NoTickets = 10\n\
LotteryError::InvalidRevealDeadline = 11\n\
LotteryError::RefundNotAvailable = 12\n\
LotteryError::NothingToRefund = 13\n\
LotteryError::InvalidWinnerConfig = 14\n\
LotteryError::InsufficientParticipants = 15\n\
LotteryError::InvalidTicketCap = 16\n\
LotteryError::TicketCapExceeded = 17\n"
    );
}
