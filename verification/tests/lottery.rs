use soroban_sdk::Env;
use soroban_templates::address::{Addr, AddressKind};
use soroban_templates::crypto::commit_hash;
use soroban_templates::errors::LotteryError;
use soroban_templates::lottery::{LotteryContract, LotteryState, Payout};

fn account(n: u8) -> Addr {
    Addr { kind: AddressKind::Account, key: [n; 32] }
}

const SECRET: [u8; 32] = [7u8; 32];
const SALT: [u8; 32] = [8u8; 32];

fn open_lottery(cap: Option<u32>) -> LotteryContract {
    let mut c = LotteryContract::new();
    c.initialize(account(1), account(2), 100, 2, vec![7_000, 3_000], cap).unwrap();
    c
}

#[test]
fn initialize_validates_configuration() {
    let mut c = LotteryContract::new();
    assert_eq!(c.initialize(account(1), account(2), 0, 1, vec![10_000], None), Err(LotteryError::InvalidTicketPrice));
    assert_eq!(c.initialize(account(1), account(2), 10, 0, vec![], None), Err(LotteryError::InvalidWinnerConfig));
    assert_eq!(c.initialize(account(1), account(2), 10, 2, vec![10_000], None), Err(LotteryError::InvalidWinnerConfig));
    assert_eq!(c.initialize(account(1), account(2), 10, 2, vec![5_000, 4_999], None), Err(LotteryError::InvalidWinnerConfig));
    assert_eq!(
        c.initialize(account(1), account(2), 10, 2, vec![u32::MAX, 10_001], None),
        Err(LotteryError::InvalidWinnerConfig)
    );
    assert_eq!(c.initialize(account(1), account(2), 10, 1, vec![10_000], Some(0)), Err(LotteryError::InvalidTicketCap));
    assert!(c.lottery.is_none());
    assert_eq!(c.initialize(account(1), account(2), 10, 1, vec![10_000], Some(3)), Ok(()));
    assert_eq!(c.initialize(account(1), account(2), 10, 1, vec![10_000], None), Err(LotteryError::AlreadyInitialized));
}

#[test]
fn uninitialized_lottery_reports_not_initialized() {
    let env = Env::default();
    let mut c = LotteryContract::new();
    assert_eq!(c.buy_ticket(account(3), 0), Err(LotteryError::NotInitialized));
    assert_eq!(c.commit([0u8; 32], 10, 1), Err(LotteryError::NotInitialized));
    assert_eq!(c.draw(&env, SECRET, SALT, 1), Err(LotteryError::NotInitialized));
    assert_eq!(c.claim_refund(account(3), 1), Err(LotteryError::NotInitialized));
    assert_eq!(c.get_winner(), Err(LotteryError::NotInitialized));
    assert!(c.get_info().is_err());
}

#[test]
fn ticket_cap_is_enforced_per_address() {
    let mut c = open_lottery(Some(2));
    assert_eq!(c.buy_ticket(account(3), 0), Ok(1));
    assert_eq!(c.buy_ticket(account(3), 1), Ok(2));
    assert_eq!(c.buy_ticket(account(3), 2), Err(LotteryError::TicketCapExceeded));
    assert_eq!(c.buy_ticket(account(4), 0), Ok(1));
    assert_eq!(c.get_info().unwrap().participants, vec![account(3), account(3), account(4)]);
}

#[test]
fn commit_requires_tickets_and_future_deadline() {
    let mut c = open_lottery(None);
    assert_eq!(c.commit([0u8; 32], 100, 10), Err(LotteryError::NoTickets));
    c.buy_ticket(account(3), 0).unwrap();
    assert_eq!(c.commit([0u8; 32], 10, 10), Err(LotteryError::InvalidRevealDeadline));
    assert_eq!(c.commit([0u8; 32], 11, 10), Ok(()));
    assert_eq!(c.commit([0u8; 32], 11, 10), Err(LotteryError::CommitAlreadySubmitted));
    assert_eq!(c.buy_ticket(account(4), 0), Err(LotteryError::LotteryClosed));
}

#[test]
fn draw_picks_distinct_winners_and_splits_prize() {
    let env = Env::default();
    let mut c = open_lottery(None);
    let (alice, bob, carol) = (account(3), account(4), account(5));
    c.buy_ticket(alice, 0).unwrap();
    c.buy_ticket(bob, 0).unwrap();
    c.buy_ticket(alice, 1).unwrap();
    c.buy_ticket(carol, 0).unwrap();
    assert_eq!(c.draw(&env, SECRET, SALT, 50), Err(LotteryError::DrawNotDone));
    c.commit(commit_hash(&env, &SECRET, &SALT), 100, 40).unwrap();
    assert_eq!(c.draw(&env, SALT, SECRET, 50), Err(LotteryError::RevealMismatch));
    assert_eq!(c.get_winner(), Err(LotteryError::DrawNotDone));
    // Round 0's entropy at ledger 50 is 12114185936131603478: index 2 of 4
    // (alice); round 1's is 5391810145862376356: index 0 of [bob, carol].
    let payouts = c.draw(&env, SECRET, SALT, 50).unwrap();
    assert_eq!(payouts, vec![Payout { to: alice, amount: 280 }, Payout { to: bob, amount: 120 }]);
    assert_eq!(c.get_winners().unwrap(), vec![alice, bob]);
    assert_eq!(c.get_winner(), Ok(alice));
    assert_eq!(c.get_info().unwrap().state, LotteryState::Drawn);
    assert_eq!(c.draw(&env, SECRET, SALT, 50), Err(LotteryError::DrawAlreadyDone));
    assert_eq!(c.claim_refund(alice, 200), Err(LotteryError::DrawAlreadyDone));
    assert_eq!(c.commit([0u8; 32], 300, 200), Err(LotteryError::LotteryClosed));
}

#[test]
fn each_round_draws_with_its_own_entropy() {
    let env = Env::default();
    let mut c = LotteryContract::new();
    c.initialize(account(1), account(2), 100, 3, vec![5_000, 3_000, 2_000], None).unwrap();
    for n in 3..7u8 {
        c.buy_ticket(account(n), 0).unwrap();
    }
    c.commit(commit_hash(&env, &SECRET, &SALT), 100, 40).unwrap();
    // At ledger 41 the rounds' entropies are 8942201780187107308 (index 0 of
    // 4), 15667407826963679202 (index 0 of 3) and 3595626718125471150
    // (index 0 of 2); one entropy for every round would pick 3, 6, 4.
    let payouts = c.draw(&env, SECRET, SALT, 41).unwrap();
    assert_eq!(
        payouts,
        vec![
            Payout { to: account(3), amount: 200 },
            Payout { to: account(4), amount: 120 },
            Payout { to: account(5), amount: 80 },
        ]
    );
}

#[test]
fn checked_draw_matches_draw() {
    let env = Env::default();
    let mut c = open_lottery(None);
    c.buy_ticket(account(3), 0).unwrap();
    c.buy_ticket(account(4), 0).unwrap();
    assert_eq!(c.draw_checked(&env, SECRET, SALT, 50), Some(Err(LotteryError::DrawNotDone)));
    c.commit(commit_hash(&env, &SECRET, &SALT), 100, 40).unwrap();
    assert_eq!(c.draw_checked(&env, SALT, SECRET, 50), Some(Err(LotteryError::RevealMismatch)));
    assert_eq!(c.draw_checked(&env, SECRET, SALT, 50).unwrap().unwrap().len(), 2);
}

#[test]
fn draw_needs_enough_distinct_ticket_holders() {
    let env = Env::default();
    let mut c = open_lottery(None);
    c.buy_ticket(account(3), 0).unwrap();
    c.buy_ticket(account(3), 1).unwrap();
    c.commit(commit_hash(&env, &SECRET, &SALT), 100, 40).unwrap();
    assert_eq!(c.draw(&env, SECRET, SALT, 50), Err(LotteryError::InsufficientParticipants));
}

#[test]
fn refund_after_reveal_deadline() {
    let env = Env::default();
    let mut c = open_lottery(None);
    let (alice, bob) = (account(3), account(4));
    c.buy_ticket(alice, 0).unwrap();
    c.buy_ticket(bob, 0).unwrap();
    c.buy_ticket(alice, 1).unwrap();
    assert_eq!(c.claim_refund(alice, 5), Err(LotteryError::RefundNotAvailable));
    c.commit(commit_hash(&env, &SECRET, &SALT), 100, 40).unwrap();
    assert_eq!(c.claim_refund(alice, 100), Err(LotteryError::RefundNotAvailable));
    assert_eq!(c.claim_refund(alice, 101), Ok(200));
    assert_eq!(c.claim_refund(alice, 101), Err(LotteryError::NothingToRefund));
    assert_eq!(c.claim_refund(account(9), 101), Err(LotteryError::NothingToRefund));
    assert_eq!(c.get_info().unwrap().participants, vec![bob]);
    assert_eq!(c.claim_refund(bob, 150), Ok(100));
    assert!(c.get_info().unwrap().participants.is_empty());
}

#[test]
fn payouts_never_exceed_the_pool() {
    let env = Env::default();
    let mut c = LotteryContract::new();
    c.initialize(account(1), account(2), 3, 3, vec![3_333, 3_333, 3_334], None).unwrap();
    for n in 3..6u8 {
        c.buy_ticket(account(n), 0).unwrap();
    }
    c.commit(commit_hash(&env, &SECRET, &SALT), 100, 40).unwrap();
    let payouts = c.draw(&env, SECRET, SALT, 60).unwrap();
    let total: i128 = payouts.iter().map(|p| p.amount).sum();
    assert_eq!(payouts.iter().map(|p| p.amount).collect::<Vec<_>>(), vec![2, 2, 3]);
    assert!(total <= 9);
    let mut winners: Vec<_> = payouts.iter().map(|p| p.to.key[0]).collect();
    winners.sort();
    assert_eq!(winners, vec![3, 4, 5]);
}
