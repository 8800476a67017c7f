use soroban_sdk::Env;
use soroban_templates::address::{Addr, AddressKind};
use soroban_templates::airdrop::{
    account_public_key, claim_for_payload, compute_leaf, AirdropContract, ClaimEntry,
};
use soroban_templates::errors::AirdropError;
use soroban_templates::lottery::Payout;
use soroban_templates::merkle::hash_pair_sorted;

const FAR_DEADLINE: u32 = 1_000_000;

fn account(n: u8) -> Addr {
    Addr { kind: AddressKind::Account, key: [n; 32] }
}

fn contract(n: u8) -> Addr {
    Addr { kind: AddressKind::Contract, key: [n; 32] }
}

struct TestEnv {
    env: Env,
    airdrop: AirdropContract,
    admin: Addr,
    token: Addr,
    alice: Addr,
    bob: Addr,
    // Claims recorded in persistent storage: (round, recipient).
    claimed: Vec<(u32, Addr)>,
    // Roots per round.
    roots: Vec<(u32, [u8; 32])>,
    // Token balances paid out by the airdrop.
    balances: Vec<(Addr, i128)>,
    ledger: u32,
}

impl TestEnv {
    fn root(&self, round: u32) -> Option<[u8; 32]> {
        self.roots.iter().find(|(r, _)| *r == round).map(|(_, root)| *root)
    }

    fn set_root(&mut self, round: u32, root: [u8; 32]) -> Result<(), AirdropError> {
        let exists = self.root(round).is_some();
        self.airdrop.set_root(exists, self.ledger)?;
        self.roots.retain(|(r, _)| *r != round);
        self.roots.push((round, root));
        Ok(())
    }

    fn is_claimed(&self, round: u32, who: &Addr) -> bool {
        self.claimed.iter().any(|(r, a)| *r == round && a == who)
    }

    fn pay(&mut self, to: Addr, amount: i128) {
        match self.balances.iter_mut().find(|(a, _)| *a == to) {
            Some((_, b)) => *b += amount,
            None => self.balances.push((to, amount)),
        }
    }

    fn balance(&self, who: &Addr) -> i128 {
        self.balances.iter().find(|(a, _)| a == who).map(|(_, b)| *b).unwrap_or(0)
    }

    fn claim(&mut self, round: u32, recipient: Addr, amount: i128, proof: &Vec<[u8; 32]>) -> Result<(), AirdropError> {
        let already = self.is_claimed(round, &recipient);
        let root = self.root(round);
        self.airdrop.claim(&self.env, &recipient, amount, proof, root, already, self.ledger)?;
        self.claimed.push((round, recipient));
        self.pay(recipient, amount);
        Ok(())
    }

    fn claim_batch_lenient(&mut self, round: u32, claims: Vec<ClaimEntry>) -> Result<Vec<Payout>, AirdropError> {
        let already: Vec<bool> = claims.iter().map(|c| self.is_claimed(round, &c.recipient)).collect();
        let root = self.root(round);
        let paid = self.airdrop.claim_batch_lenient(&self.env, &claims, &already, root, self.ledger)?;
        for p in &paid {
            self.claimed.push((round, p.to));
            self.pay(p.to, p.amount);
        }
        Ok(paid)
    }
}

fn setup() -> TestEnv {
    let mut airdrop = AirdropContract::new();
    let admin = account(1);
    let token = contract(2);
    airdrop.initialize(admin, token, FAR_DEADLINE).unwrap();
    TestEnv {
        env: Env::default(),
        airdrop,
        admin,
        token,
        alice: account(3),
        bob: account(4),
        claimed: Vec::new(),
        roots: Vec::new(),
        balances: Vec::new(),
        ledger: 0,
    }
}

fn leaf(t: &TestEnv, who: &Addr, amount: i128) -> [u8; 32] {
    compute_leaf(&t.env, who, amount)
}

/// Build a two-leaf tree. Returns (root, proof_for_leaf_0, proof_for_leaf_1).
fn two_leaf_tree(t: &TestEnv, leaf0: [u8; 32], leaf1: [u8; 32]) -> ([u8; 32], Vec<[u8; 32]>, Vec<[u8; 32]>) {
    let root = hash_pair_sorted(&t.env, &leaf0, &leaf1);
    (root, vec![leaf1], vec![leaf0])
}

#[test]
fn test_initialize_rejects_duplicate() {
    let mut t = setup();
    let res = t.airdrop.initialize(t.admin, t.token, FAR_DEADLINE);
    assert!(res.is_err());
}

#[test]
fn test_claim_happy_path() {
    let mut t = setup();
    let alice_amount = 1_000i128;
    let bob_amount = 2_000i128;
    let leaf_a = leaf(&t, &t.alice, alice_amount);
    let leaf_b = leaf(&t, &t.bob, bob_amount);
    let (root, proof_a, _) = two_leaf_tree(&t, leaf_a, leaf_b);
    t.set_root(1, root).unwrap();
    let before = t.balance(&t.alice);
    let alice = t.alice;
    t.claim(1, alice, alice_amount, &proof_a).unwrap();
    assert_eq!(t.balance(&t.alice), before + alice_amount);
    assert!(t.is_claimed(1, &t.alice));
}

#[test]
fn test_duplicate_claim_rejected() {
    let mut t = setup();
    let alice_amount = 500i128;
    let bob_amount = 500i128;
    let leaf_a = leaf(&t, &t.alice, alice_amount);
    let leaf_b = leaf(&t, &t.bob, bob_amount);
    let (root, proof_a, _) = two_leaf_tree(&t, leaf_a, leaf_b);
    t.set_root(1, root).unwrap();
    let alice = t.alice;
    t.claim(1, alice, alice_amount, &proof_a).unwrap();
    let res = t.claim(1, alice, alice_amount, &proof_a);
    assert!(res.is_err());
    assert_eq!(res, Err(AirdropError::AlreadyClaimed));
}

#[test]
fn test_invalid_proof_rejected() {
    let mut t = setup();
    let alice_amount = 1_000i128;
    let bob_amount = 2_000i128;
    let leaf_a = leaf(&t, &t.alice, alice_amount);
    let leaf_b = leaf(&t, &t.bob, bob_amount);
    let (root, _proof_a, proof_b) = two_leaf_tree(&t, leaf_a, leaf_b);
    t.set_root(1, root).unwrap();
    // Bob's proof used for Alice's claim must fail.
    let alice = t.alice;
    let res = t.claim(1, alice, alice_amount, &proof_b);
    assert!(res.is_err());
    assert_eq!(res, Err(AirdropError::InvalidProof));
}

#[test]
fn test_wrong_amount_rejected() {
    let mut t = setup();
    let alice_amount = 1_000i128;
    let bob_amount = 2_000i128;
    let leaf_a = leaf(&t, &t.alice, alice_amount);
    let leaf_b = leaf(&t, &t.bob, bob_amount);
    let (root, proof_a, _) = two_leaf_tree(&t, leaf_a, leaf_b);
    t.set_root(1, root).unwrap();
    let alice = t.alice;
    let res = t.claim(1, alice, 999i128, &proof_a);
    assert!(res.is_err());
}

#[test]
fn test_zero_amount_rejected() {
    let mut t = setup();
    t.set_root(1, [0u8; 32]).unwrap();
    let alice = t.alice;
    let res = t.claim(1, alice, 0i128, &vec![]);
    assert!(res.is_err());
    assert_eq!(res, Err(AirdropError::InvalidAmount));
}

#[test]
fn test_claim_without_root_fails() {
    let mut t = setup();
    let alice = t.alice;
    let res = t.claim(1, alice, 1_000i128, &vec![]);
    assert!(res.is_err());
    assert_eq!(res, Err(AirdropError::RootNotSet));
}

#[test]
fn test_both_recipients_claim() {
    let mut t = setup();
    let alice_amount = 300i128;
    let bob_amount = 700i128;
    let leaf_a = leaf(&t, &t.alice, alice_amount);
    let leaf_b = leaf(&t, &t.bob, bob_amount);
    let (root, proof_a, proof_b) = two_leaf_tree(&t, leaf_a, leaf_b);
    t.set_root(1, root).unwrap();
    let (alice, bob) = (t.alice, t.bob);
    t.claim(1, alice, alice_amount, &proof_a).unwrap();
    t.claim(1, bob, bob_amount, &proof_b).unwrap();
    assert_eq!(t.balance(&t.alice), alice_amount);
    assert_eq!(t.balance(&t.bob), bob_amount);
}

#[test]
fn test_claim_batch_lenient_skips_duplicates() {
    let mut t = setup();
    let alice_amount = 400i128;
    let bob_amount = 600i128;
    let leaf_a = leaf(&t, &t.alice, alice_amount);
    let leaf_b = leaf(&t, &t.bob, bob_amount);
    let (root, proof_a, proof_b) = two_leaf_tree(&t, leaf_a, leaf_b);
    t.set_root(1, root).unwrap();
    let claims = vec![
        ClaimEntry { recipient: t.alice, amount: alice_amount, proof: proof_a.clone() },
        ClaimEntry { recipient: t.alice, amount: alice_amount, proof: proof_a.clone() },
        ClaimEntry { recipient: t.bob, amount: bob_amount, proof: proof_b.clone() },
    ];
    let claimed = t.claim_batch_lenient(1, claims).unwrap();
    assert_eq!(claimed.len(), 2);
    assert!(claimed.iter().any(|p| p.to == t.alice));
    assert!(claimed.iter().any(|p| p.to == t.bob));
    assert_eq!(t.balance(&t.alice), alice_amount);
    assert_eq!(t.balance(&t.bob), bob_amount);
}

#[test]
fn test_claim_batch_lenient_skips_invalid_proof() {
    let mut t = setup();
    let alice_amount = 250i128;
    let bob_amount = 750i128;
    let leaf_a = leaf(&t, &t.alice, alice_amount);
    let leaf_b = leaf(&t, &t.bob, bob_amount);
    let (root, _proof_a, proof_b) = two_leaf_tree(&t, leaf_a, leaf_b);
    t.set_root(1, root).unwrap();
    let claims = vec![
        ClaimEntry { recipient: t.alice, amount: alice_amount, proof: proof_b.clone() },
        ClaimEntry { recipient: t.bob, amount: bob_amount, proof: proof_b.clone() },
    ];
    let claimed = t.claim_batch_lenient(1, claims).unwrap();
    assert_eq!(claimed.len(), 1);
    assert!(claimed.iter().any(|p| p.to == t.bob));
    assert!(!claimed.iter().any(|p| p.to == t.alice));
    assert_eq!(t.balance(&t.alice), 0);
    assert_eq!(t.balance(&t.bob), bob_amount);
}

#[test]
fn test_claim_batch_lenient_skips_already_claimed() {
    let mut t = setup();
    let alice_amount = 100i128;
    let bob_amount = 200i128;
    let leaf_a = leaf(&t, &t.alice, alice_amount);
    let leaf_b = leaf(&t, &t.bob, bob_amount);
    let (root, proof_a, proof_b) = two_leaf_tree(&t, leaf_a, leaf_b);
    t.set_root(1, root).unwrap();
    let alice = t.alice;
    t.claim(1, alice, alice_amount, &proof_a).unwrap();
    let claims = vec![
        ClaimEntry { recipient: t.alice, amount: alice_amount, proof: proof_a.clone() },
        ClaimEntry { recipient: t.bob, amount: bob_amount, proof: proof_b.clone() },
    ];
    let claimed = t.claim_batch_lenient(1, claims).unwrap();
    assert_eq!(claimed.len(), 1);
    assert!(claimed.iter().any(|p| p.to == t.bob));
    assert_eq!(t.balance(&t.alice), alice_amount);
    assert_eq!(t.balance(&t.bob), bob_amount);
}

#[test]
fn test_claim_before_deadline_succeeds() {
    let mut airdrop = AirdropContract::new();
    airdrop.initialize(account(1), contract(2), 200).unwrap();
    let mut t = setup();
    t.airdrop = airdrop;
    t.ledger = 100;
    let alice = t.alice;
    let bob = t.bob;
    let leaf_a = leaf(&t, &alice, 500i128);
    let leaf_b = leaf(&t, &bob, 500i128);
    let (root, proof_a, _) = two_leaf_tree(&t, leaf_a, leaf_b);
    t.set_root(1, root).unwrap();
    // ledger 100 < 200: should succeed
    t.claim(1, alice, 500i128, &proof_a).unwrap();
    assert_eq!(t.balance(&alice), 500i128);
}

#[test]
fn claim_after_deadline_is_rejected_and_root_can_then_change() {
    let mut t = setup();
    let alice = t.alice;
    t.set_root(1, [5u8; 32]).unwrap();
    assert_eq!(t.set_root(1, [6u8; 32]), Err(AirdropError::RoundActive));
    t.ledger = FAR_DEADLINE + 1;
    assert_eq!(t.claim(1, alice, 10, &vec![]), Err(AirdropError::ClaimWindowClosed));
    assert_eq!(t.set_root(1, [6u8; 32]), Ok(()));
}

#[test]
fn sweep_only_after_deadline_and_with_balance() {
    let t = setup();
    assert_eq!(t.airdrop.sweep_unclaimed(50, FAR_DEADLINE), Err(AirdropError::ClaimWindowNotClosed));
    assert_eq!(t.airdrop.sweep_unclaimed(0, FAR_DEADLINE + 1), Err(AirdropError::NothingToSweep));
    assert_eq!(t.airdrop.sweep_unclaimed(50, FAR_DEADLINE + 1), Ok(50));
    assert_eq!(AirdropContract::new().sweep_unclaimed(50, 1), Err(AirdropError::NotInitialized));
}

#[test]
fn leaf_is_sha256_of_xdr_and_amount() {
    // sha256(00000012 00000000 00000000 || [3; 32] || 1000 as 16 big-endian bytes)
    let env = Env::default();
    let expected: [u8; 32] = [
        0xfe, 0x63, 0xca, 0x2a, 0x4b, 0xb9, 0x25, 0x00, 0x7b, 0xca, 0xc7, 0x1a, 0xd4, 0x5e, 0x1a, 0x55,
        0x20, 0xdb, 0x84, 0x0e, 0x40, 0xc8, 0xec, 0x77, 0x55, 0xde, 0x9f, 0xc9, 0xdf, 0xaa, 0x5b, 0xd9,
    ];
    assert_eq!(compute_leaf(&env, &account(3), 1_000), expected);
}

#[test]
fn sponsored_claim_payload_and_public_key() {
    let payload = claim_for_payload(&[9u8; 32], &contract(2), 7, &account(3), 1_000);
    let mut expected = b"soroban-airdrop:claim_for:v1".to_vec();
    expected.extend_from_slice(&[9u8; 32]);
    expected.extend_from_slice(&[0, 0, 0, 18, 0, 0, 0, 1]);
    expected.extend_from_slice(&[2u8; 32]);
    expected.extend_from_slice(&[0, 0, 0, 7]);
    expected.extend_from_slice(&[0, 0, 0, 18, 0, 0, 0, 0, 0, 0, 0, 0]);
    expected.extend_from_slice(&[3u8; 32]);
    expected.extend_from_slice(&1_000i128.to_be_bytes());
    assert_eq!(payload, expected);
    assert_eq!(account_public_key(&account(3)), Ok([3u8; 32]));
    assert_eq!(account_public_key(&contract(3)), Err(AirdropError::InvalidSignature));
}
