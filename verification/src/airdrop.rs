//! Merkle-proof airdrop.
//!
//! An admin publishes, per round, the merkle root of a distribution; each
//! eligible account claims its allocation once per round by presenting a
//! merkle proof of the leaf `sha256(recipient_xdr || amount_be)`.
//!
//! [`AirdropContract`] holds the contract's instance storage; the round's root
//! and whether a recipient already claimed in the round are passed in.
use vstd::prelude::*;
use soroban_sdk::Env;
use crate::address::{addr_eq, spec_address_xdr, address_xdr, Addr, AddressKind};
use crate::bytes::{append_bytes, be_bytes, i128_to_be_bytes, u32_to_be_bytes};
use crate::crypto::{sha256, sha256_digest};
use crate::errors::AirdropError;
use crate::lottery::Payout;
use crate::merkle::{proof_root, verify_merkle_proof};

verus! {

/// The airdrop's stored configuration.
#[derive(Clone, Copy, Debug, PartialEq, Eq)]
pub struct Airdrop {
    pub admin: Addr,
    pub token: Addr,
    /// The ledger after which claims are rejected.
    pub claim_deadline: u32,
}

/// The airdrop contract's instance storage: `None` until initialised.
#[derive(Clone, Copy, Debug, PartialEq, Eq)]
pub struct AirdropContract {
    pub airdrop: Option<Airdrop>,
}

/// One entry of a batch claim: recipient, amount and merkle proof.
#[derive(Debug)]
pub struct ClaimEntry {
    pub recipient: Addr,
    pub amount: i128,
    pub proof: Vec<[u8; 32]>,
}

/// Vesting parameters applied to every claim.
///
/// On claim, `amount * initial_unlock_bps / 10_000` is paid immediately; the
/// remainder vests linearly over `vesting_duration_ledgers` ledgers starting
/// at the claim ledger.
#[derive(Clone, Copy, Debug, PartialEq, Eq, Structural)]
pub struct VestingConfig {
    /// Portion unlocked at claim time, in basis points.
    pub initial_unlock_bps: u32,
    /// Number of ledgers over which the locked portion vests.
    pub vesting_duration_ledgers: u32,
}

impl VestingConfig {
    /// The unlocked portion is at most the whole amount (10 000 bps).
    pub open spec fn wf(&self) -> bool {
        self.initial_unlock_bps <= 10_000
    }
}

/// Locked portion of a single claim.
#[derive(Clone, Copy, Debug, PartialEq, Eq, Structural)]
pub struct VestingSchedule {
    /// Amount locked at claim time.
    pub total: i128,
    /// Amount already released to the recipient.
    pub released: i128,
    /// Ledger at which vesting started (the claim ledger).
    pub start_ledger: u32,
    /// Vesting duration in ledgers.
    pub duration_ledgers: u32,
}

impl VestingSchedule {
    /// What has been released is part of what was locked.
    pub open spec fn wf(&self) -> bool {
        0 <= self.released <= self.total
    }
}

/// The leaf of `recipient`'s allocation: `sha256(recipient_xdr || amount_be)`.
pub open spec fn spec_leaf(recipient: Addr, amount: i128) -> Seq<u8> {
    sha256_digest(spec_address_xdr(recipient) + be_bytes((amount as u128) as nat, 16))
}

/// Compute the merkle leaf: `sha256(recipient_xdr || amount_be)`.
pub fn compute_leaf(env: &Env, recipient: &Addr, amount: i128) -> (leaf: [u8; 32])
    ensures
        leaf@ == spec_leaf(*recipient, amount),
{
    let mut data = address_xdr(recipient);
    let amount_bytes = i128_to_be_bytes(amount);
    append_bytes(&mut data, &amount_bytes);
    sha256(env, &data)
}

/// Whether `proof` establishes `recipient`'s allocation of `amount` under `root`.
pub open spec fn claim_proven(recipient: Addr, amount: i128, proof: Seq<[u8; 32]>, root: [u8; 32]) -> bool {
    proof_root(spec_leaf(recipient, amount), proof) == root@
}

/// Domain-separation tag for sponsored-claim payloads.
pub open spec fn claim_for_domain() -> Seq<u8> {
    seq![
        115u8, 111, 114, 111, 98, 97, 110, 45, 97, 105, 114, 100, 114, 111, 112, 58, 99, 108, 97,
        105, 109, 95, 102, 111, 114, 58, 118, 49,
    ]
}

/// The payload a recipient signs to authorise a sponsored claim.
pub open spec fn spec_claim_for_payload(network_id: [u8; 32], contract: Addr, round_id: u32, recipient: Addr, amount: i128) -> Seq<u8> {
    claim_for_domain() + network_id@ + spec_address_xdr(contract) + be_bytes(round_id as nat, 4)
        + spec_address_xdr(recipient) + be_bytes((amount as u128) as nat, 16)
}

/// Build the payload a recipient signs to authorise a sponsored claim:
/// `domain || network_id || contract_xdr || round_id_be || recipient_xdr || amount_be`.
pub fn claim_for_payload(network_id: &[u8; 32], contract: &Addr, round_id: u32, recipient: &Addr, amount: i128) -> (payload: Vec<u8>)
    ensures
        payload@ == spec_claim_for_payload(*network_id, *contract, round_id, *recipient, amount),
{
    let domain: [u8; 28] = [
        115, 111, 114, 111, 98, 97, 110, 45, 97, 105, 114, 100, 114, 111, 112, 58, 99, 108, 97, 105,
        109, 95, 102, 111, 114, 58, 118, 49,
    ];
    let mut payload: Vec<u8> = Vec::new();
    append_bytes(&mut payload, &domain);
    assert(domain@ =~= claim_for_domain());
    append_bytes(&mut payload, network_id);
    let contract_xdr = address_xdr(contract);
    append_bytes(&mut payload, &contract_xdr);
    let round_bytes = u32_to_be_bytes(round_id);
    append_bytes(&mut payload, &round_bytes);
    let recipient_xdr = address_xdr(recipient);
    append_bytes(&mut payload, &recipient_xdr);
    let amount_bytes = i128_to_be_bytes(amount);
    append_bytes(&mut payload, &amount_bytes);
    payload
}

/// Extract the ed25519 public key behind an account address; contract
/// addresses have none.
pub fn account_public_key(address: &Addr) -> (r: Result<[u8; 32], AirdropError>)
    ensures
        r == (if address.kind == AddressKind::Account {
            Ok(address.key)
        } else {
            Err(AirdropError::InvalidSignature)
        }),
{
    let xdr = address_xdr(address);
    proof {
        assert(address.key@.len() == 32);
        assert(crate::address::xdr_prefix(AddressKind::Account).len() == 12);
        assert(crate::address::xdr_prefix(AddressKind::Contract).len() == 8);
    }
    if xdr.len() != 44 || xdr[3] != 18 || xdr[7] != 0 {
        return Err(AirdropError::InvalidSignature);
    }
    let mut key = [0u8; 32];
    let mut i: usize = 0;
    while i < 32
        invariant
            i <= 32,
            xdr@.len() == 44,
            xdr@ == spec_address_xdr(*address),
            address.kind == AddressKind::Account,
            key@.len() == 32,
            forall|j: int| 0 <= j < i ==> key@[j] == address.key@[j],
        decreases 32 - i,
    {
        key[i] = xdr[12 + i];
        i = i + 1;
    }
    assert(key =~= address.key);
    Ok(key)
}

impl AirdropContract {
    /// A contract that has not been initialised.
    pub fn new() -> (c: Self)
        ensures
            c.airdrop is None,
    {
        AirdropContract { airdrop: None }
    }

    /// Initialise the airdrop with its admin, token and claim deadline.
    pub fn initialize(&mut self, admin: Addr, token: Addr, claim_deadline: u32) -> (r: Result<(), AirdropError>)
        ensures
            r == (if old(self).airdrop is Some {
                Err(AirdropError::AlreadyInitialized)
            } else {
                Ok(())
            }),
            r is Err ==> *final(self) == *old(self),
            r is Ok ==> final(self).airdrop == Some(Airdrop { admin, token, claim_deadline }),
    {
        if self.airdrop.is_some() {
            return Err(AirdropError::AlreadyInitialized);
        }
        self.airdrop = Some(Airdrop { admin, token, claim_deadline });
        Ok(())
    }

    /// May the admin set a round's root? `root_exists` is whether the round
    /// already has one: the root of an unexpired round is immutable.
    pub fn set_root(&self, root_exists: bool, current_ledger: u32) -> (r: Result<(), AirdropError>)
        ensures
            r == (match self.airdrop {
                None => Err(AirdropError::NotInitialized),
                Some(a) => if root_exists && current_ledger <= a.claim_deadline {
                    Err(AirdropError::RoundActive)
                } else {
                    Ok(())
                },
            }),
    {
        match &self.airdrop {
            None => Err(AirdropError::NotInitialized),
            Some(a) => {
                if root_exists && current_ledger <= a.claim_deadline {
                    return Err(AirdropError::RoundActive);
                }
                Ok(())
            },
        }
    }

    /// The round's root, once claims are still open.
    fn claim_context(&self, root: Option<[u8; 32]>, current_ledger: u32) -> (r: Result<[u8; 32], AirdropError>)
        ensures
            r == (match self.airdrop {
                None => Err(AirdropError::NotInitialized),
                Some(a) => match root {
                    None => Err(AirdropError::RootNotSet),
                    Some(rt) => if current_ledger > a.claim_deadline {
                        Err(AirdropError::ClaimWindowClosed)
                    } else {
                        Ok(rt)
                    },
                },
            }),
    {
        match &self.airdrop {
            None => Err(AirdropError::NotInitialized),
            Some(a) => {
                match root {
                    None => Err(AirdropError::RootNotSet),
                    Some(rt) => {
                        if current_ledger > a.claim_deadline {
                            return Err(AirdropError::ClaimWindowClosed);
                        }
                        Ok(rt)
                    },
                }
            },
        }
    }

    /// Verify a claim of `amount` by `recipient` against the round's `root`;
    /// `already_claimed` is whether the recipient claimed in this round. On
    /// success the caller marks the claim and pays `amount`.
    pub fn claim(
        &self,
        env: &Env,
        recipient: &Addr,
        amount: i128,
        proof: &Vec<[u8; 32]>,
        root: Option<[u8; 32]>,
        already_claimed: bool,
        current_ledger: u32,
    ) -> (r: Result<(), AirdropError>)
        ensures
            r == (if amount <= 0 {
                Err(AirdropError::InvalidAmount)
            } else {
                match self.airdrop {
                    None => Err(AirdropError::NotInitialized),
                    Some(a) => match root {
                        None => Err(AirdropError::RootNotSet),
                        Some(rt) => if current_ledger > a.claim_deadline {
                            Err(AirdropError::ClaimWindowClosed)
                        } else if already_claimed {
                            Err(AirdropError::AlreadyClaimed)
                        } else if !claim_proven(*recipient, amount, proof@, rt) {
                            Err(AirdropError::InvalidProof)
                        } else {
                            Ok(())
                        },
                    },
                }
            }),
    {
        if amount <= 0 {
            return Err(AirdropError::InvalidAmount);
        }
        let rt = match self.claim_context(root, current_ledger) {
            Ok(rt) => rt,
            Err(e) => {
                return Err(e);
            },
        };
        if already_claimed {
            return Err(AirdropError::AlreadyClaimed);
        }
        let leaf = compute_leaf(env, recipient, amount);
        if !verify_merkle_proof(env, &leaf, proof, &rt) {
            return Err(AirdropError::InvalidProof);
        }
        Ok(())
    }

    /// Once the claim window has closed, the admin may sweep the contract's
    /// remaining `balance`. Returns the amount to send.
    pub fn sweep_unclaimed(&self, balance: i128, current_ledger: u32) -> (r: Result<i128, AirdropError>)
        ensures
            r == (match self.airdrop {
                None => Err(AirdropError::NotInitialized),
                Some(a) => if current_ledger <= a.claim_deadline {
                    Err(AirdropError::ClaimWindowNotClosed)
                } else if balance <= 0 {
                    Err(AirdropError::NothingToSweep)
                } else {
                    Ok(balance)
                },
            }),
    {
        match &self.airdrop {
            None => Err(AirdropError::NotInitialized),
            Some(a) => {
                if current_ledger <= a.claim_deadline {
                    return Err(AirdropError::ClaimWindowNotClosed);
                }
                if balance <= 0 {
                    return Err(AirdropError::NothingToSweep);
                }
                Ok(balance)
            },
        }
    }

    /// Claim for many recipients at once, skipping entries with a
    /// non-positive amount, an invalid proof, or a recipient that already
    /// claimed in this round (before the batch, `already_claimed[i]`, or
    /// earlier in the batch). Returns the payouts of the accepted entries.
    pub fn claim_batch_lenient(
        &self,
        env: &Env,
        claims: &Vec<ClaimEntry>,
        already_claimed: &Vec<bool>,
        root: Option<[u8; 32]>,
        current_ledger: u32,
    ) -> (r: Result<Vec<Payout>, AirdropError>)
        requires
            already_claimed@.len() == claims@.len(),
        ensures
            (match self.airdrop {
                None => r is Err && r->Err_0 == AirdropError::NotInitialized,
                Some(a) => match root {
                    None => r is Err && r->Err_0 == AirdropError::RootNotSet,
                    Some(rt) => if current_ledger > a.claim_deadline {
                        r is Err && r->Err_0 == AirdropError::ClaimWindowClosed
                    } else {
                        r is Ok && r->Ok_0@ == batch_payouts(
                            claims@,
                            already_claimed@,
                            rt,
                            claims@.len() as nat,
                        )
                    },
                },
            }),
    {
        let rt = match self.claim_context(root, current_ledger) {
            Ok(rt) => rt,
            Err(e) => {
                return Err(e);
            },
        };
        let mut paid: Vec<Payout> = Vec::new();
        let mut i: usize = 0;
        while i < claims.len()
            invariant
                i <= claims@.len(),
                already_claimed@.len() == claims@.len(),
                paid@ == batch_payouts(claims@, already_claimed@, rt, i as nat),
            decreases claims@.len() - i,
        {
            let entry = &claims[i];
            if entry.amount > 0 && !already_claimed[i] && !paid_to(&paid, &entry.recipient) {
                let leaf = compute_leaf(env, &entry.recipient, entry.amount);
                if verify_merkle_proof(env, &leaf, &entry.proof, &rt) {
                    paid.push(Payout { to: entry.recipient, amount: entry.amount });
                }
            }
            i = i + 1;
        }
        Ok(paid)
    }
}

/// Whether a payout to `who` is among `paid`.
pub open spec fn paid_to_spec(paid: Seq<Payout>, who: Addr) -> bool {
    exists|j: int| 0 <= j < paid.len() && paid[j].to == who
}

fn paid_to(paid: &Vec<Payout>, who: &Addr) -> (b: bool)
    ensures
        b == paid_to_spec(paid@, *who),
{
    let mut j: usize = 0;
    while j < paid.len()
        invariant
            j <= paid@.len(),
            forall|k: int| 0 <= k < j ==> paid@[k].to != *who,
        decreases paid@.len() - j,
    {
        if addr_eq(&paid[j].to, who) {
            return true;
        }
        j = j + 1;
    }
    false
}

/// The payouts of a lenient batch after its first `k` entries.
pub open spec fn batch_payouts(claims: Seq<ClaimEntry>, already_claimed: Seq<bool>, root: [u8; 32], k: nat) -> Seq<Payout>
    decreases k,
{
    if k == 0 {
        Seq::empty()
    } else {
        let prev = batch_payouts(claims, already_claimed, root, (k - 1) as nat);
        let e = claims[k - 1];
        if e.amount > 0 && !already_claimed[k - 1] && !paid_to_spec(prev, e.recipient)
            && claim_proven(e.recipient, e.amount, e.proof@, root) {
            prev.push(Payout { to: e.recipient, amount: e.amount })
        } else {
            prev
        }
    }
}

/// A lenient batch pays each recipient at most once, never one that had
/// already claimed, and only amounts proven under the root.
pub proof fn lemma_batch_pays_once(claims: Seq<ClaimEntry>, already_claimed: Seq<bool>, root: [u8; 32], k: nat)
    requires
        k <= claims.len(),
        already_claimed.len() == claims.len(),
    ensures
        ({
            let paid = batch_payouts(claims, already_claimed, root, k);
            &&& forall|i: int, j: int| 0 <= i < j < paid.len() ==> paid[i].to != paid[j].to
            &&& forall|i: int|
                0 <= i < paid.len() ==> exists|c: int|
                    0 <= c < k && !already_claimed[c] && claims[c].recipient == #[trigger] paid[i].to
                        && claims[c].amount == paid[i].amount && paid[i].amount > 0
                        && claim_proven(claims[c].recipient, claims[c].amount, claims[c].proof@, root)
        }),
    decreases k,
{
    if k > 0 {
        lemma_batch_pays_once(claims, already_claimed, root, (k - 1) as nat);
        let prev = batch_payouts(claims, already_claimed, root, (k - 1) as nat);
        let paid = batch_payouts(claims, already_claimed, root, k);
        let e = claims[k - 1];
        if paid.len() > prev.len() {
            assert forall|i: int| 0 <= i < paid.len() implies exists|c: int|
                0 <= c < k && !already_claimed[c] && claims[c].recipient == #[trigger] paid[i].to
                    && claims[c].amount == paid[i].amount && paid[i].amount > 0
                    && claim_proven(claims[c].recipient, claims[c].amount, claims[c].proof@, root) by {
                if i < prev.len() {
                    assert(paid[i] == prev[i]);
                } else {
                    assert(claims[k - 1].recipient == paid[i].to);
                }
            }
            assert forall|i: int, j: int| 0 <= i < j < paid.len() implies paid[i].to != paid[j].to by {
                if j == prev.len() {
                    assert(paid[i] == prev[i]);
                    assert(!paid_to_spec(prev, e.recipient));
                } else {
                    assert(paid[i] == prev[i] && paid[j] == prev[j]);
                }
            }
        }
    }
}


/// An entry of a lenient batch is payable: a positive amount, a recipient
/// that had not claimed in the round before the batch, and a proof of the
/// allocation under the root.
pub open spec fn batch_entry_payable(claims: Seq<ClaimEntry>, already_claimed: Seq<bool>, root: [u8; 32], i: int) -> bool {
    &&& claims[i].amount > 0
    &&& !already_claimed[i]
    &&& claim_proven(claims[i].recipient, claims[i].amount, claims[i].proof@, root)
}

/// A lenient batch skips nothing it may pay: every payable entry that is the
/// first payable entry for its recipient is paid, with its amount.
pub proof fn lemma_batch_pays_every_payable_entry(
    claims: Seq<ClaimEntry>,
    already_claimed: Seq<bool>,
    root: [u8; 32],
    k: nat,
    i: int,
)
    requires
        k <= claims.len(),
        already_claimed.len() == claims.len(),
        0 <= i < k,
        batch_entry_payable(claims, already_claimed, root, i),
        forall|j: int|
            0 <= j < i && claims[j].recipient == claims[i].recipient ==> !batch_entry_payable(
                claims,
                already_claimed,
                root,
                j,
            ),
    ensures
        batch_payouts(claims, already_claimed, root, k).contains(
            Payout { to: claims[i].recipient, amount: claims[i].amount },
        ),
    decreases k,
{
    let prev = batch_payouts(claims, already_claimed, root, (k - 1) as nat);
    let paid = batch_payouts(claims, already_claimed, root, k);
    let target = Payout { to: claims[i].recipient, amount: claims[i].amount };
    if i < k - 1 {
        lemma_batch_pays_every_payable_entry(claims, already_claimed, root, (k - 1) as nat, i);
        let p = choose|p: int| 0 <= p < prev.len() && prev[p] == target;
        if paid.len() > prev.len() {
            assert(paid[p] == prev[p]);
        }
        assert(paid[p] == target);
    } else {
        lemma_batch_pays_once(claims, already_claimed, root, (k - 1) as nat);
        if paid_to_spec(prev, claims[i].recipient) {
            let q = choose|q: int| 0 <= q < prev.len() && prev[q].to == claims[i].recipient;
            let c = choose|c: int|
                0 <= c < k - 1 && !already_claimed[c] && claims[c].recipient == #[trigger] prev[q].to
                    && claims[c].amount == prev[q].amount && prev[q].amount > 0
                    && claim_proven(claims[c].recipient, claims[c].amount, claims[c].proof@, root);
            assert(batch_entry_payable(claims, already_claimed, root, c));
            assert(false);
        }
        assert(paid == prev.push(target));
        assert(paid[prev.len() as int] == target);
    }
}


/// Entry `c` is the first payable entry of the batch for recipient `r`.
pub open spec fn first_payable(claims: Seq<ClaimEntry>, already_claimed: Seq<bool>, root: [u8; 32], c: int, r: Addr) -> bool {
    &&& 0 <= c < claims.len()
    &&& claims[c].recipient == r
    &&& batch_entry_payable(claims, already_claimed, root, c)
    &&& forall|j: int|
        0 <= j < c && claims[j].recipient == r ==> !batch_entry_payable(claims, already_claimed, root, j)
}

proof fn lemma_first_payable_exists(claims: Seq<ClaimEntry>, already_claimed: Seq<bool>, root: [u8; 32], c: int)
    requires
        0 <= c < claims.len(),
        batch_entry_payable(claims, already_claimed, root, c),
    ensures
        exists|c0: int| c0 <= c && first_payable(claims, already_claimed, root, c0, claims[c].recipient),
    decreases c,
{
    let r = claims[c].recipient;
    if exists|j: int| 0 <= j < c && claims[j].recipient == r && batch_entry_payable(claims, already_claimed, root, j) {
        let j = choose|j: int| 0 <= j < c && claims[j].recipient == r && batch_entry_payable(claims, already_claimed, root, j);
        lemma_first_payable_exists(claims, already_claimed, root, j);
    } else {
        assert(first_payable(claims, already_claimed, root, c, r));
    }
}

/// A lenient batch pays in the order of the batch: payouts come in the order
/// of their recipients' first payable entries.
pub proof fn lemma_batch_pays_in_order(claims: Seq<ClaimEntry>, already_claimed: Seq<bool>, root: [u8; 32], k: nat)
    requires
        k <= claims.len(),
        already_claimed.len() == claims.len(),
    ensures
        forall|p: int, q: int, cp: int, cq: int|
            0 <= p < q < batch_payouts(claims, already_claimed, root, k).len() && #[trigger] first_payable(
                claims,
                already_claimed,
                root,
                cp,
                batch_payouts(claims, already_claimed, root, k)[p].to,
            ) && #[trigger] first_payable(
                claims,
                already_claimed,
                root,
                cq,
                batch_payouts(claims, already_claimed, root, k)[q].to,
            ) ==> cp < cq,
    decreases k,
{
    if k > 0 {
        lemma_batch_pays_in_order(claims, already_claimed, root, (k - 1) as nat);
        lemma_batch_pays_once(claims, already_claimed, root, (k - 1) as nat);
        let prev = batch_payouts(claims, already_claimed, root, (k - 1) as nat);
        let paid = batch_payouts(claims, already_claimed, root, k);
        assert forall|p: int, q: int, cp: int, cq: int|
            0 <= p < q < paid.len() && #[trigger] first_payable(claims, already_claimed, root, cp, paid[p].to)
                && #[trigger] first_payable(claims, already_claimed, root, cq, paid[q].to) implies cp < cq by {
            if paid.len() == prev.len() {
                assert(paid[p] == prev[p] && paid[q] == prev[q]);
            } else if q < prev.len() {
                assert(paid[p] == prev[p] && paid[q] == prev[q]);
            } else {
                let r = claims[k - 1].recipient;
                assert(paid[q].to == r);
                assert(batch_entry_payable(claims, already_claimed, root, k - 1));
                assert(!paid_to_spec(prev, r));
                // The first payable entry for r is the last entry of the batch.
                lemma_first_payable_exists(claims, already_claimed, root, k - 1);
                let c0 = choose|c0: int| c0 <= k - 1 && first_payable(claims, already_claimed, root, c0, r);
                if c0 < k - 1 {
                    lemma_batch_pays_every_payable_entry(claims, already_claimed, root, (k - 1) as nat, c0);
                    let x = choose|x: int| 0 <= x < prev.len() && prev[x] == (Payout { to: claims[c0].recipient, amount: claims[c0].amount });
                    assert(prev[x].to == r);
                    assert(false);
                }
                if cq != c0 {
                    if cq < c0 {
                        assert(claims[cq].recipient == r);
                    } else {
                        assert(claims[c0].recipient == r);
                    }
                }
                // The first payable entry for an earlier payout comes before it.
                assert(paid[p] == prev[p]);
                let c = choose|c: int|
                    0 <= c < k - 1 && !already_claimed[c] && claims[c].recipient == #[trigger] prev[p].to
                        && claims[c].amount == prev[p].amount && prev[p].amount > 0
                        && claim_proven(claims[c].recipient, claims[c].amount, claims[c].proof@, root);
                assert(batch_entry_payable(claims, already_claimed, root, c));
                if cp > c {
                    assert(claims[c].recipient == paid[p].to);
                }
            }
        }
    }
}

} // verus!
