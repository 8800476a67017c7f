//! SHA-256 sorted-pair Merkle tree verification.
//!
//! Internal nodes are `sha256(min(a, b) || max(a, b))`, where `min` and `max`
//! order the two 32-byte nodes lexicographically. Besides single proofs, a
//! **multi-proof** proves several leaves against one root at the same time:
//! the tree is rebuilt bottom-up from a queue that starts as the leaves and
//! grows with each computed node, and every shared node is hashed once.
use vstd::prelude::*;
use soroban_sdk::Env;
use crate::crypto::{sha256, sha256_digest};

verus! {

broadcast use vstd::array::group_array_axioms;

/// `a` sorts no later than `b`: they are equal, or at the first byte where
/// they differ, `a`'s byte is smaller.
pub open spec fn node_le(a: Seq<u8>, b: Seq<u8>) -> bool {
    ||| a == b
    ||| exists|k: int|
        0 <= k < a.len() && k < b.len() && (forall|j: int| 0 <= j < k ==> a[j] == b[j])
            && a[k] < b[k]
}

/// The parent of two nodes: the hash of the smaller node followed by the larger.
pub open spec fn parent(a: Seq<u8>, b: Seq<u8>) -> Seq<u8> {
    if node_le(a, b) {
        sha256_digest(a + b)
    } else {
        sha256_digest(b + a)
    }
}

/// The root reached from `leaf` by hashing it with each sibling of `proof` in turn.
pub open spec fn proof_root(leaf: Seq<u8>, proof: Seq<[u8; 32]>) -> Seq<u8>
    decreases proof.len(),
{
    if proof.len() == 0 {
        leaf
    } else {
        parent(proof_root(leaf, proof.drop_last()), proof.last()@)
    }
}

proof fn lemma_first_difference(a: Seq<u8>, b: Seq<u8>, n: int)
    requires
        a.len() == b.len(),
        0 <= n <= a.len(),
        exists|i: int| 0 <= i < n && a[i] != b[i],
    ensures
        exists|k: int|
            0 <= k < n && a[k] != b[k] && (forall|j: int| 0 <= j < k ==> a[j] == b[j]),
    decreases n,
{
    if exists|i: int| 0 <= i < n - 1 && a[i] != b[i] {
        lemma_first_difference(a, b, n - 1);
    } else {
        assert(a[n - 1] != b[n - 1]);
    }
}

/// Nodes of equal length are always ordered one way or the other, and both
/// ways only when equal.
pub proof fn lemma_node_order_total(a: Seq<u8>, b: Seq<u8>)
    requires
        a.len() == b.len(),
    ensures
        node_le(a, b) || node_le(b, a),
        node_le(a, b) && node_le(b, a) ==> a == b,
{
    if a != b {
        assert(exists|i: int| 0 <= i < a.len() && a[i] != b[i]) by {
            if forall|i: int| 0 <= i < a.len() ==> a[i] == b[i] {
                assert(a =~= b);
            }
        }
        lemma_first_difference(a, b, a.len() as int);
        let k = choose|k: int|
            0 <= k < a.len() && a[k] != b[k] && (forall|j: int| 0 <= j < k ==> a[j] == b[j]);
        if a[k] < b[k] {
            assert(node_le(a, b));
        } else {
            assert(node_le(b, a));
        }
        if node_le(a, b) && node_le(b, a) {
            let k1 = choose|k1: int|
                0 <= k1 < a.len() && k1 < b.len() && (forall|j: int| 0 <= j < k1 ==> a[j] == b[j])
                    && a[k1] < b[k1];
            let k2 = choose|k2: int|
                0 <= k2 < b.len() && k2 < a.len() && (forall|j: int| 0 <= j < k2 ==> b[j] == a[j])
                    && b[k2] < a[k2];
            if k1 < k2 {
                assert(b[k1] == a[k1]);
            } else if k2 < k1 {
                assert(a[k2] == b[k2]);
            }
        }
    }
}

/// Sorted-pair hashing does not depend on the order of the two nodes.
pub proof fn lemma_parent_commutative(a: Seq<u8>, b: Seq<u8>)
    requires
        a.len() == b.len(),
    ensures
        parent(a, b) == parent(b, a),
{
    lemma_node_order_total(a, b);
}

fn node_le_exec(a: &[u8; 32], b: &[u8; 32]) -> (r: bool)
    ensures
        r == node_le(a@, b@),
{
    let mut i: usize = 0;
    while i < 32
        invariant
            i <= 32,
            a@.len() == 32,
            b@.len() == 32,
            forall|j: int| 0 <= j < i ==> a@[j] == b@[j],
        decreases 32 - i,
    {
        if a[i] != b[i] {
            let lt = a[i] < b[i];
            proof {
                let ii = i as int;
                if lt {
                    assert(node_le(a@, b@));
                } else {
                    assert(a@ != b@) by {
                        assert(a@[ii] != b@[ii]);
                    }
                    assert forall|k: int|
                        0 <= k < a@.len() && k < b@.len() && (forall|j: int|
                            0 <= j < k ==> a@[j] == b@[j]) implies !(a@[k] < b@[k]) by {
                        if k > ii {
                            assert(a@[ii] == b@[ii]);
                        }
                    }
                }
            }
            return lt;
        }
        i = i + 1;
    }
    assert(a@ =~= b@);
    true
}

fn node_eq(a: &[u8; 32], b: &[u8; 32]) -> (r: bool)
    ensures
        r == (a@ == b@),
{
    crate::bytes::bytes_eq(a, b)
}

/// Hash two nodes in sorted order: `sha256(min(a, b) || max(a, b))`.
pub fn hash_pair_sorted(env: &Env, a: &[u8; 32], b: &[u8; 32]) -> (h: [u8; 32])
    ensures
        h@ == parent(a@, b@),
{
    let mut data: Vec<u8> = Vec::new();
    if node_le_exec(a, b) {
        crate::bytes::append_bytes(&mut data, a);
        crate::bytes::append_bytes(&mut data, b);
    } else {
        crate::bytes::append_bytes(&mut data, b);
        crate::bytes::append_bytes(&mut data, a);
    }
    sha256(env, &data)
}

/// Verify a single Merkle proof: `proof` lists the sibling hashes from the
/// leaf up to (but excluding) the root.
pub fn verify_merkle_proof(env: &Env, leaf: &[u8; 32], proof: &Vec<[u8; 32]>, root: &[u8; 32]) -> (ok: bool)
    ensures
        ok == (proof_root(leaf@, proof@) == root@),
{
    let mut current: [u8; 32] = *leaf;
    let mut i: usize = 0;
    assert(proof@.subrange(0, 0) =~= Seq::<[u8; 32]>::empty());
    while i < proof.len()
        invariant
            i <= proof@.len(),
            current@ == proof_root(leaf@, proof@.subrange(0, i as int)),
        decreases proof@.len() - i,
    {
        let sibling = proof[i];
        current = hash_pair_sorted(env, &current, &sibling);
        assert(proof@.subrange(0, i + 1).drop_last() =~= proof@.subrange(0, i as int));
        i = i + 1;
    }
    assert(proof@.subrange(0, proof@.len() as int) =~= proof@);
    node_eq(&current, root)
}

/// Progress through a multi-proof: positions in the leaves, the computed
/// nodes and the proof, and the nodes computed so far.
pub struct MultiProofState {
    pub leaf_pos: nat,
    pub hash_pos: nat,
    pub proof_pos: nat,
    pub hashes: Seq<Seq<u8>>,
}

/// Take the next node from the queue: a leaf while any remain, then the
/// computed nodes in order; `None` when the queue is empty.
pub open spec fn next_node(leaves: Seq<[u8; 32]>, st: MultiProofState) -> Option<(Seq<u8>, MultiProofState)> {
    if st.leaf_pos < leaves.len() {
        Some((leaves[st.leaf_pos as int]@, MultiProofState { leaf_pos: st.leaf_pos + 1, ..st }))
    } else if st.hash_pos < st.hashes.len() {
        Some((st.hashes[st.hash_pos as int], MultiProofState { hash_pos: st.hash_pos + 1, ..st }))
    } else {
        None
    }
}

/// One hashing step: the left operand is the next queue node, the right one
/// the next queue node if `flag` holds, else the next proof hash.
pub open spec fn multi_step(leaves: Seq<[u8; 32]>, proof: Seq<[u8; 32]>, flag: bool, st: MultiProofState) -> Option<MultiProofState> {
    match next_node(leaves, st) {
        None => None,
        Some((a, st1)) => {
            let right = if flag {
                next_node(leaves, st1)
            } else if st1.proof_pos < proof.len() {
                Some((proof[st1.proof_pos as int]@, MultiProofState { proof_pos: st1.proof_pos + 1, ..st1 }))
            } else {
                None
            };
            match right {
                None => None,
                Some((b, st2)) => Some(MultiProofState { hashes: st2.hashes.push(parent(a, b)), ..st2 }),
            }
        },
    }
}

/// The state after the first `k` flags, or `None` if a step read past the queue or the proof.
pub open spec fn multi_run(leaves: Seq<[u8; 32]>, proof: Seq<[u8; 32]>, flags: Seq<bool>, k: nat) -> Option<MultiProofState>
    decreases k,
{
    if k == 0 {
        Some(MultiProofState { leaf_pos: 0, hash_pos: 0, proof_pos: 0, hashes: Seq::empty() })
    } else {
        match multi_run(leaves, proof, flags, (k - 1) as nat) {
            None => None,
            Some(st) => multi_step(leaves, proof, flags[k - 1], st),
        }
    }
}

/// Whether a multi-proof establishes `leaves` against `root`: there is at
/// least one leaf, leaves and proof hashes together are one more than the
/// flags, every step finds its operands, every proof hash is consumed, and
/// the last computed node (or the single leaf, when there are no flags) is
/// the root.
pub open spec fn multi_proof_valid(leaves: Seq<[u8; 32]>, proof: Seq<[u8; 32]>, flags: Seq<bool>, root: Seq<u8>) -> bool {
    &&& leaves.len() > 0
    &&& flags.len() < usize::MAX
    &&& leaves.len() + proof.len() == flags.len() + 1
    &&& if flags.len() == 0 {
        leaves[0]@ == root
    } else {
        match multi_run(leaves, proof, flags, flags.len()) {
            None => false,
            Some(st) => st.proof_pos == proof.len() && st.hashes.last() == root,
        }
    }
}

/// Verify that every leaf in `leaves` is part of the tree with root `root`,
/// using a single shared multi-proof (the format of `OpenZeppelin`'s
/// `multiProofVerify`). Returns `false`, never panics, on malformed input.
pub fn verify_merkle_multi_proof(
    env: &Env,
    leaves: &Vec<[u8; 32]>,
    proof: &Vec<[u8; 32]>,
    proof_flags: &Vec<bool>,
    root: &[u8; 32],
) -> (ok: bool)
    ensures
        ok == multi_proof_valid(leaves@, proof@, proof_flags@, root@),
{
    let leaves_len = leaves.len();
    let proof_len = proof.len();
    let total_hashes = proof_flags.len();
    if leaves_len == 0 {
        return false;
    }
    match leaves_len.checked_add(proof_len) {
        Some(n) => {
            match total_hashes.checked_add(1) {
                Some(m) => {
                    if m != n {
                        return false;
                    }
                },
                None => {
                    return false;
                },
            }
        },
        None => {
            return false;
        },
    }
    if total_hashes == 0 {
        return node_eq(&leaves[0], root);
    }
    let mut hashes: Vec<[u8; 32]> = Vec::new();
    let mut leaf_pos: usize = 0;
    let mut hash_pos: usize = 0;
    let mut proof_pos: usize = 0;
    let mut i: usize = 0;
    assert(hashes@.map_values(|h: [u8; 32]| h@) =~= Seq::<Seq<u8>>::empty());
    while i < total_hashes
        invariant
            leaves_len == leaves@.len(),
            proof_len == proof@.len(),
            total_hashes == proof_flags@.len(),
            i <= total_hashes,
            hashes@.len() == i,
            leaf_pos <= leaves_len,
            hash_pos <= i,
            proof_pos <= proof_len,
            multi_run(leaves@, proof@, proof_flags@, i as nat) == Some(
                MultiProofState {
                    leaf_pos: leaf_pos as nat,
                    hash_pos: hash_pos as nat,
                    proof_pos: proof_pos as nat,
                    hashes: hashes@.map_values(|h: [u8; 32]| h@),
                },
            ),
        decreases total_hashes - i,
    {
        let ghost st = MultiProofState {
            leaf_pos: leaf_pos as nat,
            hash_pos: hash_pos as nat,
            proof_pos: proof_pos as nat,
            hashes: hashes@.map_values(|h: [u8; 32]| h@),
        };
        let flag = proof_flags[i];
        let a: [u8; 32];
        if leaf_pos < leaves_len {
            a = leaves[leaf_pos];
            leaf_pos = leaf_pos + 1;
        } else if hash_pos < hashes.len() {
            a = hashes[hash_pos];
            hash_pos = hash_pos + 1;
        } else {
            proof {
                lemma_run_stays_failed(leaves@, proof@, proof_flags@, (i + 1) as nat, total_hashes as nat);
            }
            return false;
        }
        let b: [u8; 32];
        if flag {
            if leaf_pos < leaves_len {
                b = leaves[leaf_pos];
                leaf_pos = leaf_pos + 1;
            } else if hash_pos < hashes.len() {
                b = hashes[hash_pos];
                hash_pos = hash_pos + 1;
            } else {
                proof {
                    lemma_run_stays_failed(leaves@, proof@, proof_flags@, (i + 1) as nat, total_hashes as nat);
                }
                return false;
            }
        } else {
            if proof_pos < proof_len {
                b = proof[proof_pos];
                proof_pos = proof_pos + 1;
            } else {
                proof {
                    lemma_run_stays_failed(leaves@, proof@, proof_flags@, (i + 1) as nat, total_hashes as nat);
                }
                return false;
            }
        }
        let h = hash_pair_sorted(env, &a, &b);
        hashes.push(h);
        i = i + 1;
        proof {
            assert(hashes@.map_values(|h: [u8; 32]| h@) =~= st.hashes.push(parent(a@, b@)));
        }
    }
    if proof_pos != proof_len {
        return false;
    }
    let last = hashes[hashes.len() - 1];
    node_eq(&last, root)
}

/// Once a step fails, the run stays failed.
/// The nodes a single proof computes on its way up, one per sibling.
pub open spec fn proof_path(leaf: Seq<u8>, proof: Seq<[u8; 32]>) -> Seq<Seq<u8>>
    decreases proof.len(),
{
    if proof.len() == 0 {
        Seq::empty()
    } else {
        proof_path(leaf, proof.drop_last()).push(proof_root(leaf, proof))
    }
}

/// A single proof costs one hash per sibling: its path holds exactly one
/// computed node per sibling, each the parent of the node below it (the
/// leaf, at first) and that sibling, and the last of them is the root it
/// reaches.
pub proof fn lemma_proof_one_hash_per_sibling(leaf: Seq<u8>, proof: Seq<[u8; 32]>)
    ensures
        proof_path(leaf, proof).len() == proof.len(),
        forall|i: int|
            0 <= i < proof.len() ==> #[trigger] proof_path(leaf, proof)[i] == parent(
                if i == 0 {
                    leaf
                } else {
                    proof_path(leaf, proof)[i - 1]
                },
                proof[i]@,
            ),
        proof.len() > 0 ==> proof_path(leaf, proof).last() == proof_root(leaf, proof),
    decreases proof.len(),
{
    if proof.len() > 0 {
        let init = proof.drop_last();
        lemma_proof_one_hash_per_sibling(leaf, init);
        let path = proof_path(leaf, proof);
        let n = proof.len() - 1;
        assert(path == proof_path(leaf, init).push(proof_root(leaf, proof)));
        assert(proof_root(leaf, proof) == parent(proof_root(leaf, init), proof[n]@));
        assert forall|i: int| 0 <= i < proof.len() implies #[trigger] path[i] == parent(
            if i == 0 {
                leaf
            } else {
                path[i - 1]
            },
            proof[i]@,
        ) by {
            if i < n {
                assert(path[i] == proof_path(leaf, init)[i]);
                assert(init[i] == proof[i]);
                if i > 0 {
                    assert(path[i - 1] == proof_path(leaf, init)[i - 1]);
                }
            } else {
                assert(path[i] == proof_root(leaf, proof));
                if i > 0 {
                    assert(path[i - 1] == proof_path(leaf, init)[i - 1]);
                    assert(proof_path(leaf, init).last() == proof_root(leaf, init));
                }
            }
        }
    }
}

/// A multi-proof check costs one hash per flag: every step that finds its
/// operands consumes two of them (leaves, computed nodes or proof hashes)
/// and computes exactly one node.
pub proof fn lemma_multi_run_one_hash_per_flag(leaves: Seq<[u8; 32]>, proof: Seq<[u8; 32]>, flags: Seq<bool>, k: nat)
    requires
        k <= flags.len(),
    ensures
        multi_run(leaves, proof, flags, k) matches Some(st) ==> st.hashes.len() == k && st.leaf_pos
            + st.hash_pos + st.proof_pos == 2 * k,
        multi_run(leaves, proof, flags, k) matches Some(st) ==> st.leaf_pos <= leaves.len()
            && st.proof_pos <= proof.len() && st.hash_pos <= k && (k > 0 ==> st.hash_pos < k),
    decreases k,
{
    if k > 0 {
        lemma_multi_run_one_hash_per_flag(leaves, proof, flags, (k - 1) as nat);
    }
}

/// A multi-proof is accepted only if it folds every leaf and every proof
/// hash into the root: the run reads all the leaves and all the proof
/// hashes, and every node it computes except the last, the root, is read
/// again. With no flags, the one leaf is the root.
pub proof fn lemma_accepted_multi_proof_uses_everything(
    leaves: Seq<[u8; 32]>,
    proof: Seq<[u8; 32]>,
    flags: Seq<bool>,
    root: Seq<u8>,
)
    requires
        multi_proof_valid(leaves, proof, flags, root),
    ensures
        flags.len() == 0 ==> leaves.len() == 1 && proof.len() == 0 && leaves[0]@ == root,
        flags.len() > 0 ==> multi_run(leaves, proof, flags, flags.len()) is Some,
        flags.len() > 0 ==> ({
            let st = multi_run(leaves, proof, flags, flags.len())->Some_0;
            &&& st.leaf_pos == leaves.len()
            &&& st.proof_pos == proof.len()
            &&& st.hashes.len() == flags.len()
            &&& st.hash_pos == flags.len() - 1
            &&& st.hashes.last() == root
        }),
{
    lemma_multi_run_one_hash_per_flag(leaves, proof, flags, flags.len());
}

proof fn lemma_run_stays_failed(leaves: Seq<[u8; 32]>, proof: Seq<[u8; 32]>, flags: Seq<bool>, k: nat, k2: nat)
    requires
        multi_run(leaves, proof, flags, k) is None,
        k <= k2,
    ensures
        multi_run(leaves, proof, flags, k2) is None,
    decreases k2 - k,
{
    if k < k2 {
        lemma_run_stays_failed(leaves, proof, flags, k, (k2 - 1) as nat);
    }
}

/// A single proof is the multi-proof of one leaf whose flags are all
/// `false`: both accept exactly the same roots.
pub proof fn lemma_single_proof_is_multi_proof(leaf: [u8; 32], proof: Seq<[u8; 32]>, root: Seq<u8>)
    requires
        proof.len() < usize::MAX,
    ensures
        multi_proof_valid(seq![leaf], proof, Seq::new(proof.len(), |i: int| false), root) == (
        proof_root(leaf@, proof) == root),
{
    let n = proof.len();
    let flags = Seq::new(n, |i: int| false);
    let leaves = seq![leaf];
    if n == 0 {
        assert(proof_root(leaf@, proof) == leaf@);
    } else {
        lemma_single_chain(leaf, proof, n);
        assert(proof.take(n as int) =~= proof);
    }
}

proof fn lemma_single_chain(leaf: [u8; 32], proof: Seq<[u8; 32]>, k: nat)
    requires
        1 <= k <= proof.len(),
    ensures
        ({
            let r = multi_run(seq![leaf], proof, Seq::new(proof.len(), |i: int| false), k);
            &&& r is Some
            &&& r->Some_0.leaf_pos == 1
            &&& r->Some_0.hash_pos == k - 1
            &&& r->Some_0.proof_pos == k
            &&& r->Some_0.hashes.len() == k
            &&& r->Some_0.hashes.last() == proof_root(leaf@, proof.take(k as int))
        }),
    decreases k,
{
    let flags = Seq::new(proof.len(), |i: int| false);
    let leaves = seq![leaf];
    assert(leaves.len() == 1);
    let st0 = MultiProofState { leaf_pos: 0, hash_pos: 0, proof_pos: 0, hashes: Seq::empty() };
    assert(flags[k - 1] == false);
    if k == 1 {
        assert(multi_run(leaves, proof, flags, 0) == Some(st0));
        assert(leaves[0] == leaf);
        let st1 = MultiProofState { leaf_pos: 1, ..st0 };
        assert(next_node(leaves, st0) == Some((leaf@, st1)));
        assert(proof.take(1).drop_last() =~= Seq::<[u8; 32]>::empty());
        assert(proof.take(1).last() == proof[0]);
        assert(proof_root(leaf@, Seq::<[u8; 32]>::empty()) == leaf@);
        assert(proof_root(leaf@, proof.take(1)) == parent(leaf@, proof[0]@));
    } else {
        lemma_single_chain(leaf, proof, (k - 1) as nat);
        let st = multi_run(leaves, proof, flags, (k - 1) as nat)->Some_0;
        assert(next_node(leaves, st) == Some((st.hashes.last(), MultiProofState { hash_pos: st.hash_pos + 1, ..st })));
        assert(proof.take(k as int).drop_last() =~= proof.take(k - 1));
        assert(proof.take(k as int).last() == proof[k - 1]);
    }
}

} // verus!
