//! Complete sorted-pair Merkle trees in array layout, and the multi-proofs
//! built from them the way OpenZeppelin's `getMultiProof` builds them.
//!
//! The root is node 0 and the children of node `i` are `2i + 1` and `2i + 2`;
//! a tree of depth `h` has its `2^h` leaves as its last nodes. The generator
//! keeps a queue of node indices, starting with the chosen leaves from last
//! to first; each step takes the front node, pairs it with its sibling (taken
//! from the queue when it is next there, else added to the proof), and
//! queues their parent, until the root is at the front.
use vstd::prelude::*;
use crate::merkle::{
    lemma_multi_run_one_hash_per_flag, lemma_parent_commutative, multi_proof_valid, multi_run,
    next_node, parent, MultiProofState,
};

verus! {

broadcast use vstd::array::group_array_axioms;

/// The first index at depth `d`: `2^d - 1`.
pub open spec fn level_start(d: nat) -> nat
    decreases d,
{
    if d == 0 {
        0
    } else {
        2 * level_start((d - 1) as nat) + 1
    }
}

/// Node `i` lies at depth `d`.
pub open spec fn at_depth(i: nat, d: nat) -> bool {
    level_start(d) <= i <= 2 * level_start(d)
}

/// The parent index of a node other than the root.
pub open spec fn up(i: nat) -> nat {
    ((i - 1) / 2) as nat
}

/// The other child of the parent of a node other than the root.
pub open spec fn sibling(i: nat) -> nat {
    if i % 2 == 1 {
        i + 1
    } else {
        (i - 1) as nat
    }
}

/// `nodes` is a complete sorted-pair tree of depth `h` in array layout: it
/// has `2^(h+1) - 1` nodes, and every node above the leaves is the parent of
/// its two children.
pub open spec fn sorted_pair_tree(nodes: Seq<[u8; 32]>, h: nat) -> bool {
    &&& nodes.len() == 2 * level_start(h) + 1
    &&& forall|i: int|
        0 <= i < level_start(h) ==> #[trigger] nodes[i]@ == parent(
            nodes[2 * i + 1]@,
            nodes[2 * i + 2]@,
        )
}

/// The generator's progress: its queue of node indices, and the proof hashes
/// and flags emitted so far.
pub struct GenState {
    pub stack: Seq<nat>,
    pub proof: Seq<[u8; 32]>,
    pub flags: Seq<bool>,
}

/// The generator stops once its queue is empty or the root is at its front.
pub open spec fn gen_done(g: GenState) -> bool {
    g.stack.len() == 0 || g.stack[0] == 0
}

/// One step of the generator: pair the front node with its sibling, which is
/// taken from the queue when it is next there (flag `true`) and otherwise
/// added to the proof (flag `false`), and queue their parent.
pub open spec fn gen_step(nodes: Seq<[u8; 32]>, g: GenState) -> GenState {
    let j = g.stack[0];
    let rest = g.stack.drop_first();
    let s = sibling(j);
    if rest.len() > 0 && rest[0] == s {
        GenState { stack: rest.drop_first().push(up(j)), proof: g.proof, flags: g.flags.push(true) }
    } else {
        GenState { stack: rest.push(up(j)), proof: g.proof.push(nodes[s as int]), flags: g.flags.push(false) }
    }
}

/// The generator after `t` steps from the leaf indices `idx` (from last to
/// first); once it has stopped it stays as it is.
pub open spec fn gen_run(nodes: Seq<[u8; 32]>, idx: Seq<nat>, t: nat) -> GenState
    decreases t,
{
    if t == 0 {
        GenState { stack: idx, proof: Seq::empty(), flags: Seq::empty() }
    } else {
        let g = gen_run(nodes, idx, (t - 1) as nat);
        if gen_done(g) {
            g
        } else {
            gen_step(nodes, g)
        }
    }
}

/// The chosen leaves in the order the verifier reads them.
pub open spec fn chosen_leaves(nodes: Seq<[u8; 32]>, idx: Seq<nat>) -> Seq<[u8; 32]> {
    idx.map_values(|i: nat| nodes[i as int])
}

/// The verifier's queue: the leaves not yet read, then the computed nodes
/// not yet read.
pub open spec fn queue(leaves: Seq<[u8; 32]>, st: MultiProofState) -> Seq<Seq<u8>> {
    leaves.subrange(st.leaf_pos as int, leaves.len() as int).map_values(|x: [u8; 32]| x@)
        + st.hashes.subrange(st.hash_pos as int, st.hashes.len() as int)
}

/// The verifier's positions lie within what they index.
pub open spec fn positions_ok(leaves: Seq<[u8; 32]>, st: MultiProofState) -> bool {
    st.leaf_pos <= leaves.len() && st.hash_pos <= st.hashes.len()
}

/// Taking the next node reads the front of the queue.
proof fn lemma_next_node_front(leaves: Seq<[u8; 32]>, st: MultiProofState)
    requires
        positions_ok(leaves, st),
    ensures
        queue(leaves, st).len() == 0 ==> next_node(leaves, st) is None,
        queue(leaves, st).len() > 0 ==> ({
            &&& next_node(leaves, st) is Some
            &&& next_node(leaves, st)->Some_0.0 == queue(leaves, st)[0]
            &&& positions_ok(leaves, next_node(leaves, st)->Some_0.1)
            &&& queue(leaves, next_node(leaves, st)->Some_0.1) == queue(leaves, st).drop_first()
            &&& next_node(leaves, st)->Some_0.1.hashes == st.hashes
            &&& next_node(leaves, st)->Some_0.1.proof_pos == st.proof_pos
        }),
{
    let q = queue(leaves, st);
    if st.leaf_pos < leaves.len() {
        let st1 = MultiProofState { leaf_pos: st.leaf_pos + 1, ..st };
        assert(queue(leaves, st1) =~= q.drop_first());
    } else if st.hash_pos < st.hashes.len() {
        let st1 = MultiProofState { hash_pos: st.hash_pos + 1, ..st };
        assert(leaves.subrange(st.leaf_pos as int, leaves.len() as int).len() == 0);
        assert(q[0] == st.hashes[st.hash_pos as int]);
        assert(queue(leaves, st1) =~= q.drop_first());
    } else {
        assert(q.len() == 0);
    }
}

/// A computed node joins the back of the queue.
proof fn lemma_queue_push(leaves: Seq<[u8; 32]>, st: MultiProofState, x: Seq<u8>)
    requires
        positions_ok(leaves, st),
    ensures
        queue(leaves, MultiProofState { hashes: st.hashes.push(x), ..st }) == queue(leaves, st).push(x),
        positions_ok(leaves, MultiProofState { hashes: st.hashes.push(x), ..st }),
{
    assert(queue(leaves, MultiProofState { hashes: st.hashes.push(x), ..st }) =~= queue(leaves, st).push(x));
}

/// The generator's queue is ordered: its first `m` nodes lie at depth `d`,
/// the rest one level up, strictly decreasing throughout, and every parent
/// still to be queued comes after the nodes already queued one level up.
pub open spec fn stack_ok(stack: Seq<nat>, m: nat, d: nat, h: nat) -> bool {
    &&& d <= h
    &&& m <= stack.len()
    &&& stack.len() > 0 ==> m >= 1
    &&& forall|i: int| 0 <= i < m ==> at_depth(#[trigger] stack[i], d)
    &&& forall|i: int| m <= i < stack.len() ==> d >= 1 && at_depth(#[trigger] stack[i], (d - 1) as nat)
    &&& forall|i: int, k: int| 0 <= i < k < stack.len() ==> #[trigger] stack[i] > #[trigger] stack[k]
    &&& forall|i: int, k: int| 0 <= i < m <= k < stack.len() ==> up(#[trigger] stack[i]) < #[trigger] stack[k]
}

/// The emitted flags and proof only grow.
proof fn lemma_gen_prefix(nodes: Seq<[u8; 32]>, idx: Seq<nat>, t: nat, u: nat)
    requires
        t <= u,
    ensures
        gen_run(nodes, idx, t).flags.len() <= gen_run(nodes, idx, u).flags.len(),
        gen_run(nodes, idx, u).flags.take(gen_run(nodes, idx, t).flags.len() as int) == gen_run(
            nodes,
            idx,
            t,
        ).flags,
        gen_run(nodes, idx, t).proof.len() <= gen_run(nodes, idx, u).proof.len(),
        gen_run(nodes, idx, u).proof.take(gen_run(nodes, idx, t).proof.len() as int) == gen_run(
            nodes,
            idx,
            t,
        ).proof,
    decreases u,
{
    let g = gen_run(nodes, idx, t);
    if t == u {
        assert(g.flags.take(g.flags.len() as int) =~= g.flags);
        assert(g.proof.take(g.proof.len() as int) =~= g.proof);
    } else {
        lemma_gen_prefix(nodes, idx, t, (u - 1) as nat);
        let g1 = gen_run(nodes, idx, (u - 1) as nat);
        let g2 = gen_run(nodes, idx, u);
        if !gen_done(g1) {
            assert(g2.flags.take(g.flags.len() as int) =~= g1.flags.take(g.flags.len() as int));
            assert(g2.proof.take(g.proof.len() as int) =~= g1.proof.take(g.proof.len() as int));
        }
    }
}

/// A step of the generator keeps its queue ordered; the front node is not
/// the root, and when its sibling is next in the queue both lie at the
/// front's depth.
proof fn lemma_step_keeps_order(nodes: Seq<[u8; 32]>, g: GenState, m: nat, d: nat, h: nat)
    requires
        stack_ok(g.stack, m, d, h),
        !gen_done(g),
    ensures
        d >= 1,
        at_depth(g.stack[0], d),
        exists|m2: nat, d2: nat| stack_ok(gen_step(nodes, g).stack, m2, d2, h),
{
    let st = g.stack;
    let j = st[0];
    assert(at_depth(j, d));
    if d == 0 {
        lemma_depth_zero(j);
    }
    lemma_depth_step(j, d);
    let s = sibling(j);
    let rest = st.drop_first();
    let p = up(j);
    if rest.len() > 0 && rest[0] == s {
        // The sibling is at depth d, so it is among the first m nodes.
        if m < 2 {
            assert(at_depth(st[1], (d - 1) as nat));
            lemma_depth_order(s, st[1], d);
        }
        let ns = rest.drop_first().push(p);
        let m1 = (m - 2) as nat;
        assert(gen_step(nodes, g).stack == ns);
        assert forall|i: int| 0 <= i < ns.len() - 1 implies ns[i] == st[i + 2] by {}
        assert forall|i: int| 0 <= i < m1 implies (#[trigger] ns[i]) < s && up(ns[i]) < p by {
            assert(ns[i] == st[i + 2]);
            assert(st[1] > st[i + 2]);
            lemma_depth_step(st[i + 2], d);
            if up(st[i + 2]) == p {
                lemma_same_parent(st[i + 2], j);
            }
        }
        if m1 >= 1 {
            assert(stack_ok(gen_step(nodes, g).stack, m1, d, h)) by {
                assert forall|i: int, k: int| 0 <= i < k < ns.len() implies #[trigger] ns[i] > #[trigger] ns[k] by {
                    if k == ns.len() - 1 {
                        if i < m1 {
                            lemma_depth_step(j, d);
                            lemma_depth_order(ns[i], p, d);
                        } else {
                            assert(up(st[0]) < st[i + 2]);
                        }
                    }
                }
                assert forall|i: int, k: int| 0 <= i < m1 <= k < ns.len() implies up(#[trigger] ns[i]) < #[trigger] ns[k] by {
                    if k < ns.len() - 1 {
                        assert(up(st[i + 2]) < st[k + 2]);
                    }
                }
            }
        } else {
            assert(stack_ok(gen_step(nodes, g).stack, ns.len(), (d - 1) as nat, h)) by {
                assert forall|i: int, k: int| 0 <= i < k < ns.len() implies #[trigger] ns[i] > #[trigger] ns[k] by {
                    if k == ns.len() - 1 {
                        assert(up(st[0]) < st[i + 2]);
                    }
                }
            }
        }
    } else {
        let ns = rest.push(p);
        let m1 = (m - 1) as nat;
        assert(gen_step(nodes, g).stack == ns);
        assert forall|i: int| 0 <= i < ns.len() - 1 implies ns[i] == st[i + 1] by {}
        assert forall|i: int| 0 <= i < m1 implies up(#[trigger] ns[i]) < p by {
            assert(ns[i] == st[i + 1]);
            lemma_depth_step(st[i + 1], d);
            if up(st[i + 1]) == p {
                lemma_same_parent(st[i + 1], j);
                if st[i + 1] == s && i > 0 {
                    assert(st[1] > st[i + 1]);
                    assert(st[1] < st[0]);
                }
            }
        }
        if m1 >= 1 {
            assert(stack_ok(gen_step(nodes, g).stack, m1, d, h)) by {
                assert forall|i: int, k: int| 0 <= i < k < ns.len() implies #[trigger] ns[i] > #[trigger] ns[k] by {
                    if k == ns.len() - 1 {
                        if i < m1 {
                            lemma_depth_order(ns[i], p, d);
                        } else {
                            assert(up(st[0]) < st[i + 1]);
                        }
                    }
                }
                assert forall|i: int, k: int| 0 <= i < m1 <= k < ns.len() implies up(#[trigger] ns[i]) < #[trigger] ns[k] by {
                    if k < ns.len() - 1 {
                        assert(up(st[i + 1]) < st[k + 1]);
                    }
                }
            }
        } else {
            assert(stack_ok(gen_step(nodes, g).stack, ns.len(), (d - 1) as nat, h)) by {
                assert forall|i: int, k: int| 0 <= i < k < ns.len() implies #[trigger] ns[i] > #[trigger] ns[k] by {
                    if k == ns.len() - 1 {
                        assert(up(st[0]) < st[i + 1]);
                    }
                }
            }
        }
    }
}

/// A node's parent in the tree is the parent of the node and its sibling.
proof fn lemma_tree_parent(nodes: Seq<[u8; 32]>, h: nat, j: nat, d: nat)
    requires
        sorted_pair_tree(nodes, h),
        at_depth(j, d),
        1 <= d <= h,
    ensures
        j < nodes.len(),
        sibling(j) < nodes.len(),
        nodes[up(j) as int]@ == parent(nodes[j as int]@, nodes[sibling(j) as int]@),
{
    lemma_depth_step(j, d);
    lemma_level_start_grows(d, h);
    lemma_level_start_grows((d - 1) as nat, (h - 1) as nat);
    assert(level_start(d) == 2 * level_start((d - 1) as nat) + 1);
    assert(level_start(h) == 2 * level_start((h - 1) as nat) + 1);
    let p = up(j) as int;
    assert(nodes[p]@ == parent(nodes[2 * p + 1]@, nodes[2 * p + 2]@));
    if j % 2 == 0 {
        lemma_parent_commutative(nodes[j as int]@, nodes[sibling(j) as int]@);
    }
}

/// The verifier's state matches the generator's: the same queue of nodes,
/// the proof read as far as it has been emitted, and the last computed node
/// still queued.
pub open spec fn in_step(nodes: Seq<[u8; 32]>, leaves: Seq<[u8; 32]>, g: GenState, st: MultiProofState) -> bool {
    &&& positions_ok(leaves, st)
    &&& st.proof_pos == g.proof.len()
    &&& queue(leaves, st) == g.stack.map_values(|i: nat| nodes[i as int]@)
    &&& g.flags.len() > 0 ==> st.hash_pos < st.hashes.len()
    &&& g.stack.len() >= 1
}

/// The leaf indices are distinct leaves of the tree, from last to first.
pub open spec fn chosen_ok(h: nat, idx: Seq<nat>) -> bool {
    &&& idx.len() >= 1
    &&& forall|i: int| 0 <= i < idx.len() ==> at_depth(#[trigger] idx[i], h)
    &&& forall|i: int, k: int| 0 <= i < k < idx.len() ==> #[trigger] idx[i] > #[trigger] idx[k]
}

/// Run side by side, the verifier (reading the generator's final output)
/// tracks the generator step by step.
proof fn lemma_sim(nodes: Seq<[u8; 32]>, h: nat, idx: Seq<nat>, u: nat, t: nat)
    requires
        sorted_pair_tree(nodes, h),
        chosen_ok(h, idx),
        t <= u,
    ensures
        multi_run(
            chosen_leaves(nodes, idx),
            gen_run(nodes, idx, u).proof,
            gen_run(nodes, idx, u).flags,
            gen_run(nodes, idx, t).flags.len(),
        ) is Some,
        in_step(
            nodes,
            chosen_leaves(nodes, idx),
            gen_run(nodes, idx, t),
            multi_run(
                chosen_leaves(nodes, idx),
                gen_run(nodes, idx, u).proof,
                gen_run(nodes, idx, u).flags,
                gen_run(nodes, idx, t).flags.len(),
            )->Some_0,
        ),
        exists|m: nat, d: nat| stack_ok(gen_run(nodes, idx, t).stack, m, d, h),
    decreases t,
{
    let leaves = chosen_leaves(nodes, idx);
    let fin = gen_run(nodes, idx, u);
    let pf = fin.proof;
    let fl = fin.flags;
    let g = gen_run(nodes, idx, t);
    if t == 0 {
        let st = MultiProofState { leaf_pos: 0, hash_pos: 0, proof_pos: 0, hashes: Seq::empty() };
        assert(multi_run(leaves, pf, fl, 0) == Some(st));
        assert(queue(leaves, st) =~= g.stack.map_values(|i: nat| nodes[i as int]@));
        assert(stack_ok(g.stack, idx.len(), h, h));
    } else {
        lemma_sim(nodes, h, idx, u, (t - 1) as nat);
        let g1 = gen_run(nodes, idx, (t - 1) as nat);
        if !gen_done(g1) {
            let k1 = g1.flags.len();
            let st1 = multi_run(leaves, pf, fl, k1)->Some_0;
            let (m, d) = choose|m: nat, d: nat| stack_ok(g1.stack, m, d, h);
            lemma_step_keeps_order(nodes, g1, m, d, h);
            let (m2, d2) = choose|m2: nat, d2: nat| stack_ok(gen_step(nodes, g1).stack, m2, d2, h);
            assert(stack_ok(g.stack, m2, d2, h));
            lemma_gen_prefix(nodes, idx, t, u);
            let j = g1.stack[0];
            let s = sibling(j);
            let rest = g1.stack.drop_first();
            lemma_tree_parent(nodes, h, j, d);
            let q = queue(leaves, st1);
            assert(q[0] == nodes[j as int]@);
            lemma_next_node_front(leaves, st1);
            let a = next_node(leaves, st1)->Some_0.0;
            let sta = next_node(leaves, st1)->Some_0.1;
            assert(a == nodes[j as int]@);
            assert(fl[k1 as int] == g.flags[k1 as int]);
            if rest.len() > 0 && rest[0] == s {
                assert(g.flags[k1 as int]);
                assert(queue(leaves, sta)[0] == nodes[s as int]@);
                lemma_next_node_front(leaves, sta);
                let b = next_node(leaves, sta)->Some_0.0;
                let stb = next_node(leaves, sta)->Some_0.1;
                let st2 = MultiProofState { hashes: stb.hashes.push(parent(a, b)), ..stb };
                assert(multi_run(leaves, pf, fl, k1 + 1) == Some(st2));
                lemma_queue_push(leaves, stb, parent(a, b));
                assert(queue(leaves, st2) =~= g.stack.map_values(|i: nat| nodes[i as int]@));
            } else {
                assert(!g.flags[k1 as int]);
                assert(pf[g1.proof.len() as int] == g.proof[g1.proof.len() as int]);
                let b = pf[sta.proof_pos as int]@;
                let stb = MultiProofState { proof_pos: sta.proof_pos + 1, ..sta };
                let st2 = MultiProofState { hashes: stb.hashes.push(parent(a, b)), ..stb };
                assert(multi_run(leaves, pf, fl, k1 + 1) == Some(st2));
                assert(queue(leaves, stb) == queue(leaves, sta));
                lemma_queue_push(leaves, stb, parent(a, b));
                assert(queue(leaves, st2) =~= g.stack.map_values(|i: nat| nodes[i as int]@));
            }
        }
    }
}

/// A multi-proof generated from a complete sorted-pair tree verifies: for
/// distinct leaves given from last to first, once the generator stops, the
/// chosen leaves, its proof and its flags establish the tree's root.
pub proof fn lemma_generated_multi_proof_verifies(nodes: Seq<[u8; 32]>, h: nat, idx: Seq<nat>, t: nat)
    requires
        sorted_pair_tree(nodes, h),
        chosen_ok(h, idx),
        gen_done(gen_run(nodes, idx, t)),
        gen_run(nodes, idx, t).flags.len() < usize::MAX,
    ensures
        multi_proof_valid(
            chosen_leaves(nodes, idx),
            gen_run(nodes, idx, t).proof,
            gen_run(nodes, idx, t).flags,
            nodes[0]@,
        ),
{
    let leaves = chosen_leaves(nodes, idx);
    let g = gen_run(nodes, idx, t);
    let k = g.flags.len();
    lemma_sim(nodes, h, idx, t, t);
    let st = multi_run(leaves, g.proof, g.flags, k)->Some_0;
    let (m, d) = choose|m: nat, d: nat| stack_ok(g.stack, m, d, h);
    assert(g.stack[0] == 0);
    if g.stack.len() > 1 {
        assert(g.stack[0] > g.stack[1]);
    }
    let q = queue(leaves, st);
    assert(q.len() == 1 && q[0] == nodes[0]@);
    lemma_multi_run_one_hash_per_flag(leaves, g.proof, g.flags, k);
    let lv = leaves.subrange(st.leaf_pos as int, leaves.len() as int).map_values(|x: [u8; 32]| x@);
    let hs = st.hashes.subrange(st.hash_pos as int, st.hashes.len() as int);
    assert(q == lv + hs);
    if k == 0 {
        assert(hs.len() == 0);
        assert(q[0] == lv[0]);
    } else {
        assert(lv.len() == 0);
        assert(q[0] == hs[0]);
    }
}

/// Sum of the indices in the generator's queue.
spec fn index_sum(s: Seq<nat>) -> nat
    decreases s.len(),
{
    if s.len() == 0 {
        0
    } else {
        s[0] + index_sum(s.drop_first())
    }
}

proof fn lemma_index_sum_push(s: Seq<nat>, x: nat)
    ensures
        index_sum(s.push(x)) == index_sum(s) + x,
    decreases s.len(),
{
    if s.len() > 0 {
        lemma_index_sum_push(s.drop_first(), x);
        assert(s.push(x).drop_first() =~= s.drop_first().push(x));
        assert(s.push(x)[0] == s[0]);
        assert(index_sum(s.push(x)) == s.push(x)[0] + index_sum(s.push(x).drop_first()));
    } else {
        assert(s.push(x).drop_first() =~= Seq::<nat>::empty());
        assert(index_sum(s.push(x).drop_first()) == 0);
        assert(index_sum(s.push(x)) == s.push(x)[0] + index_sum(s.push(x).drop_first()));
    }
}

/// Each step of the generator lowers the sum of its queued indices.
proof fn lemma_step_shrinks(nodes: Seq<[u8; 32]>, g: GenState)
    requires
        !gen_done(g),
    ensures
        index_sum(gen_step(nodes, g).stack) < index_sum(g.stack),
{
    let j = g.stack[0];
    let rest = g.stack.drop_first();
    lemma_index_sum_push(rest, up(j));
    if rest.len() > 0 && rest[0] == sibling(j) {
        lemma_index_sum_push(rest.drop_first(), up(j));
    }
}

proof fn lemma_gen_stops_within(nodes: Seq<[u8; 32]>, idx: Seq<nat>, t: nat)
    ensures
        gen_done(gen_run(nodes, idx, t)) || index_sum(gen_run(nodes, idx, t).stack) + t <= index_sum(idx),
    decreases t,
{
    if t > 0 {
        lemma_gen_stops_within(nodes, idx, (t - 1) as nat);
        let g1 = gen_run(nodes, idx, (t - 1) as nat);
        if !gen_done(g1) {
            lemma_step_shrinks(nodes, g1);
        }
    }
}

/// The generator stops: within as many steps as the sum of the leaf indices.
pub proof fn lemma_generator_stops(nodes: Seq<[u8; 32]>, idx: Seq<nat>)
    ensures
        exists|t: nat| gen_done(#[trigger] gen_run(nodes, idx, t)),
{
    let t = index_sum(idx) + 1;
    lemma_gen_stops_within(nodes, idx, t);
    assert(gen_done(gen_run(nodes, idx, t)));
}

proof fn lemma_level_start_grows(a: nat, b: nat)
    requires
        a <= b,
    ensures
        level_start(a) <= level_start(b),
    decreases b,
{
    if a < b {
        lemma_level_start_grows(a, (b - 1) as nat);
    }
}

/// A node at depth `d > 0` is not the root, its parent lies at depth `d - 1`,
/// its sibling at depth `d`, and the parent's children are the node and its
/// sibling.
proof fn lemma_depth_step(i: nat, d: nat)
    requires
        at_depth(i, d),
        d > 0,
    ensures
        i >= 1,
        at_depth(up(i), (d - 1) as nat),
        at_depth(sibling(i), d),
        sibling(i) != i,
        i % 2 == 1 ==> i == 2 * up(i) + 1 && sibling(i) == 2 * up(i) + 2,
        i % 2 == 0 ==> i == 2 * up(i) + 2 && sibling(i) == 2 * up(i) + 1,
{
    assert(level_start(d) == 2 * level_start((d - 1) as nat) + 1);
}

/// Only the root lies at depth 0.
proof fn lemma_depth_zero(i: nat)
    ensures
        at_depth(i, 0) <==> i == 0,
{
    assert(level_start(0) == 0);
}

/// Two nodes with the same parent are the same node or siblings.
proof fn lemma_same_parent(a: nat, j: nat)
    requires
        a >= 1,
        j >= 1,
        up(a) == up(j),
    ensures
        a == j || a == sibling(j),
{
}

/// Nodes at a shallower depth come before nodes at a deeper one.
proof fn lemma_depth_order(a: nat, b: nat, d: nat)
    requires
        d > 0,
        at_depth(a, d),
        at_depth(b, (d - 1) as nat),
    ensures
        b < a,
{
    assert(level_start(d) == 2 * level_start((d - 1) as nat) + 1);
}

} // verus!
