//! Operations on lists of addresses (ticket pools, participant lists).
use vstd::prelude::*;
use crate::address::{Addr, addr_eq};

verus! {

broadcast use {vstd::set::group_set_axioms, vstd::seq_lib::seq_to_set_is_finite, vstd::seq_lib::group_seq_properties};

/// `s` with every occurrence of `w` removed, the rest in order.
pub open spec fn without(s: Seq<Addr>, w: Addr) -> Seq<Addr>
    decreases s.len(),
{
    if s.len() == 0 {
        s
    } else if s.last() == w {
        without(s.drop_last(), w)
    } else {
        without(s.drop_last(), w).push(s.last())
    }
}

/// How many times `w` occurs in `s`.
pub open spec fn occurrences(s: Seq<Addr>, w: Addr) -> nat
    decreases s.len(),
{
    if s.len() == 0 {
        0
    } else if s.last() == w {
        occurrences(s.drop_last(), w) + 1
    } else {
        occurrences(s.drop_last(), w)
    }
}

/// The addresses left after removing `w` are those of `s` other than `w`.
pub proof fn lemma_without_contains(s: Seq<Addr>, w: Addr, x: Addr)
    ensures
        without(s, w).contains(x) <==> (s.contains(x) && x != w),
    decreases s.len(),
{
    if s.len() > 0 {
        lemma_without_contains(s.drop_last(), w, x);
        assert(s =~= s.drop_last().push(s.last()));
    }
}

/// Removing `w` drops exactly its occurrences.
pub proof fn lemma_without_len(s: Seq<Addr>, w: Addr)
    ensures
        without(s, w).len() + occurrences(s, w) == s.len(),
    decreases s.len(),
{
    if s.len() > 0 {
        lemma_without_len(s.drop_last(), w);
    }
}

/// No occurrence of `w` is left after removing it.
pub proof fn lemma_without_removes_all(s: Seq<Addr>, w: Addr)
    ensures
        occurrences(without(s, w), w) == 0,
    decreases s.len(),
{
    if s.len() > 0 {
        lemma_without_removes_all(s.drop_last(), w);
        let rest = without(s.drop_last(), w);
        if s.last() != w {
            assert(rest.push(s.last()).drop_last() =~= rest);
        }
    }
}

/// The distinct addresses left after removing a member `w` are one fewer.
pub proof fn lemma_without_distinct(s: Seq<Addr>, w: Addr)
    requires
        s.contains(w),
    ensures
        without(s, w).to_set() == s.to_set().remove(w),
        without(s, w).to_set().len() + 1 == s.to_set().len(),
{
    assert forall|x: Addr| #[trigger] without(s, w).to_set().contains(x) <==> s.to_set().remove(
        w,
    ).contains(x) by {
        lemma_without_contains(s, w, x);
    }
    assert(without(s, w).to_set() =~= s.to_set().remove(w));
}

/// A list with at least one distinct address is not empty.
pub proof fn lemma_distinct_nonempty(s: Seq<Addr>)
    requires
        s.to_set().len() > 0,
    ensures
        s.len() > 0,
{
    if s.len() == 0 {
        assert(s.to_set() =~= Set::<Addr>::empty());
    }
}

/// Whether `w` occurs in `s`.
pub fn contains_addr(s: &Vec<Addr>, w: &Addr) -> (b: bool)
    ensures
        b == s@.contains(*w),
{
    let mut i: usize = 0;
    while i < s.len()
        invariant
            i <= s@.len(),
            forall|j: int| 0 <= j < i ==> s@[j] != *w,
        decreases s@.len() - i,
    {
        if addr_eq(&s[i], w) {
            return true;
        }
        i = i + 1;
    }
    false
}

/// `s` without `w`, and how many entries were removed.
pub fn remove_all(s: &Vec<Addr>, w: &Addr) -> (r: (Vec<Addr>, usize))
    ensures
        r.0@ == without(s@, *w),
        r.1 == occurrences(s@, *w),
{
    let mut remaining: Vec<Addr> = Vec::new();
    let mut count: usize = 0;
    let mut i: usize = 0;
    assert(s@.take(0) =~= Seq::<Addr>::empty());
    while i < s.len()
        invariant
            i <= s@.len(),
            remaining@ == without(s@.take(i as int), *w),
            count == occurrences(s@.take(i as int), *w),
            count <= i,
        decreases s@.len() - i,
    {
        assert(s@.take(i + 1).drop_last() =~= s@.take(i as int));
        if addr_eq(&s[i], w) {
            count = count + 1;
        } else {
            remaining.push(s[i]);
        }
        i = i + 1;
    }
    assert(s@.take(s@.len() as int) =~= s@);
    (remaining, count)
}

/// The number of distinct addresses in `s`.
pub fn distinct_count(s: &Vec<Addr>) -> (n: usize)
    ensures
        n == s@.to_set().len(),
{
    let mut seen: Vec<Addr> = Vec::new();
    let mut i: usize = 0;
    assert(seen@.to_set() =~= s@.take(0).to_set());
    while i < s.len()
        invariant
            i <= s@.len(),
            seen@.no_duplicates(),
            seen@.to_set() == s@.take(i as int).to_set(),
            seen@.len() <= i,
        decreases s@.len() - i,
    {
        let p = s[i];
        let ghost before = seen@;
        if !contains_addr(&seen, &p) {
            seen.push(p);
        }
        proof {
            let next = s@.take(i + 1);
            let prev = s@.take(i as int);
            assert(next =~= prev.push(p));
            assert forall|x: Addr| #[trigger] seen@.to_set().contains(x) <==> next.to_set().contains(x) by {
                assert(before.to_set().contains(x) == prev.to_set().contains(x));
            }
            assert(seen@.to_set() =~= next.to_set());
        }
        i = i + 1;
    }
    proof {
        assert(s@.take(s@.len() as int) =~= s@);
        seen@.unique_seq_to_set();
    }
    seen.len()
}

/// A copy of `s`.
pub fn copy_addrs(s: &Vec<Addr>) -> (r: Vec<Addr>)
    ensures
        r@ == s@,
{
    let mut r: Vec<Addr> = Vec::new();
    let mut i: usize = 0;
    while i < s.len()
        invariant
            i <= s@.len(),
            r@ == s@.take(i as int),
        decreases s@.len() - i,
    {
        r.push(s[i]);
        i = i + 1;
        assert(r@ =~= s@.take(i as int));
    }
    assert(s@.take(s@.len() as int) =~= s@);
    r
}

} // verus!
