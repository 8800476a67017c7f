//! Cursor-based pagination shared by the contracts' listing endpoints.
//!
//! A listing walks an ordered range of cursors with a caller-supplied step
//! function, loads the item at each cursor (skipping empty slots), and stops
//! when the page is full or the range is exhausted.
use vstd::prelude::*;

verus! {

/// A walk that is at cursor `c` holding `held` items stops within `n` more
/// steps, however `fetch` and `advance` answer: it stops once `cap` items
/// are held, or when `advance` has no next cursor.
pub open spec fn stops_within<T, C, A: Fn(C) -> Option<C>, F: Fn(C) -> Option<T>>(
    advance: A,
    fetch: F,
    c: C,
    held: nat,
    cap: nat,
    n: nat,
) -> bool
    decreases n,
{
    held >= cap || forall|f: Option<T>|
        #[trigger] call_ensures(fetch, (c,), f) ==> forall|a: Option<C>|
            #[trigger] call_ensures(advance, (c,), a) ==> match a {
                None => true,
                Some(next) => if n > 0 {
                    stops_within(
                        advance,
                        fetch,
                        next,
                        if f is Some {
                            held + 1
                        } else {
                            held
                        },
                        cap,
                        (n - 1) as nat,
                    )
                } else {
                    false
                },
            }
}

/// A single page of results produced by [`paginate`].
pub struct Page<T, C> {
    /// The items in this page, in the order they were loaded.
    pub items: Vec<T>,
    /// The cursor to pass to the next call to continue, or `None` once the
    /// range is exhausted.
    pub next_cursor: Option<C>,
}

/// `limit` clamped to `[1, max_page_size]`.
pub open spec fn page_capacity(limit: u32, max_page_size: u32) -> u32 {
    if limit < 1 {
        1
    } else if limit > max_page_size {
        max_page_size
    } else {
        limit
    }
}

/// The items present in `got`, in order.
pub open spec fn present<T>(got: Seq<Option<T>>) -> Seq<T>
    decreases got.len(),
{
    if got.len() == 0 {
        Seq::empty()
    } else {
        let init = present(got.drop_last());
        match got.last() {
            Some(x) => init.push(x),
            None => init,
        }
    }
}

/// `visited` is a walk from `start` in steps of `advance`, `got[i]` is what
/// `fetch` loaded at `visited[i]`, and fewer than `cap` items had been
/// loaded before each visit.
pub open spec fn walk<T, C, A: Fn(C) -> Option<C>, F: Fn(C) -> Option<T>>(
    advance: A,
    fetch: F,
    start: C,
    cap: u32,
    visited: Seq<C>,
    got: Seq<Option<T>>,
) -> bool {
    &&& visited.len() == got.len()
    &&& visited.len() >= 1
    &&& visited[0] == start
    &&& forall|i: int| 0 <= i < visited.len() ==> call_ensures(fetch, (visited[i],), #[trigger] got[i])
    &&& forall|i: int|
        0 <= i < visited.len() - 1 ==> call_ensures(advance, (#[trigger] visited[i],), Some(visited[i + 1]))
    &&& forall|i: int| 0 <= i < visited.len() ==> #[trigger] present(got.take(i)).len() < cap
}

/// `page` is what a walk `visited` from `start` yields: the items loaded
/// along it, and where it stopped. The walk ends when `advance` has no next
/// cursor, or when the page has filled up, in which case the next cursor is
/// handed back unvisited.
pub open spec fn page_of<T, C, A: Fn(C) -> Option<C>, F: Fn(C) -> Option<T>>(
    advance: A,
    fetch: F,
    start: C,
    cap: u32,
    visited: Seq<C>,
    got: Seq<Option<T>>,
    page: Page<T, C>,
) -> bool {
    &&& walk(advance, fetch, start, cap, visited, got)
    &&& page.items@ == present(got)
    &&& match page.next_cursor {
        None => call_ensures(advance, (visited.last(),), None),
        Some(n) => present(got).len() == cap && call_ensures(advance, (visited.last(),), Some(n)),
    }
}

proof fn lemma_present_push<T>(got: Seq<Option<T>>, x: Option<T>)
    ensures
        present(got.push(x)) == (match x {
            Some(v) => present(got).push(v),
            None => present(got),
        }),
{
    assert(got.push(x).drop_last() =~= got);
}

/// Advance a cursor through an ordered range and collect at most `limit`
/// items (clamped to `[1, max_page_size]`).
///
/// `advance_fn` steps the cursor (`None` ends the range) and `fetch_fn`
/// loads the item at a cursor (`None` skips it); the walk from `cursor` must
/// stop, by filling the page or reaching the end of the range.
pub fn paginate<T, C: Copy, A: Fn(C) -> Option<C>, F: Fn(C) -> Option<T>>(
    cursor: C,
    limit: u32,
    max_page_size: u32,
    advance_fn: A,
    fetch_fn: F,
) -> (page: Page<T, C>)
    requires
        max_page_size >= 1,
        forall|c: C| call_requires(advance_fn, (c,)),
        forall|c: C| call_requires(fetch_fn, (c,)),
        exists|n: nat|
            stops_within(advance_fn, fetch_fn, cursor, 0, page_capacity(limit, max_page_size) as nat, n),
    ensures
        page.items@.len() <= page_capacity(limit, max_page_size),
        exists|visited: Seq<C>, got: Seq<Option<T>>|
            page_of(
                advance_fn,
                fetch_fn,
                cursor,
                page_capacity(limit, max_page_size),
                visited,
                got,
                page,
            ),
{
    let capped: u32 = if limit < 1 {
        1
    } else if limit > max_page_size {
        max_page_size
    } else {
        limit
    };
    let ghost cap = page_capacity(limit, max_page_size);
    let mut items: Vec<T> = Vec::new();
    let mut current: Option<C> = Some(cursor);
    let mut next_cursor: Option<C> = None;
    let ghost mut visited: Seq<C> = Seq::empty();
    let ghost mut got: Seq<Option<T>> = Seq::empty();
    let ghost mut bound: nat = choose|n: nat|
        stops_within(advance_fn, fetch_fn, cursor, 0, page_capacity(limit, max_page_size) as nat, n);
    loop
        invariant_except_break
            next_cursor is None,
        invariant
            capped == cap,
            cap >= 1,
            forall|c: C| call_requires(advance_fn, (c,)),
            forall|c: C| call_requires(fetch_fn, (c,)),
            current matches Some(c) ==> stops_within(
                advance_fn,
                fetch_fn,
                c,
                items@.len(),
                cap as nat,
                bound,
            ),
            items@ == present(got),
            items@.len() <= cap,
            visited.len() == got.len(),
            visited.len() == 0 ==> current == Some(cursor),
            visited.len() > 0 ==> walk(advance_fn, fetch_fn, cursor, cap, visited, got),
            visited.len() > 0 ==> call_ensures(advance_fn, (visited.last(),), current),
        ensures
            page_of(
                advance_fn,
                fetch_fn,
                cursor,
                cap,
                visited,
                got,
                Page { items, next_cursor },
            ),
        decreases
                match current {
                    Some(c) => bound + 1,
                    None => 0,
                },
    {
        let c = match current {
            Some(v) => v,
            None => {
                break;
            },
        };
        if items.len() >= capped as usize {
            next_cursor = Some(c);
            break;
        }
        let fetched = fetch_fn(c);
        proof {
            let k = visited.len() as int;
            lemma_present_push(got, fetched);
            assert(got.push(fetched).take(k) =~= got);
            assert forall|i: int| 0 <= i < k + 1 implies #[trigger] present(
                got.push(fetched).take(i),
            ).len() < cap by {
                if i < k {
                    assert(got.push(fetched).take(i) =~= got.take(i));
                }
            }
            visited = visited.push(c);
            got = got.push(fetched);
        }
        match fetched {
            Some(item) => {
                items.push(item);
            },
            None => {},
        }
        current = advance_fn(c);
        proof {
            if current is Some {
                bound = (bound - 1) as nat;
            }
        }
    }
    let page = Page { items, next_cursor };
    assert(page_of(advance_fn, fetch_fn, cursor, cap, visited, got, page));
    page
}

} // verus!
