//! Helpers shared by the contract templates: ledger constants, deadline
//! validation, basis-point fees, pool-index derivation and per-address rate
//! limiting.
use vstd::prelude::*;
use crate::bytes::{be_u64_at, be_value};

verus! {

/// Minimum number of ledgers the deadline must be ahead of the current ledger.
pub const MIN_DEADLINE_BUFFER: u32 = 10;

/// Expected wall-clock seconds between consecutive Soroban ledgers.
pub const LEDGER_SECONDS: u32 = 5;

/// Ledger threshold for TTL extension (about 7 days).
pub const LEDGER_LIFETIME_THRESHOLD: u32 = 120_960;

/// Target TTL (in ledgers) after each extension (about 30 days).
pub const LEDGER_BUMP_AMOUNT: u32 = 518_400;

/// Validates that a deadline is sufficiently far in the future: `Ok` exactly
/// when `deadline >= current_ledger + MIN_DEADLINE_BUFFER`.
pub fn validate_deadline(current_ledger: u32, deadline: u32) -> (r: Result<(), ()>)
    requires
        current_ledger + MIN_DEADLINE_BUFFER <= u32::MAX,
    ensures
        r is Ok <==> deadline >= current_ledger + MIN_DEADLINE_BUFFER,
{
    if deadline < current_ledger + MIN_DEADLINE_BUFFER {
        Err(())
    } else {
        Ok(())
    }
}

/// Basis-point denominator (10 000 = 100 %).
pub const BPS_DENOMINATOR: i128 = 10_000;

/// Integer division that truncates toward zero, as Rust's `/` does.
pub open spec fn trunc_div(x: int, d: int) -> int
    recommends
        d > 0,
{
    if x >= 0 {
        x / d
    } else {
        -((-x) / d)
    }
}

/// The fee `amount * bps / 10_000`, or `None` when the product leaves `i128`.
pub open spec fn bps_fee(amount: int, bps: int) -> Option<int> {
    if amount * bps > i128::MAX || amount * bps < i128::MIN {
        None
    } else {
        Some(trunc_div(amount * bps, BPS_DENOMINATOR as int))
    }
}

/// Compute a fee as `amount * bps / 10_000` with overflow-safe checked
/// arithmetic; division truncates toward zero.
pub fn apply_bps_fee(amount: i128, bps: u32) -> (fee: Option<i128>)
    ensures
        fee matches Some(f) ==> bps_fee(amount as int, bps as int) == Some(f as int),
        fee is None <==> bps_fee(amount as int, bps as int) is None,
{
    let product = amount.checked_mul(bps as i128);
    match product {
        Some(p) => p.checked_div(BPS_DENOMINATOR),
        None => None,
    }
}

/// A fee of at most 100 % on a non-negative amount lies between zero and the
/// amount, and a larger rate never yields a smaller fee.
pub proof fn lemma_bps_fee_bounds(amount: int, bps: int, more_bps: int)
    requires
        0 <= amount,
        0 <= bps <= more_bps <= BPS_DENOMINATOR,
        bps_fee(amount, more_bps) is Some,
    ensures
        bps_fee(amount, bps) is Some,
        0 <= bps_fee(amount, bps)->Some_0 <= bps_fee(amount, more_bps)->Some_0 <= amount,
{
    assert(0 <= amount * bps <= amount * more_bps <= amount * 10_000) by (nonlinear_arith)
        requires
            0 <= amount,
            0 <= bps <= more_bps <= 10_000,
    ;
    vstd::arithmetic::div_mod::lemma_div_is_ordered(amount * bps, amount * more_bps, 10_000);
    vstd::arithmetic::div_mod::lemma_div_is_ordered(amount * more_bps, amount * 10_000, 10_000);
    vstd::arithmetic::div_mod::lemma_div_pos_is_pos(amount * bps, 10_000);
    assert((amount * 10_000) / 10_000 == amount) by {
        vstd::arithmetic::div_mod::lemma_div_multiples_vanish(amount, 10_000);
        vstd::arithmetic::mul::lemma_mul_is_commutative(amount, 10_000);
    }
}

/// Derive a pool index from a 32-byte hash: the last 8 bytes read as a
/// big-endian `u64`, reduced modulo `pool_len`.
pub fn entropy_index(hash: &[u8; 32], pool_len: u32) -> (idx: u32)
    requires
        pool_len > 0,
    ensures
        idx == be_value(hash@.subrange(24, 32)) % (pool_len as nat),
        idx < pool_len,
{
    let idx_raw = be_u64_at(hash, 24);
    (idx_raw % (pool_len as u64)) as u32
}

/// `x + y`, or `u32::MAX` when the sum does not fit.
pub open spec fn sat_add_u32(x: u32, y: u32) -> u32 {
    if x + y > u32::MAX {
        u32::MAX
    } else {
        (x + y) as u32
    }
}

/// The `(window_start, call_count)` in force at `current_ledger`: the stored
/// window while it is open, a fresh empty window otherwise.
pub open spec fn current_window(entry: Option<(u32, u32)>, current_ledger: u32, window: u32) -> (u32, u32) {
    match entry {
        Some((ws, cc)) => if current_ledger >= sat_add_u32(ws, window) {
            (current_ledger, 0)
        } else {
            (ws, cc)
        },
        None => (current_ledger, 0),
    }
}

/// The entry to store after a call, or `None` when the call is denied
/// because the current window already holds `max_calls` calls.
pub open spec fn rate_limit_decision(entry: Option<(u32, u32)>, current_ledger: u32, window: u32, max_calls: u32) -> Option<(u32, u32)> {
    let (ws, cc) = current_window(entry, current_ledger, window);
    if cc < max_calls {
        Some((ws, (cc + 1) as u32))
    } else {
        None
    }
}

/// Decide whether a call is within a per-address rate limit of `max_calls`
/// calls per `window` ledgers, the window sliding from its first call.
///
/// `entry` is the stored `(window_start, call_count)` of the address, if any.
/// Returns the entry to store when the call is allowed, or `None` when the
/// limit is already reached in the current window (nothing is to be stored).
pub fn check_and_record(entry: Option<(u32, u32)>, current_ledger: u32, window: u32, max_calls: u32) -> (r: Option<(u32, u32)>)
    ensures
        r == rate_limit_decision(entry, current_ledger, window, max_calls),
{
    let (window_start, call_count) = match entry {
        Some((ws, cc)) => {
            let window_end = ws.saturating_add(window);
            if current_ledger >= window_end {
                (current_ledger, 0u32)
            } else {
                (ws, cc)
            }
        },
        None => (current_ledger, 0u32),
    };
    if call_count >= max_calls {
        return None;
    }
    Some((window_start, call_count + 1))
}

/// A rate limit is never exceeded: starting from a stored count within the
/// limit, every allowed call leaves the count within the limit, and calls in
/// an open window keep its start.
pub proof fn lemma_rate_limit_holds(entry: (u32, u32), current_ledger: u32, window: u32, max_calls: u32)
    requires
        entry.1 <= max_calls,
    ensures
        ({
            let r = rate_limit_decision(Some(entry), current_ledger, window, max_calls);
            &&& r matches Some(e) ==> e.1 <= max_calls
            &&& current_ledger < sat_add_u32(entry.0, window) ==> (r matches Some(e) ==> e.0 == entry.0
                && e.1 == entry.1 + 1)
            &&& current_ledger < sat_add_u32(entry.0, window) && entry.1 == max_calls ==> r is None
        }),
{
}

/// Rate-limit windows follow the calls: a call after the stored window has
/// run out opens a fresh window at the current ledger holding that one call,
/// and every allowed call (with ledgers never going back) lies inside the
/// window it is recorded in.
pub proof fn lemma_rate_limit_window_follows_calls(
    entry: Option<(u32, u32)>,
    current_ledger: u32,
    window: u32,
    max_calls: u32,
)
    ensures
        (match entry {
            Some(e) => current_ledger >= e.0 + window,
            None => true,
        }) && max_calls > 0 ==> rate_limit_decision(entry, current_ledger, window, max_calls) == Some(
            (current_ledger, 1u32),
        ),
        (match entry {
            Some(e) => e.0 <= current_ledger,
            None => true,
        }) && window > 0 ==> (rate_limit_decision(entry, current_ledger, window, max_calls) matches Some(
            r,
        ) ==> r.0 <= current_ledger < r.0 + window),
{
}

} // verus!
