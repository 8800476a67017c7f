//! Dutch (descending price) auction pricing.
//!
//! ```text
//! price(t) = start_price - (start_price - floor_price) * (t - start_ledger) / duration_ledgers
//! ```
//!
//! The price equals `start_price` at or before `start_ledger`, falls linearly,
//! and is clamped to `floor_price` from `start_ledger + duration_ledgers` onwards.
use vstd::prelude::*;
use vstd::arithmetic::div_mod::*;
use vstd::arithmetic::mul::*;
use crate::errors::AuctionError;
use crate::common::trunc_div;

verus! {

/// Schedule of a Dutch auction.
#[derive(Clone, Copy, Debug, PartialEq, Eq, Structural)]
pub struct DutchConfig {
    /// Price at and before `start_ledger`.
    pub start_price: i128,
    /// Lowest price, reached after `duration_ledgers` ledgers.
    pub floor_price: i128,
    /// Ledger at which the price starts to fall.
    pub start_ledger: u32,
    /// Number of ledgers over which the price falls to the floor.
    pub duration_ledgers: u32,
}

/// Ledgers elapsed since the start of the schedule (zero before it starts).
pub open spec fn elapsed_ledgers(cfg: DutchConfig, ledger: u32) -> int {
    if ledger >= cfg.start_ledger {
        ledger - cfg.start_ledger
    } else {
        0
    }
}

/// Whether the schedule's price spread `start_price - floor_price` is needed at
/// `ledger` and does not fit in an `i128`.
pub open spec fn spread_overflows(cfg: DutchConfig, ledger: u32) -> bool {
    &&& elapsed_ledgers(cfg, ledger) < cfg.duration_ledgers
    &&& (cfg.start_price - cfg.floor_price > i128::MAX || cfg.start_price - cfg.floor_price
        < i128::MIN)
}

/// The textbook Dutch price: the start price minus the elapsed share of the
/// spread (rounded toward zero), never below the floor; the floor once the
/// schedule has run its course.
pub open spec fn dutch_price(cfg: DutchConfig, ledger: u32) -> int {
    let e = elapsed_ledgers(cfg, ledger);
    let d = cfg.duration_ledgers as int;
    if e >= d {
        cfg.floor_price as int
    } else {
        let spread = cfg.start_price - cfg.floor_price;
        let p = cfg.start_price - trunc_div(spread * e, d);
        if p >= cfg.floor_price {
            p
        } else {
            cfg.floor_price as int
        }
    }
}

/// Splitting the spread into quotient and remainder gives the same decay as
/// dividing the whole product.
proof fn lemma_split_decay(t: int, d: int, e: int)
    requires
        t >= 0,
        d > 0,
        e >= 0,
    ensures
        (t / d) * e + ((t % d) * e) / d == (t * e) / d,
{
    lemma_fundamental_div_mod(t, d);
    let q = t / d;
    let r = t % d;
    assert(t * e == (q * e) * d + r * e) by (nonlinear_arith)
        requires
            t == d * q + r,
    ;
    lemma_mod_pos_bound(t, d);
    assert(r * e >= 0) by (nonlinear_arith)
        requires
            r >= 0,
            e >= 0,
    ;
    lemma_hoist_over_denominator(r * e, q * e, d as nat);
}

/// The decay bounded by the spread: `0 <= decay <= spread` for a non-negative spread.
proof fn lemma_decay_bounds(t: int, d: int, e: int)
    requires
        t >= 0,
        d > 0,
        0 <= e < d,
    ensures
        0 <= (t * e) / d <= t,
        0 <= (t / d) * e <= t,
        0 <= (t % d) * e < d * d,
{
    assert(0 <= t * e <= t * d) by (nonlinear_arith)
        requires
            t >= 0,
            0 <= e < d,
    ;
    lemma_div_is_ordered(t * e, t * d, d);
    lemma_div_pos_is_pos(t * e, d);
    assert((t * d) / d == t) by {
        lemma_div_multiples_vanish(t, d);
        lemma_mul_is_commutative(t, d);
    }
    lemma_fundamental_div_mod(t, d);
    lemma_mod_pos_bound(t, d);
    lemma_div_pos_is_pos(t, d);
    assert(0 <= (t / d) * e <= t) by (nonlinear_arith)
        requires
            t == d * (t / d) + t % d,
            t % d >= 0,
            t / d >= 0,
            0 <= e < d,
    ;
    assert(0 <= (t % d) * e < d * d) by (nonlinear_arith)
        requires
            0 <= t % d < d,
            0 <= e < d,
    ;
}

/// Return the Dutch auction price at `ledger` for the schedule `cfg`.
///
/// The product `spread * elapsed` is split as `q * elapsed + r * elapsed / duration`
/// (with `spread = q * duration + r`) so the intermediate values never exceed
/// `spread`, even when `start_price` is close to `i128::MAX`. The result is
/// identical to the textbook formula.
///
/// Fails with [`AuctionError::Overflow`] exactly when the spread
/// `start_price - floor_price` is needed and does not fit in an `i128`.
pub fn price_at(cfg: &DutchConfig, ledger: u32) -> (r: Result<i128, AuctionError>)
    ensures
        r matches Ok(p) ==> !spread_overflows(*cfg, ledger) && p == dutch_price(*cfg, ledger),
        r matches Err(e) ==> spread_overflows(*cfg, ledger) && e == AuctionError::Overflow,
{
    let elapsed = ledger.saturating_sub(cfg.start_ledger);
    if elapsed >= cfg.duration_ledgers {
        return Ok(cfg.floor_price);
    }
    let spread = match cfg.start_price.checked_sub(cfg.floor_price) {
        Some(s) => s,
        None => return Err(AuctionError::Overflow),
    };
    let e = elapsed as i128;
    let d = cfg.duration_ledgers as i128;
    proof {
        let t = if spread >= 0 { spread as int } else { -(spread as int) };
        lemma_split_decay(t, d as int, e as int);
        lemma_decay_bounds(t, d as int, e as int);
        assert(d * d < 0x1_0000_0000_0000_0000) by (nonlinear_arith)
            requires
                0 < d < 0x1_0000_0000,
        ;
    }
    let quotient = spread.checked_div(d).unwrap();
    let remainder = spread.checked_rem(d).unwrap();
    proof {
        if spread < 0 {
            assert(-(spread as int) * e == -(spread * e)) by (nonlinear_arith);
            assert(((-(spread as int)) % (d as int)) * e == -(remainder * e)) by (nonlinear_arith)
                requires
                    remainder == -((-(spread as int)) % (d as int)),
            ;
            assert(((-(spread as int)) / (d as int)) * e == -(quotient * e)) by (nonlinear_arith)
                requires
                    quotient == -((-(spread as int)) / (d as int)),
            ;
        }
    }
    let remainder_decay = remainder.checked_mul(e).unwrap().checked_div(d).unwrap();
    let decay = quotient.checked_mul(e).unwrap().checked_add(remainder_decay).unwrap();
    assert(decay == trunc_div(spread * e, d as int));
    let price = cfg.start_price.checked_sub(decay).unwrap();
    if price >= cfg.floor_price {
        Ok(price)
    } else {
        Ok(cfg.floor_price)
    }
}

/// Once the schedule is valid (`floor_price <= start_price`), the price never
/// rises as the ledger advances, and always lies between the floor and the
/// start price.
pub proof fn lemma_price_non_increasing(cfg: DutchConfig, l1: u32, l2: u32)
    requires
        cfg.floor_price <= cfg.start_price,
        l1 <= l2,
    ensures
        dutch_price(cfg, l2) <= dutch_price(cfg, l1),
        cfg.floor_price <= dutch_price(cfg, l1) <= cfg.start_price,
{
    let s = cfg.start_price - cfg.floor_price;
    let d = cfg.duration_ledgers as int;
    let e1 = elapsed_ledgers(cfg, l1);
    let e2 = elapsed_ledgers(cfg, l2);
    assert(e1 <= e2);
    if e1 < d {
        lemma_decay_bounds(s, d, e1);
        if e2 < d {
            assert(s * e1 <= s * e2) by (nonlinear_arith)
                requires
                    s >= 0,
                    e1 <= e2,
            ;
            lemma_div_is_ordered(s * e1, s * e2, d);
            lemma_decay_bounds(s, d, e2);
        }
    }
}

} // verus!
