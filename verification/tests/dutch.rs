use soroban_templates::dutch::{price_at, DutchConfig};
use soroban_templates::errors::AuctionError;

fn schedule() -> DutchConfig {
    DutchConfig { start_price: 1_000, floor_price: 100, start_ledger: 10, duration_ledgers: 90 }
}

#[test]
fn price_starts_at_start_price() {
    assert_eq!(price_at(&schedule(), 0), Ok(1_000));
    assert_eq!(price_at(&schedule(), 10), Ok(1_000));
}

#[test]
fn price_falls_linearly() {
    // 1000 - 900 * 45 / 90 = 550
    assert_eq!(price_at(&schedule(), 55), Ok(550));
    // 1000 - 900 * 1 / 90 = 990
    assert_eq!(price_at(&schedule(), 11), Ok(990));
}

#[test]
fn price_rounds_decay_down() {
    let cfg = DutchConfig { start_price: 100, floor_price: 0, start_ledger: 0, duration_ledgers: 3 };
    // 100 - floor(100 * 1 / 3) = 67, 100 - floor(200 / 3) = 34
    assert_eq!(price_at(&cfg, 1), Ok(67));
    assert_eq!(price_at(&cfg, 2), Ok(34));
    assert_eq!(price_at(&cfg, 3), Ok(0));
}

#[test]
fn price_clamped_to_floor_after_duration() {
    assert_eq!(price_at(&schedule(), 100), Ok(100));
    assert_eq!(price_at(&schedule(), u32::MAX), Ok(100));
}

#[test]
fn price_near_i128_max_does_not_overflow() {
    let cfg = DutchConfig { start_price: i128::MAX, floor_price: 0, start_ledger: 0, duration_ledgers: 4 };
    assert_eq!(price_at(&cfg, 2), Ok(i128::MAX - i128::MAX / 2));
}

#[test]
fn price_overflow_reported() {
    let cfg = DutchConfig { start_price: i128::MAX, floor_price: -1, start_ledger: 0, duration_ledgers: 4 };
    assert_eq!(price_at(&cfg, 1), Err(AuctionError::Overflow));
    assert_eq!(price_at(&cfg, 4), Ok(-1));
}

#[test]
fn price_never_rises() {
    let cfg = DutchConfig { start_price: 12_345, floor_price: 17, start_ledger: 5, duration_ledgers: 37 };
    let mut last = price_at(&cfg, 0).unwrap();
    for l in 1..60 {
        let p = price_at(&cfg, l).unwrap();
        assert!(p <= last && p >= 17 && p <= 12_345);
        last = p;
    }
}
