use soroban_templates::common::apply_bps_fee;

#[test]
fn bps_fee_zero_bps() {
    assert_eq!(apply_bps_fee(1_000_000, 0), Some(0));
}

#[test]
fn bps_fee_full_bps() {
    assert_eq!(apply_bps_fee(1_000_000, 10_000), Some(1_000_000));
}

#[test]
fn bps_fee_half() {
    assert_eq!(apply_bps_fee(1_000_000, 5_000), Some(500_000));
}

#[test]
fn bps_fee_typical() {
    // 5 % fee
    assert_eq!(apply_bps_fee(1_000_000, 500), Some(50_000));
}

#[test]
fn bps_fee_truncation() {
    // 1 bp on 1 unit -> 0 (integer truncation)
    assert_eq!(apply_bps_fee(1, 1), Some(0));
}

#[test]
fn bps_fee_overflow() {
    assert_eq!(apply_bps_fee(i128::MAX, 10_000), None);
}

#[test]
fn bps_fee_large_amount() {
    // 1_000_000_000_000 * 250 / 10_000 = 25_000_000_000
    assert_eq!(apply_bps_fee(1_000_000_000_000, 250), Some(25_000_000_000));
}

#[test]
fn bps_fee_zero_amount() {
    assert_eq!(apply_bps_fee(0, 500), Some(0));
}

#[test]
fn bps_fee_negative_amount_truncates_toward_zero() {
    assert_eq!(apply_bps_fee(-15_001, 5_000), Some(-7_500));
    assert_eq!(apply_bps_fee(-1, 1), Some(0));
}

use soroban_templates::common::{check_and_record, entropy_index, validate_deadline, MIN_DEADLINE_BUFFER};

#[test]
fn deadline_needs_buffer() {
    assert_eq!(validate_deadline(100, 100 + MIN_DEADLINE_BUFFER), Ok(()));
    assert_eq!(validate_deadline(100, 109), Err(()));
    assert_eq!(validate_deadline(0, 10), Ok(()));
}

#[test]
fn entropy_index_reads_last_eight_bytes_big_endian() {
    let mut hash = [0xffu8; 32];
    hash[24..32].copy_from_slice(&1_000_003u64.to_be_bytes());
    assert_eq!(entropy_index(&hash, 10), 3);
    assert_eq!(entropy_index(&hash, 1_000_000), 3);
    assert_eq!(entropy_index(&hash, 1), 0);
    let hash = [0xffu8; 32];
    assert_eq!(entropy_index(&hash, 7), (u64::MAX % 7) as u32);
}

#[test]
fn rate_limit_allows_max_calls_per_window() {
    // First call opens a window at ledger 50.
    let e1 = check_and_record(None, 50, 10, 2).unwrap();
    assert_eq!(e1, (50, 1));
    let e2 = check_and_record(Some(e1), 55, 10, 2).unwrap();
    assert_eq!(e2, (50, 2));
    assert_eq!(check_and_record(Some(e2), 59, 10, 2), None);
    // Window expires at 50 + 10: a fresh window starts.
    assert_eq!(check_and_record(Some(e2), 60, 10, 2), Some((60, 1)));
    // A zero limit denies everything.
    assert_eq!(check_and_record(None, 1, 10, 0), None);
    // Window end saturates.
    assert_eq!(check_and_record(Some((u32::MAX - 1, 1)), u32::MAX - 1, 10, 5), Some((u32::MAX - 1, 2)));
    assert_eq!(check_and_record(Some((u32::MAX - 1, 1)), u32::MAX, 10, 5), Some((u32::MAX, 1)));
}
