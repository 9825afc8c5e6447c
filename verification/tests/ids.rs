use spiceai::ids::nanos_since_epoch;

#[test]
fn clock_reading_before_epoch_is_zero() {
    assert_eq!(nanos_since_epoch(None), 0);
}

#[test]
fn clock_reading_in_range_is_kept() {
    assert_eq!(nanos_since_epoch(Some(1_700_000_000_000_000_000)), 1_700_000_000_000_000_000u64);
}

#[test]
fn clock_reading_past_u64_saturates() {
    assert_eq!(nanos_since_epoch(Some(u64::MAX as u128 + 5)), u64::MAX);
    assert_eq!(nanos_since_epoch(Some(u64::MAX as u128)), u64::MAX);
}
