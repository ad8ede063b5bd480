use harvester_core::Millis;

#[test]
fn since_saturates_instead_of_underflowing() {
    assert_eq!(Millis(5).since(Millis(9)), Millis(0));
    assert_eq!(Millis(90_000).since(Millis(30_000)), Millis(60_000));
}

#[test]
fn seconds_round_trip() {
    assert_eq!(Millis::from_secs(90), Millis(90_000));
    assert_eq!(Millis(90_999).as_secs(), 90);
    assert_eq!(Millis::from_secs(u64::MAX).0, u64::MAX); // saturates, no panic
}

#[test]
fn saturating_add_clamps_at_the_top() {
    assert_eq!(Millis(u64::MAX - 1).saturating_add(Millis(5)), Millis(u64::MAX));
    assert_eq!(Millis(1_000).saturating_add(Millis(500)), Millis(1_500));
}
