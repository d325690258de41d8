use y4music::time::Duration;

#[test]
fn spans_agree_with_the_standard_library() {
    for (secs, nanos) in [(0, 0), (1, 500_000_000), (61, 1), (u64::MAX, 999_999_999)] {
        let ours = Duration::new(secs, nanos);
        let std = std::time::Duration::new(secs, nanos);
        assert_eq!(ours.as_secs(), std.as_secs());
        assert_eq!(ours.subsec_nanos(), std.subsec_nanos());
        assert_eq!(ours.as_nanos(), std.as_nanos());
    }
    assert_eq!(Duration::from_millis(1500), Duration::new(1, 500_000_000));
    assert_eq!(Duration::from_secs(3), Duration::new(3, 0));
}

#[test]
fn sums_and_differences_saturate() {
    let longest = Duration::new(u64::MAX, 999_999_999);
    assert_eq!(longest.saturating_add(Duration::from_secs(1)), longest);
    assert_eq!(
        Duration::from_secs(1).saturating_add(Duration::from_secs(2)),
        Duration::from_secs(3)
    );
    assert_eq!(Duration::from_secs(1).saturating_sub(Duration::from_secs(2)), Duration::zero());
    assert_eq!(
        Duration::from_secs(5).saturating_sub(Duration::from_secs(2)),
        Duration::from_secs(3)
    );
    assert_eq!(Duration::from_secs(5).plus(Duration::from_secs(2)), Duration::from_secs(7));
    assert_eq!(Duration::from_secs(5).min(Duration::from_secs(2)), Duration::from_secs(2));
    assert!(Duration::from_secs(1).shorter_than(Duration::from_secs(2)));
    assert!(!Duration::from_secs(2).shorter_than(Duration::from_secs(2)));
}
