use libdogd::{LogPriority, Timestamp};

#[test]
fn timestamp_keeps_seconds_and_nanoseconds() {
    let t = Timestamp::new(12, 345).unwrap();
    assert_eq!(t.as_secs(), 12);
    assert_eq!(t.subsec_nanos(), 345);
}

#[test]
fn timestamp_carries_whole_seconds() {
    let t = Timestamp::new(1, 2_500_000_000).unwrap();
    assert_eq!(t.as_secs(), 3);
    assert_eq!(t.subsec_nanos(), 500_000_000);
    let u = Timestamp::new(0, 1_000_000_000).unwrap();
    assert_eq!((u.as_secs(), u.subsec_nanos()), (1, 0));
    let v = Timestamp::new(0, 999_999_999).unwrap();
    assert_eq!((v.as_secs(), v.subsec_nanos()), (0, 999_999_999));
}

#[test]
fn timestamp_agrees_with_duration() {
    for (secs, nanos) in [(0u64, 0u32), (5, 999_999_999), (7, 1_000_000_001), (9, u32::MAX)] {
        let d = std::time::Duration::new(secs, nanos);
        let t = Timestamp::new(secs, nanos).unwrap();
        assert_eq!((t.as_secs(), t.subsec_nanos()), (d.as_secs(), d.subsec_nanos()));
    }
}

#[test]
fn timestamp_overflow_is_no_timestamp() {
    assert_eq!(Timestamp::new(u64::MAX, 1_000_000_000), None);
    assert_eq!(Timestamp::new(u64::MAX - 3, u32::MAX), None);
    assert!(Timestamp::new(u64::MAX, 999_999_999).is_some());
    assert!(Timestamp::new(u64::MAX - 4, u32::MAX).is_some());
}

#[test]
fn the_epoch() {
    assert_eq!(Timestamp::zero(), Timestamp::new(0, 0).unwrap());
}

#[test]
fn priority_names() {
    assert_eq!(LogPriority::Critical.name(), "Critical");
    assert_eq!(LogPriority::Error.name(), "Error");
    assert_eq!(LogPriority::Info.name(), "Info");
    assert_eq!(LogPriority::Debug.name(), "Debug");
}

#[test]
fn priorities_by_name() {
    for p in [LogPriority::Critical, LogPriority::Error, LogPriority::Info, LogPriority::Debug] {
        assert_eq!(LogPriority::from_name(p.name()), Some(p));
    }
    for unknown in ["", "info", "INFO", "Warning", "Info ", "Critica", "Debugg"] {
        assert_eq!(LogPriority::from_name(unknown), None, "{:?}", unknown);
    }
}
