use material_deploy::clock::{Instant, CALENDAR_LIMIT_SECS};

#[test]
fn before_orders_by_seconds_then_nanoseconds() {
    let a = Instant { secs: 5, nanos: 10 };
    let b = Instant { secs: 5, nanos: 11 };
    let c = Instant { secs: 6, nanos: 0 };
    assert!(a.is_before(&b));
    assert!(b.is_before(&c));
    assert!(a.is_before(&c));
    assert!(!b.is_before(&a));
    assert!(!a.is_before(&a));
    assert!(Instant { secs: -1, nanos: 999 }.is_before(&Instant::from_secs(0)));
}

#[test]
fn plus_seconds_keeps_the_nanoseconds() {
    let t = Instant { secs: 100, nanos: 7 };
    assert_eq!(t.plus_seconds(3600), Instant { secs: 3700, nanos: 7 });
    assert_eq!(t.plus_seconds(0), t);
    assert_eq!(t.checked_plus_seconds(86_400), Some(Instant { secs: 86_500, nanos: 7 }));
}

#[test]
fn checked_plus_seconds_refuses_what_does_not_fit() {
    let late = Instant { secs: i64::MAX - 10, nanos: 0 };
    assert_eq!(late.checked_plus_seconds(10), Some(Instant { secs: i64::MAX, nanos: 0 }));
    assert_eq!(late.checked_plus_seconds(11), None);
    assert_eq!(Instant::from_secs(i64::MIN).checked_plus_seconds(u32::MAX), Some(Instant::from_secs(i64::MIN + u32::MAX as i64)));
}

#[test]
fn rfc3339_of_known_instants() {
    assert_eq!(Instant::from_secs(0).to_rfc3339(), Some("1970-01-01T00:00:00+00:00".to_string()));
    assert_eq!(Instant::from_secs(1_431_648_000).to_rfc3339(), Some("2015-05-15T00:00:00+00:00".to_string()));
    assert_eq!(
        Instant { secs: 1_700_000_000, nanos: 123_000_000 }.to_rfc3339(),
        Some("2023-11-14T22:13:20.123+00:00".to_string())
    );
    assert_eq!(
        Instant { secs: -1, nanos: 1 }.to_rfc3339(),
        Some("1969-12-31T23:59:59.000000001+00:00".to_string())
    );
}

#[test]
fn rfc3339_of_instants_outside_the_calendar() {
    assert_eq!(Instant::from_secs(i64::MAX).to_rfc3339(), None);
    assert_eq!(Instant { secs: 0, nanos: 2_000_000_000 }.to_rfc3339(), None);
}

#[test]
fn now_is_after_the_year_2020() {
    let now = Instant::now();
    assert!(Instant::from_secs(1_577_836_800).is_before(&now));
    assert!(now.nanos < 2_000_000_000);
}

#[test]
fn a_clock_reading_leaves_room_for_any_time_to_live() {
    let now = Instant::now();
    assert_eq!(CALENDAR_LIMIT_SECS, 1i64 << 48);
    assert!(-CALENDAR_LIMIT_SECS < now.secs && now.secs < CALENDAR_LIMIT_SECS);
    assert_eq!(
        now.checked_plus_seconds(u32::MAX),
        Some(Instant { secs: now.secs + u32::MAX as i64, nanos: now.nanos })
    );
}
