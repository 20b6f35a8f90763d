use nexo_poller_google_calendar::clock::{now_rfc3339, rfc3339_from_unix};

#[test]
fn rfc3339_from_unix_formats_utc() {
    assert_eq!(rfc3339_from_unix(0, 0).as_deref(), Some("1970-01-01T00:00:00+00:00"));
    assert_eq!(rfc3339_from_unix(1_779_012_000, 0).as_deref(), Some("2026-05-17T10:00:00+00:00"));
    assert_eq!(
        rfc3339_from_unix(253_402_300_799, 0).as_deref(),
        Some("9999-12-31T23:59:59+00:00")
    );
}

#[test]
fn rfc3339_from_unix_fraction_digits() {
    assert_eq!(rfc3339_from_unix(0, 5_000_000).as_deref(), Some("1970-01-01T00:00:00.005+00:00"));
    assert_eq!(rfc3339_from_unix(0, 1_000).as_deref(), Some("1970-01-01T00:00:00.000001+00:00"));
    assert_eq!(rfc3339_from_unix(0, 1).as_deref(), Some("1970-01-01T00:00:00.000000001+00:00"));
}

#[test]
fn rfc3339_from_unix_out_of_range() {
    assert_eq!(
        rfc3339_from_unix(253_402_300_800, 0).as_deref(),
        Some("+10000-01-01T00:00:00+00:00")
    );
    assert_eq!(rfc3339_from_unix(9_223_372_036_854_775_807, 0), None);
    assert_eq!(rfc3339_from_unix(u64::MAX, 0), None);
}

#[test]
fn now_rfc3339_reads_the_clock() {
    let now = now_rfc3339().expect("clock readable");
    assert!(now.ends_with("+00:00"));
    assert!(now.as_str() > "2024-01-01T00:00:00+00:00");
    assert!(now.as_str() < "9999");
}
