use cryptiom_auth::timestamp::{convert_to_monotonic, parse_epoch_seconds};

#[test]
fn parse_accepts_plain_numerals() {
    assert_eq!(parse_epoch_seconds("0"), Some(0));
    assert_eq!(parse_epoch_seconds("7"), Some(7));
    assert_eq!(parse_epoch_seconds("1700000000"), Some(1_700_000_000));
    assert_eq!(parse_epoch_seconds("18446744073709551615"), Some(u64::MAX));
}

#[test]
fn parse_rejects_empty_text() {
    assert_eq!(parse_epoch_seconds(""), None);
}

#[test]
fn parse_rejects_non_digits() {
    assert_eq!(parse_epoch_seconds("12a"), None);
    assert_eq!(parse_epoch_seconds("-5"), None);
    assert_eq!(parse_epoch_seconds(" 12"), None);
    assert_eq!(parse_epoch_seconds("1.5"), None);
}

#[test]
fn parse_rejects_overflow() {
    assert_eq!(parse_epoch_seconds("18446744073709551616"), None);
    assert_eq!(parse_epoch_seconds("99999999999999999999999"), None);
}

#[test]
fn convert_faithful_keeps_distance() {
    // An event 900 seconds old lands 900 ticks before the monotonic now.
    let (mono, ok) = convert_to_monotonic(Some(100), 1_000, 5_000);
    assert_eq!(mono, 4_100);
    assert!(ok);
}

#[test]
fn convert_future_timestamp_degrades_to_now() {
    let (mono, ok) = convert_to_monotonic(Some(2_000), 1_000, 5_000);
    assert_eq!(mono, 5_000);
    assert!(!ok);
}

#[test]
fn convert_before_monotonic_origin_degrades_to_now() {
    // The event is 9900 seconds old but the monotonic clock began 500 ago.
    let (mono, ok) = convert_to_monotonic(Some(100), 10_000, 500);
    assert_eq!(mono, 500);
    assert!(!ok);
}

#[test]
fn convert_unreadable_timestamp_degrades_to_now() {
    let (mono, ok) = convert_to_monotonic(None, 1_000, 5_000);
    assert_eq!(mono, 5_000);
    assert!(!ok);
}

#[test]
fn timestamp_round_trip_is_exact() {
    // For a record written at wall-clock time t, the reported monotonic
    // point sits exactly (now_wall - t) before the monotonic now.
    let t: u64 = 123;
    let now_wall: u64 = 10_000;
    let now_mono: u64 = 50_000;
    let (mono, ok) = convert_to_monotonic(Some(t), now_wall, now_mono);
    assert!(ok);
    assert_eq!(now_mono - mono, now_wall - t);
}
