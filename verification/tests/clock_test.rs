use cycle_orc::clock::{format_clock, format_minute, format_timestamp};

#[test]
fn formats_known_instants() {
    assert_eq!(format_timestamp(1700000000000), "2023-11-14 22:13 UTC");
    assert_eq!(format_timestamp(0), "1970-01-01 00:00 UTC");
    assert_eq!(format_timestamp(951782400000), "2000-02-29 00:00 UTC");
    assert_eq!(format_timestamp(4102444799999), "2099-12-31 23:59 UTC");
}

#[test]
fn sub_minute_parts_are_dropped() {
    assert_eq!(format_timestamp(59_999), "1970-01-01 00:00 UTC");
    assert_eq!(format_timestamp(60_000), "1970-01-01 00:01 UTC");
}

#[test]
fn clock_is_shifted_three_hours() {
    assert_eq!(format_clock(0, 123_456_789), "03.00.00.123.456.789");
    assert_eq!(format_clock(21 * 3600 + 59 * 60 + 7, 5), "00.59.07.000.000.005");
    assert_eq!(format_clock(1700000000, 0), "01.13.20.000.000.000");
}

#[test]
fn minute_text_has_no_zone_suffix() {
    assert_eq!(format_minute(1700000000000), "2023-11-14 22:13");
    assert_eq!(format_minute(951868799000), "2000-02-29 23:59");
    assert_eq!(format_minute(951868800000), "2000-03-01 00:00");
}

#[test]
fn seconds_do_not_show_in_the_timestamp() {
    for t in [0u64, 59_999, 1_700_000_123_456, 1_700_000_159_999, 4_102_444_799_999] {
        assert_eq!(format_timestamp(t), format_timestamp(t - t % 60_000));
        assert_eq!(format_minute(t), format_minute(t - t % 60_000));
    }
    assert_eq!(format_timestamp(1_700_000_159_999), "2023-11-14 22:15 UTC");
}

#[test]
fn timestamp_texts_follow_time() {
    let instants = [0u64, 59_999, 60_000, 3_599_999, 86_400_000, 951_782_400_000, 1_700_000_000_000, 4_102_444_800_000];
    for w in instants.windows(2) {
        assert!(format_timestamp(w[0]) <= format_timestamp(w[1]));
        assert!(format_minute(w[0]) <= format_minute(w[1]));
    }
}
