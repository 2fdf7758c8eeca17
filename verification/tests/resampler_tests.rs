use cycle_orc::resample::{
    align_timestamp_sec, candle_update, checked_interval_to_seconds, interval_seconds_checked, interval_to_seconds,
    normalize_open_time, plan_resample, stable_order_by_key, CandleUpdate,
};

#[test]
fn test_interval_conversions() {
    assert_eq!(interval_to_seconds("1m"), 60);
    assert_eq!(interval_to_seconds("3m"), 180);
    assert_eq!(interval_to_seconds("5m"), 300);
    assert_eq!(interval_to_seconds("15m"), 900);
    assert_eq!(interval_to_seconds("30m"), 1800);
    assert_eq!(interval_to_seconds("1h"), 3600);
    assert_eq!(interval_to_seconds("4h"), 14400);
    assert_eq!(interval_to_seconds("1d"), 86400);
}

#[test]
fn test_timestamp_alignment() {
    // 10:07:30 UTC -> 10:00:00 for 15m bucket
    let timestamp = 1600000450;
    let aligned_15m = align_timestamp_sec(timestamp, 900);
    assert_eq!(aligned_15m % 900, 0);

    let aligned_1h = align_timestamp_sec(timestamp, 3600);
    assert_eq!(aligned_1h % 3600, 0);

    let aligned_4h = align_timestamp_sec(timestamp, 14400);
    assert_eq!(aligned_4h % 14400, 0);
}

#[test]
fn alignment_exact_buckets() {
    assert_eq!(align_timestamp_sec(1600000450, 900), 1600000200);
    assert_eq!(align_timestamp_sec(1600000450, 3600), 1599998400);
    assert_eq!(align_timestamp_sec(1600000450, 14400), 1599998400);
    assert_eq!(align_timestamp_sec(1600000450, 0), 1600000450);
    assert_eq!(align_timestamp_sec(1600000200, 900), 1600000200);
}

#[test]
fn interval_units_case_and_spaces() {
    assert_eq!(interval_to_seconds("1W"), 604800);
    assert_eq!(interval_to_seconds(" 2h "), 7200);
    assert_eq!(interval_to_seconds("45s"), 45);
    assert_eq!(interval_to_seconds("45"), 45);
    assert_eq!(interval_to_seconds("+2m"), 120);
}

#[test]
fn interval_fallbacks_for_unparsable_counts() {
    assert_eq!(interval_to_seconds("xm"), 900);
    assert_eq!(interval_to_seconds("h"), 3600);
    assert_eq!(interval_to_seconds("?d"), 86400);
    assert_eq!(interval_to_seconds("s"), 60);
    assert_eq!(interval_to_seconds("abc"), 900);
    assert_eq!(interval_to_seconds(""), 900);
}

#[test]
fn checked_interval_reports_overflow() {
    assert_eq!(checked_interval_to_seconds("15m"), Some(900));
    assert_eq!(checked_interval_to_seconds("30500568904943w"), Some(30500568904943 * 604800));
    assert_eq!(checked_interval_to_seconds("30500568904944w"), None);
    assert_eq!(checked_interval_to_seconds("18446744073709551615s"), Some(u64::MAX));
}

#[test]
fn open_times_in_milliseconds_are_normalized() {
    assert_eq!(normalize_open_time(1700000100000), 1700000100);
    assert_eq!(normalize_open_time(1700000100), 1700000100);
    assert_eq!(normalize_open_time(10_000_000_000), 10_000_000_000);
    assert_eq!(normalize_open_time(10_000_000_001), 10_000_000);
}

#[test]
fn stable_order_keeps_equal_keys_in_place() {
    let keys = vec![30u64, 10, 20, 10, 30];
    let order = stable_order_by_key(&keys);
    assert_eq!(order, vec![1, 3, 2, 0, 4]);
}

fn minute_bars(start: u64, count: u64) -> Vec<u64> {
    (0..count).map(|i| start + i * 60).collect()
}

#[test]
fn fifteen_one_minute_bars_make_one_quarter_hour_candle() {
    let start = 1700000100u64;
    assert_eq!(start % 900, 0);
    let plan = plan_resample(&minute_bars(start, 15), 900);
    assert_eq!(plan.order, (0..15).collect::<Vec<usize>>());
    assert_eq!(plan.candles.len(), 1);
    let c = plan.candles[0];
    assert_eq!(c.open_time, start);
    assert_eq!(c.close_time, start + 899);
    assert_eq!(c.first, 0);
    assert_eq!(c.count, 15);
    assert!(!c.is_closed);
}

#[test]
fn four_hours_of_minutes_make_four_hourly_candles_and_one_four_hour_candle() {
    let start = 1700006400u64;
    assert_eq!(start % 14400, 0);
    let bars = minute_bars(start, 240);
    let hourly = plan_resample(&bars, 3600);
    assert_eq!(hourly.candles.len(), 4);
    for (k, h) in hourly.candles.iter().enumerate() {
        assert_eq!(h.count, 60);
        assert_eq!(h.first, 60 * k);
        assert_eq!(h.open_time, start + 3600 * k as u64);
        assert_eq!(h.is_closed, k < 3);
    }
    let four = plan_resample(&bars, 14400);
    assert_eq!(four.candles.len(), 1);
    assert_eq!(four.candles[0].count, 240);
}

#[test]
fn unsorted_and_millisecond_bars_are_sorted_into_candles() {
    let bars = vec![1700000160000u64, 1700000100, 1700001000, 1700000220000];
    let plan = plan_resample(&bars, 900);
    assert_eq!(plan.order, vec![1, 0, 3, 2]);
    assert_eq!(plan.candles.len(), 2);
    assert_eq!(plan.candles[0].open_time, 1700000100);
    assert_eq!(plan.candles[0].count, 3);
    assert_eq!(plan.candles[1].open_time, 1700001000);
    assert_eq!(plan.candles[1].first, 3);
    assert_eq!(plan.candles[1].count, 1);
}

#[test]
fn no_bars_no_candles() {
    let plan = plan_resample(&Vec::new(), 900);
    assert!(plan.order.is_empty());
    assert!(plan.candles.is_empty());
}

#[test]
fn streaming_bars_keep_active_candle_counts() {
    let start = 1700000100u64;
    let mut active: Vec<Option<(u64, u64)>> = vec![None, None];
    let steps = [900u64, 3600];
    let mut history: Vec<Vec<u64>> = vec![Vec::new(), Vec::new()];
    for t in minute_bars(start, 35) {
        for k in 0..2 {
            let open = active[k].map(|(o, _)| o);
            match candle_update(open, t, steps[k]) {
                CandleUpdate::Start { open_time, close_time } => {
                    assert_eq!(close_time, open_time + steps[k] - 1);
                    active[k] = Some((open_time, 1));
                }
                CandleUpdate::Extend => {
                    let (o, c) = active[k].unwrap();
                    active[k] = Some((o, c + 1));
                }
                CandleUpdate::Roll { open_time, .. } => {
                    history[k].push(active[k].unwrap().1);
                    active[k] = Some((open_time, 1));
                }
                CandleUpdate::Skip => {}
            }
        }
    }
    assert_eq!(active[0].unwrap().1, 5);
    assert_eq!(history[0], vec![15, 15]);
    assert_eq!(active[1].unwrap().1, 35);
    assert!(history[1].is_empty());
}

#[test]
fn older_bars_are_skipped_and_later_ones_roll() {
    assert_eq!(candle_update(Some(1700000100), 1700000000, 900), CandleUpdate::Skip);
    assert_eq!(
        candle_update(Some(1700000100), 1700001000, 900),
        CandleUpdate::Roll { open_time: 1700001000, close_time: 1700001899 }
    );
    assert_eq!(candle_update(Some(1700000100), 1700000160000, 900), CandleUpdate::Extend);
    assert_eq!(
        candle_update(None, 1700000160, 900),
        CandleUpdate::Start { open_time: 1700000100, close_time: 1700000999 }
    );
}

#[test]
fn normalized_interval_seconds() {
    assert_eq!(interval_seconds_checked("15m"), Some(900));
    assert_eq!(interval_seconds_checked("4h"), Some(14_400));
    assert_eq!(interval_seconds_checked("1w"), Some(604_800));
    assert_eq!(interval_seconds_checked("xm"), Some(900));
    assert_eq!(interval_seconds_checked(""), Some(900));
    assert_eq!(interval_seconds_checked("18446744073709551615w"), None);
}

#[test]
fn normalizing_twice_changes_nothing() {
    for raw in [" 15M ", "\t4H\n", "1d", "  ", "30S", "2W "] {
        let once = raw.trim().to_lowercase();
        assert_eq!(interval_to_seconds(&once), interval_to_seconds(raw));
    }
    assert_eq!(interval_to_seconds(" 15M "), 900);
}
