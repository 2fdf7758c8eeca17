use cycle_orc::json::JsonTree;
use cycle_orc::settings::{AbsorptionSettings, HistoryLimit, IcebergSettings, SpoofSettings, WindowSetting};
use cycle_orc::start_params::{param_u64, start_params, window_param, WindowParam};

#[test]
fn start_params_prefer_plugin_params() {
    let p = start_params(br#"{"plugin_name":"x","plugin_params":{"window_ms":500}}"#).unwrap();
    assert_eq!(param_u64(&p, "window_ms"), Some(500));
    let whole = start_params(br#"{"window_ms":700}"#).unwrap();
    assert_eq!(param_u64(&whole, "window_ms"), Some(700));
    assert!(start_params(b"").is_none());
    assert!(start_params(b"nope").is_none());
}

#[test]
fn unsigned_parameters_only() {
    let p = start_params(br#"{"a":5,"b":-5,"c":1.5,"d":"7","e":18446744073709551615}"#).unwrap();
    assert_eq!(param_u64(&p, "a"), Some(5));
    assert_eq!(param_u64(&p, "b"), None);
    assert_eq!(param_u64(&p, "c"), None);
    assert_eq!(param_u64(&p, "d"), None);
    assert_eq!(param_u64(&p, "e"), Some(u64::MAX));
    assert_eq!(param_u64(&p, "missing"), None);
}

#[test]
fn window_parameters_in_ms_or_seconds() {
    let tree = |b: &[u8]| -> JsonTree { start_params(b).unwrap() };
    assert_eq!(window_param(&tree(br#"{"window_ms":250,"window_secs":9}"#), false), WindowParam::Millis(250));
    assert_eq!(window_param(&tree(br#"{"window_secs":9}"#), false), WindowParam::Millis(9000));
    assert_eq!(window_param(&tree(br#"{"interval_ms":300}"#), true), WindowParam::Millis(300));
    assert_eq!(window_param(&tree(br#"{"interval_ms":300}"#), false), WindowParam::Unset);
    assert_eq!(window_param(&tree(br#"{"interval_secs":2}"#), true), WindowParam::Millis(2000));
    assert_eq!(window_param(&tree(br#"{"window_ms":"x","interval_ms":300}"#), true), WindowParam::Unset);
    assert_eq!(window_param(&tree(br#"{"window_secs":18446744073709551615}"#), false), WindowParam::TooLarge);
}

#[test]
fn settings_follow_start_payloads() {
    let mut w = WindowSetting::aggtrade_stats();
    assert!(w.configure_from_start(br#"{"plugin_params":{"window_secs":5}}"#, true));
    assert_eq!(w.window_ms, 5000);
    assert!(w.configure_from_start(br#"{"plugin_params":{"window_ms":50}}"#, true));
    assert_eq!(w.window_ms, 5000);
    assert!(!w.configure_from_start(br#"{"window_secs":18446744073709551615}"#, true));
    assert_eq!(w.window_ms, 5000);

    let mut h = HistoryLimit::new();
    h.configure_from_start(br#"{"plugin_params":{"history_limit":120}}"#);
    assert_eq!(h.limit, 120);
    h.configure_from_start(br#"{"plugin_params":{"history_limit":0}}"#);
    assert_eq!(h.limit, 120);

    let mut s = SpoofSettings::new();
    s.configure_from_start(br#"{"plugin_params":{"min_wall_usdt":1000,"max_lifespan_ms":100,"min_cancel_ratio_pct":90}}"#);
    assert_eq!((s.min_wall_usdt, s.max_lifespan_ms, s.min_cancel_ratio_pct), (1000, 15000, 90));

    let mut i = IcebergSettings::new();
    i.configure_from_start(br#"{"min_iceberg_usdt":1,"min_exec_ratio_x10":5,"min_refill_count":0,"window_ms":6000}"#);
    assert_eq!((i.min_iceberg_usdt, i.min_exec_ratio_x10, i.min_refill_count, i.window_ms), (1, 25, 0, 6000));

    let mut a = AbsorptionSettings::new();
    a.configure_from_start(br#"{"plugin_params":{"max_price_move_x1000":7,"window_ms":10}}"#);
    assert_eq!((a.max_price_move_x1000, a.window_ms), (7, 60000));
    a.configure_from_start(b"");
    assert_eq!(a.max_price_move_x1000, 7);
}
