use cycle_orc::analyzer::{analysis_stream_id, analysis_window_starts, report_routes, window_starts, UNKNOWN_LABEL};

#[test]
fn windows_take_the_newest_bars() {
    assert_eq!(analysis_window_starts(50), (0, 0, 0));
    assert_eq!(analysis_window_starts(100), (0, 0, 4));
    assert_eq!(analysis_window_starts(500), (400, 100, 404));
    assert_eq!(analysis_window_starts(0), (0, 0, 0));
}

#[test]
fn reports_go_to_outputs_of_the_same_asset() {
    let outs: Vec<String> = vec!["ms_btc_out".to_string(), "ms_eth_out".to_string(), "other".to_string()];
    assert_eq!(report_routes("ohlcv_btc", "Bilinmiyor", &outs), vec![true, false, false]);
    assert_eq!(report_routes("klines", "ETHUSDT", &outs), vec![false, true, false]);
    assert_eq!(report_routes("klines", "SOLUSDT", &outs), vec![false, false, false]);
}

#[test]
fn a_single_output_always_receives_the_report() {
    let outs = vec!["only".to_string()];
    assert_eq!(report_routes("klines", UNKNOWN_LABEL, &outs), vec![true]);
    assert!(report_routes("klines", "BTCUSDT", &Vec::new()).is_empty());
}

#[test]
fn stand_alone_windows_follow_the_bar_limit() {
    assert_eq!(window_starts(1000, 50, 200, 96), (950, 800, 904));
    assert_eq!(window_starts(30, 50, 200, 96), (0, 0, 0));
    assert_eq!(analysis_stream_id("MAGMAUSDT", "15m"), "magmausdt_15m");
}
