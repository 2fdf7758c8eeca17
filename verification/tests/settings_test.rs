use cycle_orc::settings::{AbsorptionSettings, HistoryLimit, IcebergSettings, SpoofSettings, WindowSetting};

#[test]
fn absorption_defaults_and_configuration() {
    let mut s = AbsorptionSettings::new();
    assert_eq!(
        s,
        AbsorptionSettings { min_absorption_usdt: 50000, min_wall_usdt: 40000, max_price_move_x1000: 50, window_ms: 60000 }
    );
    s.configure(Some(0), Some(1000), Some(0), Some(4999));
    assert_eq!(s.min_absorption_usdt, 50000);
    assert_eq!(s.min_wall_usdt, 1000);
    assert_eq!(s.max_price_move_x1000, 0);
    assert_eq!(s.window_ms, 60000);
    s.configure(Some(7), None, None, Some(5000));
    assert_eq!(s.min_absorption_usdt, 7);
    assert_eq!(s.min_wall_usdt, 1000);
    assert_eq!(s.window_ms, 5000);
}

#[test]
fn iceberg_defaults_and_configuration() {
    let mut s = IcebergSettings::new();
    assert_eq!(s, IcebergSettings { min_iceberg_usdt: 30000, min_exec_ratio_x10: 25, min_refill_count: 2, window_ms: 60000 });
    s.configure(Some(0), Some(9), Some(0), Some(100));
    assert_eq!(s, IcebergSettings { min_iceberg_usdt: 30000, min_exec_ratio_x10: 25, min_refill_count: 0, window_ms: 60000 });
    s.configure(Some(5), Some(10), None, Some(9000));
    assert_eq!(s, IcebergSettings { min_iceberg_usdt: 5, min_exec_ratio_x10: 10, min_refill_count: 0, window_ms: 9000 });
}

#[test]
fn spoofing_defaults_and_configuration() {
    let mut s = SpoofSettings::new();
    assert_eq!(s, SpoofSettings { min_wall_usdt: 50000, max_lifespan_ms: 15000, min_cancel_ratio_pct: 70 });
    s.configure(Some(0), Some(499), Some(101));
    assert_eq!(s, SpoofSettings { min_wall_usdt: 50000, max_lifespan_ms: 15000, min_cancel_ratio_pct: 70 });
    s.configure(Some(1), Some(500), Some(100));
    assert_eq!(s, SpoofSettings { min_wall_usdt: 1, max_lifespan_ms: 500, min_cancel_ratio_pct: 100 });
}

#[test]
fn windows_respect_their_floor() {
    let mut w = WindowSetting::aggtrade_stats();
    assert_eq!(w.window_ms, 1000);
    w.set_window_ms(50);
    assert_eq!(w.window_ms, 1000);
    w.set_window_ms(100);
    assert_eq!(w.window_ms, 100);
    assert_eq!(w.effective_ms(), 100);
    assert_eq!(w.window_start(1000), 900);
    assert_eq!(w.window_start(40), 0);
    assert_eq!(WindowSetting::amihud(), WindowSetting { window_ms: 60000, floor_ms: 1000 });
    assert_eq!(WindowSetting::bookticker(), WindowSetting { window_ms: 30000, floor_ms: 1000 });
    let raw = WindowSetting::new(10, 1000);
    assert_eq!(raw.effective_ms(), 1000);
}

#[test]
fn history_limit_ignores_zero() {
    let mut h = HistoryLimit::new();
    assert_eq!(h.limit, 60);
    h.set_history_limit(0);
    assert_eq!(h.limit, 60);
    h.set_history_limit(5);
    assert_eq!(h.limit, 5);
}

#[test]
fn spoof_lifespans() {
    let s = SpoofSettings::new();
    assert_eq!(s.spoof_lifespan(1000, 1099), None);
    assert_eq!(s.spoof_lifespan(1000, 1100), Some(100));
    assert_eq!(s.spoof_lifespan(1000, 16000), Some(15000));
    assert_eq!(s.spoof_lifespan(1000, 16001), None);
    assert_eq!(s.spoof_lifespan(2000, 1000), None);
}
