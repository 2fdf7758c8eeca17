use cycle_orc::trades::{given_time_or, second_candle_update, trade_timestamp_ms, SecondCandleUpdate, TradeIdTracker};

#[test]
fn repeated_trades_are_refused() {
    let mut t = TradeIdTracker::new();
    assert!(!t.is_duplicate("BTCUSDT", 5));
    assert!(t.accept_trade("BTCUSDT", 5));
    assert!(t.is_duplicate("BTCUSDT", 5));
    assert!(!t.accept_trade("BTCUSDT", 5));
    assert!(t.accept_trade("ETHUSDT", 5));
    assert!(t.accept_trade("BTCUSDT", 6));
    assert!(!t.is_duplicate("BTCUSDT", 5));
}

#[test]
fn trades_without_id_are_never_repeats() {
    let mut t = TradeIdTracker::new();
    assert!(t.accept_trade("BTCUSDT", 0));
    assert!(t.accept_trade("BTCUSDT", 0));
    t.record("BTCUSDT", -4);
    assert!(!t.is_duplicate("BTCUSDT", -4));
}

#[test]
fn trade_time_prefers_event_time() {
    assert_eq!(trade_timestamp_ms(10, 20, 30), 10);
    assert_eq!(trade_timestamp_ms(0, 20, 30), 20);
    assert_eq!(trade_timestamp_ms(0, 0, 30), 30);
}

#[test]
fn one_second_candles() {
    assert_eq!(second_candle_update(None, 1_500), SecondCandleUpdate::Start);
    assert_eq!(second_candle_update(Some(1), 1_999), SecondCandleUpdate::Extend);
    assert_eq!(second_candle_update(Some(1), 2_000), SecondCandleUpdate::Roll);
    assert_eq!(second_candle_update(Some(3), 2_999), SecondCandleUpdate::Skip);
}

#[test]
fn given_times_are_taken_even_when_zero() {
    assert_eq!(given_time_or(Some(0), Some(5), 9), 0);
    assert_eq!(given_time_or(None, Some(5), 9), 5);
    assert_eq!(given_time_or(None, None, 9), 9);
}
