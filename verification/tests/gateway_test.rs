use cycle_orc::gateway::{
    classify_gateway_event, default_gateway_symbols, depth_symbol, gateway_stream_urls, plugin_action, running_after,
    text_ends_with, GatewayEvent, PluginAction, LIQUIDATION_HISTORY_LIMIT,
};
use cycle_orc::history::push_capped_vec;

#[test]
fn endpoint_actions() {
    assert_eq!(plugin_action(0, false), PluginAction::StartStream);
    assert_eq!(plugin_action(0, true), PluginAction::AlreadyRunning);
    assert_eq!(plugin_action(1, true), PluginAction::StopStream);
    assert_eq!(plugin_action(2, false), PluginAction::ReportRunning);
    assert_eq!(plugin_action(4, false), PluginAction::CopyData);
    assert_eq!(plugin_action(5, true), PluginAction::CopyData);
    assert_eq!(plugin_action(3, true), PluginAction::Ignore);
    assert_eq!(plugin_action(6, true), PluginAction::Ignore);
}

#[test]
fn stream_urls_for_default_symbols() {
    let (public, market) = gateway_stream_urls(&default_gateway_symbols());
    assert_eq!(
        public,
        "wss://fstream.binance.com/public/stream?streams=btcusdt@bookTicker/btcusdt@depth20@100ms/btcusdt@trade/ethusdt@bookTicker/ethusdt@depth20@100ms/ethusdt@trade/aceusdt@bookTicker/aceusdt@depth20@100ms/aceusdt@trade"
    );
    assert_eq!(
        market,
        "wss://fstream.binance.com/market/stream?streams=btcusdt@markPrice@1s/ethusdt@markPrice@1s/aceusdt@markPrice@1s/!forceOrder@arr"
    );
}

#[test]
fn stream_urls_without_symbols() {
    let (public, market) = gateway_stream_urls(&Vec::new());
    assert_eq!(public, "wss://fstream.binance.com/public/stream?streams=");
    assert_eq!(market, "wss://fstream.binance.com/market/stream?streams=!forceOrder@arr");
}

#[test]
fn events_are_filed_by_type_then_stream() {
    assert_eq!(classify_gateway_event("forceOrder", "x"), GatewayEvent::Liquidation);
    assert_eq!(classify_gateway_event("markPriceUpdate", "btcusdt@markPrice@1s"), GatewayEvent::MarkPrice);
    assert_eq!(classify_gateway_event("", "BTCUSDT@BookTicker"), GatewayEvent::BestPrice);
    assert_eq!(classify_gateway_event("bookTicker", ""), GatewayEvent::BestPrice);
    assert_eq!(classify_gateway_event("aggTrade", ""), GatewayEvent::Trade);
    assert_eq!(classify_gateway_event("", "ethusdt@trade"), GatewayEvent::Trade);
    assert_eq!(classify_gateway_event("depthUpdate", "ethusdt@depth20@100ms"), GatewayEvent::Depth);
    assert_eq!(classify_gateway_event("kline", "ethusdt@kline_1m"), GatewayEvent::Other);
}

#[test]
fn depth_symbol_is_the_upper_cased_prefix() {
    assert_eq!(depth_symbol("ethusdt@depth20@100ms"), "ETHUSDT");
    assert_eq!(depth_symbol("nosep"), "NOSEP");
    assert_eq!(depth_symbol("@x"), "");
}

#[test]
fn suffix_test() {
    assert!(text_ends_with("abc", "bc"));
    assert!(text_ends_with("abc", ""));
    assert!(!text_ends_with("bc", "abc"));
}

#[test]
fn liquidation_history_keeps_the_newest_fifty() {
    let mut h: Vec<u32> = Vec::new();
    for i in 0..60u32 {
        push_capped_vec(&mut h, i, LIQUIDATION_HISTORY_LIMIT);
    }
    assert_eq!(h.len(), 50);
    assert_eq!(h[0], 10);
    assert_eq!(h[49], 59);
}

#[test]
fn running_flag_follows_start_and_stop() {
    assert!(running_after(0, false));
    assert!(running_after(0, true));
    assert!(!running_after(1, true));
    assert!(!running_after(1, false));
    assert!(running_after(2, true));
    assert!(!running_after(2, false));
    assert!(running_after(4, true));
}
