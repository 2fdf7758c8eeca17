use cycle_orc::plugin_abi::{
    classify_order_flow_stream, copy_to_buffer, header_text, is_aggtrade_stream, is_bookticker_stream,
    is_price_impact_stream, is_trades_stream, is_working_reply, stream_id_of, symbol_for_stream, text_contains,
    OrderFlowStream, STREAM_HEADER_LEN,
};

fn headed(id: &str, body: &[u8]) -> Vec<u8> {
    let mut v = vec![0u8; STREAM_HEADER_LEN];
    v[..id.len()].copy_from_slice(id.as_bytes());
    v.extend_from_slice(body);
    v
}

#[test]
fn copy_truncates_to_the_buffer() {
    let mut out = [9u8; 4];
    assert_eq!(copy_to_buffer(b"abcdef", &mut out), 4);
    assert_eq!(&out, b"abcd");
    let mut out = [9u8; 4];
    assert_eq!(copy_to_buffer(b"ab", &mut out), 2);
    assert_eq!(out, [b'a', b'b', 9, 9]);
    let mut empty: [u8; 0] = [];
    assert_eq!(copy_to_buffer(b"ab", &mut empty), 0);
}

#[test]
fn header_names_the_stream() {
    let p = headed("stream_aggtrades", b"{}");
    assert_eq!(header_text(&p), "stream_aggtrades");
    assert_eq!(stream_id_of(&p), "stream_aggtrades");
    let p = headed(" ohlcv ", b"[]");
    assert_eq!(header_text(&p), " ohlcv ");
    assert_eq!(stream_id_of(&p), "ohlcv");
}

#[test]
fn invalid_utf8_header_reads_as_empty() {
    let mut p = vec![0xffu8; STREAM_HEADER_LEN];
    p.extend_from_slice(b"{}");
    assert_eq!(header_text(&p), "");
}

#[test]
fn stream_classification() {
    assert!(is_aggtrade_stream("stream_aggtrades"));
    assert!(is_aggtrade_stream("btc_trade_feed"));
    assert!(!is_aggtrade_stream("stream_depth"));
    assert!(is_trades_stream("my_trades"));
    assert!(!is_trades_stream("trade"));
    assert_eq!(classify_order_flow_stream("stream_aggtrades"), Some(OrderFlowStream::Trades));
    assert_eq!(classify_order_flow_stream("stream_depth"), Some(OrderFlowStream::Depth));
    assert_eq!(classify_order_flow_stream("stream_markprice"), None);
    assert!(is_price_impact_stream("binance_gateway"));
    assert!(!is_price_impact_stream("stream_depth"));
    assert!(is_bookticker_stream("stream_bestprice"));
    assert!(is_bookticker_stream("x_bookticker"));
    assert!(!is_bookticker_stream("stream_trades"));
}

#[test]
fn containment() {
    assert!(text_contains("abc", ""));
    assert!(text_contains("abc", "bc"));
    assert!(!text_contains("ab", "abc"));
    assert!(!text_contains("", "a"));
}

#[test]
fn default_symbols_by_stream() {
    assert_eq!(symbol_for_stream("ohlcv_btc_1h"), "BTCUSDT");
    assert_eq!(symbol_for_stream("eth_klines"), "ETHUSDT");
    assert_eq!(symbol_for_stream("tac_1h"), "TACUSDT");
    assert_eq!(symbol_for_stream("klines"), "BTCUSDT");
}

#[test]
fn is_working_answers() {
    let mut out = [7u8; 2];
    assert_eq!(is_working_reply(true, &mut out), 1);
    assert_eq!(out, [1, 7]);
    assert_eq!(is_working_reply(false, &mut out), 1);
    assert_eq!(out, [0, 7]);
    let mut none: [u8; 0] = [];
    assert_eq!(is_working_reply(true, &mut none), 1);
    assert_eq!(is_working_reply(false, &mut none), 0);
}
