use cycle_orc::config::plugin_start_payload;
use cycle_orc::export::{export_json, memory_text, MemoryText};
use cycle_orc::gateway::gateway_symbols;
use cycle_orc::gateway_feed::{file_gateway_message, gateway_message_fileable, try_file_gateway_message};
use cycle_orc::json::{get_member, int_tree, JsonTree};
use cycle_orc::paper::{read_paper_inbox, PaperInbox};
use serde_json::Value;

fn text(x: &str) -> JsonTree {
    JsonTree::Text(x.to_string())
}

#[test]
fn parses_and_writes_documents() {
    let doc = match read_paper_inbox(br#"{"a":1,"b":[true,null,"x"]}"#) {
        PaperInbox::Manual(doc) => doc,
        other => panic!("expected a document, got {:?}", other),
    };
    assert_eq!(
        doc,
        JsonTree::Object(vec![
            ("a".to_string(), JsonTree::Number("1".to_string())),
            ("b".to_string(), JsonTree::Array(vec![JsonTree::Bool(true), JsonTree::Null, text("x")])),
        ])
    );
    assert_eq!(get_member(&doc, "b").map(|b| matches!(b, JsonTree::Array(_))), Some(true));
    assert!(get_member(&doc, "c").is_none());
    assert_eq!(
        plugin_start_payload(r#"[{"plugin_name":"p","b":[true,null,"x"],"a":1.5}]"#, "p"),
        br#"{"a":1.5,"b":[true,null,"x"],"plugin_name":"p"}"#.to_vec()
    );
}

#[test]
fn integers_are_written_in_decimal() {
    assert_eq!(int_tree(-42), JsonTree::Number("-42".to_string()));
    assert_eq!(int_tree(0), JsonTree::Number("0".to_string()));
    assert_eq!(int_tree(i64::MIN), JsonTree::Number("-9223372036854775808".to_string()));
    assert_eq!(int_tree(i64::MAX), JsonTree::Number("9223372036854775807".to_string()));
}

#[test]
fn start_payload_is_the_named_entry() {
    let config = r#"[{"plugin_name":"plugin_a","x":1},{"plugin_name":"binance_gateway","plugin_params":{"symbols":["BTCUSDT"]}}]"#;
    assert_eq!(
        plugin_start_payload(config, "binance_gateway"),
        br#"{"plugin_name":"binance_gateway","plugin_params":{"symbols":["BTCUSDT"]}}"#.to_vec()
    );
    assert_eq!(plugin_start_payload(config, "plugin_a"), br#"{"plugin_name":"plugin_a","x":1}"#.to_vec());
    assert!(plugin_start_payload(config, "missing").is_empty());
    assert!(plugin_start_payload(r#"{"plugin_name":"plugin_a"}"#, "plugin_a").is_empty());
    assert!(plugin_start_payload("not json", "plugin_a").is_empty());
}

#[test]
fn gateway_reads_configured_symbols() {
    let payload = br#"{"plugin_name":"binance_gateway","plugin_params":{"symbols":["SOLUSDT",5,"XRPUSDT"]}}"#;
    assert_eq!(gateway_symbols(payload), vec!["SOLUSDT".to_string(), "XRPUSDT".to_string()]);
    let defaults = vec!["BTCUSDT".to_string(), "ETHUSDT".to_string(), "ACEUSDT".to_string()];
    assert_eq!(gateway_symbols(b""), defaults);
    assert_eq!(gateway_symbols(b"garbage"), defaults);
    assert_eq!(gateway_symbols(br#"{"plugin_params":{}}"#), defaults);
    assert_eq!(gateway_symbols(br#"{"plugin_params":{"symbols":[]}}"#), Vec::<String>::new());
}

fn snapshot_value(bytes: &[u8]) -> Value {
    serde_json::from_slice(bytes).expect("the snapshot is JSON")
}

#[test]
fn gateway_files_mark_price_updates() {
    let msg = r#"{"stream":"btcusdt@markPrice","data":{"e":"markPriceUpdate","s":"BTCUSDT","p":"100.5","i":"100.4","P":"100.3","r":"0.0001","T":1700000000000,"E":123}}"#;
    let out = file_gateway_message(b"", msg, 999);
    let v = snapshot_value(&out);
    let entry = &v["stream_markprice"]["BTCUSDT"];
    assert_eq!(entry["mark_price"], "100.5");
    assert_eq!(entry["index_price"], "100.4");
    assert_eq!(entry["estimated_settle_price"], "100.3");
    assert_eq!(entry["funding_rate"], "0.0001");
    assert_eq!(entry["next_funding_time"], 1700000000000i64);
    assert_eq!(entry["event_time"], 123);
    assert_eq!(entry["local_recv_time_ms"], 999);
    assert!(v["stream_bestprice"].is_object());
    assert!(v["stream_liquidations"].is_array());
    assert!(v["stream_aggtrades"].is_object());
    assert!(v["stream_depth"].is_object());
    assert_eq!(out, serde_json::to_vec_pretty(&v).unwrap());
}

#[test]
fn gateway_files_trades_book_tickers_and_depth() {
    let trade = r#"{"stream":"ethusdt@aggTrade","data":{"e":"aggTrade","s":"ETHUSDT","t":77,"p":"2000","q":"0.5","m":true,"E":5}}"#;
    let snap = file_gateway_message(b"{}", trade, 1);
    let ticker = r#"{"stream":"ethusdt@bookTicker","data":{"s":"ETHUSDT","b":"1999","B":"2","a":"2001","A":"3","E":6}}"#;
    let snap = file_gateway_message(&snap, ticker, 2);
    let depth = r#"{"stream":"ethusdt@depth20@100ms","data":{"lastUpdateId":9,"E":7,"b":[["1999","1"]],"a":[["2001","1"]]}}"#;
    let snap = file_gateway_message(&snap, depth, 3);
    let v = snapshot_value(&snap);
    let t = &v["stream_aggtrades"]["ETHUSDT"];
    assert_eq!(t["trade_id"], 77);
    assert_eq!(t["buyer_is_maker"], true);
    assert_eq!(t["quantity"], "0.5");
    let b = &v["stream_bestprice"]["ETHUSDT"];
    assert_eq!(b["best_ask"], "2001");
    assert_eq!(b["best_bid_qty"], "2");
    let d = &v["stream_depth"]["ETHUSDT"];
    assert_eq!(d["last_update_id"], 9);
    assert_eq!(d["bids"][0][0], "1999");
    assert_eq!(d["local_recv_time_ms"], 3);
}

#[test]
fn gateway_keeps_the_newest_fifty_liquidations() {
    let mut snap: Vec<u8> = Vec::new();
    for i in 0..51 {
        let msg = format!(
            r#"{{"stream":"!forceOrder@arr","data":{{"e":"forceOrder","E":{},"o":{{"s":"BTCUSDT","S":"SELL","o":"LIMIT","p":"1","ap":"1","q":"2","z":"2"}}}}}}"#,
            i
        );
        snap = file_gateway_message(&snap, &msg, 10);
    }
    let v = snapshot_value(&snap);
    let list = v["stream_liquidations"].as_array().unwrap();
    assert_eq!(list.len(), 50);
    assert_eq!(list[0]["event_time"], 1);
    assert_eq!(list[49]["event_time"], 50);
    assert_eq!(list[49]["side"], "SELL");
    assert_eq!(list[49]["symbol"], "BTCUSDT");
}

#[test]
fn gateway_leaves_snapshot_on_unreadable_messages() {
    let snap = br#"{"keep":1}"#.to_vec();
    assert_eq!(file_gateway_message(&snap, "not json", 1), snap);
    assert_eq!(file_gateway_message(&snap, r#"{"data":{}}"#, 1), snap);
    assert_eq!(file_gateway_message(&snap, r#"{"stream":"x"}"#, 1), snap);
    let other = file_gateway_message(&snap, r#"{"stream":"x","data":{"e":"other"}}"#, 1);
    let v = snapshot_value(&other);
    assert_eq!(v["keep"], 1);
    assert!(v["stream_depth"].is_object());
}

#[test]
fn gateway_refuses_a_group_of_the_wrong_kind() {
    let snap = br#"{"stream_markprice":5}"#;
    let msg = r#"{"stream":"btcusdt@markPrice","data":{"e":"markPriceUpdate","s":"BTCUSDT"}}"#;
    assert!(!gateway_message_fileable(snap, msg, 1));
    assert!(try_file_gateway_message(snap, msg, 1).is_none());
    let null_group = br#"{"stream_markprice":null}"#;
    let filed = try_file_gateway_message(null_group, msg, 1).expect("a null group takes the entry");
    assert_eq!(snapshot_value(&filed)["stream_markprice"]["BTCUSDT"]["mark_price"], "0");
}

#[test]
fn exports_documents_and_text() {
    let doc = export_json("p", br#"{"b":1,"a":[2]}"#).unwrap();
    assert_eq!(doc, serde_json::to_vec_pretty(&serde_json::from_slice::<Value>(br#"{"b":1,"a":[2]}"#).unwrap()).unwrap());
    let wrapped = export_json("plugin_x", b"  hello world \n").unwrap();
    let v = snapshot_value(&wrapped);
    assert_eq!(v["plugin"], "plugin_x");
    assert_eq!(v["raw_output"], "hello world");
    assert!(export_json("p", b"   ").is_none());
    assert!(export_json("p", &[0xff, 0xfe]).is_none());
}

#[test]
fn memory_text_prefers_json() {
    match memory_text(br#"{"x":1}"#) {
        MemoryText::Json(bytes) => assert_eq!(bytes, b"{\n  \"x\": 1\n}".to_vec()),
        other => panic!("expected JSON, got {:?}", other),
    }
    match memory_text(b"plain text") {
        MemoryText::Text(s) => assert_eq!(s, "plain text"),
        other => panic!("expected text, got {:?}", other),
    }
    assert!(matches!(memory_text(b" \n "), MemoryText::Nothing));
    assert!(matches!(memory_text(&[0xc3]), MemoryText::Nothing));
}
