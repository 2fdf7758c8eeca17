use cycle_orc::json::JsonTree;
use cycle_orc::paper::{
    cancel_reply, classify_paper_action, classify_paper_feed, count_reply, history_limit, manual_action, order_listed,
    read_paper_inbox, request_user, PaperAction, PaperDesk, PaperFeed, PaperInbox, PaperReply,
    DEFAULT_HISTORY_LIMIT, DEFAULT_USER,
};

#[test]
fn manual_actions() {
    assert_eq!(classify_paper_action("submit_order"), PaperAction::SubmitOrder);
    assert_eq!(classify_paper_action("close_position"), PaperAction::ClosePosition);
    assert_eq!(classify_paper_action("cancel_order"), PaperAction::CancelOrder);
    assert_eq!(classify_paper_action("cancel_all_orders"), PaperAction::CancelAllOrders);
    assert_eq!(classify_paper_action("deposit"), PaperAction::Deposit);
    assert_eq!(classify_paper_action("set_balance"), PaperAction::SetBalance);
    assert_eq!(classify_paper_action("close_all_positions"), PaperAction::CloseAllPositions);
    assert_eq!(classify_paper_action("get_orders"), PaperAction::GetOrders);
    assert_eq!(classify_paper_action("get_history"), PaperAction::GetHistory);
    assert_eq!(classify_paper_action("withdraw"), PaperAction::Unknown);
}

#[test]
fn routed_feeds() {
    assert_eq!(classify_paper_feed("stream_bestprice"), PaperFeed::BestPrice);
    assert_eq!(classify_paper_feed("stream_markprice"), PaperFeed::MarkPrice);
    assert_eq!(classify_paper_feed("stream_depth"), PaperFeed::Other);
}

#[test]
fn order_filter() {
    assert!(order_listed(None, "BTCUSDT"));
    assert!(order_listed(Some("BTCUSDT"), "BTCUSDT"));
    assert!(!order_listed(Some("ETHUSDT"), "BTCUSDT"));
    assert_eq!(DEFAULT_USER, "admin");
    assert_eq!(DEFAULT_HISTORY_LIMIT, 20);
}

#[test]
fn inbox_payload_framing() {
    match read_paper_inbox(br#"{"action":"deposit","amount":"10"}"#) {
        PaperInbox::Manual(request) => assert_eq!(manual_action(&request), Some(PaperAction::Deposit)),
        other => panic!("expected a manual request, got {:?}", other),
    }
    let mut routed = b"stream_bestprice".to_vec();
    routed.resize(32, 0);
    routed.extend_from_slice(br#"{"BTCUSDT":{"best_ask":"100"}}"#);
    match read_paper_inbox(&routed) {
        PaperInbox::Routed { stream_id, message } => {
            assert_eq!(stream_id, "stream_bestprice");
            assert!(matches!(message, JsonTree::Object(_)));
        }
        other => panic!("expected routed data, got {:?}", other),
    }
    assert!(matches!(read_paper_inbox(b"not json at all"), PaperInbox::Unreadable));
    assert!(matches!(read_paper_inbox(b""), PaperInbox::Unreadable));
    match read_paper_inbox(br#"{"price":"1"}"#) {
        PaperInbox::Manual(request) => assert_eq!(manual_action(&request), None),
        other => panic!("expected a manual request, got {:?}", other),
    }
}

#[test]
fn paper_dispatch_tracks_running_and_outbox() {
    let mut desk = PaperDesk::new();
    assert!(matches!(desk.endpoint(2), PaperReply::Length(0)));
    assert!(matches!(desk.endpoint(0), PaperReply::Length(0)));
    assert!(matches!(desk.endpoint(3), PaperReply::Length(0)));
    assert!(matches!(desk.endpoint(2), PaperReply::Length(1)));
    assert!(matches!(desk.endpoint(4), PaperReply::Report));
    assert!(matches!(desk.endpoint(6), PaperReply::ReadInbox));
    assert!(matches!(desk.endpoint(7), PaperReply::Length(0)));
    desk.post(&cancel_reply("o1", true));
    desk.post(&count_reply("cancel_all_orders_response", 3));
    match desk.endpoint(7) {
        PaperReply::Message(m) => assert_eq!(m, br#"{"action":"cancel_order_response","order_id":"o1","success":true}"#.to_vec()),
        _ => panic!("expected the first reply"),
    }
    match desk.endpoint(7) {
        PaperReply::Message(m) => assert_eq!(m, br#"{"action":"cancel_all_orders_response","count":3}"#.to_vec()),
        _ => panic!("expected the second reply"),
    }
    assert!(matches!(desk.endpoint(7), PaperReply::Length(0)));
    assert!(matches!(desk.endpoint(1), PaperReply::Length(0)));
    assert!(matches!(desk.endpoint(2), PaperReply::Length(0)));
}

#[test]
fn manual_request_defaults() {
    let req = match read_paper_inbox(br#"{"action":"get_history"}"#) {
        PaperInbox::Manual(r) => r,
        other => panic!("expected a request, got {:?}", other),
    };
    assert_eq!(request_user(&req), "admin");
    assert_eq!(history_limit(&req), 20);
    let req = match read_paper_inbox(br#"{"action":"get_history","user_id":"bob","limit":5}"#) {
        PaperInbox::Manual(r) => r,
        other => panic!("expected a request, got {:?}", other),
    };
    assert_eq!(request_user(&req), "bob");
    assert_eq!(history_limit(&req), 5);
}
