use cycle_orc::signing::{
    balance_query, balance_url, classify_trader_action, order_query, sign_query, signed_body, TraderAction,
};

#[test]
fn signature_matches_the_published_example() {
    let secret = "NhqPtmdSJYdKjVHjA7PZj4Mge3R5YNiP1e3UZjInClVN65XAbvqqM6A7H5fATj0j";
    let query = "symbol=LTCBTC&side=BUY&type=LIMIT&timeInForce=GTC&quantity=1&price=0.1&recvWindow=5000&timestamp=1499827319559";
    assert_eq!(
        sign_query(secret, query),
        "c8db56825ae71d6d79447849e617115f4a920fa2acdcab2b053c4b2838bd6b71"
    );
}

#[test]
fn signature_of_a_classic_vector() {
    assert_eq!(
        sign_query("key", "The quick brown fox jumps over the lazy dog"),
        "f7bc83f430538424b13298e6aa6fb143ef4d59a14946175997479dbc2d1a3cd8"
    );
}

#[test]
fn signatures_are_sixty_four_hex_digits() {
    let sig = sign_query("", "");
    assert_eq!(sig.len(), 64);
    assert!(sig.chars().all(|c| c.is_ascii_digit() || ('a'..='f').contains(&c)));
}

#[test]
fn balance_request_parts() {
    let q = balance_query(1700000000000);
    assert_eq!(q, "timestamp=1700000000000");
    let sig = sign_query("secret", &q);
    assert_eq!(sig, "d615d05216c634afd48df5e1fc52c0d95b77892f19502e1b619f391bc9d68205");
    assert_eq!(
        balance_url(&q, &sig),
        format!("https://fapi.binance.com/fapi/v2/balance?timestamp=1700000000000&signature={}", sig)
    );
}

#[test]
fn order_request_parts() {
    let q = order_query("BTCUSDT", "BUY", "LONG", "MARKET", "0.001", 42);
    assert_eq!(q, "symbol=BTCUSDT&side=BUY&positionSide=LONG&type=MARKET&quantity=0.001&timestamp=42");
    assert_eq!(signed_body(&q, "ab"), format!("{}&signature=ab", q));
    assert_eq!(balance_query(0), "timestamp=0");
}

#[test]
fn trader_actions() {
    assert_eq!(classify_trader_action("get_balance"), TraderAction::GetBalance);
    assert_eq!(classify_trader_action("place_order"), TraderAction::PlaceOrder);
    assert_eq!(classify_trader_action("PLACE_ORDER"), TraderAction::Other);
    assert_eq!(classify_trader_action(""), TraderAction::Other);
}
