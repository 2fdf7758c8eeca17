use vstd::prelude::*;
use crate::text::{decimal, digit_char, push_padded_decimal, push_str_chars, str_chars, string_from_chars};
use crate::words::chars_equal_str;
use vstd::string::StringSliceAdditionalSpecFns;
use hmac::{Hmac, Mac};
use sha2::Sha256;

verus! {

/// The HMAC-SHA256 tag of `msg` under `key`, as `hmac::Hmac<sha2::Sha256>`
/// computes it.
pub uninterp spec fn hmac_sha256_tag(key: Seq<u8>, msg: Seq<u8>) -> Seq<u8>;

/// Computes HMAC-SHA256 with the `hmac` and `sha2` crates: `new_from_slice`
/// (which, per the crate's source, accepts keys of every length: longer keys
/// are hashed, shorter ones padded), `update` with the message, then
/// `finalize`.  The tag is named by `hmac_sha256_tag`; it is the 32-byte
/// output of SHA-256.
#[verifier::external_body]
fn hmac_sha256(key: &[u8], msg: &[u8]) -> (tag: Vec<u8>)
    ensures
        tag@ == hmac_sha256_tag(key@, msg@),
        tag@.len() == 32,
{
    let mut mac = <Hmac<Sha256> as Mac>::new_from_slice(key).unwrap();
    mac.update(msg);
    mac.finalize().into_bytes().to_vec()
}

/// Lower-case hexadecimal digit of a value below 16.
pub open spec fn hex_digit(v: int) -> char {
    if v < 10 {
        digit_char(v)
    } else if v == 10 {
        'a'
    } else if v == 11 {
        'b'
    } else if v == 12 {
        'c'
    } else if v == 13 {
        'd'
    } else if v == 14 {
        'e'
    } else {
        'f'
    }
}

/// Lower-case hexadecimal text of a byte string, two digits per byte.
pub open spec fn hex_text(bytes: Seq<u8>) -> Seq<char>
    decreases bytes.len(),
{
    if bytes.len() == 0 {
        Seq::empty()
    } else {
        hex_text(bytes.drop_last()) + seq![
            hex_digit(bytes.last() as int / 16),
            hex_digit(bytes.last() as int % 16),
        ]
    }
}

/// Calls `hex::encode`, which writes each byte as two lower-case hexadecimal
/// digits, high nibble first.
#[verifier::external_body]
fn hex_encode(bytes: &[u8]) -> (s: String)
    ensures
        s@ == hex_text(bytes@),
{
    hex::encode(bytes)
}

/// The signature Binance expects on a signed request: the lower-case hex of
/// the HMAC-SHA256 tag of the query string under the API secret.
pub fn sign_query(api_secret: &str, query: &str) -> (sig: String)
    ensures
        sig@ == hex_text(hmac_sha256_tag(api_secret.spec_bytes(), query.spec_bytes())),
        sig@.len() == 64,
        forall|i: int| 0 <= i < sig@.len() ==> is_lower_hex(#[trigger] sig@[i]),
{
    let tag = hmac_sha256(api_secret.as_bytes(), query.as_bytes());
    proof {
        lemma_hex_text_shape(tag@);
    }
    hex_encode(tag.as_slice())
}

/// A lower-case hexadecimal digit.
pub open spec fn is_lower_hex(c: char) -> bool {
    ('0' <= c && c <= '9') || ('a' <= c && c <= 'f')
}

/// Hex text has two digits per byte, all of them lower-case hexadecimal.
pub proof fn lemma_hex_text_shape(bytes: Seq<u8>)
    ensures
        hex_text(bytes).len() == 2 * bytes.len(),
        forall|i: int| 0 <= i < hex_text(bytes).len() ==> is_lower_hex(#[trigger] hex_text(bytes)[i]),
    decreases bytes.len(),
{
    if bytes.len() > 0 {
        lemma_hex_text_shape(bytes.drop_last());
        let h = hex_text(bytes);
        let p = hex_text(bytes.drop_last());
        let hi = bytes.last() as int / 16;
        let lo = bytes.last() as int % 16;
        assert(is_lower_hex(hex_digit(hi)) && is_lower_hex(hex_digit(lo)));
        assert forall|i: int| 0 <= i < h.len() implies is_lower_hex(#[trigger] h[i]) by {
            if i < p.len() {
                assert(h[i] == p[i]);
            }
        }
    }
}

/// A request to the live trading plugin, by its "action" field.
#[derive(Debug, Clone, Copy, PartialEq, Eq, Structural)]
pub enum TraderAction {
    /// Query the futures wallet balance.
    GetBalance,
    /// Place an order.
    PlaceOrder,
    /// Anything else: ignored.
    Other,
}

/// Reads the request of a trading plugin message from its action name.
pub fn classify_trader_action(action: &str) -> (a: TraderAction)
    ensures
        a == (if action@ == "get_balance"@ {
            TraderAction::GetBalance
        } else if action@ == "place_order"@ {
            TraderAction::PlaceOrder
        } else {
            TraderAction::Other
        }),
{
    let c = str_chars(action);
    if chars_equal_str(&c, "get_balance") {
        TraderAction::GetBalance
    } else if chars_equal_str(&c, "place_order") {
        TraderAction::PlaceOrder
    } else {
        TraderAction::Other
    }
}

/// The order fields a request leaves out default to a market buy opening a
/// long position in BTCUSDT.
pub const DEFAULT_ORDER_SYMBOL: &'static str = "BTCUSDT";
pub const DEFAULT_ORDER_SIDE: &'static str = "BUY";
pub const DEFAULT_POSITION_SIDE: &'static str = "LONG";
pub const DEFAULT_ORDER_TYPE: &'static str = "MARKET";

/// The query of a balance request made at `timestamp_ms`.
pub open spec fn balance_query_text(timestamp_ms: u128) -> Seq<char> {
    "timestamp="@ + decimal(timestamp_ms as nat)
}

/// Builds the query string "timestamp=<ms>" of a balance request.
pub fn balance_query(timestamp_ms: u128) -> (q: String)
    ensures
        q@ == balance_query_text(timestamp_ms),
{
    let mut out: Vec<char> = Vec::new();
    push_str_chars(&mut out, "timestamp=");
    push_padded_decimal(&mut out, timestamp_ms, 0);
    string_from_chars(&out)
}

/// Builds the URL of a signed balance request.
pub fn balance_url(query: &str, signature: &str) -> (url: String)
    ensures
        url@ == "https://fapi.binance.com/fapi/v2/balance?"@ + query@ + "&signature="@ + signature@,
{
    let mut out: Vec<char> = Vec::new();
    push_str_chars(&mut out, "https://fapi.binance.com/fapi/v2/balance?");
    push_str_chars(&mut out, query);
    push_str_chars(&mut out, "&signature=");
    push_str_chars(&mut out, signature);
    string_from_chars(&out)
}

/// The query string of an order request; the quantity comes already written
/// out as text.
pub open spec fn order_query_text(
    symbol: Seq<char>,
    side: Seq<char>,
    position_side: Seq<char>,
    order_type: Seq<char>,
    quantity: Seq<char>,
    timestamp_ms: u128,
) -> Seq<char> {
    "symbol="@ + symbol + "&side="@ + side + "&positionSide="@ + position_side + "&type="@
        + order_type + "&quantity="@ + quantity + "&timestamp="@ + decimal(timestamp_ms as nat)
}

/// Builds the query string of an order request.
pub fn order_query(
    symbol: &str,
    side: &str,
    position_side: &str,
    order_type: &str,
    quantity: &str,
    timestamp_ms: u128,
) -> (q: String)
    ensures
        q@ == order_query_text(symbol@, side@, position_side@, order_type@, quantity@, timestamp_ms),
{
    let mut out: Vec<char> = Vec::new();
    push_str_chars(&mut out, "symbol=");
    push_str_chars(&mut out, symbol);
    push_str_chars(&mut out, "&side=");
    push_str_chars(&mut out, side);
    push_str_chars(&mut out, "&positionSide=");
    push_str_chars(&mut out, position_side);
    push_str_chars(&mut out, "&type=");
    push_str_chars(&mut out, order_type);
    push_str_chars(&mut out, "&quantity=");
    push_str_chars(&mut out, quantity);
    push_str_chars(&mut out, "&timestamp=");
    push_padded_decimal(&mut out, timestamp_ms, 0);
    string_from_chars(&out)
}

/// Builds the form body of a signed order request: the query followed by
/// its signature.
pub fn signed_body(query: &str, signature: &str) -> (body: String)
    ensures
        body@ == query@ + "&signature="@ + signature@,
{
    let mut out: Vec<char> = Vec::new();
    push_str_chars(&mut out, query);
    push_str_chars(&mut out, "&signature=");
    push_str_chars(&mut out, signature);
    string_from_chars(&out)
}

/// The value a hexadecimal digit character stands for ('0' to '9', then
/// 'a' to 'f'), by its ASCII code.
pub open spec fn hex_char_value(c: char) -> int {
    if (c as u32) <= 57 {
        c as u32 - 48
    } else {
        c as u32 - 87
    }
}

/// A lower-case hexadecimal digit has the ASCII code of '0' plus its value
/// below ten and of 'a' plus its value less ten from ten on.
proof fn lemma_hex_digit_code(d: int)
    requires
        0 <= d < 16,
    ensures
        hex_digit(d) as u32 == (if d < 10 {
            48 + d
        } else {
            87 + d
        }),
{
    if d < 10 {
        crate::text::lemma_digit_char_code(d);
    }
}

/// Hex text reads back as the bytes it was written from: byte `i` is the
/// value of digit `2 i` times sixteen plus the value of digit `2 i + 1`.
pub proof fn lemma_hex_text_reads_back(bytes: Seq<u8>)
    ensures
        hex_text(bytes).len() == 2 * bytes.len(),
        forall|i: int|
            0 <= i < bytes.len() ==> hex_char_value(#[trigger] hex_text(bytes)[2 * i]) * 16 + hex_char_value(
                hex_text(bytes)[2 * i + 1],
            ) == bytes[i] as int,
    decreases bytes.len(),
{
    if bytes.len() > 0 {
        let init = bytes.drop_last();
        lemma_hex_text_reads_back(init);
        let b = bytes.last();
        lemma_hex_digit_code(b as int / 16);
        lemma_hex_digit_code(b as int % 16);
        let h = hex_text(bytes);
        let hi = hex_text(init);
        assert forall|i: int| 0 <= i < bytes.len() implies hex_char_value(#[trigger] h[2 * i]) * 16
            + hex_char_value(h[2 * i + 1]) == bytes[i] as int by {
            if i < init.len() {
                assert(h[2 * i] == hi[2 * i]);
                assert(h[2 * i + 1] == hi[2 * i + 1]);
                assert(init[i] == bytes[i]);
            } else {
                assert(h[2 * i] == hex_digit(b as int / 16));
                assert(h[2 * i + 1] == hex_digit(b as int % 16));
                assert(b as int == (b as int / 16) * 16 + b as int % 16);
            }
        }
    }
}

} // verus!
