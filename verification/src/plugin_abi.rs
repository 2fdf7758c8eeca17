use vstd::prelude::*;
use vstd::utf8::{decode_utf8, valid_utf8};
use crate::words::chars_equal_str;
use crate::text::{str_chars, string_from_chars, trim_str, trimmed};

verus! {

/// Length of the stream-id header in front of a payload routed to a
/// plugin's inbox.
pub const STREAM_HEADER_LEN: usize = 32;

/// Copies as much of `data` as fits into the output buffer; answers the
/// number of bytes written (the lesser of the two lengths).  The rest of the
/// buffer is left as it was.
pub fn copy_to_buffer(data: &[u8], out: &mut [u8]) -> (n: usize)
    ensures
        n == if data.len() < old(out).len() { data.len() } else { old(out).len() },
        final(out)@.len() == old(out)@.len(),
        final(out)@.take(n as int) == data@.take(n as int),
        final(out)@.skip(n as int) == old(out)@.skip(n as int),
{
    let n = if data.len() < out.len() {
        data.len()
    } else {
        out.len()
    };
    let mut i: usize = 0;
    while i < n
        invariant
            n <= data.len(),
            n <= out.len(),
            i <= n,
            out@.len() == old(out)@.len(),
            forall|k: int| 0 <= k < i ==> out@[k] == data@[k],
            forall|k: int| n <= k < out@.len() ==> out@[k] == old(out)@[k],
        decreases n - i,
    {
        out[i] = data[i];
        i = i + 1;
    }
    assert(out@.take(n as int) =~= data@.take(n as int));
    assert(out@.skip(n as int) =~= old(out)@.skip(n as int));
    n
}

/// `s` without its leading and trailing NUL characters.
pub open spec fn strip_nuls(s: Seq<char>) -> Seq<char>
    decreases s.len(),
{
    if s.len() > 0 && s[0] == '\0' {
        strip_nuls(s.drop_first())
    } else if s.len() > 0 && s.last() == '\0' {
        strip_nuls(s.drop_last())
    } else {
        s
    }
}

/// Stripping leaves a stretch of the text that neither starts nor ends with
/// a NUL character.
pub proof fn lemma_strip_nuls_trims(s: Seq<char>)
    ensures
        strip_nuls(s).len() > 0 ==> strip_nuls(s)[0] != '\0' && strip_nuls(s).last() != '\0',
        exists|lo: int, hi: int| 0 <= lo <= hi <= s.len() && #[trigger] s.subrange(lo, hi) == strip_nuls(s),
    decreases s.len(),
{
    if s.len() > 0 && s[0] == '\0' {
        lemma_strip_nuls_trims(s.drop_first());
        let (lo, hi) = choose|lo: int, hi: int|
            0 <= lo <= hi <= s.drop_first().len() && #[trigger] s.drop_first().subrange(lo, hi) == strip_nuls(s.drop_first());
        assert(s.subrange(lo + 1, hi + 1) =~= s.drop_first().subrange(lo, hi));
    } else if s.len() > 0 && s.last() == '\0' {
        lemma_strip_nuls_trims(s.drop_last());
        let (lo, hi) = choose|lo: int, hi: int|
            0 <= lo <= hi <= s.drop_last().len() && #[trigger] s.drop_last().subrange(lo, hi) == strip_nuls(s.drop_last());
        assert(s.subrange(lo, hi) =~= s.drop_last().subrange(lo, hi));
    } else {
        assert(s.subrange(0, s.len() as int) =~= s);
    }
}

/// The text of a stream header: the header bytes decoded as UTF-8 (nothing
/// when they are not valid UTF-8), without surrounding NUL padding.
pub open spec fn header_text_spec(header: Seq<u8>) -> Seq<char> {
    strip_nuls(
        if valid_utf8(header) {
            decode_utf8(header)
        } else {
            Seq::empty()
        },
    )
}

/// Calls `std::str::from_utf8`, which succeeds exactly on valid UTF-8 and
/// then gives the decoded characters.
#[verifier::external_body]
pub(crate) fn utf8_text(bytes: &[u8]) -> (r: Option<&str>)
    ensures
        r is Some <==> valid_utf8(bytes@),
        r matches Some(s) ==> s@ == decode_utf8(bytes@),
{
    std::str::from_utf8(bytes).ok()
}

/// The header text of a routed payload (its first 32 bytes).
pub fn header_text(payload: &[u8]) -> (s: String)
    requires
        payload.len() >= STREAM_HEADER_LEN,
    ensures
        s@ == header_text_spec(payload@.take(STREAM_HEADER_LEN as int)),
{
    let mut header: Vec<u8> = Vec::new();
    let mut i: usize = 0;
    while i < STREAM_HEADER_LEN
        invariant
            i <= STREAM_HEADER_LEN <= payload.len(),
            header@ == payload@.take(i as int),
        decreases STREAM_HEADER_LEN - i,
    {
        header.push(payload[i]);
        i = i + 1;
        assert(header@ =~= payload@.take(i as int));
    }
    let chars: Vec<char> = match utf8_text(header.as_slice()) {
        Some(t) => str_chars(t),
        None => Vec::new(),
    };
    assert(chars@ =~= (if valid_utf8(header@) { decode_utf8(header@) } else { Seq::<char>::empty() }));
    let mut lo: usize = 0;
    let mut hi: usize = chars.len();
    assert(chars@.subrange(0, chars.len() as int) =~= chars@);
    while lo < hi && chars[lo] == '\0'
        invariant
            lo <= hi == chars.len(),
            strip_nuls(chars@.subrange(lo as int, hi as int)) == strip_nuls(chars@),
        decreases hi - lo,
    {
        assert(chars@.subrange(lo as int, hi as int).drop_first() =~= chars@.subrange(lo + 1, hi as int));
        lo = lo + 1;
    }
    while lo < hi && chars[hi - 1] == '\0'
        invariant
            lo <= hi <= chars.len(),
            lo < hi ==> chars@[lo as int] != '\0',
            strip_nuls(chars@.subrange(lo as int, hi as int)) == strip_nuls(chars@),
        decreases hi - lo,
    {
        let ghost cur = chars@.subrange(lo as int, hi as int);
        assert(cur.drop_last() =~= chars@.subrange(lo as int, hi - 1));
        assert(cur[0] == chars@[lo as int]);
        hi = hi - 1;
    }
    let mut out: Vec<char> = Vec::new();
    let mut k: usize = lo;
    while k < hi
        invariant
            lo <= k <= hi <= chars.len(),
            out@ == chars@.subrange(lo as int, k as int),
        decreases hi - k,
    {
        out.push(chars[k]);
        k = k + 1;
        assert(out@ =~= chars@.subrange(lo as int, k as int));
    }
    proof {
        let cur = chars@.subrange(lo as int, hi as int);
        assert(cur.len() > 0 ==> cur[0] != '\0' && cur.last() != '\0');
        assert(strip_nuls(cur) == cur);
    }
    string_from_chars(&out)
}

/// The stream id of a routed payload: the header text, trimmed of white
/// space.
pub fn stream_id_of(payload: &[u8]) -> (s: String)
    requires
        payload.len() >= STREAM_HEADER_LEN,
    ensures
        s@ == trimmed(header_text_spec(payload@.take(STREAM_HEADER_LEN as int))),
{
    let h = header_text(payload);
    trim_str(h.as_str()).to_string()
}

/// `needle` occurs somewhere in `hay`.
pub open spec fn contains_text(hay: Seq<char>, needle: Seq<char>) -> bool {
    exists|i: int| 0 <= i <= hay.len() - needle.len() && #[trigger] hay.subrange(i, i + needle.len()) == needle
}

/// Whether `needle` occurs in `hay` (as `str::contains` with a string
/// pattern answers).
pub fn text_contains(hay: &str, needle: &str) -> (r: bool)
    ensures
        r == contains_text(hay@, needle@),
{
    let h = str_chars(hay);
    let n = str_chars(needle);
    if n.len() > h.len() {
        return false;
    }
    let mut i: usize = 0;
    while i <= h.len() - n.len()
        invariant
            n.len() <= h.len(),
            h@ == hay@,
            n@ == needle@,
            i <= h.len() - n.len() + 1,
            forall|j: int| 0 <= j < i ==> #[trigger] h@.subrange(j, j + n.len()) != n@,
        decreases h.len() - n.len() + 1 - i,
    {
        let mut k: usize = 0;
        let mut same = true;
        while k < n.len()
            invariant
                k <= n.len(),
                i + n.len() <= h.len(),
                same <==> (forall|m: int| 0 <= m < k ==> h@[i + m] == n@[m]),
            decreases n.len() - k,
        {
            if h[i + k] != n[k] {
                same = false;
            }
            k = k + 1;
        }
        if same {
            assert(h@.subrange(i as int, i + n.len()) =~= n@);
            return true;
        }
        proof {
            let m = choose|m: int| 0 <= m < n.len() && h@[i + m] != n@[m];
            assert(h@.subrange(i as int, i + n.len())[m] != n@[m]);
        }
        i = i + 1;
    }
    false
}


/// Whether a string equals a literal.
fn text_is(id: &str, lit: &str) -> (r: bool)
    ensures
        r == (id@ == lit@),
{
    chars_equal_str(&str_chars(id), lit)
}

/// Streams the aggregate-trade statistics and one-second OHLCV plugins take:
/// "stream_aggtrades", or any id mentioning "aggtrade" or "trade".
pub fn is_aggtrade_stream(id: &str) -> (r: bool)
    ensures
        r == (id@ == "stream_aggtrades"@ || contains_text(id@, "aggtrade"@) || contains_text(
            id@,
            "trade"@,
        )),
{
    text_is(id, "stream_aggtrades") || text_contains(id, "aggtrade") || text_contains(id, "trade")
}

/// Streams the Amihud illiquidity plugin takes: ids mentioning "aggtrades"
/// or "trades".
pub fn is_trades_stream(id: &str) -> (r: bool)
    ensures
        r == (contains_text(id@, "aggtrades"@) || contains_text(id@, "trades"@)),
{
    text_contains(id, "aggtrades") || text_contains(id, "trades")
}

/// Which feed an order-flow plugin (iceberg, absorption, spoofing) reads
/// from a stream.
#[derive(Debug, Clone, Copy, PartialEq, Eq, Structural)]
pub enum OrderFlowStream {
    Trades,
    Depth,
}

/// The order-flow feed of a stream id: trades when it mentions "trades" or
/// "aggtrades", otherwise depth when it mentions "depth".
pub open spec fn order_flow_stream_spec(id: Seq<char>) -> Option<OrderFlowStream> {
    if contains_text(id, "trades"@) || contains_text(id, "aggtrades"@) {
        Some(OrderFlowStream::Trades)
    } else if contains_text(id, "depth"@) {
        Some(OrderFlowStream::Depth)
    } else {
        None
    }
}

/// Classifies a stream id for the order-flow plugins.
pub fn classify_order_flow_stream(id: &str) -> (r: Option<OrderFlowStream>)
    ensures
        r == order_flow_stream_spec(id@),
{
    if text_contains(id, "trades") || text_contains(id, "aggtrades") {
        Some(OrderFlowStream::Trades)
    } else if text_contains(id, "depth") {
        Some(OrderFlowStream::Depth)
    } else {
        None
    }
}

/// Streams the price-impact plugin takes: ids mentioning "bestprice",
/// "trades", "aggtrades" or "gateway".
pub fn is_price_impact_stream(id: &str) -> (r: bool)
    ensures
        r == (contains_text(id@, "bestprice"@) || contains_text(id@, "trades"@) || contains_text(
            id@,
            "aggtrades"@,
        ) || contains_text(id@, "gateway"@)),
{
    text_contains(id, "bestprice") || text_contains(id, "trades") || text_contains(id, "aggtrades")
        || text_contains(id, "gateway")
}

/// Streams the book-ticker derivatives plugin takes: "stream_bestprice", or
/// ids mentioning "bestprice" or "bookticker".
pub fn is_bookticker_stream(id: &str) -> (r: bool)
    ensures
        r == (id@ == "stream_bestprice"@ || contains_text(id@, "bestprice"@) || contains_text(
            id@,
            "bookticker"@,
        )),
{
    text_is(id, "stream_bestprice") || text_contains(id, "bestprice") || text_contains(
        id,
        "bookticker",
    )
}

/// The symbol a kline stream is read for when no configuration names one:
/// BTCUSDT, ETHUSDT or TACUSDT by the coin its id mentions, else BTCUSDT.
pub open spec fn symbol_for_stream_spec(id: Seq<char>) -> Seq<char> {
    if contains_text(id, "btc"@) {
        "BTCUSDT"@
    } else if contains_text(id, "eth"@) {
        "ETHUSDT"@
    } else if contains_text(id, "tac"@) {
        "TACUSDT"@
    } else {
        "BTCUSDT"@
    }
}

/// Picks the default symbol of a kline stream.
pub fn symbol_for_stream(id: &str) -> (r: &'static str)
    ensures
        r@ == symbol_for_stream_spec(id@),
{
    if text_contains(id, "btc") {
        "BTCUSDT"
    } else if text_contains(id, "eth") {
        "ETHUSDT"
    } else if text_contains(id, "tac") {
        "TACUSDT"
    } else {
        "BTCUSDT"
    }
}

/// Answers the IsWorking endpoint: with room in the output buffer the
/// running flag is written as its first byte (1 or 0) and one byte is
/// reported; without room the flag itself is the answer.
pub fn is_working_reply(running: bool, out: &mut [u8]) -> (n: usize)
    ensures
        final(out)@.len() == old(out)@.len(),
        old(out)@.len() >= 1 ==> n == 1 && final(out)@ == old(out)@.update(0, if running { 1u8 } else { 0u8 }),
        old(out)@.len() == 0 ==> n == (if running { 1usize } else { 0usize }) && final(out)@ == old(out)@,
{
    if out.len() >= 1 {
        out[0] = if running {
            1
        } else {
            0
        };
        1
    } else if running {
        1
    } else {
        0
    }
}

/// Order-flow plugins read trades from any stream whose id mentions
/// "trades" (so also "aggtrades"), depth from other streams whose id
/// mentions "depth", and nothing from the rest.
pub proof fn lemma_order_flow_streams(id: Seq<char>)
    ensures
        contains_text(id, "trades"@) ==> order_flow_stream_spec(id) == Some(OrderFlowStream::Trades),
        contains_text(id, "aggtrades"@) ==> order_flow_stream_spec(id) == Some(OrderFlowStream::Trades),
        !contains_text(id, "trades"@) && !contains_text(id, "aggtrades"@) && contains_text(id, "depth"@)
            ==> order_flow_stream_spec(id) == Some(OrderFlowStream::Depth),
        !contains_text(id, "trades"@) && !contains_text(id, "aggtrades"@) && !contains_text(id, "depth"@)
            ==> order_flow_stream_spec(id) is None,
{
}

/// A kline stream is read for the coin its id mentions, BTC before ETH
/// before TAC, and for BTCUSDT when it mentions none.
pub proof fn lemma_stream_symbols(id: Seq<char>)
    ensures
        contains_text(id, "btc"@) ==> symbol_for_stream_spec(id) == "BTCUSDT"@,
        !contains_text(id, "btc"@) && contains_text(id, "eth"@) ==> symbol_for_stream_spec(id) == "ETHUSDT"@,
        !contains_text(id, "btc"@) && !contains_text(id, "eth"@) && contains_text(id, "tac"@)
            ==> symbol_for_stream_spec(id) == "TACUSDT"@,
        !contains_text(id, "btc"@) && !contains_text(id, "eth"@) && !contains_text(id, "tac"@)
            ==> symbol_for_stream_spec(id) == "BTCUSDT"@,
{
}

} // verus!
