use vstd::prelude::*;
use crate::text::{lowercase_str, lowercased, push_str_chars, str_chars, string_from_chars, uppercase_str, uppercased};
use crate::words::{chars_equal_str, join_chars_from, join_with, views};
use crate::json::{get_member, items_value, json_document, lemma_items_value, member, parse_json, tree_value, JsonTree, JsonValue};

verus! {

/// What a market-data plugin does for one endpoint call, given whether its
/// stream is running.
#[derive(Debug, Clone, Copy, PartialEq, Eq, Structural)]
pub enum PluginAction {
    /// Start the stream (it was not running).
    StartStream,
    /// Start was asked while running: nothing to do.
    AlreadyRunning,
    /// Clear the running flag and signal the stream to shut down.
    StopStream,
    /// Answer the running flag as one byte.
    ReportRunning,
    /// Copy the latest data into the output buffer.
    CopyData,
    /// Any other endpoint: answer nothing.
    Ignore,
}

/// The action of endpoint `id` (0 start, 1 stop, 2 is-working, 4 and 5 data
/// monitor and raw data).
pub open spec fn plugin_action_spec(id: u32, running: bool) -> PluginAction {
    if id == 0 {
        if running {
            PluginAction::AlreadyRunning
        } else {
            PluginAction::StartStream
        }
    } else if id == 1 {
        PluginAction::StopStream
    } else if id == 2 {
        PluginAction::ReportRunning
    } else if id == 4 || id == 5 {
        PluginAction::CopyData
    } else {
        PluginAction::Ignore
    }
}

/// Decides what a market-data plugin does for an endpoint call.
pub fn plugin_action(id: u32, running: bool) -> (a: PluginAction)
    ensures
        a == plugin_action_spec(id, running),
{
    match id {
        0 => if running {
            PluginAction::AlreadyRunning
        } else {
            PluginAction::StartStream
        },
        1 => PluginAction::StopStream,
        2 => PluginAction::ReportRunning,
        4 | 5 => PluginAction::CopyData,
        _ => PluginAction::Ignore,
    }
}

/// The running flag after an endpoint call: Start sets it, Stop clears it,
/// every other endpoint (Is Working among them) leaves it as it was.
pub fn running_after(id: u32, running: bool) -> (r: bool)
    ensures
        r == (if id == 0 {
            true
        } else if id == 1 {
            false
        } else {
            running
        }),
{
    if id == 0 {
        true
    } else if id == 1 {
        false
    } else {
        running
    }
}

/// `s` ends with `suffix`.
pub open spec fn ends_with_text(s: Seq<char>, suffix: Seq<char>) -> bool {
    suffix.len() <= s.len() && s.skip(s.len() - suffix.len()) == suffix
}

/// Whether `s` ends with `suffix` (as `str::ends_with` answers).
pub fn text_ends_with(s: &str, suffix: &str) -> (r: bool)
    ensures
        r == ends_with_text(s@, suffix@),
{
    let h = str_chars(s);
    let n = str_chars(suffix);
    if n.len() > h.len() {
        return false;
    }
    let off = h.len() - n.len();
    let mut k: usize = 0;
    while k < n.len()
        invariant
            k <= n.len(),
            off + n.len() == h.len(),
            h@ == s@,
            n@ == suffix@,
            forall|m: int| 0 <= m < k ==> h@[off + m] == n@[m],
        decreases n.len() - k,
    {
        if h[off + k] != n[k] {
            assert(h@.skip(off as int)[k as int] != n@[k as int]);
            return false;
        }
        k = k + 1;
    }
    assert(h@.skip(off as int) =~= n@);
    true
}

/// Where a message of the combined market stream is filed.
#[derive(Debug, Clone, Copy, PartialEq, Eq, Structural)]
pub enum GatewayEvent {
    /// A forced liquidation order.
    Liquidation,
    /// A mark price update.
    MarkPrice,
    /// A best bid / ask update.
    BestPrice,
    /// A trade.
    Trade,
    /// A partial order book snapshot.
    Depth,
    /// Anything else: ignored.
    Other,
}

/// The filing of a message by its event type and the name of the stream it
/// came on (compared in lower case).
pub open spec fn gateway_event_spec(e_type: Seq<char>, stream: Seq<char>) -> GatewayEvent {
    let lower = lowercased(stream);
    if e_type == "forceOrder"@ {
        GatewayEvent::Liquidation
    } else if e_type == "markPriceUpdate"@ {
        GatewayEvent::MarkPrice
    } else if e_type == "bookTicker"@ || ends_with_text(lower, "@bookticker"@) {
        GatewayEvent::BestPrice
    } else if e_type == "aggTrade"@ || e_type == "trade"@ || ends_with_text(lower, "@trade"@) {
        GatewayEvent::Trade
    } else if ends_with_text(lower, "@depth20@100ms"@) {
        GatewayEvent::Depth
    } else {
        GatewayEvent::Other
    }
}

/// Files a message of the combined market stream.
pub fn classify_gateway_event(e_type: &str, stream: &str) -> (r: GatewayEvent)
    ensures
        r == gateway_event_spec(e_type@, stream@),
{
    let lower = lowercase_str(stream);
    let e = str_chars(e_type);
    if chars_equal_str(&e, "forceOrder") {
        GatewayEvent::Liquidation
    } else if chars_equal_str(&e, "markPriceUpdate") {
        GatewayEvent::MarkPrice
    } else if chars_equal_str(&e, "bookTicker") || text_ends_with(lower.as_str(), "@bookticker") {
        GatewayEvent::BestPrice
    } else if chars_equal_str(&e, "aggTrade") || chars_equal_str(&e, "trade") || text_ends_with(
        lower.as_str(),
        "@trade",
    ) {
        GatewayEvent::Trade
    } else if text_ends_with(lower.as_str(), "@depth20@100ms") {
        GatewayEvent::Depth
    } else {
        GatewayEvent::Other
    }
}

/// The characters of `s` before its first `c` (all of `s` when there is
/// none).
pub open spec fn before_first(s: Seq<char>, c: char) -> Seq<char>
    decreases s.len(),
{
    if s.len() == 0 || s[0] == c {
        Seq::empty()
    } else {
        seq![s[0]] + before_first(s.drop_first(), c)
    }
}

proof fn lemma_before_first_prefix(s: Seq<char>, c: char, i: int)
    requires
        0 <= i <= s.len(),
        forall|m: int| 0 <= m < i ==> s[m] != c,
    ensures
        before_first(s, c) == s.take(i) + before_first(s.skip(i), c),
    decreases i,
{
    if i > 0 {
        lemma_before_first_prefix(s.drop_first(), c, i - 1);
        assert(s.drop_first().skip(i - 1) =~= s.skip(i));
        assert(seq![s[0]] + s.drop_first().take(i - 1) =~= s.take(i));
    } else {
        assert(s.skip(0) =~= s);
    }
}

/// The symbol of a depth stream: the stream name up to its first '@', in
/// upper case.
pub fn depth_symbol(stream: &str) -> (r: String)
    ensures
        r@ == uppercased(before_first(stream@, '@')),
{
    let v = str_chars(stream);
    let mut i: usize = 0;
    while i < v.len() && v[i] != '@'
        invariant
            i <= v.len(),
            v@ == stream@,
            forall|m: int| 0 <= m < i ==> v@[m] != '@',
        decreases v.len() - i,
    {
        i = i + 1;
    }
    let mut prefix: Vec<char> = Vec::new();
    let mut j: usize = 0;
    while j < i
        invariant
            j <= i <= v.len(),
            prefix@ == v@.take(j as int),
        decreases i - j,
    {
        prefix.push(v[j]);
        j = j + 1;
        assert(prefix@ =~= v@.take(j as int));
    }
    proof {
        lemma_before_first_prefix(v@, '@', i as int);
        if i < v.len() {
            assert(v@.skip(i as int)[0] == '@');
        } else {
            assert(v@.skip(i as int).len() == 0);
        }
        assert(prefix@ + Seq::<char>::empty() =~= prefix@);
    }
    let p = string_from_chars(&prefix);
    uppercase_str(p.as_str())
}

/// How many forced liquidations the gateway keeps, newest last.
pub const LIQUIDATION_HISTORY_LIMIT: usize = 50;

/// The symbols the gateway streams when its configuration names none.
pub fn default_gateway_symbols() -> (v: Vec<String>)
    ensures
        v.len() == 3,
        v[0]@ == "BTCUSDT"@,
        v[1]@ == "ETHUSDT"@,
        v[2]@ == "ACEUSDT"@,
{
    let mut v: Vec<String> = Vec::new();
    v.push("BTCUSDT".to_string());
    v.push("ETHUSDT".to_string());
    v.push("ACEUSDT".to_string());
    v
}

/// The public streams of the given lower-case symbols: for each symbol its
/// best price, depth and trade streams, in that order.
pub open spec fn public_streams(lower: Seq<Seq<char>>) -> Seq<Seq<char>>
    decreases lower.len(),
{
    if lower.len() == 0 {
        Seq::empty()
    } else {
        let l = lower.last();
        public_streams(lower.drop_last()) + seq![
            l + "@bookTicker"@,
            l + "@depth20@100ms"@,
            l + "@trade"@,
        ]
    }
}

/// The market streams of the given lower-case symbols: each mark price
/// stream, then the liquidation stream of all symbols.
pub open spec fn market_streams(lower: Seq<Seq<char>>) -> Seq<Seq<char>> {
    lower.map_values(|l: Seq<char>| l + "@markPrice@1s"@).push("!forceOrder@arr"@)
}

/// The symbols in lower case.
pub open spec fn lowered(symbols: Seq<Seq<char>>) -> Seq<Seq<char>> {
    symbols.map_values(|s: Seq<char>| lowercased(s))
}

/// The public and market stream addresses the gateway connects to.
pub open spec fn gateway_urls_spec(symbols: Seq<Seq<char>>) -> (Seq<char>, Seq<char>) {
    (
        "wss://fstream.binance.com/public/stream?streams="@ + join_with(public_streams(lowered(symbols)), '/'),
        "wss://fstream.binance.com/market/stream?streams="@ + join_with(market_streams(lowered(symbols)), '/'),
    )
}

/// The views of a list of strings.
pub open spec fn string_views(v: Seq<String>) -> Seq<Seq<char>> {
    v.map_values(|s: String| s@)
}

/// `base` followed by the characters of `suffix`.
fn concat_chars(base: &Vec<char>, suffix: &str) -> (v: Vec<char>)
    ensures
        v@ == base@ + suffix@,
{
    concat_vec(base, &str_chars(suffix))
}

/// Builds the public and market stream addresses for the given symbols.
pub fn gateway_stream_urls(symbols: &Vec<String>) -> (urls: (String, String))
    ensures
        urls.0@ == gateway_urls_spec(string_views(symbols@)).0,
        urls.1@ == gateway_urls_spec(string_views(symbols@)).1,
{
    let ghost lower = lowered(string_views(symbols@));
    let mut public: Vec<Vec<char>> = Vec::new();
    let mut market: Vec<Vec<char>> = Vec::new();
    let mut i: usize = 0;
    while i < symbols.len()
        invariant
            i <= symbols.len(),
            lower == lowered(string_views(symbols@)),
            views(public@) == public_streams(lower.take(i as int)),
            views(market@) == lower.take(i as int).map_values(|l: Seq<char>| l + "@markPrice@1s"@),
        decreases symbols.len() - i,
    {
        let s = lowercase_str(symbols[i].as_str());
        let base = str_chars(s.as_str());
        assert(base@ == lower[i as int]);
        let ghost before_pub = views(public@);
        let ghost before_mkt = views(market@);
        market.push(concat_chars(&base, "@markPrice@1s"));
        public.push(concat_chars(&base, "@bookTicker"));
        public.push(concat_chars(&base, "@depth20@100ms"));
        public.push(concat_chars(&base, "@trade"));
        proof {
            let t = lower.take(i + 1);
            assert(t.drop_last() =~= lower.take(i as int));
            assert(t.last() == base@);
            assert(views(public@) =~= before_pub + seq![
                base@ + "@bookTicker"@,
                base@ + "@depth20@100ms"@,
                base@ + "@trade"@,
            ]);
            assert(views(public@) == public_streams(t));
            assert(views(market@) =~= before_mkt.push(base@ + "@markPrice@1s"@));
            assert(views(market@) =~= t.map_values(|l: Seq<char>| l + "@markPrice@1s"@));
        }
        i = i + 1;
    }
    let ghost before_mkt = views(market@);
    market.push(str_chars("!forceOrder@arr"));
    proof {
        assert(lower.take(symbols.len() as int) =~= lower);
        assert(views(market@) =~= before_mkt.push("!forceOrder@arr"@));
        assert(views(public@).skip(0) =~= views(public@));
        assert(views(market@).skip(0) =~= views(market@));
    }
    let pj = join_chars_from(&public, 0, '/');
    let mj = join_chars_from(&market, 0, '/');
    let mut pub_url: Vec<char> = Vec::new();
    push_str_chars(&mut pub_url, "wss://fstream.binance.com/public/stream?streams=");
    let pub_url = concat_vec(&pub_url, &pj);
    let mut mkt_url: Vec<char> = Vec::new();
    push_str_chars(&mut mkt_url, "wss://fstream.binance.com/market/stream?streams=");
    let mkt_url = concat_vec(&mkt_url, &mj);
    (string_from_chars(&pub_url), string_from_chars(&mkt_url))
}

/// `a` followed by `b`.
fn concat_vec(a: &Vec<char>, b: &Vec<char>) -> (v: Vec<char>)
    ensures
        v@ == a@ + b@,
{
    let mut v: Vec<char> = Vec::new();
    let mut i: usize = 0;
    while i < a.len()
        invariant
            i <= a.len(),
            v@ == a@.take(i as int),
        decreases a.len() - i,
    {
        v.push(a[i]);
        i = i + 1;
        assert(v@ =~= a@.take(i as int));
    }
    let mut j: usize = 0;
    while j < b.len()
        invariant
            j <= b.len(),
            i == a.len(),
            v@ == a@ + b@.take(j as int),
        decreases b.len() - j,
    {
        v.push(b[j]);
        j = j + 1;
        assert(v@ =~= a@ + b@.take(j as int));
    }
    assert(b@.take(b.len() as int) =~= b@);
    v
}

/// The strings among a list of values, in order.
pub open spec fn text_items(items: Seq<JsonValue>) -> Seq<Seq<char>>
    decreases items.len(),
{
    if items.len() == 0 {
        Seq::empty()
    } else {
        match items.last() {
            JsonValue::Text(s) => text_items(items.drop_last()).push(s),
            _ => text_items(items.drop_last()),
        }
    }
}

/// The symbols a start payload names: the strings of its
/// "plugin_params"."symbols" array, when the payload is a document that
/// has one.
pub open spec fn configured_symbols(payload: Seq<u8>) -> Option<Seq<Seq<char>>> {
    if payload.len() == 0 {
        None
    } else {
        match json_document(payload) {
            Some(doc) => match member(doc, "plugin_params"@) {
                Some(params) => match member(params, "symbols"@) {
                    Some(JsonValue::Array(items)) => Some(text_items(items)),
                    _ => None,
                },
                None => None,
            },
            None => None,
        }
    }
}

/// The symbols the gateway streams for a start payload: those it names, or
/// the default ones.
pub open spec fn gateway_symbols_spec(payload: Seq<u8>) -> Seq<Seq<char>> {
    match configured_symbols(payload) {
        Some(s) => s,
        None => seq!["BTCUSDT"@, "ETHUSDT"@, "ACEUSDT"@],
    }
}

/// Reads the symbols to stream from the gateway's start payload.
pub fn gateway_symbols(payload: &[u8]) -> (r: Vec<String>)
    ensures
        string_views(r@) == gateway_symbols_spec(payload@),
{
    let defaults = default_gateway_symbols();
    proof {
        assert(string_views(defaults@) =~= seq!["BTCUSDT"@, "ETHUSDT"@, "ACEUSDT"@]);
    }
    if payload.len() == 0 {
        return defaults;
    }
    let doc = match parse_json(payload) {
        Some(d) => d,
        None => return defaults,
    };
    let params = match get_member(&doc, "plugin_params") {
        Some(p) => p,
        None => return defaults,
    };
    let items = match get_member(params, "symbols") {
        Some(JsonTree::Array(items)) => items,
        _ => return defaults,
    };
    proof {
        lemma_items_value(items@);
    }
    let ghost vs = items_value(items@);
    let mut out: Vec<String> = Vec::new();
    let mut i: usize = 0;
    while i < items.len()
        invariant
            i <= items.len(),
            vs == items_value(items@),
            vs.len() == items.len(),
            forall|j: int| 0 <= j < items.len() ==> #[trigger] vs[j] == tree_value(items@[j]),
            string_views(out@) == text_items(vs.take(i as int)),
        decreases items.len() - i,
    {
        let ghost before = out@;
        match &items[i] {
            JsonTree::Text(t) => {
                out.push(t.clone());
                assert(string_views(out@) =~= string_views(before).push(t@));
            },
            _ => {},
        }
        assert(vs.take(i + 1).drop_last() =~= vs.take(i as int));
        i = i + 1;
    }
    assert(vs.take(items.len() as int) =~= vs);
    out
}

/// What a market-data plugin does per endpoint: Start starts the stream
/// unless it runs already, Stop stops it, Is Working reports the flag, Data
/// Monitor and Raw Data copy the latest data, and the rest is ignored.
pub proof fn lemma_plugin_actions(id: u32, running: bool)
    ensures
        id == 0 && !running ==> plugin_action_spec(id, running) == PluginAction::StartStream,
        id == 0 && running ==> plugin_action_spec(id, running) == PluginAction::AlreadyRunning,
        id == 1 ==> plugin_action_spec(id, running) == PluginAction::StopStream,
        id == 2 ==> plugin_action_spec(id, running) == PluginAction::ReportRunning,
        id == 4 || id == 5 ==> plugin_action_spec(id, running) == PluginAction::CopyData,
        id == 3 || id > 5 ==> plugin_action_spec(id, running) == PluginAction::Ignore,
{
}

/// The gateway subscribes, for each symbol in lower case and in order, to
/// its book-ticker, 20-level depth and trade streams on the public
/// endpoint, and to its one-second mark-price stream and the liquidation
/// stream of all symbols on the market endpoint.
pub proof fn lemma_gateway_streams(lower: Seq<Seq<char>>)
    ensures
        public_streams(lower).len() == 3 * lower.len(),
        forall|k: int|
            0 <= k < lower.len() ==> {
                &&& #[trigger] public_streams(lower)[3 * k] == lower[k] + "@bookTicker"@
                &&& public_streams(lower)[3 * k + 1] == lower[k] + "@depth20@100ms"@
                &&& public_streams(lower)[3 * k + 2] == lower[k] + "@trade"@
            },
        market_streams(lower).len() == lower.len() + 1,
        forall|k: int| 0 <= k < lower.len() ==> #[trigger] market_streams(lower)[k] == lower[k] + "@markPrice@1s"@,
        market_streams(lower).last() == "!forceOrder@arr"@,
    decreases lower.len(),
{
    if lower.len() > 0 {
        let init = lower.drop_last();
        lemma_gateway_streams(init);
        let p = public_streams(lower);
        let pi = public_streams(init);
        assert forall|k: int| 0 <= k < lower.len() implies {
            &&& #[trigger] p[3 * k] == lower[k] + "@bookTicker"@
            &&& p[3 * k + 1] == lower[k] + "@depth20@100ms"@
            &&& p[3 * k + 2] == lower[k] + "@trade"@
        } by {
            if k < init.len() {
                assert(init[k] == lower[k]);
                assert(pi[3 * k] == init[k] + "@bookTicker"@);
                assert(p[3 * k] == pi[3 * k]);
                assert(p[3 * k + 1] == pi[3 * k + 1]);
                assert(p[3 * k + 2] == pi[3 * k + 2]);
            }
        }
    }
}

} // verus!
