use vstd::prelude::*;
use crate::plugin_abi::{contains_text, text_contains};
use crate::text::{lowercase_str, lowercased, push_str_chars, str_chars, string_from_chars};
use crate::gateway::string_views;

verus! {

/// The label of a stream whose symbol and interval were never configured.
pub const UNKNOWN_LABEL: &'static str = "Bilinmiyor";

/// Bars read for the core, amplitude and acute analysis windows (each the
/// newest bars, at most this many).
pub const CORE_WINDOW: usize = 100;
pub const AMPLITUDE_WINDOW: usize = 400;
pub const ACUTE_WINDOW: usize = 96;

/// First index of the newest `window` of `len` bars.
pub open spec fn window_start(len: int, window: int) -> int {
    if len <= window {
        0
    } else {
        len - window
    }
}

/// Where the newest `core`, `amplitude` and `acute` bars of a series of
/// `len` bars start.
pub fn window_starts(len: usize, core: usize, amplitude: usize, acute: usize) -> (r: (usize, usize, usize))
    ensures
        r.0 == window_start(len as int, core as int),
        r.1 == window_start(len as int, amplitude as int),
        r.2 == window_start(len as int, acute as int),
{
    let c = if len < core { len } else { core };
    let a = if len < amplitude { len } else { amplitude };
    let q = if len < acute { len } else { acute };
    (len - c, len - a, len - q)
}

/// Where the core, amplitude and acute windows of the plugin start in a
/// series of `len` bars.
pub fn analysis_window_starts(len: usize) -> (r: (usize, usize, usize))
    ensures
        r.0 == window_start(len as int, CORE_WINDOW as int),
        r.1 == window_start(len as int, AMPLITUDE_WINDOW as int),
        r.2 == window_start(len as int, ACUTE_WINDOW as int),
{
    window_starts(len, CORE_WINDOW, AMPLITUDE_WINDOW, ACUTE_WINDOW)
}

/// The stream id of a stand-alone analysis: the lower-case symbol, an
/// underscore and the interval.
pub fn analysis_stream_id(symbol: &str, interval: &str) -> (id: String)
    ensures
        id@ == lowercased(symbol@) + "_"@ + interval@,
{
    let lower = lowercase_str(symbol);
    let mut out = str_chars(lower.as_str());
    push_str_chars(&mut out, "_");
    push_str_chars(&mut out, interval);
    string_from_chars(&out)
}

/// One asset tag ("btc", "eth" or "tac") appears both in `key` and in `out`.
pub open spec fn shares_asset_tag(key: Seq<char>, out: Seq<char>) -> bool {
    ||| contains_text(key, "btc"@) && contains_text(out, "btc"@)
    ||| contains_text(key, "eth"@) && contains_text(out, "eth"@)
    ||| contains_text(key, "tac"@) && contains_text(out, "tac"@)
}

/// A report of input stream `stream_id` for `symbol` is copied to output
/// stream `out` when the two share an asset tag, by the stream id or by the
/// lower-case symbol, or when `out` is the only output stream.
pub open spec fn report_goes_to(stream_id: Seq<char>, symbol: Seq<char>, out: Seq<char>, n_outputs: nat) -> bool {
    shares_asset_tag(stream_id, out) || shares_asset_tag(lowercased(symbol), out) || n_outputs == 1
}

fn shares_tag(key: &str, out: &str) -> (r: bool)
    ensures
        r == shares_asset_tag(key@, out@),
{
    (text_contains(key, "btc") && text_contains(out, "btc")) || (text_contains(key, "eth")
        && text_contains(out, "eth")) || (text_contains(key, "tac") && text_contains(out, "tac"))
}

/// For each output stream, whether the analyzer copies a report of input
/// stream `stream_id` for `symbol` to it.
pub fn report_routes(stream_id: &str, symbol: &str, outputs: &Vec<String>) -> (targets: Vec<bool>)
    ensures
        targets.len() == outputs.len(),
        forall|i: int|
            0 <= i < outputs.len() ==> targets[i] == report_goes_to(
                stream_id@,
                symbol@,
                #[trigger] string_views(outputs@)[i],
                outputs.len() as nat,
            ),
{
    let lower = lowercase_str(symbol);
    let n = outputs.len();
    let mut targets: Vec<bool> = Vec::new();
    let mut i: usize = 0;
    while i < n
        invariant
            i <= n == outputs.len(),
            lower@ == lowercased(symbol@),
            targets.len() == i,
            forall|k: int|
                0 <= k < i ==> targets[k] == report_goes_to(
                    stream_id@,
                    symbol@,
                    #[trigger] string_views(outputs@)[k],
                    n as nat,
                ),
        decreases n - i,
    {
        let out = outputs[i].as_str();
        let t = shares_tag(stream_id, out) || shares_tag(lower.as_str(), out) || n == 1;
        targets.push(t);
        proof {
            assert(string_views(outputs@)[i as int] == outputs@[i as int]@);
        }
        i = i + 1;
    }
    targets
}

/// A report reaches an output stream exactly when the output is the only
/// one, or when one of the asset tags "btc", "eth", "tac" appears in the
/// output's name and in the input stream id or the lower-case symbol.
pub proof fn lemma_reports_follow_asset_tags(stream_id: Seq<char>, symbol: Seq<char>, out: Seq<char>, n_outputs: nat)
    ensures
        (contains_text(stream_id, "btc"@) || contains_text(lowercased(symbol), "btc"@)) && contains_text(out, "btc"@)
            ==> report_goes_to(stream_id, symbol, out, n_outputs),
        (contains_text(stream_id, "eth"@) || contains_text(lowercased(symbol), "eth"@)) && contains_text(out, "eth"@)
            ==> report_goes_to(stream_id, symbol, out, n_outputs),
        (contains_text(stream_id, "tac"@) || contains_text(lowercased(symbol), "tac"@)) && contains_text(out, "tac"@)
            ==> report_goes_to(stream_id, symbol, out, n_outputs),
        n_outputs == 1 ==> report_goes_to(stream_id, symbol, out, n_outputs),
        report_goes_to(stream_id, symbol, out, n_outputs) ==> n_outputs == 1
            || ((contains_text(stream_id, "btc"@) || contains_text(lowercased(symbol), "btc"@)) && contains_text(out, "btc"@))
            || ((contains_text(stream_id, "eth"@) || contains_text(lowercased(symbol), "eth"@)) && contains_text(out, "eth"@))
            || ((contains_text(stream_id, "tac"@) || contains_text(lowercased(symbol), "tac"@)) && contains_text(out, "tac"@)),
{
}

} // verus!
