use vstd::prelude::*;
use crate::json::{copy_tree, get_member, json_document, member, parse_json, tree_value, JsonTree, JsonValue};
use crate::json_value::parse_u64_text;
use crate::text::parse_u64_spec;

verus! {

/// The parameters of a plugin configuration: its "plugin_params" member,
/// or the configuration itself when it has none.
pub open spec fn params_value(config: JsonValue) -> JsonValue {
    match member(config, "plugin_params"@) {
        Some(p) => p,
        None => config,
    }
}

/// The parameters a Start payload carries: none for an empty payload or one
/// that is no document.
pub open spec fn start_params_spec(payload: Seq<u8>) -> Option<JsonValue> {
    if payload.len() == 0 {
        None
    } else {
        match json_document(payload) {
            Some(config) => Some(params_value(config)),
            None => None,
        }
    }
}

/// Reads the parameters of a plugin's Start payload.
pub fn start_params(payload: &[u8]) -> (r: Option<JsonTree>)
    ensures
        r matches Some(t) ==> start_params_spec(payload@) == Some(tree_value(t)),
        r is None <==> start_params_spec(payload@) is None,
{
    if payload.len() == 0 {
        return None;
    }
    match parse_json(payload) {
        Some(config) => match get_member(&config, "plugin_params") {
            Some(p) => Some(copy_tree(p)),
            None => Some(config),
        },
        None => None,
    }
}

/// A value read as an unsigned 64-bit integer: a number whose text is one.
pub open spec fn u64_of(v: Option<JsonValue>) -> Option<u64> {
    match v {
        Some(JsonValue::Number(s)) => parse_u64_spec(s),
        _ => None,
    }
}

/// The parameter `key` as an unsigned 64-bit integer.
pub open spec fn param_of(params: JsonValue, key: Seq<char>) -> Option<u64> {
    u64_of(member(params, key))
}

/// Reads the parameter `key` as an unsigned 64-bit integer.
pub fn param_u64(params: &JsonTree, key: &str) -> (r: Option<u64>)
    ensures
        r == param_of(tree_value(*params), key@),
{
    match get_member(params, key) {
        Some(JsonTree::Number(s)) => parse_u64_text(s.as_str()),
        _ => None,
    }
}

/// The member `first`, or else, where aliases are read, the member
/// `second`.
pub open spec fn first_member(params: JsonValue, first: Seq<char>, second: Seq<char>, aliased: bool) -> Option<JsonValue> {
    match member(params, first) {
        Some(x) => Some(x),
        None => if aliased {
            member(params, second)
        } else {
            None
        },
    }
}

/// A measuring window offered by a Start payload.
#[derive(Debug, Clone, Copy, PartialEq, Eq, Structural)]
pub enum WindowParam {
    /// A window in milliseconds.
    Millis(u64),
    /// No window offered.
    Unset,
    /// A window in seconds whose milliseconds exceed the 64-bit range.
    TooLarge,
}

/// The window the parameters offer: "window_ms" (or, with aliases,
/// "interval_ms") in milliseconds, else "window_secs" (or "interval_secs")
/// in seconds.
pub open spec fn window_param_spec(params: JsonValue, aliased: bool) -> WindowParam {
    match u64_of(first_member(params, "window_ms"@, "interval_ms"@, aliased)) {
        Some(ms) => WindowParam::Millis(ms),
        None => match u64_of(first_member(params, "window_secs"@, "interval_secs"@, aliased)) {
            Some(secs) => if secs * 1000 <= u64::MAX {
                WindowParam::Millis((secs * 1000) as u64)
            } else {
                WindowParam::TooLarge
            },
            None => WindowParam::Unset,
        },
    }
}

/// The member `first`, or else, where aliases are read, the member
/// `second`, as an unsigned 64-bit integer.
fn aliased_u64(params: &JsonTree, first: &str, second: &str, aliased: bool) -> (r: Option<u64>)
    ensures
        r == u64_of(first_member(tree_value(*params), first@, second@, aliased)),
{
    let found = match get_member(params, first) {
        Some(x) => Some(x),
        None => if aliased {
            get_member(params, second)
        } else {
            None
        },
    };
    match found {
        Some(JsonTree::Number(s)) => parse_u64_text(s.as_str()),
        _ => None,
    }
}

/// Reads the window the parameters offer.
pub fn window_param(params: &JsonTree, aliased: bool) -> (r: WindowParam)
    ensures
        r == window_param_spec(tree_value(*params), aliased),
{
    match aliased_u64(params, "window_ms", "interval_ms", aliased) {
        Some(ms) => WindowParam::Millis(ms),
        None => match aliased_u64(params, "window_secs", "interval_secs", aliased) {
            Some(secs) => match secs.checked_mul(1000) {
                Some(ms) => WindowParam::Millis(ms),
                None => WindowParam::TooLarge,
            },
            None => WindowParam::Unset,
        },
    }
}

/// A Start payload's window: "window_ms" in milliseconds when it is an
/// unsigned integer, else "window_secs" in seconds (a thousand
/// milliseconds each); with aliases, "interval_ms" and "interval_secs"
/// stand in for keys that are absent.
pub proof fn lemma_window_param_units(params: JsonValue, aliased: bool)
    ensures
        param_of(params, "window_ms"@) is Some ==> window_param_spec(params, aliased) == WindowParam::Millis(
            param_of(params, "window_ms"@)->0,
        ),
        member(params, "window_ms"@) is None && (!aliased || member(params, "interval_ms"@) is None) && param_of(params, "window_secs"@) is Some
            && param_of(params, "window_secs"@)->0 * 1000 <= u64::MAX ==> window_param_spec(params, aliased)
            == WindowParam::Millis((param_of(params, "window_secs"@)->0 * 1000) as u64),
        aliased && member(params, "window_ms"@) is None && param_of(params, "interval_ms"@) is Some ==> window_param_spec(
            params,
            aliased,
        ) == WindowParam::Millis(param_of(params, "interval_ms"@)->0),
        member(params, "window_ms"@) is None && (!aliased || member(params, "interval_ms"@) is None) && member(params, "window_secs"@) is None && (
        !aliased || member(params, "interval_secs"@) is None) ==> window_param_spec(params, aliased) == WindowParam::Unset,
{
}

} // verus!
