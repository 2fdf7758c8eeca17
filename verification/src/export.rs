use vstd::prelude::*;
use vstd::utf8::{decode_utf8, valid_utf8};
use crate::json::{json_document, json_pretty_bytes, members_value, parse_json, push_field, tree_value, write_json_pretty, JsonTree, JsonValue};
use crate::plugin_abi::utf8_text;
use crate::text::{str_chars, trim_str, trimmed};

verus! {

/// The text of a buffer, when it is UTF-8 whose trimmed text is not empty.
pub open spec fn readable_text(data: Seq<u8>) -> Option<Seq<char>> {
    if valid_utf8(data) && trimmed(decode_utf8(data)).len() > 0 {
        Some(decode_utf8(data))
    } else {
        None
    }
}

/// The document exported for a plugin's output buffer: the buffer's own
/// document, or else an object naming the plugin and holding its trimmed
/// text.
pub open spec fn exported_document(plugin_id: Seq<char>, data: Seq<u8>) -> Option<JsonValue> {
    match json_document(data) {
        Some(v) => Some(v),
        None => match readable_text(data) {
            Some(t) => Some(
                JsonValue::Object(
                    Seq::empty().push(("plugin"@, JsonValue::Text(plugin_id))).push(
                        ("raw_output"@, JsonValue::Text(trimmed(t))),
                    ),
                ),
            ),
            None => None,
        },
    }
}

/// The pretty-printed JSON file exported for a plugin's output buffer, or
/// `None` when the buffer is neither a document nor readable text.
pub fn export_json(plugin_id: &str, data: &[u8]) -> (r: Option<Vec<u8>>)
    ensures
        r matches Some(v) ==> exported_document(plugin_id@, data@) matches Some(d) && v@ == json_pretty_bytes(d),
        r is None <==> exported_document(plugin_id@, data@) is None,
{
    match parse_json(data) {
        Some(doc) => Some(write_json_pretty(&doc)),
        None => match utf8_text(data) {
            Some(text) => {
                let t = trim_str(text);
                if str_chars(t).len() == 0 {
                    None
                } else {
                    let mut fields: Vec<(String, JsonTree)> = Vec::new();
                    assert(members_value(fields@) =~= Seq::empty());
                    push_field(&mut fields, "plugin", JsonTree::Text(plugin_id.to_string()));
                    push_field(&mut fields, "raw_output", JsonTree::Text(t.to_string()));
                    Some(write_json_pretty(&JsonTree::Object(fields)))
                }
            },
            None => None,
        },
    }
}

/// How a plugin's memory buffer is shown.
#[derive(Debug)]
pub enum MemoryText {
    /// The buffer is a document: its pretty-printed JSON.
    Json(Vec<u8>),
    /// The buffer is readable text.
    Text(String),
    /// Nothing to show.
    Nothing,
}

/// Reads a plugin's memory buffer for display: as a pretty-printed
/// document, else as its text when that is UTF-8 and not blank.
pub fn memory_text(data: &[u8]) -> (r: MemoryText)
    ensures
        r matches MemoryText::Json(v) ==> json_document(data@) matches Some(d) && v@ == json_pretty_bytes(d),
        r matches MemoryText::Text(s) ==> json_document(data@) is None && readable_text(data@) == Some(s@),
        r is Nothing <==> json_document(data@) is None && readable_text(data@) is None,
{
    match parse_json(data) {
        Some(doc) => MemoryText::Json(write_json_pretty(&doc)),
        None => match utf8_text(data) {
            Some(text) => {
                if str_chars(trim_str(text)).len() == 0 {
                    MemoryText::Nothing
                } else {
                    MemoryText::Text(text.to_string())
                }
            },
            None => MemoryText::Nothing,
        },
    }
}

} // verus!
