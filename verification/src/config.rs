use vstd::prelude::*;
use vstd::string::StringSliceAdditionalSpecFns;
use crate::json::{
    json_bytes, json_document, items_value, lemma_items_value, member, member_text, parse_json, same_text,
    text_of, tree_value, write_json, JsonTree, JsonValue,
};

verus! {

/// Whether a configuration entry is the one of plugin `id`: an object whose
/// "plugin_name" is that string.
pub open spec fn names_plugin(entry: JsonValue, id: Seq<char>) -> bool {
    text_of(member(entry, "plugin_name"@)) == Some(id)
}

/// The position of the first entry of plugin `id`, or -1.
pub open spec fn first_entry_of(entries: Seq<JsonValue>, id: Seq<char>) -> int
    decreases entries.len(),
{
    if entries.len() == 0 {
        -1
    } else if names_plugin(entries[0], id) {
        0
    } else {
        let r = first_entry_of(entries.drop_first(), id);
        if r < 0 {
            -1
        } else {
            r + 1
        }
    }
}

/// Where the first entry of plugin `id` sits, and that none before it is.
pub proof fn lemma_first_entry_of(entries: Seq<JsonValue>, id: Seq<char>)
    ensures
        -1 <= first_entry_of(entries, id) < entries.len(),
        first_entry_of(entries, id) >= 0 ==> names_plugin(entries[first_entry_of(entries, id)], id),
        forall|j: int|
            0 <= j < entries.len() && (first_entry_of(entries, id) == -1 || j < first_entry_of(entries, id))
                ==> !names_plugin(#[trigger] entries[j], id),
    decreases entries.len(),
{
    if entries.len() > 0 && !names_plugin(entries[0], id) {
        let t = entries.drop_first();
        lemma_first_entry_of(t, id);
        assert forall|j: int|
            0 <= j < entries.len() && (first_entry_of(entries, id) == -1 || j < first_entry_of(entries, id))
                implies !names_plugin(#[trigger] entries[j], id) by {
            if j > 0 {
                assert(entries[j] == t[j - 1]);
            }
        }
    }
}

/// The Start payload of plugin `id` under a configuration text: the first
/// entry of the configuration's array that names the plugin, written as
/// JSON; empty when the text is no array or no entry names it.
pub open spec fn start_payload_spec(config: Seq<u8>, id: Seq<char>) -> Seq<u8> {
    match json_document(config) {
        Some(JsonValue::Array(entries)) => if first_entry_of(entries, id) >= 0 {
            json_bytes(entries[first_entry_of(entries, id)])
        } else {
            Seq::empty()
        },
        _ => Seq::empty(),
    }
}

/// Finds the configuration entry of a plugin and writes it as its Start
/// payload.
pub fn plugin_start_payload(config_text: &str, plugin_id: &str) -> (r: Vec<u8>)
    ensures
        r@ == start_payload_spec(config_text.spec_bytes(), plugin_id@),
{
    match parse_json(config_text.as_bytes()) {
        Some(JsonTree::Array(entries)) => {
            let ghost vs = items_value(entries@);
            proof {
                lemma_items_value(entries@);
                lemma_first_entry_of(vs, plugin_id@);
            }
            let mut i: usize = 0;
            while i < entries.len()
                invariant
                    i <= entries.len(),
                    vs == items_value(entries@),
                    json_document(config_text.spec_bytes()) == Some(JsonValue::Array(vs)),
                    vs.len() == entries.len(),
                    forall|j: int| 0 <= j < entries.len() ==> #[trigger] vs[j] == tree_value(entries@[j]),
                    forall|j: int| 0 <= j < i ==> !names_plugin(#[trigger] vs[j], plugin_id@),
                    -1 <= first_entry_of(vs, plugin_id@) < vs.len(),
                    first_entry_of(vs, plugin_id@) >= 0 ==> names_plugin(vs[first_entry_of(vs, plugin_id@)], plugin_id@),
                    forall|j: int|
                        0 <= j < vs.len() && (first_entry_of(vs, plugin_id@) == -1 || j < first_entry_of(vs, plugin_id@))
                            ==> !names_plugin(#[trigger] vs[j], plugin_id@),
                decreases entries.len() - i,
            {
                let named = match member_text(&entries[i], "plugin_name") {
                    Some(n) => same_text(n.as_str(), plugin_id),
                    None => false,
                };
                assert(named == names_plugin(vs[i as int], plugin_id@));
                if named {
                    assert(first_entry_of(vs, plugin_id@) == i);
                    return write_json(&entries[i]);
                }
                i = i + 1;
            }
            Vec::new()
        },
        _ => Vec::new(),
    }
}

} // verus!
