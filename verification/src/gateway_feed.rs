use vstd::prelude::*;
use vstd::string::StringSliceAdditionalSpecFns;
use crate::gateway::{
    before_first, classify_gateway_event, depth_symbol, ends_with_text, gateway_event_spec, GatewayEvent,
    LIQUIDATION_HISTORY_LIMIT,
};
use crate::history::capped_push;
use crate::json::{
    bool_member, bool_or_false, find_member, int_member, int_or_zero, int_tree, int_value, json_document,
    json_pretty_bytes, key_index, lemma_key_index, lemma_members_value, lemma_put_member_reads, lemma_members_value_update, member,
    member_copy, member_or_null, member_text, members_value, parse_json, push_field, put_member, set_member,
    text_field, text_of, text_or, tree_value, write_json_pretty, get_member, items_value, lemma_items_value,
    JsonTree, JsonValue,
};
use crate::text::{lowercased, uppercased};

verus! {

/// An empty object.
pub open spec fn empty_object() -> JsonValue {
    JsonValue::Object(Seq::empty())
}

/// Members with `key` added, holding `v`, unless one of that name is there.
pub open spec fn ensure_member(ms: Seq<(Seq<char>, JsonValue)>, key: Seq<char>, v: JsonValue) -> Seq<(Seq<char>, JsonValue)> {
    if key_index(ms, key) >= 0 {
        ms
    } else {
        ms.push((key, v))
    }
}

/// The snapshot's members with every stream group present: the mark
/// price, best price, aggregate trade and depth groups as objects and the
/// liquidations as a list, where the snapshot has none of that name.
pub open spec fn with_groups(ms: Seq<(Seq<char>, JsonValue)>) -> Seq<(Seq<char>, JsonValue)> {
    let a = ensure_member(ms, "stream_markprice"@, empty_object());
    let b = ensure_member(a, "stream_bestprice"@, empty_object());
    let c = ensure_member(b, "stream_liquidations"@, JsonValue::Array(Seq::empty()));
    let d = ensure_member(c, "stream_aggtrades"@, empty_object());
    ensure_member(d, "stream_depth"@, empty_object())
}

/// The members of the snapshot document, when it is an object; none
/// otherwise.
pub open spec fn base_members(snapshot: Seq<u8>) -> Seq<(Seq<char>, JsonValue)> {
    match json_document(snapshot) {
        Some(JsonValue::Object(ms)) => ms,
        _ => Seq::empty(),
    }
}

/// Members after filing `v` under `key` in group `group`: a null (or
/// missing) group becomes an object holding just that entry, an object
/// group gets the entry set; a group of any other kind cannot hold it.
pub open spec fn set_in_group(
    ms: Seq<(Seq<char>, JsonValue)>,
    group: Seq<char>,
    key: Seq<char>,
    v: JsonValue,
) -> Option<Seq<(Seq<char>, JsonValue)>> {
    match member(JsonValue::Object(ms), group) {
        None => Some(put_member(ms, group, JsonValue::Object(seq![(key, v)]))),
        Some(JsonValue::Null) => Some(put_member(ms, group, JsonValue::Object(seq![(key, v)]))),
        Some(JsonValue::Object(gm)) => Some(put_member(ms, group, JsonValue::Object(put_member(gm, key, v)))),
        _ => None,
    }
}

/// The entry filed for a forced liquidation.
pub open spec fn liquidation_entry(data: JsonValue, order: JsonValue, recv_ms: i64) -> JsonValue {
    JsonValue::Object(
        Seq::empty()
            .push(("symbol"@, JsonValue::Text(text_or(order, "s"@, ""@))))
            .push(("side"@, JsonValue::Text(text_or(order, "S"@, ""@))))
            .push(("type"@, JsonValue::Text(text_or(order, "o"@, ""@))))
            .push(("price"@, JsonValue::Text(text_or(order, "p"@, "0"@))))
            .push(("average_price"@, JsonValue::Text(text_or(order, "ap"@, "0"@))))
            .push(("original_qty"@, JsonValue::Text(text_or(order, "q"@, "0"@))))
            .push(("filled_qty"@, JsonValue::Text(text_or(order, "z"@, "0"@))))
            .push(("event_time"@, int_value(int_or_zero(data, "E"@))))
            .push(("local_recv_time_ms"@, int_value(recv_ms))),
    )
}

/// The entry filed for a mark price update.
pub open spec fn mark_price_entry(data: JsonValue, recv_ms: i64) -> JsonValue {
    JsonValue::Object(
        Seq::empty()
            .push(("mark_price"@, JsonValue::Text(text_or(data, "p"@, "0"@))))
            .push(("index_price"@, JsonValue::Text(text_or(data, "i"@, "0"@))))
            .push(("estimated_settle_price"@, JsonValue::Text(text_or(data, "P"@, "0"@))))
            .push(("funding_rate"@, JsonValue::Text(text_or(data, "r"@, "0"@))))
            .push(("next_funding_time"@, int_value(int_or_zero(data, "T"@))))
            .push(("event_time"@, int_value(int_or_zero(data, "E"@))))
            .push(("local_recv_time_ms"@, int_value(recv_ms))),
    )
}

/// The entry filed for a best bid / ask update.
pub open spec fn best_price_entry(data: JsonValue, recv_ms: i64) -> JsonValue {
    JsonValue::Object(
        Seq::empty()
            .push(("best_bid"@, JsonValue::Text(text_or(data, "b"@, "0"@))))
            .push(("best_bid_qty"@, JsonValue::Text(text_or(data, "B"@, "0"@))))
            .push(("best_ask"@, JsonValue::Text(text_or(data, "a"@, "0"@))))
            .push(("best_ask_qty"@, JsonValue::Text(text_or(data, "A"@, "0"@))))
            .push(("event_time"@, int_value(int_or_zero(data, "E"@))))
            .push(("local_recv_time_ms"@, int_value(recv_ms))),
    )
}

/// The entry filed for a trade.
pub open spec fn trade_entry(data: JsonValue, recv_ms: i64) -> JsonValue {
    JsonValue::Object(
        Seq::empty()
            .push(("trade_id"@, int_value(int_or_zero(data, "t"@))))
            .push(("price"@, JsonValue::Text(text_or(data, "p"@, "0"@))))
            .push(("quantity"@, JsonValue::Text(text_or(data, "q"@, "0"@))))
            .push(("buyer_is_maker"@, JsonValue::Bool(bool_or_false(data, "m"@))))
            .push(("event_time"@, int_value(int_or_zero(data, "E"@))))
            .push(("local_recv_time_ms"@, int_value(recv_ms))),
    )
}

/// The entry filed for an order book snapshot.
pub open spec fn depth_entry(data: JsonValue, recv_ms: i64) -> JsonValue {
    JsonValue::Object(
        Seq::empty()
            .push(("bids"@, member_or_null(data, "b"@)))
            .push(("asks"@, member_or_null(data, "a"@)))
            .push(("last_update_id"@, int_value(int_or_zero(data, "lastUpdateId"@))))
            .push(("event_time"@, int_value(int_or_zero(data, "E"@))))
            .push(("local_recv_time_ms"@, int_value(recv_ms))),
    )
}

/// The snapshot's members after filing one message's `data`, received on
/// `stream`; `None` where the group it belongs in holds neither an object
/// nor null.
pub open spec fn filed_members(
    ms: Seq<(Seq<char>, JsonValue)>,
    data: JsonValue,
    stream: Seq<char>,
    recv_ms: i64,
) -> Option<Seq<(Seq<char>, JsonValue)>> {
    let symbol = text_or(data, "s"@, ""@);
    match gateway_event_spec(text_or(data, "e"@, ""@), stream) {
        GatewayEvent::Liquidation => match member(data, "o"@) {
            Some(order) => match member(JsonValue::Object(ms), "stream_liquidations"@) {
                Some(JsonValue::Array(items)) => Some(
                    put_member(
                        ms,
                        "stream_liquidations"@,
                        JsonValue::Array(
                            capped_push(items, liquidation_entry(data, order, recv_ms), LIQUIDATION_HISTORY_LIMIT as nat),
                        ),
                    ),
                ),
                _ => Some(ms),
            },
            None => Some(ms),
        },
        GatewayEvent::MarkPrice => set_in_group(ms, "stream_markprice"@, symbol, mark_price_entry(data, recv_ms)),
        GatewayEvent::BestPrice => set_in_group(ms, "stream_bestprice"@, symbol, best_price_entry(data, recv_ms)),
        GatewayEvent::Trade => set_in_group(ms, "stream_aggtrades"@, symbol, trade_entry(data, recv_ms)),
        GatewayEvent::Depth => set_in_group(
            ms,
            "stream_depth"@,
            uppercased(before_first(stream, '@')),
            depth_entry(data, recv_ms),
        ),
        GatewayEvent::Other => Some(ms),
    }
}

/// The gateway's snapshot after one message of the combined market stream
/// arrives at `recv_ms`: a message that is no document, or lacks a
/// "stream" string or "data", leaves the snapshot as it was; otherwise
/// the snapshot (an empty object where it is none) gets every stream group
/// and the message filed, and is written out pretty-printed.  `None` where
/// the group the message belongs in holds neither an object nor null.
pub open spec fn gateway_filing(snapshot: Seq<u8>, text: Seq<u8>, recv_ms: i64) -> Option<Seq<u8>> {
    match json_document(text) {
        Some(wrapper) => match text_of(member(wrapper, "stream"@)) {
            Some(stream) => match member(wrapper, "data"@) {
                Some(data) => match filed_members(with_groups(base_members(snapshot)), data, stream, recv_ms) {
                    Some(ms) => Some(json_pretty_bytes(JsonValue::Object(ms))),
                    None => None,
                },
                None => Some(snapshot),
            },
            None => Some(snapshot),
        },
        None => Some(snapshot),
    }
}

/// Adds a stream group holding `v` unless the snapshot has one of that
/// name.
fn ensure_group(fields: &mut Vec<(String, JsonTree)>, key: &str, v: JsonTree)
    ensures
        members_value(final(fields)@) == ensure_member(members_value(old(fields)@), key@, tree_value(v)),
{
    match find_member(fields, key) {
        Some(_) => {},
        None => push_field(fields, key, v),
    }
}

/// The members of a one-entry object.
fn single_entry(key: String, v: JsonTree) -> (r: Vec<(String, JsonTree)>)
    ensures
        members_value(r@) == seq![(key@, tree_value(v))],
{
    let mut g: Vec<(String, JsonTree)> = Vec::new();
    let ghost before = g@;
    g.push((key, v));
    proof {
        assert(g@.drop_last() =~= before);
        assert(members_value(before) =~= Seq::<(Seq<char>, JsonValue)>::empty());
        assert(members_value(g@) =~= seq![(g@[0].0@, tree_value(g@[0].1))]);
    }
    g
}

/// Files `v` under `key` in group `group`; false, with the members as they
/// were, where the group is neither an object nor null.
fn file_in_group(fields: &mut Vec<(String, JsonTree)>, group: &str, key: String, v: JsonTree) -> (ok: bool)
    ensures
        ok == set_in_group(members_value(old(fields)@), group@, key@, tree_value(v)) is Some,
        ok ==> Some(members_value(final(fields)@)) == set_in_group(members_value(old(fields)@), group@, key@, tree_value(v)),
{
    let ghost before = fields@;
    let ghost ms = members_value(fields@);
    proof {
        lemma_members_value(fields@);
        lemma_key_index(ms, group@);
    }
    match find_member(fields, group) {
        None => {
            let g = single_entry(key, v);
            set_member(fields, group.to_string(), JsonTree::Object(g));
            true
        },
        Some(i) => {
            let (gk, gv) = fields.remove(i);
            assert(gk@ == group@);
            match gv {
                JsonTree::Null => {
                    let g = single_entry(key, v);
                    fields.insert(i, (gk, JsonTree::Object(g)));
                    proof {
                        assert(fields@ =~= before.update(i as int, fields@[i as int]));
                        lemma_members_value_update(before, i as int, fields@[i as int]);
                    }
                    true
                },
                JsonTree::Object(mut gm) => {
                    set_member(&mut gm, key, v);
                    fields.insert(i, (gk, JsonTree::Object(gm)));
                    proof {
                        assert(fields@ =~= before.update(i as int, fields@[i as int]));
                        lemma_members_value_update(before, i as int, fields@[i as int]);
                    }
                    true
                },
                other => {
                    fields.insert(i, (gk, other));
                    proof {
                        assert(fields@ =~= before);
                    }
                    false
                },
            }
        },
    }
}

/// The values of a list with its first item dropped or an item appended.
proof fn lemma_items_value_edits(s: Seq<JsonTree>, x: JsonTree)
    ensures
        items_value(s.push(x)) == items_value(s).push(tree_value(x)),
        s.len() > 0 ==> items_value(s.drop_first()) == items_value(s).drop_first(),
{
    assert(s.push(x).drop_last() =~= s);
    if s.len() > 0 {
        lemma_items_value(s);
        lemma_items_value(s.drop_first());
        assert(items_value(s.drop_first()) =~= items_value(s).drop_first());
    }
}

/// Appends a liquidation entry to the snapshot's list of them, keeping the
/// newest `LIQUIDATION_HISTORY_LIMIT`; a snapshot whose liquidations are no
/// list is left as it was.
fn file_liquidation(fields: &mut Vec<(String, JsonTree)>, entry: JsonTree)
    ensures
        members_value(final(fields)@) == (match member(JsonValue::Object(members_value(old(fields)@)), "stream_liquidations"@) {
            Some(JsonValue::Array(items)) => put_member(
                members_value(old(fields)@),
                "stream_liquidations"@,
                JsonValue::Array(capped_push(items, tree_value(entry), LIQUIDATION_HISTORY_LIMIT as nat)),
            ),
            _ => members_value(old(fields)@),
        }),
{
    let ghost before = fields@;
    let ghost ms = members_value(fields@);
    proof {
        lemma_members_value(fields@);
        lemma_key_index(ms, "stream_liquidations"@);
    }
    match find_member(fields, "stream_liquidations") {
        None => {},
        Some(i) => {
            let (gk, gv) = fields.remove(i);
            match gv {
                JsonTree::Array(mut items) => {
                    let ghost old_items = items@;
                    let ghost tv = tree_value(entry);
                    proof {
                        lemma_items_value_edits(old_items, entry);
                    }
                    if items.len() >= LIQUIDATION_HISTORY_LIMIT {
                        let _ = items.remove(0);
                        let ghost dropped = items@;
                        proof {
                            assert(dropped =~= old_items.drop_first());
                            lemma_items_value_edits(dropped, entry);
                            lemma_items_value(old_items);
                        }
                        items.push(entry);
                        proof {
                            assert(items@ =~= dropped.push(items@.last()));
                            assert(items_value(items@) =~= capped_push(items_value(old_items), tv, LIQUIDATION_HISTORY_LIMIT as nat));
                        }
                    } else {
                        items.push(entry);
                        proof {
                            lemma_items_value(old_items);
                            assert(items@ =~= old_items.push(items@.last()));
                            assert(items_value(items@) =~= capped_push(items_value(old_items), tv, LIQUIDATION_HISTORY_LIMIT as nat));
                        }
                    }
                    fields.insert(i, (gk, JsonTree::Array(items)));
                    proof {
                        assert(fields@ =~= before.update(i as int, fields@[i as int]));
                        lemma_members_value_update(before, i as int, fields@[i as int]);
                    }
                },
                other => {
                    fields.insert(i, (gk, other));
                    proof {
                        assert(fields@ =~= before);
                    }
                },
            }
        },
    }
}

/// Builds the entry filed for a forced liquidation.
fn liquidation_tree(data: &JsonTree, order: &JsonTree, recv_ms: i64) -> (r: JsonTree)
    ensures
        tree_value(r) == liquidation_entry(tree_value(*data), tree_value(*order), recv_ms),
{
    let mut f: Vec<(String, JsonTree)> = Vec::new();
    assert(members_value(f@) =~= Seq::empty());
    push_field(&mut f, "symbol", text_field(order, "s", ""));
    push_field(&mut f, "side", text_field(order, "S", ""));
    push_field(&mut f, "type", text_field(order, "o", ""));
    push_field(&mut f, "price", text_field(order, "p", "0"));
    push_field(&mut f, "average_price", text_field(order, "ap", "0"));
    push_field(&mut f, "original_qty", text_field(order, "q", "0"));
    push_field(&mut f, "filled_qty", text_field(order, "z", "0"));
    push_field(&mut f, "event_time", int_tree(int_member(data, "E")));
    push_field(&mut f, "local_recv_time_ms", int_tree(recv_ms));
    JsonTree::Object(f)
}

/// Builds the entry filed for a mark price update.
fn mark_price_tree(data: &JsonTree, recv_ms: i64) -> (r: JsonTree)
    ensures
        tree_value(r) == mark_price_entry(tree_value(*data), recv_ms),
{
    let mut f: Vec<(String, JsonTree)> = Vec::new();
    assert(members_value(f@) =~= Seq::empty());
    push_field(&mut f, "mark_price", text_field(data, "p", "0"));
    push_field(&mut f, "index_price", text_field(data, "i", "0"));
    push_field(&mut f, "estimated_settle_price", text_field(data, "P", "0"));
    push_field(&mut f, "funding_rate", text_field(data, "r", "0"));
    push_field(&mut f, "next_funding_time", int_tree(int_member(data, "T")));
    push_field(&mut f, "event_time", int_tree(int_member(data, "E")));
    push_field(&mut f, "local_recv_time_ms", int_tree(recv_ms));
    JsonTree::Object(f)
}

/// Builds the entry filed for a best bid / ask update.
fn best_price_tree(data: &JsonTree, recv_ms: i64) -> (r: JsonTree)
    ensures
        tree_value(r) == best_price_entry(tree_value(*data), recv_ms),
{
    let mut f: Vec<(String, JsonTree)> = Vec::new();
    assert(members_value(f@) =~= Seq::empty());
    push_field(&mut f, "best_bid", text_field(data, "b", "0"));
    push_field(&mut f, "best_bid_qty", text_field(data, "B", "0"));
    push_field(&mut f, "best_ask", text_field(data, "a", "0"));
    push_field(&mut f, "best_ask_qty", text_field(data, "A", "0"));
    push_field(&mut f, "event_time", int_tree(int_member(data, "E")));
    push_field(&mut f, "local_recv_time_ms", int_tree(recv_ms));
    JsonTree::Object(f)
}

/// Builds the entry filed for a trade.
fn trade_tree(data: &JsonTree, recv_ms: i64) -> (r: JsonTree)
    ensures
        tree_value(r) == trade_entry(tree_value(*data), recv_ms),
{
    let mut f: Vec<(String, JsonTree)> = Vec::new();
    assert(members_value(f@) =~= Seq::empty());
    push_field(&mut f, "trade_id", int_tree(int_member(data, "t")));
    push_field(&mut f, "price", text_field(data, "p", "0"));
    push_field(&mut f, "quantity", text_field(data, "q", "0"));
    push_field(&mut f, "buyer_is_maker", JsonTree::Bool(bool_member(data, "m")));
    push_field(&mut f, "event_time", int_tree(int_member(data, "E")));
    push_field(&mut f, "local_recv_time_ms", int_tree(recv_ms));
    JsonTree::Object(f)
}

/// Builds the entry filed for an order book snapshot.
fn depth_tree(data: &JsonTree, recv_ms: i64) -> (r: JsonTree)
    ensures
        tree_value(r) == depth_entry(tree_value(*data), recv_ms),
{
    let mut f: Vec<(String, JsonTree)> = Vec::new();
    assert(members_value(f@) =~= Seq::empty());
    push_field(&mut f, "bids", member_copy(data, "b"));
    push_field(&mut f, "asks", member_copy(data, "a"));
    push_field(&mut f, "last_update_id", int_tree(int_member(data, "lastUpdateId")));
    push_field(&mut f, "event_time", int_tree(int_member(data, "E")));
    push_field(&mut f, "local_recv_time_ms", int_tree(recv_ms));
    JsonTree::Object(f)
}

/// The filing of one message, or `None` where the group it belongs in
/// holds neither an object nor null.
fn file_message(snapshot: &[u8], text: &str, recv_ms: i64) -> (r: Option<Vec<u8>>)
    ensures
        r matches Some(v) ==> gateway_filing(snapshot@, text.spec_bytes(), recv_ms) == Some(v@),
        r is None ==> gateway_filing(snapshot@, text.spec_bytes(), recv_ms) is None,
{
    let wrapper = match parse_json(text.as_bytes()) {
        Some(w) => w,
        None => return Some(vstd::slice::slice_to_vec(snapshot)),
    };
    let stream = match member_text(&wrapper, "stream") {
        Some(s) => s,
        None => return Some(vstd::slice::slice_to_vec(snapshot)),
    };
    let data = match get_member(&wrapper, "data") {
        Some(d) => d,
        None => return Some(vstd::slice::slice_to_vec(snapshot)),
    };
    let mut fields: Vec<(String, JsonTree)> = match parse_json(snapshot) {
        Some(JsonTree::Object(m)) => m,
        _ => Vec::new(),
    };
    assert(members_value(fields@) == base_members(snapshot@));
    ensure_group(&mut fields, "stream_markprice", JsonTree::Object(Vec::new()));
    ensure_group(&mut fields, "stream_bestprice", JsonTree::Object(Vec::new()));
    ensure_group(&mut fields, "stream_liquidations", JsonTree::Array(Vec::new()));
    ensure_group(&mut fields, "stream_aggtrades", JsonTree::Object(Vec::new()));
    ensure_group(&mut fields, "stream_depth", JsonTree::Object(Vec::new()));
    proof {
        assert(members_value(Seq::<(String, JsonTree)>::empty()) =~= Seq::empty());
        assert(items_value(Seq::<JsonTree>::empty()) =~= Seq::empty());
    }
    let event_type = text_field(data, "e", "");
    let symbol = match text_field(data, "s", "") {
        JsonTree::Text(s) => s,
        _ => String::new(),
    };
    let kind = match &event_type {
        JsonTree::Text(e) => classify_gateway_event(e.as_str(), stream.as_str()),
        _ => GatewayEvent::Other,
    };
    let ok = match kind {
        GatewayEvent::Liquidation => {
            match get_member(data, "o") {
                Some(order) => {
                    let entry = liquidation_tree(data, order, recv_ms);
                    file_liquidation(&mut fields, entry);
                },
                None => {},
            }
            true
        },
        GatewayEvent::MarkPrice => file_in_group(&mut fields, "stream_markprice", symbol, mark_price_tree(data, recv_ms)),
        GatewayEvent::BestPrice => file_in_group(&mut fields, "stream_bestprice", symbol, best_price_tree(data, recv_ms)),
        GatewayEvent::Trade => file_in_group(&mut fields, "stream_aggtrades", symbol, trade_tree(data, recv_ms)),
        GatewayEvent::Depth => {
            let key = depth_symbol(stream.as_str());
            file_in_group(&mut fields, "stream_depth", key, depth_tree(data, recv_ms))
        },
        GatewayEvent::Other => true,
    };
    if ok {
        Some(write_json_pretty(&JsonTree::Object(fields)))
    } else {
        None
    }
}

/// Whether a message can be filed into the snapshot: false only where the
/// group it belongs in holds neither an object nor null.
pub fn gateway_message_fileable(snapshot: &[u8], text: &str, recv_ms: i64) -> (r: bool)
    ensures
        r == gateway_filing(snapshot@, text.spec_bytes(), recv_ms) is Some,
{
    file_message(snapshot, text, recv_ms).is_some()
}

/// Files one message of the combined market stream, received at
/// `recv_ms`, into the gateway's JSON snapshot and gives the new snapshot.
pub fn file_gateway_message(snapshot: &[u8], text: &str, recv_ms: i64) -> (r: Vec<u8>)
    requires
        gateway_filing(snapshot@, text.spec_bytes(), recv_ms) is Some,
    ensures
        Some(r@) == gateway_filing(snapshot@, text.spec_bytes(), recv_ms),
{
    match file_message(snapshot, text, recv_ms) {
        Some(v) => v,
        None => vstd::slice::slice_to_vec(snapshot),
    }
}

/// Files one message as `file_gateway_message` does, or gives `None` where
/// the group the message belongs in holds neither an object nor null.
pub fn try_file_gateway_message(snapshot: &[u8], text: &str, recv_ms: i64) -> (r: Option<Vec<u8>>)
    ensures
        r matches Some(v) ==> gateway_filing(snapshot@, text.spec_bytes(), recv_ms) == Some(v@),
        r is None <==> gateway_filing(snapshot@, text.spec_bytes(), recv_ms) is None,
{
    if gateway_message_fileable(snapshot, text, recv_ms) {
        Some(file_gateway_message(snapshot, text, recv_ms))
    } else {
        None
    }
}

/// Filing an entry into a stream group files it under its key there, and
/// leaves every other group of the snapshot as it was.
pub proof fn lemma_group_filing_reads(
    ms: Seq<(Seq<char>, JsonValue)>,
    group: Seq<char>,
    key: Seq<char>,
    v: JsonValue,
    other: Seq<char>,
)
    requires
        set_in_group(ms, group, key, v) is Some,
    ensures
        ({
            let filed = JsonValue::Object(set_in_group(ms, group, key, v)->0);
            &&& member(filed, group) matches Some(g) && member(g, key) == Some(v)
            &&& other != group ==> member(filed, other) == member(JsonValue::Object(ms), other)
        }),
{
    match member(JsonValue::Object(ms), group) {
        Some(JsonValue::Object(gm)) => {
            lemma_put_member_reads(gm, key, v, key);
            lemma_put_member_reads(ms, group, JsonValue::Object(put_member(gm, key, v)), other);
        },
        _ => {
            let single = seq![(key, v)];
            assert(key_index(single, key) == 0);
            lemma_put_member_reads(ms, group, JsonValue::Object(single), other);
        },
    }
}

/// A member read by name is the first member of that name.
proof fn lemma_member_at(ms: Seq<(Seq<char>, JsonValue)>, i: int)
    requires
        0 <= i < ms.len(),
        forall|j: int| 0 <= j < i ==> (#[trigger] ms[j]).0 != ms[i].0,
    ensures
        member(JsonValue::Object(ms), ms[i].0) == Some(ms[i].1),
{
    lemma_key_index(ms, ms[i].0);
    let k = key_index(ms, ms[i].0);
    if k == -1 {
        assert(ms[i].0 != ms[i].0);
    } else if k < i {
        assert(ms[k].0 != ms[i].0);
    } else if k > i {
        assert(ms[i].0 != ms[i].0);
    }
}

/// A book-ticker message files, under its symbol in the best-price group,
/// the message's bid price "b", bid quantity "B", ask price "a" and ask
/// quantity "A" as best_bid, best_bid_qty, best_ask and best_ask_qty, its
/// event time "E" and the time it arrived.
pub proof fn lemma_book_ticker_fields(ms: Seq<(Seq<char>, JsonValue)>, data: JsonValue, stream: Seq<char>, recv_ms: i64)
    requires
        gateway_event_spec(text_or(data, "e"@, ""@), stream) == GatewayEvent::BestPrice,
        filed_members(ms, data, stream, recv_ms) is Some,
    ensures
        ({
            let filed = JsonValue::Object(filed_members(ms, data, stream, recv_ms)->0);
            member(filed, "stream_bestprice"@) matches Some(group) && member(group, text_or(data, "s"@, ""@)) matches Some(entry)
            && member(entry, "best_bid"@) == Some(JsonValue::Text(text_or(data, "b"@, "0"@)))
            && member(entry, "best_bid_qty"@) == Some(JsonValue::Text(text_or(data, "B"@, "0"@)))
            && member(entry, "best_ask"@) == Some(JsonValue::Text(text_or(data, "a"@, "0"@)))
            && member(entry, "best_ask_qty"@) == Some(JsonValue::Text(text_or(data, "A"@, "0"@)))
            && member(entry, "event_time"@) == Some(int_value(int_or_zero(data, "E"@)))
            && member(entry, "local_recv_time_ms"@) == Some(int_value(recv_ms))
        }),
{
    let v = best_price_entry(data, recv_ms);
    lemma_group_filing_reads(ms, "stream_bestprice"@, text_or(data, "s"@, ""@), v, "stream_bestprice"@);
    let es = v->Object_0;
    reveal_strlit("best_bid");
    reveal_strlit("best_bid_qty");
    reveal_strlit("best_ask");
    reveal_strlit("best_ask_qty");
    reveal_strlit("event_time");
    reveal_strlit("local_recv_time_ms");
    assert("best_ask"@[5] != "best_bid"@[5]);
    assert("best_ask_qty"@[5] != "best_bid_qty"@[5]);
    assert(es.len() == 6);
    assert(es[0].0 == "best_bid"@);
    assert(es[0].0.len() == 8);
    assert(es[1].0 == "best_bid_qty"@);
    assert(es[1].0.len() == 12);
    assert(es[2].0 == "best_ask"@);
    assert(es[2].0.len() == 8);
    assert(es[3].0 == "best_ask_qty"@);
    assert(es[3].0.len() == 12);
    assert(es[4].0 == "event_time"@);
    assert(es[4].0.len() == 10);
    assert(es[5].0 == "local_recv_time_ms"@);
    assert(es[5].0.len() == 18);
    lemma_member_at(es, 0);
    assert forall|j: int| 0 <= j < 1 implies (#[trigger] es[j]).0 != es[1].0 by {
        if j == 0 {}
    }
    lemma_member_at(es, 1);
    assert forall|j: int| 0 <= j < 2 implies (#[trigger] es[j]).0 != es[2].0 by {
        if j == 0 {} else if j == 1 {}
    }
    lemma_member_at(es, 2);
    assert forall|j: int| 0 <= j < 3 implies (#[trigger] es[j]).0 != es[3].0 by {
        if j == 0 {} else if j == 1 {} else if j == 2 {}
    }
    lemma_member_at(es, 3);
    assert forall|j: int| 0 <= j < 4 implies (#[trigger] es[j]).0 != es[4].0 by {
        if j == 0 {} else if j == 1 {} else if j == 2 {} else if j == 3 {}
    }
    lemma_member_at(es, 4);
    assert forall|j: int| 0 <= j < 5 implies (#[trigger] es[j]).0 != es[5].0 by {
        if j == 0 {} else if j == 1 {} else if j == 2 {} else if j == 3 {} else if j == 4 {}
    }
    lemma_member_at(es, 5);
}

/// A mark-price message files, under its symbol in the mark-price group,
/// the message's mark price "p", index price "i", estimated settle price
/// "P", funding rate "r", next funding time "T", event time "E" and the
/// time it arrived.
pub proof fn lemma_mark_price_fields(ms: Seq<(Seq<char>, JsonValue)>, data: JsonValue, stream: Seq<char>, recv_ms: i64)
    requires
        gateway_event_spec(text_or(data, "e"@, ""@), stream) == GatewayEvent::MarkPrice,
        filed_members(ms, data, stream, recv_ms) is Some,
    ensures
        ({
            let filed = JsonValue::Object(filed_members(ms, data, stream, recv_ms)->0);
            member(filed, "stream_markprice"@) matches Some(group) && member(group, text_or(data, "s"@, ""@)) matches Some(entry)
            && member(entry, "mark_price"@) == Some(JsonValue::Text(text_or(data, "p"@, "0"@)))
            && member(entry, "index_price"@) == Some(JsonValue::Text(text_or(data, "i"@, "0"@)))
            && member(entry, "estimated_settle_price"@) == Some(JsonValue::Text(text_or(data, "P"@, "0"@)))
            && member(entry, "funding_rate"@) == Some(JsonValue::Text(text_or(data, "r"@, "0"@)))
            && member(entry, "next_funding_time"@) == Some(int_value(int_or_zero(data, "T"@)))
            && member(entry, "event_time"@) == Some(int_value(int_or_zero(data, "E"@)))
            && member(entry, "local_recv_time_ms"@) == Some(int_value(recv_ms))
        }),
{
    let v = mark_price_entry(data, recv_ms);
    lemma_group_filing_reads(ms, "stream_markprice"@, text_or(data, "s"@, ""@), v, "stream_markprice"@);
    let es = v->Object_0;
    reveal_strlit("mark_price");
    reveal_strlit("index_price");
    reveal_strlit("estimated_settle_price");
    reveal_strlit("funding_rate");
    reveal_strlit("next_funding_time");
    reveal_strlit("event_time");
    reveal_strlit("local_recv_time_ms");
    assert("event_time"@[0] != "mark_price"@[0]);
    assert(es.len() == 7);
    assert(es[0].0 == "mark_price"@);
    assert(es[0].0.len() == 10);
    assert(es[1].0 == "index_price"@);
    assert(es[1].0.len() == 11);
    assert(es[2].0 == "estimated_settle_price"@);
    assert(es[2].0.len() == 22);
    assert(es[3].0 == "funding_rate"@);
    assert(es[3].0.len() == 12);
    assert(es[4].0 == "next_funding_time"@);
    assert(es[4].0.len() == 17);
    assert(es[5].0 == "event_time"@);
    assert(es[5].0.len() == 10);
    assert(es[6].0 == "local_recv_time_ms"@);
    assert(es[6].0.len() == 18);
    lemma_member_at(es, 0);
    assert forall|j: int| 0 <= j < 1 implies (#[trigger] es[j]).0 != es[1].0 by {
        if j == 0 {}
    }
    lemma_member_at(es, 1);
    assert forall|j: int| 0 <= j < 2 implies (#[trigger] es[j]).0 != es[2].0 by {
        if j == 0 {} else if j == 1 {}
    }
    lemma_member_at(es, 2);
    assert forall|j: int| 0 <= j < 3 implies (#[trigger] es[j]).0 != es[3].0 by {
        if j == 0 {} else if j == 1 {} else if j == 2 {}
    }
    lemma_member_at(es, 3);
    assert forall|j: int| 0 <= j < 4 implies (#[trigger] es[j]).0 != es[4].0 by {
        if j == 0 {} else if j == 1 {} else if j == 2 {} else if j == 3 {}
    }
    lemma_member_at(es, 4);
    assert forall|j: int| 0 <= j < 5 implies (#[trigger] es[j]).0 != es[5].0 by {
        if j == 0 {} else if j == 1 {} else if j == 2 {} else if j == 3 {} else if j == 4 {}
    }
    lemma_member_at(es, 5);
    assert forall|j: int| 0 <= j < 6 implies (#[trigger] es[j]).0 != es[6].0 by {
        if j == 0 {} else if j == 1 {} else if j == 2 {} else if j == 3 {} else if j == 4 {} else if j == 5 {}
    }
    lemma_member_at(es, 6);
}

/// A trade message files, under its symbol in the trade group, the
/// message's trade id "t", price "p", quantity "q", buyer-is-maker flag
/// "m", event time "E" and the time it arrived.
pub proof fn lemma_trade_fields(ms: Seq<(Seq<char>, JsonValue)>, data: JsonValue, stream: Seq<char>, recv_ms: i64)
    requires
        gateway_event_spec(text_or(data, "e"@, ""@), stream) == GatewayEvent::Trade,
        filed_members(ms, data, stream, recv_ms) is Some,
    ensures
        ({
            let filed = JsonValue::Object(filed_members(ms, data, stream, recv_ms)->0);
            member(filed, "stream_aggtrades"@) matches Some(group) && member(group, text_or(data, "s"@, ""@)) matches Some(entry)
            && member(entry, "trade_id"@) == Some(int_value(int_or_zero(data, "t"@)))
            && member(entry, "price"@) == Some(JsonValue::Text(text_or(data, "p"@, "0"@)))
            && member(entry, "quantity"@) == Some(JsonValue::Text(text_or(data, "q"@, "0"@)))
            && member(entry, "buyer_is_maker"@) == Some(JsonValue::Bool(bool_or_false(data, "m"@)))
            && member(entry, "event_time"@) == Some(int_value(int_or_zero(data, "E"@)))
            && member(entry, "local_recv_time_ms"@) == Some(int_value(recv_ms))
        }),
{
    let v = trade_entry(data, recv_ms);
    lemma_group_filing_reads(ms, "stream_aggtrades"@, text_or(data, "s"@, ""@), v, "stream_aggtrades"@);
    let es = v->Object_0;
    reveal_strlit("trade_id");
    reveal_strlit("price");
    reveal_strlit("quantity");
    reveal_strlit("buyer_is_maker");
    reveal_strlit("event_time");
    reveal_strlit("local_recv_time_ms");
    assert("quantity"@[0] != "trade_id"@[0]);
    assert(es.len() == 6);
    assert(es[0].0 == "trade_id"@);
    assert(es[0].0.len() == 8);
    assert(es[1].0 == "price"@);
    assert(es[1].0.len() == 5);
    assert(es[2].0 == "quantity"@);
    assert(es[2].0.len() == 8);
    assert(es[3].0 == "buyer_is_maker"@);
    assert(es[3].0.len() == 14);
    assert(es[4].0 == "event_time"@);
    assert(es[4].0.len() == 10);
    assert(es[5].0 == "local_recv_time_ms"@);
    assert(es[5].0.len() == 18);
    lemma_member_at(es, 0);
    assert forall|j: int| 0 <= j < 1 implies (#[trigger] es[j]).0 != es[1].0 by {
        if j == 0 {}
    }
    lemma_member_at(es, 1);
    assert forall|j: int| 0 <= j < 2 implies (#[trigger] es[j]).0 != es[2].0 by {
        if j == 0 {} else if j == 1 {}
    }
    lemma_member_at(es, 2);
    assert forall|j: int| 0 <= j < 3 implies (#[trigger] es[j]).0 != es[3].0 by {
        if j == 0 {} else if j == 1 {} else if j == 2 {}
    }
    lemma_member_at(es, 3);
    assert forall|j: int| 0 <= j < 4 implies (#[trigger] es[j]).0 != es[4].0 by {
        if j == 0 {} else if j == 1 {} else if j == 2 {} else if j == 3 {}
    }
    lemma_member_at(es, 4);
    assert forall|j: int| 0 <= j < 5 implies (#[trigger] es[j]).0 != es[5].0 by {
        if j == 0 {} else if j == 1 {} else if j == 2 {} else if j == 3 {} else if j == 4 {}
    }
    lemma_member_at(es, 5);
}

/// An order-book message files, in the depth group under the upper-cased
/// symbol its stream name starts with, the message's bids "b" and asks "a"
/// as they stand, its last update id, event time "E" and the time it
/// arrived.
pub proof fn lemma_depth_fields(ms: Seq<(Seq<char>, JsonValue)>, data: JsonValue, stream: Seq<char>, recv_ms: i64)
    requires
        gateway_event_spec(text_or(data, "e"@, ""@), stream) == GatewayEvent::Depth,
        filed_members(ms, data, stream, recv_ms) is Some,
    ensures
        ({
            let filed = JsonValue::Object(filed_members(ms, data, stream, recv_ms)->0);
            member(filed, "stream_depth"@) matches Some(group) && member(group, uppercased(before_first(stream, '@'))) matches Some(entry)
            && member(entry, "bids"@) == Some(member_or_null(data, "b"@))
            && member(entry, "asks"@) == Some(member_or_null(data, "a"@))
            && member(entry, "last_update_id"@) == Some(int_value(int_or_zero(data, "lastUpdateId"@)))
            && member(entry, "event_time"@) == Some(int_value(int_or_zero(data, "E"@)))
            && member(entry, "local_recv_time_ms"@) == Some(int_value(recv_ms))
        }),
{
    let v = depth_entry(data, recv_ms);
    lemma_group_filing_reads(ms, "stream_depth"@, uppercased(before_first(stream, '@')), v, "stream_depth"@);
    let es = v->Object_0;
    reveal_strlit("bids");
    reveal_strlit("asks");
    reveal_strlit("last_update_id");
    reveal_strlit("event_time");
    reveal_strlit("local_recv_time_ms");
    assert("asks"@[0] != "bids"@[0]);
    assert(es.len() == 5);
    assert(es[0].0 == "bids"@);
    assert(es[0].0.len() == 4);
    assert(es[1].0 == "asks"@);
    assert(es[1].0.len() == 4);
    assert(es[2].0 == "last_update_id"@);
    assert(es[2].0.len() == 14);
    assert(es[3].0 == "event_time"@);
    assert(es[3].0.len() == 10);
    assert(es[4].0 == "local_recv_time_ms"@);
    assert(es[4].0.len() == 18);
    lemma_member_at(es, 0);
    assert forall|j: int| 0 <= j < 1 implies (#[trigger] es[j]).0 != es[1].0 by {
        if j == 0 {}
    }
    lemma_member_at(es, 1);
    assert forall|j: int| 0 <= j < 2 implies (#[trigger] es[j]).0 != es[2].0 by {
        if j == 0 {} else if j == 1 {}
    }
    lemma_member_at(es, 2);
    assert forall|j: int| 0 <= j < 3 implies (#[trigger] es[j]).0 != es[3].0 by {
        if j == 0 {} else if j == 1 {} else if j == 2 {}
    }
    lemma_member_at(es, 3);
    assert forall|j: int| 0 <= j < 4 implies (#[trigger] es[j]).0 != es[4].0 by {
        if j == 0 {} else if j == 1 {} else if j == 2 {} else if j == 3 {}
    }
    lemma_member_at(es, 4);
}

/// A liquidation message appends one entry to the snapshot's list of
/// liquidations, dropping the oldest once there are more than fifty: the
/// entry holds the order's
/// symbol, side, type, price, average price, original and filled quantity
/// ("s", "S", "o", "p", "ap", "q", "z"), the event time "E" and the time it
/// arrived, and the entries before it are the newest of the old list.
pub proof fn lemma_liquidation_fields(
    ms: Seq<(Seq<char>, JsonValue)>,
    data: JsonValue,
    stream: Seq<char>,
    recv_ms: i64,
    order: JsonValue,
    items: Seq<JsonValue>,
)
    requires
        gateway_event_spec(text_or(data, "e"@, ""@), stream) == GatewayEvent::Liquidation,
        member(data, "o"@) == Some(order),
        member(JsonValue::Object(ms), "stream_liquidations"@) == Some(JsonValue::Array(items)),
    ensures
        filed_members(ms, data, stream, recv_ms) is Some,
        ({
            let filed = JsonValue::Object(filed_members(ms, data, stream, recv_ms)->0);
            member(filed, "stream_liquidations"@) matches Some(JsonValue::Array(list))
            && list.len() == (if items.len() < 50 { items.len() + 1 } else { items.len() })
            && (forall|i: int| 0 <= i < list.len() - 1 ==> #[trigger] list[i] == items[i + items.len() + 1 - list.len()])
            && member(list.last(), "symbol"@) == Some(JsonValue::Text(text_or(order, "s"@, ""@)))
            && member(list.last(), "side"@) == Some(JsonValue::Text(text_or(order, "S"@, ""@)))
            && member(list.last(), "type"@) == Some(JsonValue::Text(text_or(order, "o"@, ""@)))
            && member(list.last(), "price"@) == Some(JsonValue::Text(text_or(order, "p"@, "0"@)))
            && member(list.last(), "average_price"@) == Some(JsonValue::Text(text_or(order, "ap"@, "0"@)))
            && member(list.last(), "original_qty"@) == Some(JsonValue::Text(text_or(order, "q"@, "0"@)))
            && member(list.last(), "filled_qty"@) == Some(JsonValue::Text(text_or(order, "z"@, "0"@)))
            && member(list.last(), "event_time"@) == Some(int_value(int_or_zero(data, "E"@)))
            && member(list.last(), "local_recv_time_ms"@) == Some(int_value(recv_ms))
        }),
{
    let v = liquidation_entry(data, order, recv_ms);
    let list = capped_push(items, v, LIQUIDATION_HISTORY_LIMIT as nat);
    lemma_put_member_reads(ms, "stream_liquidations"@, JsonValue::Array(list), "stream_liquidations"@);
    assert forall|i: int| 0 <= i < list.len() - 1 implies #[trigger] list[i] == items[i + items.len() + 1 - list.len()] by {}
    let es = v->Object_0;
    reveal_strlit("symbol");
    reveal_strlit("side");
    reveal_strlit("type");
    reveal_strlit("price");
    reveal_strlit("average_price");
    reveal_strlit("original_qty");
    reveal_strlit("filled_qty");
    reveal_strlit("event_time");
    reveal_strlit("local_recv_time_ms");
    assert("type"@[0] != "side"@[0]);
    assert("event_time"@[0] != "filled_qty"@[0]);
    assert(es.len() == 9);
    assert(es[0].0 == "symbol"@);
    assert(es[0].0.len() == 6);
    assert(es[1].0 == "side"@);
    assert(es[1].0.len() == 4);
    assert(es[2].0 == "type"@);
    assert(es[2].0.len() == 4);
    assert(es[3].0 == "price"@);
    assert(es[3].0.len() == 5);
    assert(es[4].0 == "average_price"@);
    assert(es[4].0.len() == 13);
    assert(es[5].0 == "original_qty"@);
    assert(es[5].0.len() == 12);
    assert(es[6].0 == "filled_qty"@);
    assert(es[6].0.len() == 10);
    assert(es[7].0 == "event_time"@);
    assert(es[7].0.len() == 10);
    assert(es[8].0 == "local_recv_time_ms"@);
    assert(es[8].0.len() == 18);
    lemma_member_at(es, 0);
    assert forall|j: int| 0 <= j < 1 implies (#[trigger] es[j]).0 != es[1].0 by {
        if j == 0 {}
    }
    lemma_member_at(es, 1);
    assert forall|j: int| 0 <= j < 2 implies (#[trigger] es[j]).0 != es[2].0 by {
        if j == 0 {} else if j == 1 {}
    }
    lemma_member_at(es, 2);
    assert forall|j: int| 0 <= j < 3 implies (#[trigger] es[j]).0 != es[3].0 by {
        if j == 0 {} else if j == 1 {} else if j == 2 {}
    }
    lemma_member_at(es, 3);
    assert forall|j: int| 0 <= j < 4 implies (#[trigger] es[j]).0 != es[4].0 by {
        if j == 0 {} else if j == 1 {} else if j == 2 {} else if j == 3 {}
    }
    lemma_member_at(es, 4);
    assert forall|j: int| 0 <= j < 5 implies (#[trigger] es[j]).0 != es[5].0 by {
        if j == 0 {} else if j == 1 {} else if j == 2 {} else if j == 3 {} else if j == 4 {}
    }
    lemma_member_at(es, 5);
    assert forall|j: int| 0 <= j < 6 implies (#[trigger] es[j]).0 != es[6].0 by {
        if j == 0 {} else if j == 1 {} else if j == 2 {} else if j == 3 {} else if j == 4 {} else if j == 5 {}
    }
    lemma_member_at(es, 6);
    assert forall|j: int| 0 <= j < 7 implies (#[trigger] es[j]).0 != es[7].0 by {
        if j == 0 {} else if j == 1 {} else if j == 2 {} else if j == 3 {} else if j == 4 {} else if j == 5 {} else if j == 6 {}
    }
    lemma_member_at(es, 7);
    assert forall|j: int| 0 <= j < 8 implies (#[trigger] es[j]).0 != es[8].0 by {
        if j == 0 {} else if j == 1 {} else if j == 2 {} else if j == 3 {} else if j == 4 {} else if j == 5 {} else if j == 6 {} else if j == 7 {}
    }
    lemma_member_at(es, 8);
}

/// Messages are filed by their event type first: "forceOrder" as a
/// liquidation, "markPriceUpdate" as a mark price, "bookTicker" as a best
/// price whatever stream they came on, and "aggTrade" and "trade" as a
/// trade unless they came on a book-ticker stream.
pub proof fn lemma_gateway_event_types(e_type: Seq<char>, stream: Seq<char>)
    ensures
        e_type == "forceOrder"@ ==> gateway_event_spec(e_type, stream) == GatewayEvent::Liquidation,
        e_type == "markPriceUpdate"@ ==> gateway_event_spec(e_type, stream) == GatewayEvent::MarkPrice,
        e_type == "bookTicker"@ ==> gateway_event_spec(e_type, stream) == GatewayEvent::BestPrice,
        e_type == "aggTrade"@ && !ends_with_text(lowercased(stream), "@bookticker"@) ==> gateway_event_spec(e_type, stream)
            == GatewayEvent::Trade,
        e_type == "trade"@ && !ends_with_text(lowercased(stream), "@bookticker"@) ==> gateway_event_spec(e_type, stream)
            == GatewayEvent::Trade,
{
    reveal_strlit("forceOrder");
    reveal_strlit("markPriceUpdate");
    reveal_strlit("bookTicker");
    reveal_strlit("aggTrade");
    reveal_strlit("trade");
    assert("bookTicker"@[0] != "forceOrder"@[0]);
    assert("forceOrder"@.len() == 10);
    assert("markPriceUpdate"@.len() == 15);
    assert("bookTicker"@.len() == 10);
    assert("aggTrade"@.len() == 8);
    assert("trade"@.len() == 5);
}

} // verus!
