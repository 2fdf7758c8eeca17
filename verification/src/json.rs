use vstd::prelude::*;
use crate::json_value::{parse_i64_spec, parse_i64_text};
use crate::text::{decimal, decimal_chars, str_chars, string_from_chars};
use crate::words::chars_equal_str;

verus! {

/// A JSON document as the library handles it: numbers keep the text they
/// are written with, objects keep their members in order.
#[derive(Debug, PartialEq, Eq)]
pub enum JsonTree {
    Null,
    Bool(bool),
    Number(String),
    Text(String),
    Array(Vec<JsonTree>),
    Object(Vec<(String, JsonTree)>),
}

/// The mathematical value of a JSON document.
pub enum JsonValue {
    Null,
    Bool(bool),
    Number(Seq<char>),
    Text(Seq<char>),
    Array(Seq<JsonValue>),
    Object(Seq<(Seq<char>, JsonValue)>),
}

/// The value of a document.
pub open spec fn tree_value(t: JsonTree) -> JsonValue
    decreases t, 2int,
{
    match t {
        JsonTree::Null => JsonValue::Null,
        JsonTree::Bool(b) => JsonValue::Bool(b),
        JsonTree::Number(s) => JsonValue::Number(s@),
        JsonTree::Text(s) => JsonValue::Text(s@),
        JsonTree::Array(v) => JsonValue::Array(items_value(v@)),
        JsonTree::Object(v) => JsonValue::Object(members_value(v@)),
    }
}

/// The values of the items of an array.
pub open spec fn items_value(s: Seq<JsonTree>) -> Seq<JsonValue>
    decreases s, 1int,
{
    if s.len() == 0 {
        Seq::empty()
    } else {
        items_value(s.drop_last()).push(tree_value(s.last()))
    }
}

/// The names and values of the members of an object.
pub open spec fn members_value(s: Seq<(String, JsonTree)>) -> Seq<(Seq<char>, JsonValue)>
    decreases s, 1int,
{
    if s.len() == 0 {
        Seq::empty()
    } else {
        members_value(s.drop_last()).push((s.last().0@, tree_value(s.last().1)))
    }
}

/// `serde_json::Value`, carried through the converters below.
#[verifier::external_type_specification]
#[verifier::external_body]
pub struct ExJsonValue(serde_json::Value);

/// The document that `serde_json::from_slice` reads from the bytes as a
/// `serde_json::Value`, if they hold one, taken as a value of the library:
/// each number by the text serde_json writes for it, each object's members
/// in the order of serde_json's map.
pub uninterp spec fn json_document(bytes: Seq<u8>) -> Option<JsonValue>;

/// The bytes `serde_json::to_vec` writes for a document, once it is turned
/// into a `serde_json::Value` (numbers read back from their text, members
/// gathered into serde_json's map).
pub uninterp spec fn json_bytes(v: JsonValue) -> Seq<u8>;

/// The bytes `serde_json::to_vec_pretty` writes for a document, once it is
/// turned into a `serde_json::Value` as for `json_bytes`.
pub uninterp spec fn json_pretty_bytes(v: JsonValue) -> Seq<u8>;

/// Converts a `serde_json::Value` into the library's tree: each variant to
/// its counterpart, numbers by their text, object members in the map's
/// order.
#[verifier::external_body]
fn tree_of(v: &serde_json::Value) -> JsonTree {
    match v {
        serde_json::Value::Null => JsonTree::Null,
        serde_json::Value::Bool(b) => JsonTree::Bool(*b),
        serde_json::Value::Number(n) => JsonTree::Number(n.to_string()),
        serde_json::Value::String(s) => JsonTree::Text(s.clone()),
        serde_json::Value::Array(a) => JsonTree::Array(a.iter().map(tree_of).collect()),
        serde_json::Value::Object(m) => JsonTree::Object(m.iter().map(|(k, x)| (k.clone(), tree_of(x))).collect()),
    }
}

/// Converts the library's tree into a `serde_json::Value`, numbers read back
/// from their text (a text that is no number becomes null).
#[verifier::external_body]
fn value_of(t: &JsonTree) -> serde_json::Value {
    match t {
        JsonTree::Null => serde_json::Value::Null,
        JsonTree::Bool(b) => serde_json::Value::Bool(*b),
        JsonTree::Number(s) => s.parse::<serde_json::Number>().map(serde_json::Value::Number).unwrap_or(serde_json::Value::Null),
        JsonTree::Text(s) => serde_json::Value::String(s.clone()),
        JsonTree::Array(a) => serde_json::Value::Array(a.iter().map(value_of).collect()),
        JsonTree::Object(m) => serde_json::Value::Object(m.iter().map(|(k, x)| (k.clone(), value_of(x))).collect()),
    }
}

/// Calls `serde_json::from_slice` for a `serde_json::Value`: the document the
/// bytes hold, named by `json_document`, or nothing when they hold none.
#[verifier::external_body]
pub(crate) fn parse_json(bytes: &[u8]) -> (r: Option<JsonTree>)
    ensures
        r is None <==> json_document(bytes@) is None,
        r matches Some(t) ==> json_document(bytes@) == Some(tree_value(t)),
{
    serde_json::from_slice::<serde_json::Value>(bytes).ok().map(|v| tree_of(&v))
}

/// Calls `serde_json::to_vec` on the document; its bytes are named by
/// `json_bytes` (serde_json gives no error for a `serde_json::Value`; one
/// would leave the bytes empty).
#[verifier::external_body]
pub(crate) fn write_json(t: &JsonTree) -> (r: Vec<u8>)
    ensures
        r@ == json_bytes(tree_value(*t)),
{
    serde_json::to_vec(&value_of(t)).unwrap_or_default()
}

/// Calls `serde_json::to_vec_pretty` on the document; its bytes are named by
/// `json_pretty_bytes` (as for `write_json`, no error arises).
#[verifier::external_body]
pub(crate) fn write_json_pretty(t: &JsonTree) -> (r: Vec<u8>)
    ensures
        r@ == json_pretty_bytes(tree_value(*t)),
{
    serde_json::to_vec_pretty(&value_of(t)).unwrap_or_default()
}

/// Each item's value, position by position.
pub proof fn lemma_items_value(s: Seq<JsonTree>)
    ensures
        items_value(s).len() == s.len(),
        forall|j: int| 0 <= j < s.len() ==> #[trigger] items_value(s)[j] == tree_value(s[j]),
    decreases s.len(),
{
    if s.len() > 0 {
        lemma_items_value(s.drop_last());
    }
}

/// Each member's name and value, position by position.
pub proof fn lemma_members_value(s: Seq<(String, JsonTree)>)
    ensures
        members_value(s).len() == s.len(),
        forall|j: int| 0 <= j < s.len() ==> #[trigger] members_value(s)[j] == (s[j].0@, tree_value(s[j].1)),
    decreases s.len(),
{
    if s.len() > 0 {
        lemma_members_value(s.drop_last());
    }
}

/// The position of the first member named `key`, or -1.
pub open spec fn key_index(ms: Seq<(Seq<char>, JsonValue)>, key: Seq<char>) -> int
    decreases ms.len(),
{
    if ms.len() == 0 {
        -1
    } else if ms[0].0 == key {
        0
    } else {
        let r = key_index(ms.drop_first(), key);
        if r < 0 {
            -1
        } else {
            r + 1
        }
    }
}

pub proof fn lemma_key_index(ms: Seq<(Seq<char>, JsonValue)>, key: Seq<char>)
    ensures
        -1 <= key_index(ms, key) < ms.len(),
        key_index(ms, key) == -1 ==> forall|j: int| 0 <= j < ms.len() ==> (#[trigger] ms[j]).0 != key,
        key_index(ms, key) >= 0 ==> ms[key_index(ms, key)].0 == key,
        forall|j: int| 0 <= j < key_index(ms, key) ==> (#[trigger] ms[j]).0 != key,
    decreases ms.len(),
{
    if ms.len() > 0 && ms[0].0 != key {
        let t = ms.drop_first();
        lemma_key_index(t, key);
        assert forall|j: int| 0 < j < ms.len() implies ms[j] == t[j - 1] by {}
        if key_index(t, key) == -1 {
            assert forall|j: int| 0 <= j < ms.len() implies (#[trigger] ms[j]).0 != key by {
                if j > 0 {
                    assert(ms[j] == t[j - 1]);
                }
            }
        } else {
            assert forall|j: int| 0 <= j < key_index(ms, key) implies (#[trigger] ms[j]).0 != key by {
                if j > 0 {
                    assert(ms[j] == t[j - 1]);
                }
            }
        }
    }
}

/// The member named `key` of an object value.
pub open spec fn member(v: JsonValue, key: Seq<char>) -> Option<JsonValue> {
    match v {
        JsonValue::Object(ms) => if key_index(ms, key) >= 0 {
            Some(ms[key_index(ms, key)].1)
        } else {
            None
        },
        _ => None,
    }
}

/// Where the first member named `key` sits in an object's members.
pub fn find_member(fields: &Vec<(String, JsonTree)>, key: &str) -> (r: Option<usize>)
    ensures
        r matches Some(i) ==> i == key_index(members_value(fields@), key@) && i < fields.len(),
        r is None ==> key_index(members_value(fields@), key@) == -1,
{
    let ghost ms = members_value(fields@);
    proof {
        lemma_members_value(fields@);
        lemma_key_index(ms, key@);
    }
    let mut i: usize = 0;
    while i < fields.len()
        invariant
            i <= fields.len(),
            ms == members_value(fields@),
            ms.len() == fields.len(),
            forall|j: int| 0 <= j < fields.len() ==> #[trigger] ms[j] == (fields@[j].0@, tree_value(fields@[j].1)),
            forall|j: int| 0 <= j < i ==> (#[trigger] ms[j]).0 != key@,
            -1 <= key_index(ms, key@) < ms.len(),
            key_index(ms, key@) >= 0 ==> ms[key_index(ms, key@)].0 == key@,
            forall|j: int| 0 <= j < key_index(ms, key@) ==> (#[trigger] ms[j]).0 != key@,
            key_index(ms, key@) == -1 ==> forall|j: int| 0 <= j < ms.len() ==> (#[trigger] ms[j]).0 != key@,
        decreases fields.len() - i,
    {
        let k = str_chars(fields[i].0.as_str());
        if chars_equal_str(&k, key) {
            assert(ms[i as int].0 == key@);
            return Some(i);
        }
        assert(ms[i as int].0 != key@);
        i = i + 1;
    }
    None
}

/// The member named `key` of a document, if it is an object that has one.
pub fn get_member<'a>(t: &'a JsonTree, key: &str) -> (r: Option<&'a JsonTree>)
    ensures
        r matches Some(x) ==> member(tree_value(*t), key@) == Some(tree_value(*x)),
        r is None ==> member(tree_value(*t), key@) is None,
{
    match t {
        JsonTree::Object(fields) => {
            proof {
                lemma_members_value(fields@);
            }
            match find_member(fields, key) {
                Some(i) => Some(&fields[i].1),
                None => None,
            }
        },
        _ => None,
    }
}

/// A copy of a document.
pub fn copy_tree(t: &JsonTree) -> (r: JsonTree)
    ensures
        tree_value(r) == tree_value(*t),
    decreases t,
{
    match t {
        JsonTree::Null => JsonTree::Null,
        JsonTree::Bool(b) => JsonTree::Bool(*b),
        JsonTree::Number(s) => JsonTree::Number(s.clone()),
        JsonTree::Text(s) => JsonTree::Text(s.clone()),
        JsonTree::Array(a) => {
            let mut out: Vec<JsonTree> = Vec::new();
            let mut i: usize = 0;
            proof {
                assert forall|j: int| 0 <= j < a.len() implies decreases_to!(*t => #[trigger] a@[j]) by {
                    assert(decreases_to!(*t => *a));
                    assert(decreases_to!(*a => a@));
                    assert(decreases_to!(a@ => a@[j]));
                }
            }
            while i < a.len()
                invariant
                    i <= a.len(),
                    forall|j: int| 0 <= j < a.len() ==> decreases_to!(*t => #[trigger] a@[j]),
                    items_value(out@) == items_value(a@.take(i as int)),
                decreases a.len() - i,
            {
                let c = copy_tree(&a[i]);
                let ghost before = out@;
                out.push(c);
                proof {
                    assert(out@.drop_last() =~= before);
                    assert(a@.take(i + 1).drop_last() =~= a@.take(i as int));
                }
                i = i + 1;
            }
            assert(a@.take(a.len() as int) =~= a@);
            JsonTree::Array(out)
        },
        JsonTree::Object(m) => {
            let mut out: Vec<(String, JsonTree)> = Vec::new();
            let mut i: usize = 0;
            proof {
                assert forall|j: int| 0 <= j < m.len() implies decreases_to!(*t => #[trigger] m@[j].1) by {
                    assert(decreases_to!(*t => *m));
                    assert(decreases_to!(*m => m@));
                    assert(decreases_to!(m@ => m@[j]));
                    assert(decreases_to!(m@[j] => m@[j].1));
                }
            }
            while i < m.len()
                invariant
                    i <= m.len(),
                    forall|j: int| 0 <= j < m.len() ==> decreases_to!(*t => #[trigger] m@[j].1),
                    members_value(out@) == members_value(m@.take(i as int)),
                decreases m.len() - i,
            {
                let c = copy_tree(&m[i].1);
                let k = m[i].0.clone();
                let ghost before = out@;
                out.push((k, c));
                proof {
                    assert(out@.drop_last() =~= before);
                    assert(m@.take(i + 1).drop_last() =~= m@.take(i as int));
                }
                i = i + 1;
            }
            assert(m@.take(m.len() as int) =~= m@);
            JsonTree::Object(out)
        },
    }
}

/// The text of a value, if it is a string.
pub open spec fn text_of(v: Option<JsonValue>) -> Option<Seq<char>> {
    match v {
        Some(JsonValue::Text(s)) => Some(s),
        _ => None,
    }
}

/// The member named `key` of a document, if it is a string.
pub fn member_text<'a>(t: &'a JsonTree, key: &str) -> (r: Option<&'a String>)
    ensures
        r matches Some(s) ==> text_of(member(tree_value(*t), key@)) == Some(s@),
        r is None ==> text_of(member(tree_value(*t), key@)) is None,
{
    match get_member(t, key) {
        Some(JsonTree::Text(s)) => Some(s),
        _ => None,
    }
}

/// Whether two strings are equal.
pub fn same_text(a: &str, b: &str) -> (r: bool)
    ensures
        r == (a@ == b@),
{
    chars_equal_str(&str_chars(a), b)
}

/// Members after setting `key` to `v`: the first member of that name takes
/// the new value, or a new member is appended.
pub open spec fn put_member(ms: Seq<(Seq<char>, JsonValue)>, key: Seq<char>, v: JsonValue) -> Seq<(Seq<char>, JsonValue)> {
    if key_index(ms, key) >= 0 {
        ms.update(key_index(ms, key), (key, v))
    } else {
        ms.push((key, v))
    }
}

/// Member lists with the same names in the same places find a name at the
/// same place.
proof fn lemma_key_index_same_names(a: Seq<(Seq<char>, JsonValue)>, b: Seq<(Seq<char>, JsonValue)>, key: Seq<char>)
    requires
        a.len() == b.len(),
        forall|j: int| 0 <= j < a.len() ==> (#[trigger] a[j]).0 == b[j].0,
    ensures
        key_index(a, key) == key_index(b, key),
    decreases a.len(),
{
    if a.len() > 0 {
        let ta = a.drop_first();
        let tb = b.drop_first();
        assert forall|j: int| 0 <= j < ta.len() implies (#[trigger] ta[j]).0 == tb[j].0 by {
            assert(ta[j] == a[j + 1]);
            assert(tb[j] == b[j + 1]);
        }
        lemma_key_index_same_names(ta, tb, key);
    }
}

/// Where a name is found once a member is appended.
proof fn lemma_key_index_push(ms: Seq<(Seq<char>, JsonValue)>, m: (Seq<char>, JsonValue), key: Seq<char>)
    ensures
        key_index(ms.push(m), key) == (if key_index(ms, key) >= 0 {
            key_index(ms, key)
        } else if m.0 == key {
            ms.len() as int
        } else {
            -1
        }),
    decreases ms.len(),
{
    let p = ms.push(m);
    assert(p.len() > 0);
    if ms.len() > 0 {
        assert(p[0] == ms[0]);
        assert(p.drop_first() =~= ms.drop_first().push(m));
        lemma_key_index_push(ms.drop_first(), m, key);
        assert(key_index(p, key) == (if p[0].0 == key {
            0
        } else {
            let r = key_index(p.drop_first(), key);
            if r < 0 {
                -1
            } else {
                r + 1
            }
        }));
    } else {
        assert(p[0] == m);
        assert(p.drop_first() =~= Seq::<(Seq<char>, JsonValue)>::empty());
        assert(key_index(p, key) == (if p[0].0 == key {
            0
        } else {
            let r = key_index(p.drop_first(), key);
            if r < 0 {
                -1
            } else {
                r + 1
            }
        }));
    }
}

/// A member that was set reads back, and every other member reads as it
/// did before.
pub proof fn lemma_put_member_reads(ms: Seq<(Seq<char>, JsonValue)>, key: Seq<char>, v: JsonValue, other: Seq<char>)
    ensures
        member(JsonValue::Object(put_member(ms, key, v)), key) == Some(v),
        other != key ==> member(JsonValue::Object(put_member(ms, key, v)), other) == member(JsonValue::Object(ms), other),
{
    lemma_key_index(ms, key);
    lemma_key_index(ms, other);
    let r = put_member(ms, key, v);
    if key_index(ms, key) >= 0 {
        let i = key_index(ms, key);
        assert forall|j: int| 0 <= j < ms.len() implies (#[trigger] r[j]).0 == ms[j].0 by {}
        lemma_key_index_same_names(r, ms, key);
        lemma_key_index_same_names(r, ms, other);
    } else {
        lemma_key_index_push(ms, (key, v), key);
        lemma_key_index_push(ms, (key, v), other);
    }
}

/// The value of an appended member list.
pub proof fn lemma_members_value_push(s: Seq<(String, JsonTree)>, m: (String, JsonTree))
    ensures
        members_value(s.push(m)) == members_value(s).push((m.0@, tree_value(m.1))),
{
    assert(s.push(m).drop_last() =~= s);
}

/// The value of a member list with one member replaced.
pub proof fn lemma_members_value_update(s: Seq<(String, JsonTree)>, i: int, m: (String, JsonTree))
    requires
        0 <= i < s.len(),
    ensures
        members_value(s.update(i, m)) == members_value(s).update(i, (m.0@, tree_value(m.1))),
{
    lemma_members_value(s);
    lemma_members_value(s.update(i, m));
    assert(members_value(s.update(i, m)) =~= members_value(s).update(i, (m.0@, tree_value(m.1))));
}

/// Sets member `key` of an object's members to `value`.
pub fn set_member(fields: &mut Vec<(String, JsonTree)>, key: String, value: JsonTree)
    ensures
        members_value(final(fields)@) == put_member(members_value(old(fields)@), key@, tree_value(value)),
{
    proof {
        lemma_members_value(old(fields)@);
        lemma_key_index(members_value(old(fields)@), key@);
    }
    match find_member(fields, key.as_str()) {
        Some(i) => {
            let ghost before = fields@;
            let ghost kv = key@;
            let ghost tv = tree_value(value);
            let _ = fields.remove(i);
            fields.insert(i, (key, value));
            proof {
                assert(fields@ =~= before.update(i as int, fields@[i as int]));
                lemma_members_value_update(before, i as int, fields@[i as int]);
            }
        },
        None => {
            let ghost before = fields@;
            fields.push((key, value));
            proof {
                lemma_members_value_push(before, fields@.last());
                assert(before.push(fields@.last()) =~= fields@);
            }
        },
    }
}

/// Appends a member to an object under construction.
pub fn push_field(fields: &mut Vec<(String, JsonTree)>, name: &str, value: JsonTree)
    ensures
        members_value(final(fields)@) == members_value(old(fields)@).push((name@, tree_value(value))),
{
    let ghost before = fields@;
    fields.push((name.to_string(), value));
    proof {
        lemma_members_value_push(before, fields@.last());
        assert(before.push(fields@.last()) =~= fields@);
    }
}

/// The string member `key` of a value, or `default`.
pub open spec fn text_or(v: JsonValue, key: Seq<char>, default: Seq<char>) -> Seq<char> {
    match text_of(member(v, key)) {
        Some(s) => s,
        None => default,
    }
}

/// The member `key` of a value read as a 64-bit integer, or 0 when it is
/// missing or no integer in that range.
pub open spec fn int_or_zero(v: JsonValue, key: Seq<char>) -> i64 {
    match member(v, key) {
        Some(JsonValue::Number(s)) => match parse_i64_spec(s) {
            Some(n) => n,
            None => 0,
        },
        _ => 0,
    }
}

/// The boolean member `key` of a value, or false.
pub open spec fn bool_or_false(v: JsonValue, key: Seq<char>) -> bool {
    match member(v, key) {
        Some(JsonValue::Bool(b)) => b,
        _ => false,
    }
}

/// The member `key` of a value, or null.
pub open spec fn member_or_null(v: JsonValue, key: Seq<char>) -> JsonValue {
    match member(v, key) {
        Some(x) => x,
        None => JsonValue::Null,
    }
}

/// The decimal text of a 64-bit integer.
pub open spec fn int_text(n: i64) -> Seq<char> {
    if n < 0 {
        "-"@ + decimal((0 - n) as nat)
    } else {
        decimal(n as nat)
    }
}

/// A number holding a 64-bit integer.
pub open spec fn int_value(n: i64) -> JsonValue {
    JsonValue::Number(int_text(n))
}

/// The document of a 64-bit integer.
pub fn int_tree(n: i64) -> (r: JsonTree)
    ensures
        tree_value(r) == int_value(n),
{
    if n < 0 {
        let wide: i128 = n as i128;
        let mag: u128 = (0 - wide) as u128;
        let mut chars: Vec<char> = Vec::new();
        chars.push('-');
        let digits = decimal_chars(mag);
        let mut i: usize = 0;
        while i < digits.len()
            invariant
                i <= digits.len(),
                chars@ == seq!['-'] + digits@.take(i as int),
            decreases digits.len() - i,
        {
            chars.push(digits[i]);
            i = i + 1;
            assert(chars@ =~= seq!['-'] + digits@.take(i as int));
        }
        proof {
            reveal_strlit("-");
            assert(digits@.take(digits.len() as int) =~= digits@);
            assert(chars@ =~= "-"@ + decimal((0 - n) as nat));
        }
        JsonTree::Number(string_from_chars(&chars))
    } else {
        let digits = decimal_chars(n as u128);
        JsonTree::Number(string_from_chars(&digits))
    }
}

/// A number holding an unsigned 64-bit integer.
pub open spec fn uint_value(n: u64) -> JsonValue {
    JsonValue::Number(decimal(n as nat))
}

/// The document of an unsigned 64-bit integer.
pub fn uint_tree(n: u64) -> (r: JsonTree)
    ensures
        tree_value(r) == uint_value(n),
{
    let digits = decimal_chars(n as u128);
    JsonTree::Number(string_from_chars(&digits))
}

/// The string member `key` of a document, or `default`, as a string value.
pub fn text_field(t: &JsonTree, key: &str, default: &str) -> (r: JsonTree)
    ensures
        tree_value(r) == JsonValue::Text(text_or(tree_value(*t), key@, default@)),
{
    match member_text(t, key) {
        Some(s) => JsonTree::Text(s.clone()),
        None => JsonTree::Text(default.to_string()),
    }
}

/// The member `key` of a document read as a 64-bit integer, or 0.
pub fn int_member(t: &JsonTree, key: &str) -> (r: i64)
    ensures
        r == int_or_zero(tree_value(*t), key@),
{
    match get_member(t, key) {
        Some(JsonTree::Number(s)) => match parse_i64_text(s.as_str()) {
            Some(n) => n,
            None => 0,
        },
        _ => 0,
    }
}

/// The boolean member `key` of a document, or false.
pub fn bool_member(t: &JsonTree, key: &str) -> (r: bool)
    ensures
        r == bool_or_false(tree_value(*t), key@),
{
    match get_member(t, key) {
        Some(JsonTree::Bool(b)) => *b,
        _ => false,
    }
}

/// A copy of the member `key` of a document, or null.
pub fn member_copy(t: &JsonTree, key: &str) -> (r: JsonTree)
    ensures
        tree_value(r) == member_or_null(tree_value(*t), key@),
{
    match get_member(t, key) {
        Some(x) => copy_tree(x),
        None => JsonTree::Null,
    }
}

} // verus!
