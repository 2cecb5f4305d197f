//! A model of parsed JSON values, holding what the library reads of them.
use vstd::prelude::*;
use serde_json::Value;

verus! {

/// A parsed JSON value, as the library reads it: a number is kept as its
/// value when it is a non-negative integer that fits in `u64`.
pub enum JsonNode {
    Null,
    Bool(bool),
    Number(Option<u64>),
    Str(String),
    Array(Vec<JsonNode>),
    Object(Vec<(String, JsonNode)>),
}

/// Abstract value of a [`JsonNode`].
pub enum JsonValue {
    Null,
    Bool(bool),
    Number(Option<u64>),
    Str(Seq<char>),
    Array(Seq<JsonValue>),
    Object(Seq<(Seq<char>, JsonValue)>),
}

/// The abstract value of a node.
pub open spec fn json_view(n: JsonNode) -> JsonValue
    decreases n, 0nat,
{
    match n {
        JsonNode::Null => JsonValue::Null,
        JsonNode::Bool(b) => JsonValue::Bool(b),
        JsonNode::Number(u) => JsonValue::Number(u),
        JsonNode::Str(s) => JsonValue::Str(s@),
        JsonNode::Array(v) => JsonValue::Array(json_views(v@)),
        JsonNode::Object(m) => JsonValue::Object(json_entries_view(m@)),
    }
}

/// The abstract values of a list of nodes.
pub open spec fn json_views(s: Seq<JsonNode>) -> Seq<JsonValue>
    decreases s, s.len(),
{
    if s.len() == 0 {
        Seq::empty()
    } else {
        json_views(s.drop_last()).push(json_view(s.last()))
    }
}

/// The abstract entries of an object.
pub open spec fn json_entries_view(s: Seq<(String, JsonNode)>) -> Seq<(Seq<char>, JsonValue)>
    decreases s, s.len(),
{
    if s.len() == 0 {
        Seq::empty()
    } else {
        json_entries_view(s.drop_last()).push((s.last().0@, json_view(s.last().1)))
    }
}

impl View for JsonNode {
    type V = JsonValue;

    open spec fn view(&self) -> JsonValue {
        json_view(*self)
    }
}

/// The views of a list of nodes, element by element.
pub proof fn lemma_json_views(s: Seq<JsonNode>)
    ensures
        json_views(s).len() == s.len(),
        forall|i: int| 0 <= i < s.len() ==> #[trigger] json_views(s)[i] == json_view(s[i]),
    decreases s.len(),
{
    if s.len() > 0 {
        lemma_json_views(s.drop_last());
    }
}

/// The views of the entries of an object, entry by entry.
pub proof fn lemma_json_entries_view(s: Seq<(String, JsonNode)>)
    ensures
        json_entries_view(s).len() == s.len(),
        forall|i: int|
            0 <= i < s.len() ==> #[trigger] json_entries_view(s)[i] == (s[i].0@, json_view(s[i].1)),
    decreases s.len(),
{
    if s.len() > 0 {
        lemma_json_entries_view(s.drop_last());
    }
}

/// The value under `key` in the entries from position `i` on.
pub open spec fn json_lookup(m: Seq<(Seq<char>, JsonValue)>, key: Seq<char>, i: int) -> Option<
    JsonValue,
>
    decreases m.len() - i,
{
    if i < 0 || i >= m.len() {
        None
    } else if m[i].0 == key {
        Some(m[i].1)
    } else {
        json_lookup(m, key, i + 1)
    }
}

/// `value[key]` on an object (its keys are distinct); `None` where serde
/// gives `Null` because the key is missing or the value is not an object.
pub open spec fn json_get(v: JsonValue, key: Seq<char>) -> Option<JsonValue> {
    match v {
        JsonValue::Object(m) => json_lookup(m, key, 0),
        _ => None,
    }
}

/// `Value::as_u64`.
pub open spec fn json_as_u64(v: JsonValue) -> Option<u64> {
    match v {
        JsonValue::Number(n) => n,
        _ => None,
    }
}

/// `Value::as_bool`.
pub open spec fn json_as_bool(v: JsonValue) -> Option<bool> {
    match v {
        JsonValue::Bool(b) => Some(b),
        _ => None,
    }
}

/// `Value::as_str`.
pub open spec fn json_as_str(v: JsonValue) -> Option<Seq<char>> {
    match v {
        JsonValue::Str(s) => Some(s),
        _ => None,
    }
}

/// `Value::as_array`.
pub open spec fn json_as_array(v: JsonValue) -> Option<Seq<JsonValue>> {
    match v {
        JsonValue::Array(a) => Some(a),
        _ => None,
    }
}

/// `value[key]` (see `json_get`).
pub fn json_field<'a>(node: &'a JsonNode, key: &str) -> (r: Option<&'a JsonNode>)
    ensures
        r matches Some(x) ==> json_get(node@, key@) == Some(x@),
        r is None ==> json_get(node@, key@) is None,
{
    match node {
        JsonNode::Object(m) => {
            proof {
                lemma_json_entries_view(m@);
            }
            let ghost ev = json_entries_view(m@);
            let mut i: usize = 0;
            while i < m.len()
                invariant
                    i <= m.len(),
                    ev == json_entries_view(m@),
                    ev.len() == m@.len(),
                    node@ == JsonValue::Object(ev),
                    json_lookup(ev, key@, 0) == json_lookup(ev, key@, i as int),
                    forall|j: int| 0 <= j < m@.len() ==> #[trigger] ev[j] == (m@[j].0@, json_view(m@[j].1)),
                decreases m.len() - i,
            {
                let entry = &m[i];
                if crate::text::text_eq(entry.0.as_str(), key) {
                    return Some(&entry.1);
                }
                i = i + 1;
            }
            None
        },
        _ => None,
    }
}

/// `Value::as_u64`.
pub fn json_u64(node: &JsonNode) -> (r: Option<u64>)
    ensures
        r == json_as_u64(node@),
{
    match node {
        JsonNode::Number(n) => *n,
        _ => None,
    }
}

/// `Value::as_bool`.
pub fn json_bool(node: &JsonNode) -> (r: Option<bool>)
    ensures
        r == json_as_bool(node@),
{
    match node {
        JsonNode::Bool(b) => Some(*b),
        _ => None,
    }
}

/// `Value::as_str`.
pub fn json_str(node: &JsonNode) -> (r: Option<&str>)
    ensures
        r matches Some(s) ==> json_as_str(node@) == Some(s@),
        r is None ==> json_as_str(node@) is None,
{
    match node {
        JsonNode::Str(s) => Some(s.as_str()),
        _ => None,
    }
}

/// `Value::as_array`.
pub fn json_array(node: &JsonNode) -> (r: Option<&Vec<JsonNode>>)
    ensures
        r matches Some(v) ==> json_as_array(node@) == Some(json_views(v@)),
        r is None ==> json_as_array(node@) is None,
{
    match node {
        JsonNode::Array(v) => Some(v),
        _ => None,
    }
}

/// The value that `serde_json` parses from a JSON text (`None` when the
/// text is not valid JSON), as modelled by [`JsonNode`].
pub uninterp spec fn json_parse(text: Seq<char>) -> Option<JsonValue>;

#[verifier::external_type_specification]
#[verifier::external_body]
pub struct ExSerdeJsonValue(Value);

/// Parses a JSON text with `serde_json::from_str::<serde_json::Value>`.
///
/// Claims that the parse is a function of the text alone (`json_parse`) and
/// that it fails exactly when `json_parse` gives `None`; the error message of
/// `serde_json` is passed on and not described.
#[verifier::external_body]
pub(crate) fn parse_json_text(text: &str) -> (res: Result<JsonNode, String>)
    ensures
        res matches Ok(n) ==> json_parse(text@) == Some(n@),
        res is Err ==> json_parse(text@) is None,
{
    match serde_json::from_str::<Value>(text) {
        Ok(v) => Ok(json_node_from_serde(v)),
        Err(e) => Err(e.to_string()),
    }
}

/// Converts a `serde_json` value into the library's model, variant by
/// variant; a number keeps what `Number::as_u64` gives.
#[verifier::external_body]
fn json_node_from_serde(v: Value) -> JsonNode {
    match v {
        Value::Null => JsonNode::Null,
        Value::Bool(b) => JsonNode::Bool(b),
        Value::Number(n) => JsonNode::Number(n.as_u64()),
        Value::String(s) => JsonNode::Str(s),
        Value::Array(items) => JsonNode::Array(items.into_iter().map(json_node_from_serde).collect()),
        Value::Object(m) => JsonNode::Object(m.into_iter().map(json_entry_from_serde).collect()),
    }
}

/// Converts one entry of a `serde_json` object.
#[verifier::external_body]
fn json_entry_from_serde(entry: (String, Value)) -> (String, JsonNode) {
    (entry.0, json_node_from_serde(entry.1))
}

} // verus!
