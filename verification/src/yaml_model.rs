//! A model of parsed YAML values.
use vstd::prelude::*;
use serde_yaml::Value;

verus! {

/// A parsed YAML value, as the library reads it.
pub enum YamlNode {
    Null,
    Bool(bool),
    PosInt(u64),
    NegInt(i64),
    Float,
    Str(String),
    List(Vec<YamlNode>),
    Mapping(Vec<(Option<String>, YamlNode)>),
}

/// Abstract value of a [`YamlNode`].
pub enum YamlValue {
    Null,
    Bool(bool),
    PosInt(u64),
    NegInt(i64),
    Float,
    Str(Seq<char>),
    List(Seq<YamlValue>),
    Mapping(Seq<(Option<Seq<char>>, YamlValue)>),
}

pub open spec fn node_view(n: YamlNode) -> YamlValue
    decreases n, 0nat,
{
    match n {
        YamlNode::Null => YamlValue::Null,
        YamlNode::Bool(b) => YamlValue::Bool(b),
        YamlNode::PosInt(u) => YamlValue::PosInt(u),
        YamlNode::NegInt(i) => YamlValue::NegInt(i),
        YamlNode::Float => YamlValue::Float,
        YamlNode::Str(s) => YamlValue::Str(s@),
        YamlNode::List(v) => YamlValue::List(nodes_view(v@)),
        YamlNode::Mapping(m) => YamlValue::Mapping(entries_view(m@)),
    }
}

pub open spec fn nodes_view(s: Seq<YamlNode>) -> Seq<YamlValue>
    decreases s, s.len(),
{
    if s.len() == 0 {
        Seq::empty()
    } else {
        nodes_view(s.drop_last()).push(node_view(s.last()))
    }
}

pub open spec fn entries_view(s: Seq<(Option<String>, YamlNode)>) -> Seq<(Option<Seq<char>>, YamlValue)>
    decreases s, s.len(),
{
    if s.len() == 0 {
        Seq::empty()
    } else {
        let e = s.last();
        let k = match e.0 {
            Some(k) => Some(k@),
            None => None,
        };
        entries_view(s.drop_last()).push((k, node_view(e.1)))
    }
}

impl View for YamlNode {
    type V = YamlValue;

    open spec fn view(&self) -> YamlValue {
        node_view(*self)
    }
}

pub proof fn lemma_nodes_view(s: Seq<YamlNode>)
    ensures
        nodes_view(s).len() == s.len(),
        forall|i: int| 0 <= i < s.len() ==> #[trigger] nodes_view(s)[i] == node_view(s[i]),
    decreases s.len(),
{
    if s.len() > 0 {
        lemma_nodes_view(s.drop_last());
    }
}

pub proof fn lemma_entries_view(s: Seq<(Option<String>, YamlNode)>)
    ensures
        entries_view(s).len() == s.len(),
        forall|i: int|
            0 <= i < s.len() ==> (#[trigger] entries_view(s)[i]).1 == node_view(s[i].1) && (
            match s[i].0 {
                Some(k) => entries_view(s)[i].0 == Some(k@),
                None => entries_view(s)[i].0 is None,
            }),
    decreases s.len(),
{
    if s.len() > 0 {
        lemma_entries_view(s.drop_last());
    }
}

/// `Value::get` with a string key: the value of the entry whose key is that
/// string, when the value is a mapping.
pub open spec fn value_get(v: YamlValue, key: Seq<char>) -> Option<YamlValue> {
    match v {
        YamlValue::Mapping(m) => entry_lookup(m, key, 0),
        _ => None,
    }
}

/// The value of the first entry at or after `i` whose key is `key`.
pub open spec fn entry_lookup(m: Seq<(Option<Seq<char>>, YamlValue)>, key: Seq<char>, i: int) -> Option<
    YamlValue,
>
    decreases m.len() - i,
{
    if i < 0 || i >= m.len() {
        None
    } else if m[i].0 == Some(key) {
        Some(m[i].1)
    } else {
        entry_lookup(m, key, i + 1)
    }
}

/// `Value::as_u64`.
pub open spec fn value_as_u64(v: YamlValue) -> Option<u64> {
    match v {
        YamlValue::PosInt(u) => Some(u),
        _ => None,
    }
}

/// `Value::as_str`.
pub open spec fn value_as_str(v: YamlValue) -> Option<Seq<char>> {
    match v {
        YamlValue::Str(s) => Some(s),
        _ => None,
    }
}

/// `Value::as_sequence`.
pub open spec fn value_as_list(v: YamlValue) -> Option<Seq<YamlValue>> {
    match v {
        YamlValue::List(s) => Some(s),
        _ => None,
    }
}

/// `Value::get(key).and_then(Value::as_u64)`.
pub open spec fn value_get_u64(v: YamlValue, key: Seq<char>) -> Option<u64> {
    match value_get(v, key) {
        Some(x) => value_as_u64(x),
        None => None,
    }
}

/// `Value::get(key).and_then(Value::as_sequence)`.
pub open spec fn value_get_list(v: YamlValue, key: Seq<char>) -> Option<Seq<YamlValue>> {
    match value_get(v, key) {
        Some(x) => value_as_list(x),
        None => None,
    }
}

/// `Value::get(key).and_then(Value::as_str)`.
pub open spec fn value_get_str(v: YamlValue, key: Seq<char>) -> Option<Seq<char>> {
    match value_get(v, key) {
        Some(x) => value_as_str(x),
        None => None,
    }
}

/// `Value::get` with a string key.
pub fn yaml_get<'a>(node: &'a YamlNode, key: &str) -> (r: Option<&'a YamlNode>)
    ensures
        r matches Some(x) ==> value_get(node@, key@) == Some(x@),
        r is None ==> value_get(node@, key@) is None,
{
    match node {
        YamlNode::Mapping(m) => {
            proof {
                lemma_entries_view(m@);
            }
            let ghost ev = entries_view(m@);
            let mut i: usize = 0;
            while i < m.len()
                invariant
                    i <= m.len(),
                    ev == entries_view(m@),
                    ev.len() == m@.len(),
                    node@ == YamlValue::Mapping(ev),
                    entry_lookup(ev, key@, 0) == entry_lookup(ev, key@, i as int),
                    forall|j: int|
                        0 <= j < m@.len() ==> (#[trigger] ev[j]).1 == node_view(m@[j].1) && (
                        match m@[j].0 {
                            Some(k) => ev[j].0 == Some(k@),
                            None => ev[j].0 is None,
                        }),
                decreases m.len() - i,
            {
                let entry = &m[i];
                let hit = match &entry.0 {
                    Some(k) => crate::text::text_eq(k.as_str(), key),
                    None => false,
                };
                assert(hit == (ev[i as int].0 == Some(key@)));
                if hit {
                    return Some(&entry.1);
                }
                i = i + 1;
            }
            None
        },
        _ => None,
    }
}

/// `Value::as_u64`.
pub fn yaml_as_u64(node: &YamlNode) -> (r: Option<u64>)
    ensures
        r == value_as_u64(node@),
{
    match node {
        YamlNode::PosInt(u) => Some(*u),
        _ => None,
    }
}

/// `Value::as_str`.
pub fn yaml_as_str(node: &YamlNode) -> (r: Option<&str>)
    ensures
        r matches Some(s) ==> value_as_str(node@) == Some(s@),
        r is None ==> value_as_str(node@) is None,
{
    match node {
        YamlNode::Str(s) => Some(s.as_str()),
        _ => None,
    }
}

/// `Value::as_sequence`.
pub fn yaml_as_list(node: &YamlNode) -> (r: Option<&Vec<YamlNode>>)
    ensures
        r matches Some(v) ==> value_as_list(node@) == Some(nodes_view(v@)),
        r is None ==> value_as_list(node@) is None,
{
    match node {
        YamlNode::List(v) => Some(v),
        _ => None,
    }
}

/// A copy of a YAML value.
pub fn clone_node(node: &YamlNode) -> (res: YamlNode)
    ensures
        res@ == node@,
    decreases node,
{
    match node {
        YamlNode::Null => YamlNode::Null,
        YamlNode::Bool(b) => YamlNode::Bool(*b),
        YamlNode::PosInt(u) => YamlNode::PosInt(*u),
        YamlNode::NegInt(i) => YamlNode::NegInt(*i),
        YamlNode::Float => YamlNode::Float,
        YamlNode::Str(s) => YamlNode::Str(s.clone()),
        YamlNode::List(v) => {
            let mut out: Vec<YamlNode> = Vec::new();
            let mut i: usize = 0;
            while i < v.len()
                invariant
                    i <= v.len(),
                    out@.len() == i,
                    *node == YamlNode::List(*v),
                    forall|k: int| 0 <= k < i ==> node_view(#[trigger] out@[k]) == node_view(v@[k]),
                decreases v.len() - i,
            {
                assert(decreases_to!(*node => node->List_0));
                assert(decreases_to!(v => v@));
                assert(decreases_to!(v@ => v@[i as int]));
                assert(decreases_to!(node => v@[i as int]));
                out.push(clone_node(&v[i]));
                i = i + 1;
            }
            proof {
                lemma_nodes_view(out@);
                lemma_nodes_view(v@);
            }
            assert(nodes_view(out@) =~= nodes_view(v@));
            YamlNode::List(out)
        },
        YamlNode::Mapping(m) => {
            let mut out: Vec<(Option<String>, YamlNode)> = Vec::new();
            let mut i: usize = 0;
            while i < m.len()
                invariant
                    i <= m.len(),
                    out@.len() == i,
                    *node == YamlNode::Mapping(*m),
                    forall|k: int| 0 <= k < i ==> (#[trigger] out@[k]).0 == m@[k].0 && node_view(out@[k].1) == node_view(m@[k].1),
                decreases m.len() - i,
            {
                assert(decreases_to!(*node => node->Mapping_0));
                assert(decreases_to!(m => m@));
                assert(decreases_to!(m@ => m@[i as int]));
                assert(decreases_to!(m@[i as int] => m@[i as int].1));
                assert(decreases_to!(node => m@[i as int].1));
                let key = match &m[i].0 {
                    Some(k) => Some(k.clone()),
                    None => None,
                };
                out.push((key, clone_node(&m[i].1)));
                i = i + 1;
            }
            proof {
                lemma_entries_view(out@);
                lemma_entries_view(m@);
            }
            assert(entries_view(out@) =~= entries_view(m@));
            YamlNode::Mapping(out)
        },
    }
}

impl Clone for YamlNode {
    fn clone(&self) -> (res: Self)
        ensures
            res@ == self@,
    {
        clone_node(self)
    }
}

/// The value that `serde_yaml` parses from a YAML text (`None` when the
/// text is not valid YAML), as modelled by [`YamlNode`].
pub uninterp spec fn yaml_parse(text: Seq<char>) -> Option<YamlValue>;

#[verifier::external_type_specification]
#[verifier::external_body]
pub struct ExSerdeYamlValue(Value);

/// Parses a YAML text with `serde_yaml::from_str::<serde_yaml::Value>`.
///
/// Claims that the parse is a function of the text alone (`yaml_parse`) and
/// that it fails exactly when `yaml_parse` gives `None`; the error message of
/// `serde_yaml` is passed on and not described.
#[verifier::external_body]
pub(crate) fn parse_yaml_text(text: &str) -> (res: Result<YamlNode, String>)
    ensures
        res matches Ok(n) ==> yaml_parse(text@) == Some(n@),
        res is Err ==> yaml_parse(text@) is None,
{
    match serde_yaml::from_str::<Value>(text) {
        Ok(v) => Ok(node_from_serde(v)),
        Err(e) => Err(e.to_string()),
    }
}

/// The node of a YAML number from its readings as `u64` and as `i64`:
/// non-negative integers, then negative ones, and anything else is a float.
fn number_node(unsigned: Option<u64>, signed: Option<i64>) -> (res: YamlNode)
    ensures
        res == (match (unsigned, signed) {
            (Some(u), _) => YamlNode::PosInt(u),
            (None, Some(i)) => YamlNode::NegInt(i),
            (None, None) => YamlNode::Float,
        }),
{
    match (unsigned, signed) {
        (Some(u), _) => YamlNode::PosInt(u),
        (None, Some(i)) => YamlNode::NegInt(i),
        (None, None) => YamlNode::Float,
    }
}

/// Converts a `serde_yaml::Value` into a [`YamlNode`], one variant for one:
/// tags are dropped (every accessor of `serde_yaml` looks through them), a
/// mapping key is kept only when it is a plain string (the only keys that a
/// string lookup can find), and a float keeps no value.
#[verifier::external_body]
fn node_from_serde(v: Value) -> YamlNode {
    match v {
        Value::Null => YamlNode::Null,
        Value::Bool(b) => YamlNode::Bool(b),
        Value::Number(n) => number_node(n.as_u64(), n.as_i64()),
        Value::String(s) => YamlNode::Str(s),
        Value::Sequence(items) => YamlNode::List(items.into_iter().map(node_from_serde).collect()),
        Value::Mapping(m) => YamlNode::Mapping(m.into_iter().map(key_and_node).collect()),
        Value::Tagged(t) => node_from_serde(t.value),
    }
}

/// Converts one entry of a `serde_yaml` mapping: the key when it is a plain
/// string, and the converted value.
#[verifier::external_body]
fn key_and_node(entry: (Value, Value)) -> (Option<String>, YamlNode) {
    match entry.0 {
        Value::String(s) => (Some(s), node_from_serde(entry.1)),
        _ => (None, node_from_serde(entry.1)),
    }
}

} // verus!
