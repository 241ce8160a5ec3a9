//! YAML documents as plain values, read and written by `serde_yaml`.
use vstd::prelude::*;

verus! {

#[verifier::external_type_specification]
#[verifier::external_body]
pub struct ExYamlDocument(serde_yaml::Value);

/// A YAML number as the contract grammar reads it.
#[derive(Debug, Clone, Copy, PartialEq, Eq, Structural)]
pub enum YamlNumber {
    /// An integer that fits in `i64`.
    Signed(i64),
    /// A non-negative integer above `i64::MAX`.
    Unsigned(u64),
    /// A number with a fractional part or exponent.
    Fractional,
}

/// A YAML node. Mappings keep their entries in document order.
#[derive(Debug, PartialEq, Eq)]
pub enum YamlNode {
    Null,
    Bool(bool),
    Number(YamlNumber),
    String(String),
    Sequence(Vec<YamlNode>),
    Mapping(Vec<(YamlNode, YamlNode)>),
    /// A node with an explicit `!tag`; its content is not read.
    Tagged,
}

pub enum YamlValue {
    Null,
    Bool(bool),
    Number(YamlNumber),
    String(Seq<char>),
    Sequence(Seq<YamlValue>),
    Mapping(Seq<(YamlValue, YamlValue)>),
    Tagged,
}

pub open spec fn yaml_view(n: YamlNode) -> YamlValue
    decreases n, 0nat,
{
    match n {
        YamlNode::Null => YamlValue::Null,
        YamlNode::Bool(b) => YamlValue::Bool(b),
        YamlNode::Number(x) => YamlValue::Number(x),
        YamlNode::String(s) => YamlValue::String(s@),
        YamlNode::Sequence(items) => YamlValue::Sequence(yaml_seq_view(items@)),
        YamlNode::Mapping(entries) => YamlValue::Mapping(yaml_entries_view(entries@)),
        YamlNode::Tagged => YamlValue::Tagged,
    }
}

pub open spec fn yaml_seq_view(items: Seq<YamlNode>) -> Seq<YamlValue>
    decreases items, items.len(),
{
    if items.len() == 0 {
        Seq::empty()
    } else {
        seq![yaml_view(items[0])] + yaml_seq_view(items.drop_first())
    }
}

pub open spec fn yaml_entries_view(entries: Seq<(YamlNode, YamlNode)>) -> Seq<(YamlValue, YamlValue)>
    decreases entries, entries.len(),
{
    if entries.len() == 0 {
        Seq::empty()
    } else {
        seq![(yaml_view(entries[0].0), yaml_view(entries[0].1))] + yaml_entries_view(entries.drop_first())
    }
}

impl View for YamlNode {
    type V = YamlValue;

    open spec fn view(&self) -> YamlValue {
        yaml_view(*self)
    }
}

/// A document that `serde_yaml` can write: no fractional numbers, no tags.
pub open spec fn writable(v: YamlValue) -> bool
    decreases v,
{
    match v {
        YamlValue::Number(YamlNumber::Fractional) => false,
        YamlValue::Tagged => false,
        YamlValue::Sequence(items) => forall|i: int| 0 <= i < items.len() ==> writable(#[trigger] items[i]),
        YamlValue::Mapping(entries) => forall|i: int|
            0 <= i < entries.len() ==> writable(#[trigger] entries[i].0) && writable(entries[i].1),
        _ => true,
    }
}

/// What `serde_yaml::from_str::<serde_yaml::Value>` reads from a text: the
/// document, or the text of its error.
pub uninterp spec fn yaml_document(text: Seq<char>) -> Result<YamlValue, Seq<char>>;

/// What `serde_yaml::to_string` writes for a document: the text, or the text
/// of its error.
pub uninterp spec fn yaml_text(doc: YamlValue) -> Result<Seq<char>, Seq<char>>;

#[verifier::external_type_specification]
#[verifier::external_body]
pub struct ExYamlDocumentNumber(serde_yaml::Number);

/// Converts a `serde_yaml` number: as `i64` where it is one, else as `u64`
/// where it is one, else as a fractional number.
#[verifier::external_body]
fn number_from_document(n: &serde_yaml::Number) -> YamlNumber {
    match (n.as_i64(), n.as_u64()) {
        (Some(i), _) => YamlNumber::Signed(i),
        (None, Some(u)) => YamlNumber::Unsigned(u),
        (None, None) => YamlNumber::Fractional,
    }
}

/// Converts a `serde_yaml` value into a node, one variant for one variant.
#[verifier::external_body]
fn node_from_document(value: &serde_yaml::Value) -> YamlNode {
    match value {
        serde_yaml::Value::Null => YamlNode::Null,
        serde_yaml::Value::Bool(b) => YamlNode::Bool(*b),
        serde_yaml::Value::Number(n) => YamlNode::Number(number_from_document(n)),
        serde_yaml::Value::String(s) => YamlNode::String(s.clone()),
        serde_yaml::Value::Sequence(items) => YamlNode::Sequence(items.iter().map(node_from_document).collect()),
        serde_yaml::Value::Mapping(m) => YamlNode::Mapping(m.iter().map(|(k, v)| (node_from_document(k), node_from_document(v))).collect()),
        serde_yaml::Value::Tagged(_) => YamlNode::Tagged,
    }
}

/// Converts a node into a `serde_yaml` value, one variant for one variant.
#[verifier::external_body]
fn node_to_document(node: &YamlNode) -> serde_yaml::Value {
    match node {
        YamlNode::Null | YamlNode::Tagged | YamlNode::Number(YamlNumber::Fractional) => serde_yaml::Value::Null,
        YamlNode::Bool(b) => serde_yaml::Value::Bool(*b),
        YamlNode::Number(YamlNumber::Signed(i)) => serde_yaml::Value::Number((*i).into()),
        YamlNode::Number(YamlNumber::Unsigned(u)) => serde_yaml::Value::Number((*u).into()),
        YamlNode::String(s) => serde_yaml::Value::String(s.clone()),
        YamlNode::Sequence(items) => serde_yaml::Value::Sequence(items.iter().map(node_to_document).collect()),
        YamlNode::Mapping(m) => serde_yaml::Value::Mapping(m.iter().map(|(k, v)| (node_to_document(k), node_to_document(v))).collect()),
    }
}

/// `serde_yaml::from_str::<serde_yaml::Value>`: reads a YAML text into a node;
/// on failure, the text of the error.
#[verifier::external_body]
pub fn read_yaml(text: &str) -> (r: Result<YamlNode, String>)
    ensures
        match r {
            Ok(node) => yaml_document(text@) == Ok::<YamlValue, Seq<char>>(node@),
            Err(e) => yaml_document(text@) == Err::<YamlValue, Seq<char>>(e@),
        },
{
    match serde_yaml::from_str::<serde_yaml::Value>(text) {
        Ok(value) => Ok(node_from_document(&value)),
        Err(err) => Err(err.to_string()),
    }
}

/// `serde_yaml::to_string`: writes a node as YAML text; on failure, the text
/// of the error.
#[verifier::external_body]
pub fn write_yaml(node: &YamlNode) -> (r: Result<String, String>)
    requires
        writable(node@),
    ensures
        match r {
            Ok(text) => yaml_text(node@) == Ok::<Seq<char>, Seq<char>>(text@),
            Err(e) => yaml_text(node@) == Err::<Seq<char>, Seq<char>>(e@),
        },
{
    serde_yaml::to_string(&node_to_document(node)).map_err(|err| err.to_string())
}

} // verus!

verus! {

pub proof fn lemma_entries_view(m: Seq<(YamlNode, YamlNode)>)
    ensures
        yaml_entries_view(m).len() == m.len(),
        forall|i: int| 0 <= i < m.len() ==> #[trigger] yaml_entries_view(m)[i] == (yaml_view(m[i].0), yaml_view(m[i].1)),
    decreases m.len(),
{
    if m.len() > 0 {
        lemma_entries_view(m.drop_first());
        assert forall|i: int| 0 <= i < m.len() implies #[trigger] yaml_entries_view(m)[i] == (yaml_view(m[i].0), yaml_view(m[i].1)) by {
            if i > 0 {
                assert(m.drop_first()[i - 1] == m[i]);
            }
        }
    }
}

pub proof fn lemma_seq_view(m: Seq<YamlNode>)
    ensures
        yaml_seq_view(m).len() == m.len(),
        forall|i: int| 0 <= i < m.len() ==> #[trigger] yaml_seq_view(m)[i] == yaml_view(m[i]),
    decreases m.len(),
{
    if m.len() > 0 {
        lemma_seq_view(m.drop_first());
        assert forall|i: int| 0 <= i < m.len() implies #[trigger] yaml_seq_view(m)[i] == yaml_view(m[i]) by {
            if i > 0 {
                assert(m.drop_first()[i - 1] == m[i]);
            }
        }
    }
}

} // verus!
