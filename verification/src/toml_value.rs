//! TOML values as configuration reads them.

use toml::Value;
use vstd::prelude::*;

verus! {

/// What a TOML value holds. A table keeps its entries in the order of their
/// names.
#[verifier::ext_equal]
pub enum Toml {
    Boolean(bool),
    Integer(i64),
    /// The bit pattern of a binary64 number.
    Float(u64),
    Text(Seq<char>),
    Array(Seq<Toml>),
    Table(Seq<(Seq<char>, Toml)>),
    Datetime,
}

#[verifier::external_type_specification]
#[verifier::external_body]
pub struct ExTomlValue(Value);

/// What a `toml` value holds.
pub uninterp spec fn toml_of(v: Value) -> Toml;

/// The entries of the document a text spells in TOML, where it is well formed.
pub uninterp spec fn parsed_toml(text: Seq<char>) -> Option<Seq<(Seq<char>, Toml)>>;

/// `<toml::Table as FromStr>::from_str`: claimed to succeed exactly on the texts
/// that `parsed_toml` gives entries, with those entries.
#[verifier::external_body]
pub(crate) fn parse(text: &str) -> (r: Option<Value>)
    ensures
        r is Some <==> parsed_toml(text@) is Some,
        r is Some ==> toml_of(r->0) == Toml::Table(parsed_toml(text@)->0),
{
    text.parse::<toml::Table>().ok().map(Value::Table)
}

/// One level of a TOML value.
pub enum TomlNode {
    Boolean(bool),
    Integer(i64),
    Float(u64),
    Text(String),
    Array(Vec<Value>),
    Table(Vec<(String, Value)>),
    Datetime,
}

/// What one level of a value says.
pub open spec fn node_of(node: TomlNode) -> Toml {
    match node {
        TomlNode::Boolean(b) => Toml::Boolean(b),
        TomlNode::Integer(n) => Toml::Integer(n),
        TomlNode::Float(bits) => Toml::Float(bits),
        TomlNode::Text(s) => Toml::Text(s@),
        TomlNode::Array(items) => Toml::Array(items_of(items@)),
        TomlNode::Table(entries) => Toml::Table(entries_of(entries@)),
        TomlNode::Datetime => Toml::Datetime,
    }
}

/// What the items of an array hold.
pub open spec fn items_of(items: Seq<Value>) -> Seq<Toml> {
    Seq::new(items.len(), |i: int| toml_of(items[i]))
}

/// What the entries of a table hold.
pub open spec fn entries_of(entries: Seq<(String, Value)>) -> Seq<(Seq<char>, Toml)> {
    Seq::new(entries.len(), |i: int| (entries[i].0@, toml_of(entries[i].1)))
}

/// The variants of `toml::Value`, told apart: claimed to hold what the value
/// holds, an array's items and a table's entries (`Map::into_iter`) in order.
#[verifier::external_body]
pub(crate) fn open_node(v: Value) -> (r: TomlNode)
    ensures
        node_of(r) == toml_of(v),
{
    match v {
        Value::Boolean(b) => TomlNode::Boolean(b),
        Value::Integer(n) => TomlNode::Integer(n),
        Value::Float(x) => TomlNode::Float(x.to_bits()),
        Value::String(s) => TomlNode::Text(s),
        Value::Array(items) => TomlNode::Array(items),
        Value::Table(table) => TomlNode::Table(table.into_iter().collect()),
        Value::Datetime(_) => TomlNode::Datetime,
    }
}

} // verus!
