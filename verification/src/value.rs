//! The configuration document as a tree of plain values.

use vstd::prelude::*;

verus! {

/// A value of a configuration document.
///
/// Strings, integers and booleans carry what the document holds; of a float
/// or a date only its kind is kept. A table holds its entries in the order of
/// their keys.
#[derive(Debug)]
pub enum Node {
    String(String),
    Integer(i64),
    Float,
    Boolean(bool),
    Datetime,
    Array(Vec<Node>),
    Table(Vec<(String, Node)>),
}

/// `toml::Value`, a value as the parser hands it out; nothing of it is
/// looked into here.
#[verifier::external_type_specification]
#[verifier::external_body]
pub struct ExTomlValue(toml::Value);

/// `toml::de::Error`, the parser's error; nothing of it is looked into here.
#[verifier::external_type_specification]
#[verifier::external_body]
pub struct ExTomlError(toml::de::Error);

/// The value tree of the TOML document that `content` is, or `None` where
/// it is none.
pub uninterp spec fn toml_document(content: Seq<char>) -> Option<Node>;

/// Reads a document through `str::parse::<toml::Value>` and hands back its
/// value tree, or the parser's error. The tree is what [`toml_document`]
/// names; tables hold their entries in the order of their keys, as the
/// parser's map does.
#[verifier::external_body]
pub(crate) fn parse_document(content: &str) -> (parsed: Result<Node, toml::de::Error>)
    ensures
        match toml_document(content@) {
            Some(value) => parsed == Ok::<Node, toml::de::Error>(value),
            None => parsed is Err,
        },
{
    content.parse::<toml::Value>().map(from_toml)
}

/// Turns a value of the parser into a value of this library, variant by
/// variant and level by level; of a float or a date only the kind is kept.
#[verifier::external_body]
fn from_toml(value: toml::Value) -> Node {
    match value {
        toml::Value::String(text) => Node::String(text),
        toml::Value::Integer(number) => Node::Integer(number),
        toml::Value::Float(_) => Node::Float,
        toml::Value::Boolean(flag) => Node::Boolean(flag),
        toml::Value::Datetime(_) => Node::Datetime,
        toml::Value::Array(items) => Node::Array(items.into_iter().map(from_toml).collect()),
        toml::Value::Table(entries) => Node::Table(
            entries.into_iter().map(|(key, item)| (key, from_toml(item))).collect(),
        ),
    }
}

/// The description of a parser's error, through its `Display`. Nothing is
/// claimed of the text.
#[verifier::external_body]
pub(crate) fn error_text(error: &toml::de::Error) -> (text: String) {
    error.to_string()
}

/// The value that the first entry with the given key holds, if there is one.
pub open spec fn lookup(table: Seq<(String, Node)>, key: Seq<char>) -> Option<Node>
    decreases table.len(),
{
    if table.len() == 0 {
        None
    } else if table[0].0@ == key {
        Some(table[0].1)
    } else {
        lookup(table.drop_first(), key)
    }
}

/// The string under `key`; `None` where the key is missing or holds
/// something else.
pub open spec fn lookup_string(table: Seq<(String, Node)>, key: Seq<char>) -> Option<Seq<char>> {
    match lookup(table, key) {
        Some(Node::String(s)) => Some(s@),
        _ => None,
    }
}

/// The integer under `key`; zero where the key is missing or holds something
/// else.
pub open spec fn lookup_integer(table: Seq<(String, Node)>, key: Seq<char>) -> int {
    match lookup(table, key) {
        Some(Node::Integer(n)) => n as int,
        _ => 0,
    }
}

/// The table under `key`; `None` where the key is missing or holds something
/// else.
pub open spec fn lookup_table(table: Seq<(String, Node)>, key: Seq<char>) -> Option<
    Seq<(String, Node)>,
> {
    match lookup(table, key) {
        Some(Node::Table(t)) => Some(t@),
        _ => None,
    }
}

/// Finds the value that the first entry with the given key holds.
pub fn get<'a>(table: &'a Vec<(String, Node)>, key: &str) -> (found: Option<&'a Node>)
    ensures
        match found {
            Some(v) => lookup(table@, key@) == Some(*v),
            None => lookup(table@, key@).is_none(),
        },
{
    let wanted: String = key.to_owned();
    let mut i: usize = 0;
    assert(table@.skip(0) =~= table@);
    while i < table.len()
        invariant
            i <= table.len(),
            wanted@ == key@,
            lookup(table@, key@) == lookup(table@.skip(i as int), key@),
        decreases table.len() - i,
    {
        if table[i].0 == wanted {
            assert(table@.skip(i as int)[0] == table@[i as int]);
            return Some(&table[i].1);
        }
        assert(table@.skip(i as int)[0] == table@[i as int]);
        assert(table@.skip(i as int).drop_first() =~= table@.skip(i + 1));
        i += 1;
    }
    assert(table@.skip(i as int).len() == 0);
    None
}

/// The string under `key`, if the key holds one.
pub fn get_string<'a>(table: &'a Vec<(String, Node)>, key: &str) -> (found: Option<&'a String>)
    ensures
        match found {
            Some(s) => lookup_string(table@, key@) == Some(s@),
            None => lookup_string(table@, key@).is_none(),
        },
{
    match get(table, key) {
        Some(Node::String(s)) => Some(s),
        _ => None,
    }
}

/// The integer under `key`, or zero if the key holds none.
pub fn get_integer(table: &Vec<(String, Node)>, key: &str) -> (n: i64)
    ensures
        n == lookup_integer(table@, key@),
{
    match get(table, key) {
        Some(Node::Integer(n)) => *n,
        _ => 0,
    }
}

/// The table under `key`, if the key holds one.
pub fn get_table<'a>(table: &'a Vec<(String, Node)>, key: &str) -> (found: Option<
    &'a Vec<(String, Node)>,
>)
    ensures
        match found {
            Some(t) => lookup_table(table@, key@) == Some(t@),
            None => lookup_table(table@, key@).is_none(),
        },
{
    match get(table, key) {
        Some(Node::Table(t)) => Some(t),
        _ => None,
    }
}

} // verus!
