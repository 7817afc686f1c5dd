//! What the library reads from TOML documents: the node found at a key
//! path, as plain values.

use vstd::prelude::*;
use TomlNode::{Array, Bool, Invalid, Missing, Other, Str, Table};

verus! {

/// The node at a key path of a TOML document, reduced to what the library
/// reads from it.
#[derive(Debug)]
pub enum TomlNode {
    /// The text is not a valid TOML document.
    Invalid,
    /// No node at that path.
    Missing,
    Str(String),
    Bool(bool),
    /// An array; each element is kept if it is a string.
    Array(Vec<Option<String>>),
    /// A table (or inline table), by its keys in the order the parser
    /// walks them (sorted for `toml`, document order for `toml_edit`).
    Table(Vec<String>),
    /// Any other value (numbers, dates, arrays of tables).
    Other,
}

/// The view of a [`TomlNode`].
pub enum NodeView {
    Invalid,
    Missing,
    Str(Seq<char>),
    Bool(bool),
    Array(Seq<Option<Seq<char>>>),
    Table(Seq<Seq<char>>),
    Other,
}

/// The view of an optional string.
pub open spec fn opt_view(o: Option<String>) -> Option<Seq<char>> {
    match o {
        Some(s) => Some(s@),
        None => None,
    }
}

/// The views of a list of optional strings.
pub open spec fn opts_view(v: Seq<Option<String>>) -> Seq<Option<Seq<char>>> {
    v.map_values(|o: Option<String>| opt_view(o))
}

/// The views of a list of strings.
pub open spec fn strs_view(v: Seq<String>) -> Seq<Seq<char>> {
    v.map_values(|s: String| s@)
}

impl View for TomlNode {
    type V = NodeView;

    open spec fn view(&self) -> NodeView {
        match self {
            TomlNode::Invalid => NodeView::Invalid,
            TomlNode::Missing => NodeView::Missing,
            TomlNode::Str(s) => NodeView::Str(s@),
            TomlNode::Bool(b) => NodeView::Bool(*b),
            TomlNode::Array(a) => NodeView::Array(opts_view(a@)),
            TomlNode::Table(k) => NodeView::Table(strs_view(k@)),
            TomlNode::Other => NodeView::Other,
        }
    }
}

/// The node that `toml` (parsing the text into a `toml::Value` and
/// following the keys with `Value::get`) finds at `path`.
pub uninterp spec fn toml_node_at(text: Seq<char>, path: Seq<Seq<char>>) -> NodeView;

/// The node that `toml_edit` (parsing the text into a `DocumentMut` and
/// following the keys with `Item::get`) finds at `path`.
pub uninterp spec fn toml_edit_node_at(text: Seq<char>, path: Seq<Seq<char>>) -> NodeView;

/// The text `toml_edit` writes after setting the string at `path` of the
/// parsed text (`doc[k1][k2]... = value(v)`, then `to_string`).
pub uninterp spec fn toml_edit_set_text(
    text: Seq<char>,
    path: Seq<Seq<char>>,
    value: Seq<char>,
) -> Seq<char>;

/// Reads the node at `path` with the `toml` crate: parses `text` as a
/// `toml::Value`, follows the keys with `Value::get` and copies the node.
#[verifier::external_body]
pub(crate) fn toml_node(text: &str, path: &Vec<String>) -> (r: TomlNode)
    ensures
        r@ == toml_node_at(text@, strs_view(path@)),
        r@ matches NodeView::Table(keys) ==> keys.no_duplicates(),
{
    let Ok(doc) = text.parse::<toml::Value>() else { return TomlNode::Invalid };
    let mut cur = &doc;
    for key in path.iter() {
        let Some(next) = cur.get(key.as_str()) else { return TomlNode::Missing };
        cur = next;
    }
    match cur {
        toml::Value::String(s) => TomlNode::Str(s.clone()),
        toml::Value::Boolean(b) => TomlNode::Bool(*b),
        toml::Value::Array(a) => TomlNode::Array(a.iter().map(|x| x.as_str().map(str::to_owned)).collect()),
        toml::Value::Table(t) => TomlNode::Table(t.keys().cloned().collect()),
        _ => TomlNode::Other,
    }
}

/// The text of an error `toml` reports for a document (`None` where it
/// parses).
pub uninterp spec fn toml_error_of(text: Seq<char>) -> Option<Seq<char>>;

/// The parse error `toml` reports for `text` (parsing a `toml::Value`),
/// as text.
#[verifier::external_body]
pub(crate) fn toml_error(text: &str) -> (r: Option<String>)
    ensures
        opt_view(r) == toml_error_of(text@),
{
    text.parse::<toml::Value>().err().map(|e| e.to_string())
}

/// Reads the node at `path` with `toml_edit`: parses `text` as a
/// `DocumentMut`, follows the keys with `Item::get` and copies the node
/// (tables and inline tables alike). `Item::get` finds nothing below a
/// node that is not table-like, so a node found at `path` has table-like
/// nodes on the way to it, where an assignment can go.
#[verifier::external_body]
pub(crate) fn toml_edit_node(text: &str, path: &Vec<String>) -> (r: TomlNode)
    ensures
        r@ == toml_edit_node_at(text@, strs_view(path@)),
        r@ matches NodeView::Table(keys) ==> keys.no_duplicates(),
        path@.len() > 0 && !(r@ is Missing) && !(r@ is Invalid) ==> edit_path_ok(
            text@,
            strs_view(path@),
        ),
{
    let Ok(doc) = text.parse::<toml_edit::DocumentMut>() else { return Invalid };
    let mut cur = doc.as_item();
    for key in path {
        let Some(next) = cur.get(key) else { return Missing };
        cur = next;
    }
    if let Some(t) = cur.as_table_like() { return Table(t.iter().map(|e| e.0.to_owned()).collect()) }
    if let Some(s) = cur.as_str() { return Str(s.to_owned()) }
    if let Some(b) = cur.as_bool() { return Bool(b) }
    match cur.as_array() {
        Some(a) => Array(a.iter().map(|x| x.as_str().map(String::from)).collect()),
        None => Other,
    }
}

/// Whether `toml_edit` can assign at `path` of the text without panicking:
/// the text parses and every node on the way is absent or table-like.
pub open spec fn edit_path_ok(text: Seq<char>, path: Seq<Seq<char>>) -> bool {
    &&& path.len() > 0
    &&& toml_edit_node_at(text, Seq::empty()) !is Invalid
    &&& forall|i: int|
        1 <= i < path.len() ==> (#[trigger] toml_edit_node_at(text, path.subrange(0, i)) is Missing
            || toml_edit_node_at(text, path.subrange(0, i)) is Table)
}

/// Sets the string at `path` with `toml_edit` (`doc[k1][k2]... =
/// value(v)`), keeping the rest of the text's formatting, and returns the
/// document's text. Absent tables on the way are created inline.
#[verifier::external_body]
pub(crate) fn toml_edit_set(text: &str, path: &Vec<String>, value: &str) -> (r: String)
    requires
        edit_path_ok(text@, strs_view(path@)),
    ensures
        r@ == toml_edit_set_text(text@, strs_view(path@), value@),
{
    let mut doc = text.parse::<toml_edit::DocumentMut>().expect("checked by the caller");
    let mut item = doc.as_item_mut();
    for key in path.iter() {
        item = &mut item[key.as_str()];
    }
    *item = toml_edit::value(value);
    doc.to_string()
}

} // verus!
