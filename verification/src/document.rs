//! TOML documents: the ledger, the platform description and the
//! hardware-design catalog are kept in this format. Parsing and printing are
//! the work of the `toml` crate; this module states what the library relies
//! on, and reads typed values out of a parsed document.

use vstd::prelude::*;

verus! {

/// Declares `toml::Value`, a parsed TOML document or a part of one, as a
/// type whose inside the library does not look at.
#[verifier::external_type_specification]
#[verifier::external_body]
pub struct ExTomlValue(toml::Value);

/// Declares `toml::de::Error`, the crate's account of a text that is not
/// TOML.
#[verifier::external_type_specification]
#[verifier::external_body]
pub struct ExTomlDeError(toml::de::Error);

/// Declares `toml::ser::Error`, the crate's account of a value that it does
/// not print.
#[verifier::external_type_specification]
#[verifier::external_body]
pub struct ExTomlSerError(toml::ser::Error);

/// The content of a TOML value.
pub enum TomlTree {
    /// A string.
    Text(Seq<char>),
    /// An integer.
    Integer(i64),
    /// A float, by its bits.
    Real(u64),
    /// A boolean.
    Boolean(bool),
    /// A date and time, as it is written.
    Datetime(Seq<char>),
    /// An array, in order.
    Array(Seq<TomlTree>),
    /// A table, by key.
    Table(Map<Seq<char>, TomlTree>),
}

impl TomlTree {
    /// The value under `key`, where this is a table that has the key.
    pub open spec fn member(self, key: Seq<char>) -> Option<TomlTree> {
        match self {
            TomlTree::Table(m) => if m.dom().contains(key) {
                Some(m[key])
            } else {
                None
            },
            _ => None,
        }
    }

    /// The value under `key` in the table under `section`.
    pub open spec fn at(self, section: Seq<char>, key: Seq<char>) -> Option<TomlTree> {
        match self.member(section) {
            Some(t) => t.member(key),
            None => None,
        }
    }

    /// The string, where this is one.
    pub open spec fn text(self) -> Option<Seq<char>> {
        match self {
            TomlTree::Text(s) => Some(s),
            _ => None,
        }
    }

    /// The integer, where this is one.
    pub open spec fn integer(self) -> Option<i64> {
        match self {
            TomlTree::Integer(i) => Some(i),
            _ => None,
        }
    }

    /// The strings, where this is an array of nothing but strings.
    pub open spec fn texts(self) -> Option<Seq<Seq<char>>> {
        match self {
            TomlTree::Array(items) => if forall|i: int|
                0 <= i < items.len() ==> (#[trigger] items[i]) is Text {
                Some(items.map_values(|t: TomlTree| t->Text_0))
            } else {
                None
            },
            _ => None,
        }
    }

    /// The integers, where this is an array of nothing but integers.
    pub open spec fn integers(self) -> Option<Seq<i64>> {
        match self {
            TomlTree::Array(items) => if forall|i: int|
                0 <= i < items.len() ==> (#[trigger] items[i]) is Integer {
                Some(items.map_values(|t: TomlTree| t->Integer_0))
            } else {
                None
            },
            _ => None,
        }
    }
}

/// The content of a value of the `toml` crate.
pub uninterp spec fn toml_content(v: toml::Value) -> TomlTree;

/// What the `toml` crate reads a text as: the content of the document, or
/// nothing where the text is not TOML.
pub uninterp spec fn toml_document(text: Seq<char>) -> Option<TomlTree>;

/// What the `toml` crate prints a value as, or nothing where it refuses to
/// print it (a document is a table).
pub uninterp spec fn toml_rendering(tree: TomlTree) -> Option<Seq<char>>;

/// The contents of a list of values.
pub open spec fn contents(items: Seq<toml::Value>) -> Seq<TomlTree> {
    items.map_values(|v: toml::Value| toml_content(v))
}

/// The texts of a list of strings.
pub open spec fn strings_view(list: Seq<String>) -> Seq<Seq<char>> {
    list.map_values(|s: String| s@)
}

/// Parses a document with `str::parse::<toml::Value>()`. The result is the
/// crate's reading of the text, and an error where the crate has none.
#[verifier::external_body]
pub(crate) fn toml_parse(text: &str) -> (r: Result<toml::Value, toml::de::Error>)
    ensures
        match r {
            Ok(v) => toml_document(text@) == Some(toml_content(v)),
            Err(_) => toml_document(text@) is None,
        },
{
    text.parse::<toml::Value>()
}

/// Calls `toml::Value::get` with a string index: the value under the key
/// where the receiver is a table that has the key, and nothing otherwise.
#[verifier::external_body]
pub(crate) fn toml_get<'a>(v: &'a toml::Value, key: &str) -> (r: Option<&'a toml::Value>)
    ensures
        match r {
            Some(x) => toml_content(*v).member(key@) == Some(toml_content(*x)),
            None => toml_content(*v).member(key@) is None,
        },
{
    v.get(key)
}

/// Calls `toml::Value::as_str`: the string where the value is a string.
#[verifier::external_body]
pub(crate) fn toml_as_str(v: &toml::Value) -> (r: Option<String>)
    ensures
        match r {
            Some(s) => toml_content(*v).text() == Some(s@),
            None => toml_content(*v).text() is None,
        },
{
    v.as_str().map(String::from)
}

/// Calls `toml::Value::as_integer`: the integer where the value is one.
#[verifier::external_body]
pub(crate) fn toml_as_integer(v: &toml::Value) -> (r: Option<i64>)
    ensures
        r == toml_content(*v).integer(),
{
    v.as_integer()
}

/// Calls `toml::Value::as_array`: the items where the value is an array.
#[verifier::external_body]
pub(crate) fn toml_as_array(v: &toml::Value) -> (r: Option<&Vec<toml::Value>>)
    ensures
        match r {
            Some(items) => toml_content(*v) == TomlTree::Array(contents(items@)),
            None => !(toml_content(*v) is Array),
        },
{
    v.as_array()
}

/// Makes a `toml::Value::String`.
#[verifier::external_body]
pub(crate) fn toml_from_text(s: &str) -> (v: toml::Value)
    ensures
        toml_content(v) == TomlTree::Text(s@),
{
    toml::Value::String(s.to_string())
}

/// Makes a `toml::Value::Integer`.
#[verifier::external_body]
pub(crate) fn toml_from_integer(i: i64) -> (v: toml::Value)
    ensures
        toml_content(v) == TomlTree::Integer(i),
{
    toml::Value::Integer(i)
}

/// Makes a `toml::Value::Array` of the items.
#[verifier::external_body]
pub(crate) fn toml_from_items(items: Vec<toml::Value>) -> (v: toml::Value)
    ensures
        toml_content(v) == TomlTree::Array(contents(items@)),
{
    toml::Value::Array(items)
}

/// Makes an empty `toml::Value::Table`, with `toml::map::Map::new`.
#[verifier::external_body]
pub(crate) fn toml_empty_table() -> (v: toml::Value)
    ensures
        toml_content(v) == TomlTree::Table(Map::<Seq<char>, TomlTree>::empty()),
{
    toml::Value::Table(toml::map::Map::new())
}

/// Calls `toml::map::Map::insert` on a table: afterwards the table has the
/// value under the key, in place of what it had there, and is otherwise
/// unchanged.
#[verifier::external_body]
pub(crate) fn toml_insert(table: &mut toml::Value, key: &str, value: toml::Value)
    requires
        toml_content(*old(table)) is Table,
    ensures
        toml_content(*final(table)) == TomlTree::Table(
            toml_content(*old(table))->Table_0.insert(key@, toml_content(value)),
        ),
{
    if let toml::Value::Table(t) = table {
        t.insert(key.to_string(), value);
    }
}

/// Prints a value with `toml::to_string`.
#[verifier::external_body]
pub(crate) fn toml_to_string(v: &toml::Value) -> (r: Result<String, toml::ser::Error>)
    ensures
        match r {
            Ok(s) => toml_rendering(toml_content(*v)) == Some(s@),
            Err(_) => toml_rendering(toml_content(*v)) is None,
        },
{
    toml::to_string(v)
}

/// The value under `key` in the table under `section`.
pub fn lookup<'a>(doc: &'a toml::Value, section: &str, key: &str) -> (r: Option<&'a toml::Value>)
    ensures
        match r {
            Some(x) => toml_content(*doc).at(section@, key@) == Some(toml_content(*x)),
            None => toml_content(*doc).at(section@, key@) is None,
        },
{
    match toml_get(doc, section) {
        Some(t) => toml_get(t, key),
        None => None,
    }
}

/// The strings of an array of strings.
pub fn texts_of(v: &toml::Value) -> (r: Option<Vec<String>>)
    ensures
        match r {
            Some(list) => toml_content(*v).texts() == Some(strings_view(list@)),
            None => toml_content(*v).texts() is None,
        },
{
    let items = match toml_as_array(v) {
        Some(items) => items,
        None => {
            return None;
        },
    };
    let ghost trees = contents(items@);
    let mut out: Vec<String> = Vec::new();
    let mut i: usize = 0;
    while i < items.len()
        invariant
            i <= items.len(),
            trees == contents(items@),
            toml_content(*v) == TomlTree::Array(trees),
            out.len() == i,
            forall|k: int| 0 <= k < i ==> (#[trigger] trees[k]) == TomlTree::Text(out@[k]@),
        decreases items.len() - i,
    {
        match toml_as_str(&items[i]) {
            Some(s) => {
                out.push(s);
            },
            None => {
                assert(!(trees[i as int] is Text));
                return None;
            },
        }
        i += 1;
    }
    assert(trees.map_values(|t: TomlTree| t->Text_0) =~= strings_view(out@));
    Some(out)
}

/// The integers of an array of integers.
pub fn integers_of(v: &toml::Value) -> (r: Option<Vec<i64>>)
    ensures
        match r {
            Some(list) => toml_content(*v).integers() == Some(list@),
            None => toml_content(*v).integers() is None,
        },
{
    let items = match toml_as_array(v) {
        Some(items) => items,
        None => {
            return None;
        },
    };
    let ghost trees = contents(items@);
    let mut out: Vec<i64> = Vec::new();
    let mut i: usize = 0;
    while i < items.len()
        invariant
            i <= items.len(),
            trees == contents(items@),
            toml_content(*v) == TomlTree::Array(trees),
            out.len() == i,
            forall|k: int| 0 <= k < i ==> (#[trigger] trees[k]) == TomlTree::Integer(out@[k]),
        decreases items.len() - i,
    {
        match toml_as_integer(&items[i]) {
            Some(n) => {
                out.push(n);
            },
            None => {
                assert(!(trees[i as int] is Integer));
                return None;
            },
        }
        i += 1;
    }
    assert(trees.map_values(|t: TomlTree| t->Integer_0) =~= out@);
    Some(out)
}

/// The string under `key` in the table under `section`.
pub fn text_at(doc: &toml::Value, section: &str, key: &str) -> (r: Option<String>)
    ensures
        match r {
            Some(s) => tree_text_at(toml_content(*doc), section@, key@) == Some(s@),
            None => tree_text_at(toml_content(*doc), section@, key@) is None,
        },
{
    match lookup(doc, section, key) {
        Some(v) => toml_as_str(v),
        None => None,
    }
}

/// The string under `key` in the table under `section` of a document.
pub open spec fn tree_text_at(t: TomlTree, section: Seq<char>, key: Seq<char>) -> Option<
    Seq<char>,
> {
    match t.at(section, key) {
        Some(v) => v.text(),
        None => None,
    }
}

/// The strings under `key` in the table under `section` of a document.
pub open spec fn tree_texts_at(t: TomlTree, section: Seq<char>, key: Seq<char>) -> Option<
    Seq<Seq<char>>,
> {
    match t.at(section, key) {
        Some(v) => v.texts(),
        None => None,
    }
}

/// The integers under `key` in the table under `section` of a document.
pub open spec fn tree_integers_at(t: TomlTree, section: Seq<char>, key: Seq<char>) -> Option<
    Seq<i64>,
> {
    match t.at(section, key) {
        Some(v) => v.integers(),
        None => None,
    }
}

/// The strings under `key` in the table under `section`.
pub fn texts_at(doc: &toml::Value, section: &str, key: &str) -> (r: Option<Vec<String>>)
    ensures
        match r {
            Some(list) => tree_texts_at(toml_content(*doc), section@, key@) == Some(
                strings_view(list@),
            ),
            None => tree_texts_at(toml_content(*doc), section@, key@) is None,
        },
{
    match lookup(doc, section, key) {
        Some(v) => texts_of(v),
        None => None,
    }
}

/// The integers under `key` in the table under `section`.
pub fn integers_at(doc: &toml::Value, section: &str, key: &str) -> (r: Option<Vec<i64>>)
    ensures
        match r {
            Some(list) => tree_integers_at(toml_content(*doc), section@, key@) == Some(list@),
            None => tree_integers_at(toml_content(*doc), section@, key@) is None,
        },
{
    match lookup(doc, section, key) {
        Some(v) => integers_of(v),
        None => None,
    }
}

} // verus!
