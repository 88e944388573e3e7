//! YAML documents: reading them, building them and writing them.
//!
//! A document is held as a `serde_yaml::Value`. What such a value holds is
//! spoken of as a `Tree`.

use crate::text::to_chars;
use vstd::prelude::*;

verus! {

/// `serde_yaml::Value`, a YAML value of any shape. Nothing is known of one
/// but what the functions below say.
#[verifier::external_type_specification]
#[verifier::external_body]
pub struct ExValue(serde_yaml::Value);

/// `serde_yaml::Error`, which says why a text was not read or a value not
/// written. It is not looked into.
#[verifier::external_type_specification]
#[verifier::external_body]
pub struct ExYamlError(serde_yaml::Error);

/// What a YAML value holds.
pub enum Tree {
    Null,
    Bool(bool),
    /// A whole number between `i64::MIN` and `i64::MAX`.
    Int(i64),
    /// Any other number, by the text that it is written as.
    Number(Seq<char>),
    Text(Seq<char>),
    List(Seq<Tree>),
    /// The entries of a mapping in their order, no key twice.
    Dict(Seq<(Tree, Tree)>),
}

/// What a value holds.
pub uninterp spec fn yaml_tree(value: serde_yaml::Value) -> Tree;

/// The document that a text is read as; `None` for a text that is no single
/// YAML document.
pub uninterp spec fn yaml_document(text: Seq<char>) -> Option<Tree>;

/// The text that a document is written as; `None` for a document that
/// cannot be written.
pub uninterp spec fn yaml_text(tree: Tree) -> Option<Seq<char>>;

/// What a list of values holds.
pub open spec fn trees_of(values: Seq<serde_yaml::Value>) -> Seq<Tree> {
    values.map_values(|v: serde_yaml::Value| yaml_tree(v))
}

/// What a list of named values holds: an entry for each, under its name.
pub open spec fn entries_of(fields: Seq<(String, serde_yaml::Value)>) -> Seq<(Tree, Tree)> {
    fields.map_values(|f: (String, serde_yaml::Value)| (Tree::Text(f.0@), yaml_tree(f.1)))
}

/// No two of the named values have the same name.
pub open spec fn distinct_names(fields: Seq<(String, serde_yaml::Value)>) -> bool {
    forall|a: int, b: int|
        #![trigger fields[a], fields[b]]
        0 <= a < b < fields.len() ==> fields[a].0@ != fields[b].0@
}

/// The value of the first entry whose key is the text `name`.
pub open spec fn entry_named(entries: Seq<(Tree, Tree)>, name: Seq<char>) -> Option<Tree>
    decreases entries.len(),
{
    if entries.len() == 0 {
        None
    } else if entries[0].0 == Tree::Text(name) {
        Some(entries[0].1)
    } else {
        entry_named(entries.drop_first(), name)
    }
}

impl Tree {
    /// The value under `name`, if this is a mapping that has one.
    pub open spec fn field(self, name: Seq<char>) -> Option<Tree> {
        match self {
            Tree::Dict(entries) => entry_named(entries, name),
            _ => None,
        }
    }

    /// The number, if this is a whole number.
    pub open spec fn whole(self) -> Option<i64> {
        match self {
            Tree::Int(i) => Some(i),
            _ => None,
        }
    }

    /// The text, if this is a text.
    pub open spec fn text(self) -> Option<Seq<char>> {
        match self {
            Tree::Text(s) => Some(s),
            _ => None,
        }
    }

    /// The items, if this is a list.
    pub open spec fn items(self) -> Option<Seq<Tree>> {
        match self {
            Tree::List(items) => Some(items),
            _ => None,
        }
    }

    /// The whole number under `name`.
    pub open spec fn int_field(self, name: Seq<char>) -> Option<i64> {
        match self.field(name) {
            Some(t) => t.whole(),
            None => None,
        }
    }

    /// The text under `name`.
    pub open spec fn text_field(self, name: Seq<char>) -> Option<Seq<char>> {
        match self.field(name) {
            Some(t) => t.text(),
            None => None,
        }
    }
}

/// Calls `serde_yaml::from_str` for a `serde_yaml::Value`. What it reads
/// depends on the text alone.
#[verifier::external_body]
pub(crate) fn load(text: &str) -> (r: Result<serde_yaml::Value, serde_yaml::Error>)
    ensures
        match r {
            Ok(value) => yaml_document(text@) == Some(yaml_tree(value)),
            Err(_) => yaml_document(text@) is None,
        },
{
    serde_yaml::from_str::<serde_yaml::Value>(text)
}

/// Calls `serde_yaml::to_string`. What it writes depends on what the value
/// holds alone: a mapping is written entry by entry in its order.
#[verifier::external_body]
pub(crate) fn emit(value: &serde_yaml::Value) -> (r: Result<String, serde_yaml::Error>)
    ensures
        match r {
            Ok(text) => yaml_text(yaml_tree(*value)) == Some(text@),
            Err(_) => yaml_text(yaml_tree(*value)) is None,
        },
{
    serde_yaml::to_string(value)
}

/// Calls `serde_yaml::Value::as_i64`, which gives the number of a value
/// that is a whole number within `i64`, and nothing for any other value.
#[verifier::external_body]
pub(crate) fn as_int(value: &serde_yaml::Value) -> (r: Option<i64>)
    ensures
        r == yaml_tree(*value).whole(),
{
    value.as_i64()
}

/// Calls `serde_yaml::Value::as_str`, which gives the text of a value that
/// is a string, and nothing for any other value.
#[verifier::external_body]
pub(crate) fn as_text(value: &serde_yaml::Value) -> (r: Option<String>)
    ensures
        match r {
            Some(s) => yaml_tree(*value).text() == Some(s@),
            None => yaml_tree(*value).text() is None,
        },
{
    value.as_str().map(str::to_owned)
}

/// Calls `serde_yaml::Value::as_sequence`, which gives the items of a value
/// that is a sequence, and nothing for any other value.
#[verifier::external_body]
pub(crate) fn as_list(value: &serde_yaml::Value) -> (r: Option<Vec<serde_yaml::Value>>)
    ensures
        match r {
            Some(items) => yaml_tree(*value).items() == Some(trees_of(items@)),
            None => yaml_tree(*value).items() is None,
        },
{
    value.as_sequence().cloned()
}

/// Calls `serde_yaml::Value::get` with a string: in a mapping it finds the
/// value whose key is that string; in any other value it finds nothing.
#[verifier::external_body]
pub(crate) fn field(value: &serde_yaml::Value, name: &str) -> (r: Option<serde_yaml::Value>)
    ensures
        match r {
            Some(found) => yaml_tree(*value).field(name@) == Some(yaml_tree(found)),
            None => yaml_tree(*value).field(name@) is None,
        },
{
    value.get(name).cloned()
}

/// Makes a number with `serde_yaml::Value::from`.
#[verifier::external_body]
pub(crate) fn from_int(number: i64) -> (r: serde_yaml::Value)
    ensures
        yaml_tree(r) == Tree::Int(number),
{
    serde_yaml::Value::from(number)
}

/// Makes a string with `serde_yaml::Value::from`.
#[verifier::external_body]
pub(crate) fn from_text(text: &str) -> (r: serde_yaml::Value)
    ensures
        yaml_tree(r) == Tree::Text(text@),
{
    serde_yaml::Value::from(text)
}

/// Makes a sequence with `serde_yaml::Value::Sequence`.
#[verifier::external_body]
pub(crate) fn from_list(items: Vec<serde_yaml::Value>) -> (r: serde_yaml::Value)
    ensures
        yaml_tree(r) == Tree::List(trees_of(items@)),
{
    serde_yaml::Value::Sequence(items)
}

/// Collects a `serde_yaml::Mapping` from named values. The mapping keeps
/// the order in which entries are put into it; a name that came twice would
/// be kept once, so the names have to differ.
#[verifier::external_body]
pub(crate) fn from_fields(fields: Vec<(String, serde_yaml::Value)>) -> (r: serde_yaml::Value)
    requires
        distinct_names(fields@),
    ensures
        yaml_tree(r) == Tree::Dict(entries_of(fields@)),
{
    serde_yaml::Value::Mapping(
        fields.into_iter().map(|(k, v)| (serde_yaml::Value::String(k), v)).collect(),
    )
}

/// The text under `name` in a mapping.
pub fn text_field(value: &serde_yaml::Value, name: &str) -> (r: Option<String>)
    ensures
        match r {
            Some(s) => yaml_tree(*value).text_field(name@) == Some(s@),
            None => yaml_tree(*value).text_field(name@) is None,
        },
{
    match field(value, name) {
        Some(found) => as_text(&found),
        None => None,
    }
}

/// The whole number under `name` in a mapping.
pub fn int_field(value: &serde_yaml::Value, name: &str) -> (r: Option<i64>)
    ensures
        r == yaml_tree(*value).int_field(name@),
{
    match field(value, name) {
        Some(found) => as_int(&found),
        None => None,
    }
}

/// A document without the line that opens it: without a leading `---` line,
/// and with a line break at its end unless it is empty.
pub open spec fn headerless(text: Seq<char>) -> Seq<char> {
    let body = if text.len() >= 4 && text.subrange(0, 4) == seq!['-', '-', '-', '\n'] {
        text.subrange(4, text.len() as int)
    } else if text == seq!['-', '-', '-'] {
        Seq::<char>::empty()
    } else {
        text
    };
    if body.len() > 0 && body.last() != '\n' {
        body.push('\n')
    } else {
        body
    }
}

/// Takes the opening `---` line off a document and ends its last line.
pub fn strip_header(text: &str) -> (r: String)
    ensures
        r@ == headerless(text@),
{
    let chars = to_chars(text);
    let n = chars.len();
    let start: usize = if n >= 4 && chars[0] == '-' && chars[1] == '-' && chars[2] == '-'
        && chars[3] == '\n' {
        assert(text@.subrange(0, 4) =~= seq!['-', '-', '-', '\n']);
        4
    } else if n == 3 && chars[0] == '-' && chars[1] == '-' && chars[2] == '-' {
        assert(text@ =~= seq!['-', '-', '-']);
        3
    } else {
        proof {
            if n >= 4 {
                let head = text@.subrange(0, 4);
                assert(head[0] == text@[0] && head[1] == text@[1] && head[2] == text@[2]
                    && head[3] == text@[3]);
            }
        }
        0
    };
    assert(text@.subrange(start as int, n as int) =~= if start == 4 {
        text@.subrange(4, text@.len() as int)
    } else if start == 3 {
        Seq::<char>::empty()
    } else {
        text@
    });
    let body = text.substring_char(start, n);
    let out = body.to_owned();
    if n > start && chars[n - 1] != '\n' {
        let ghost before = out@;
        let out = out.concat("\n");
        proof {
            reveal_strlit("\n");
            assert("\n"@ =~= seq!['\n']);
            assert(before + seq!['\n'] =~= before.push('\n'));
        }
        out
    } else {
        out
    }
}

} // verus!
