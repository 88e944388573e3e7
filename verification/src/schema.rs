//! How identities are laid out in a YAML document, and what can go wrong
//! with a document.

use crate::b64::{base64_text, binary_of, writable};
use crate::date::{date_of_text, Date, DateView};
use crate::id::{PubId, PubIdView};
use crate::level::TrustLevel;
use crate::trust::ids_view;
use crate::yaml::{headerless, trees_of, yaml_document, yaml_text, yaml_tree, Tree};
use vstd::prelude::*;

verus! {

/// Why a document is not accepted as the content of a proof, or why a
/// content cannot be written.
#[derive(Copy, Clone, Debug, PartialEq, Eq, Structural)]
pub enum SchemaError {
    /// The text is no YAML document, or the document lacks a field, or a
    /// field holds what it must not.
    Malformed,
    /// The document is written in a later revision of the format than this
    /// library knows; the revision is given.
    UnsupportedVersion(i64),
    /// The content holds a key or a digest that is too long to be written,
    /// or YAML cannot express it.
    Unwritable,
}

/// The names of the fields differ from each other.
pub proof fn lemma_field_names()
    ensures
        "id"@ != "url"@,
        "version"@ != "date"@,
        "version"@ != "from"@,
        "version"@ != "ids"@,
        "version"@ != "trust"@,
        "version"@ != "comment"@,
        "version"@ != "revision"@,
        "version"@ != "digest"@,
        "version"@ != "rating"@,
        "date"@ != "from"@,
        "date"@ != "ids"@,
        "date"@ != "trust"@,
        "date"@ != "comment"@,
        "date"@ != "revision"@,
        "date"@ != "digest"@,
        "date"@ != "rating"@,
        "from"@ != "ids"@,
        "from"@ != "trust"@,
        "from"@ != "comment"@,
        "from"@ != "revision"@,
        "from"@ != "digest"@,
        "from"@ != "rating"@,
        "ids"@ != "trust"@,
        "ids"@ != "comment"@,
        "trust"@ != "comment"@,
        "revision"@ != "digest"@,
        "revision"@ != "rating"@,
        "revision"@ != "comment"@,
        "digest"@ != "rating"@,
        "digest"@ != "comment"@,
        "rating"@ != "comment"@,
{
    reveal_strlit("id");
    reveal_strlit("url");
    reveal_strlit("version");
    reveal_strlit("date");
    reveal_strlit("from");
    reveal_strlit("ids");
    reveal_strlit("trust");
    reveal_strlit("comment");
    reveal_strlit("revision");
    reveal_strlit("digest");
    reveal_strlit("rating");
    assert("id"@.len() == 2 && "url"@.len() == 3);
    assert("version"@.len() == 7 && "version"@[0] == 'v');
    assert("date"@.len() == 4 && "date"@[0] == 'd');
    assert("from"@.len() == 4 && "from"@[0] == 'f');
    assert("ids"@.len() == 3);
    assert("trust"@.len() == 5);
    assert("comment"@.len() == 7 && "comment"@[0] == 'c');
    assert("revision"@.len() == 8);
    assert("digest"@.len() == 6 && "digest"@[0] == 'd');
    assert("rating"@.len() == 6 && "rating"@[0] == 'r');
}

/// The document of an identity: its key as base64 text under `id`, and its
/// address under `url` if it has one.
pub open spec fn id_tree(id: PubIdView) -> Tree {
    match id.url {
        Some(url) => Tree::Dict(
            seq![
                (Tree::Text("id"@), Tree::Text(base64_text(id.id))),
                (Tree::Text("url"@), Tree::Text(url)),
            ],
        ),
        None => Tree::Dict(seq![(Tree::Text("id"@), Tree::Text(base64_text(id.id)))]),
    }
}

/// The identity that a document stands for, if it stands for one.
pub open spec fn id_of_tree(tree: Tree) -> Option<PubIdView> {
    match tree.text_field("id"@) {
        Some(text) => match binary_of(text) {
            Some(id) => match tree.field("url"@) {
                Some(u) => match u.text() {
                    Some(url) => Some(PubIdView { id, url: Some(url) }),
                    None => None,
                },
                None => Some(PubIdView { id, url: None }),
            },
            None => None,
        },
        None => None,
    }
}

/// The documents of a list of identities.
pub open spec fn ids_tree(ids: Seq<PubIdView>) -> Seq<Tree> {
    ids.map_values(|id: PubIdView| id_tree(id))
}

/// Every key of the list is short enough to be written.
pub open spec fn ids_writable(ids: Seq<PubIdView>) -> bool {
    forall|k: int| 0 <= k < ids.len() ==> writable((#[trigger] ids[k]).id)
}

/// The identities that a list of documents stands for, if each stands for
/// one.
pub open spec fn ids_of_trees(trees: Seq<Tree>) -> Option<Seq<PubIdView>> {
    if forall|k: int| 0 <= k < trees.len() ==> id_of_tree(#[trigger] trees[k]) is Some {
        Some(trees.map_values(|t: Tree| id_of_tree(t)->0))
    } else {
        None
    }
}

/// The document of an identity; `None` for one whose key is too long to be
/// written.
pub fn id_to_value(id: &PubId) -> (r: Option<serde_yaml::Value>)
    ensures
        match r {
            Some(value) => writable(id@.id) && yaml_tree(value) == id_tree(id@),
            None => !writable(id@.id),
        },
{
    match crate::b64::to_text(id.id.as_slice()) {
        Some(key) => {
            let mut fields: Vec<(String, serde_yaml::Value)> = Vec::new();
            fields.push(("id".to_owned(), crate::yaml::from_text(key.as_str())));
            match &id.url {
                Some(url) => {
                    fields.push(("url".to_owned(), crate::yaml::from_text(url.as_str())));
                },
                None => {},
            }
            proof {
                lemma_field_names();
            }
            let ghost entries = crate::yaml::entries_of(fields@);
            let value = crate::yaml::from_fields(fields);
            proof {
                match id@.url {
                    Some(url) => {
                        assert(entries =~= seq![
                            (Tree::Text("id"@), Tree::Text(base64_text(id@.id))),
                            (Tree::Text("url"@), Tree::Text(url)),
                        ]);
                    },
                    None => {
                        assert(entries =~= seq![
                            (Tree::Text("id"@), Tree::Text(base64_text(id@.id))),
                        ]);
                    },
                }
            }
            Some(value)
        },
        None => None,
    }
}

/// The identity that a document stands for, if it stands for one.
pub fn id_from_value(value: &serde_yaml::Value) -> (r: Option<PubId>)
    ensures
        match r {
            Some(id) => id_of_tree(yaml_tree(*value)) == Some(id@),
            None => id_of_tree(yaml_tree(*value)) is None,
        },
{
    match crate::yaml::text_field(value, "id") {
        Some(text) => match crate::b64::from_text(text.as_str()) {
            Some(id) => match crate::yaml::field(value, "url") {
                Some(u) => match crate::yaml::as_text(&u) {
                    Some(url) => Some(PubId { id, url: Some(url) }),
                    None => None,
                },
                None => Some(PubId { id, url: None }),
            },
            None => None,
        },
        None => None,
    }
}

/// The documents of a list of identities; `None` where a key is too long to
/// be written.
pub fn ids_to_values(ids: &Vec<PubId>) -> (r: Option<Vec<serde_yaml::Value>>)
    ensures
        match r {
            Some(values) => ids_writable(ids_view(ids@)) && trees_of(values@) == ids_tree(
                ids_view(ids@),
            ),
            None => !ids_writable(ids_view(ids@)),
        },
{
    let mut out: Vec<serde_yaml::Value> = Vec::new();
    let mut i: usize = 0;
    while i < ids.len()
        invariant
            i <= ids@.len(),
            out@.len() == i,
            forall|k: int| 0 <= k < i ==> writable((#[trigger] ids@[k])@.id),
            forall|k: int| 0 <= k < i ==> yaml_tree(#[trigger] out@[k]) == id_tree(ids@[k]@),
        decreases ids@.len() - i,
    {
        match id_to_value(&ids[i]) {
            Some(value) => {
                out.push(value);
            },
            None => {
                assert(!writable(ids_view(ids@)[i as int].id));
                return None;
            },
        }
        i += 1;
    }
    proof {
        assert forall|k: int| 0 <= k < ids@.len() implies writable(
            (#[trigger] ids_view(ids@)[k]).id,
        ) by {
            assert(writable(ids@[k]@.id));
        }
        assert(trees_of(out@) =~= ids_tree(ids_view(ids@)));
    }
    Some(out)
}

/// The identities that a list of documents stands for, if each stands for
/// one.
pub fn ids_from_values(values: &Vec<serde_yaml::Value>) -> (r: Option<Vec<PubId>>)
    ensures
        match r {
            Some(ids) => ids_of_trees(trees_of(values@)) == Some(ids_view(ids@)),
            None => ids_of_trees(trees_of(values@)) is None,
        },
{
    let mut out: Vec<PubId> = Vec::new();
    let mut i: usize = 0;
    while i < values.len()
        invariant
            i <= values@.len(),
            out@.len() == i,
            forall|k: int|
                0 <= k < i ==> id_of_tree(yaml_tree(#[trigger] values@[k])) == Some(out@[k]@),
        decreases values@.len() - i,
    {
        match id_from_value(&values[i]) {
            Some(id) => {
                out.push(id);
            },
            None => {
                assert(id_of_tree(trees_of(values@)[i as int]) is None);
                return None;
            },
        }
        i += 1;
    }
    proof {
        let trees = trees_of(values@);
        assert forall|k: int| 0 <= k < trees.len() implies id_of_tree(#[trigger] trees[k])
            == Some(out@[k]@) by {
            assert(id_of_tree(yaml_tree(values@[k])) == Some(out@[k]@));
        }
        assert(trees.map_values(|t: Tree| id_of_tree(t)->0) =~= ids_view(out@));
    }
    Some(out)
}

/// The date under `name`.
pub open spec fn date_field(tree: Tree, name: Seq<char>) -> Option<DateView> {
    match tree.text_field(name) {
        Some(text) => date_of_text(text),
        None => None,
    }
}

/// The identity under `name`.
pub open spec fn id_field(tree: Tree, name: Seq<char>) -> Option<PubIdView> {
    match tree.field(name) {
        Some(t) => id_of_tree(t),
        None => None,
    }
}

/// The list of identities under `name`.
pub open spec fn ids_field(tree: Tree, name: Seq<char>) -> Option<Seq<PubIdView>> {
    match tree.field(name) {
        Some(t) => match t.items() {
            Some(items) => ids_of_trees(items),
            None => None,
        },
        None => None,
    }
}

/// The level under `name`.
pub open spec fn level_field(tree: Tree, name: Seq<char>) -> Option<TrustLevel> {
    match tree.text_field(name) {
        Some(text) => TrustLevel::named(text),
        None => None,
    }
}

/// The bytes under `name`, which are written as base64 text.
pub open spec fn binary_field(tree: Tree, name: Seq<char>) -> Option<Seq<u8>> {
    match tree.text_field(name) {
        Some(text) => binary_of(text),
        None => None,
    }
}

/// The comment of a document: the text under `comment`, and the empty text
/// where there is no such field.
pub open spec fn comment_field(tree: Tree) -> Option<Seq<char>> {
    match tree.field("comment"@) {
        Some(c) => c.text(),
        None => Some(Seq::<char>::empty()),
    }
}

/// The text that a document is written as, without the line that opens it.
pub open spec fn document_text(tree: Tree) -> Option<Seq<char>> {
    match yaml_text(tree) {
        Some(text) => Some(headerless(text)),
        None => None,
    }
}

/// The date under `name`.
pub fn read_date(value: &serde_yaml::Value, name: &str) -> (r: Option<Date>)
    ensures
        match r {
            Some(d) => date_field(yaml_tree(*value), name@) == Some(d@) && d@.wf(),
            None => date_field(yaml_tree(*value), name@) is None,
        },
{
    match crate::yaml::text_field(value, name) {
        Some(text) => Date::parse(text.as_str()),
        None => None,
    }
}

/// The identity under `name`.
pub fn read_id(value: &serde_yaml::Value, name: &str) -> (r: Option<PubId>)
    ensures
        match r {
            Some(id) => id_field(yaml_tree(*value), name@) == Some(id@),
            None => id_field(yaml_tree(*value), name@) is None,
        },
{
    match crate::yaml::field(value, name) {
        Some(found) => id_from_value(&found),
        None => None,
    }
}

/// The list of identities under `name`.
pub fn read_ids(value: &serde_yaml::Value, name: &str) -> (r: Option<Vec<PubId>>)
    ensures
        match r {
            Some(ids) => ids_field(yaml_tree(*value), name@) == Some(ids_view(ids@)),
            None => ids_field(yaml_tree(*value), name@) is None,
        },
{
    match crate::yaml::field(value, name) {
        Some(found) => match crate::yaml::as_list(&found) {
            Some(items) => ids_from_values(&items),
            None => None,
        },
        None => None,
    }
}

/// The level under `name`.
pub fn read_level(value: &serde_yaml::Value, name: &str) -> (r: Option<TrustLevel>)
    ensures
        r == level_field(yaml_tree(*value), name@),
{
    match crate::yaml::text_field(value, name) {
        Some(text) => match TrustLevel::from_str(text.as_str()) {
            Ok(level) => Some(level),
            Err(_) => None,
        },
        None => None,
    }
}

/// The bytes under `name`.
pub fn read_binary(value: &serde_yaml::Value, name: &str) -> (r: Option<Vec<u8>>)
    ensures
        match r {
            Some(bytes) => binary_field(yaml_tree(*value), name@) == Some(bytes@),
            None => binary_field(yaml_tree(*value), name@) is None,
        },
{
    match crate::yaml::text_field(value, name) {
        Some(text) => crate::b64::from_text(text.as_str()),
        None => None,
    }
}

/// The comment of a document.
pub fn read_comment(value: &serde_yaml::Value) -> (r: Option<String>)
    ensures
        match r {
            Some(c) => comment_field(yaml_tree(*value)) == Some(c@),
            None => comment_field(yaml_tree(*value)) is None,
        },
{
    match crate::yaml::field(value, "comment") {
        Some(c) => crate::yaml::as_text(&c),
        None => Some(String::new()),
    }
}

/// Writes a document, without the line that opens it.
pub fn write_document(value: &serde_yaml::Value) -> (r: Result<String, SchemaError>)
    ensures
        match r {
            Ok(text) => document_text(yaml_tree(*value)) == Some(text@),
            Err(e) => e == SchemaError::Unwritable && document_text(yaml_tree(*value)) is None,
        },
{
    match crate::yaml::emit(value) {
        Ok(text) => Ok(crate::yaml::strip_header(text.as_str())),
        Err(_) => Err(SchemaError::Unwritable),
    }
}

/// Reads a text as a document; `None` for a text that is no single YAML
/// document.
pub fn read_document(text: &str) -> (r: Option<serde_yaml::Value>)
    ensures
        match r {
            Some(value) => yaml_document(text@) == Some(yaml_tree(value)),
            None => yaml_document(text@) is None,
        },
{
    match crate::yaml::load(text) {
        Ok(value) => Some(value),
        Err(_) => None,
    }
}

} // verus!
