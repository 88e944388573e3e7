//! Trust statements: one identity rating others.

use crate::b64::writable;
use crate::date::{Date, DateView};
use crate::id::{PubId, PubIdView};
use crate::level::TrustLevel;
use crate::schema::{
    comment_field, date_field, document_text, id_field, id_to_value, id_tree, ids_field,
    ids_to_values, ids_tree, ids_writable, lemma_field_names, level_field, read_comment,
    read_date, read_document, read_id, read_ids, read_level, write_document, SchemaError,
};
use crate::yaml::{
    entries_of, from_fields, from_int, from_list, from_text, yaml_document, yaml_tree, Tree,
};
use vstd::prelude::*;
use vstd::std_specs::convert::FromSpecImpl;

verus! {

/// The line that opens the envelope of a trust statement.
pub const BEGIN_BLOCK: &'static str = "-----BEGIN CREV TRUST -----";

/// The line between a trust statement and its signature.
pub const BEGIN_SIGNATURE: &'static str = "-----BEGIN CREV TRUST SIGNATURE-----";

/// The line that closes the envelope of a trust statement.
pub const END_BLOCK: &'static str = "-----END CREV TRUST-----";

/// The revision of the trust statement's format that this library writes.
/// Negative numbers stand for revisions from before the format was settled.
pub const CURRENT_TRUST_PROOF_SERIALIZATION_VERSION: i64 = -1;

/// The revision that new trust statements are written in.
pub fn cur_version() -> (r: i64)
    ensures
        r == CURRENT_TRUST_PROOF_SERIALIZATION_VERSION,
{
    CURRENT_TRUST_PROOF_SERIALIZATION_VERSION
}

/// What a list of identities stands for.
pub open spec fn ids_view(ids: Seq<PubId>) -> Seq<PubIdView> {
    ids.map_values(|p: PubId| p@)
}

/// A copy of a list of identities.
pub fn clone_ids(ids: &Vec<PubId>) -> (r: Vec<PubId>)
    ensures
        ids_view(r@) == ids_view(ids@),
{
    let mut out: Vec<PubId> = Vec::new();
    let mut i: usize = 0;
    while i < ids.len()
        invariant
            i <= ids@.len(),
            out@.len() == i,
            forall|k: int| 0 <= k < i ==> out@[k]@ == ids@[k]@,
        decreases ids@.len() - i,
    {
        out.push(ids[i].clone());
        i += 1;
    }
    assert(ids_view(out@) =~= ids_view(ids@));
    out
}

/// The body of a trust proof: `from` rates each of `ids` at the level
/// `trust`.
#[derive(Debug)]
pub struct Trust {
    pub version: i64,
    pub date: Date,
    pub from: PubId,
    pub ids: Vec<PubId>,
    pub trust: TrustLevel,
    pub comment: String,
}

/// What a `Trust` stands for.
pub struct TrustView {
    pub version: i64,
    pub date: DateView,
    pub from: PubIdView,
    pub ids: Seq<PubIdView>,
    pub trust: TrustLevel,
    pub comment: Seq<char>,
}

impl View for Trust {
    type V = TrustView;

    open spec fn view(&self) -> TrustView {
        TrustView {
            version: self.version,
            date: self.date@,
            from: self.from@,
            ids: ids_view(self.ids@),
            trust: self.trust,
            comment: self.comment@,
        }
    }
}

/// A trust statement as its author edits it: like `Trust`, but without the
/// format's revision, which is no concern of the author.
#[derive(Debug)]
pub struct TrustDraft {
    pub date: Date,
    pub from: PubId,
    pub ids: Vec<PubId>,
    pub trust: TrustLevel,
    pub comment: String,
}

/// What a `TrustDraft` stands for.
pub struct TrustDraftView {
    pub date: DateView,
    pub from: PubIdView,
    pub ids: Seq<PubIdView>,
    pub trust: TrustLevel,
    pub comment: Seq<char>,
}

impl View for TrustDraft {
    type V = TrustDraftView;

    open spec fn view(&self) -> TrustDraftView {
        TrustDraftView {
            date: self.date@,
            from: self.from@,
            ids: ids_view(self.ids@),
            trust: self.trust,
            comment: self.comment@,
        }
    }
}

impl TrustView {
    /// The draft of a statement: all of it but the revision.
    pub open spec fn draft(self) -> TrustDraftView {
        TrustDraftView {
            date: self.date,
            from: self.from,
            ids: self.ids,
            trust: self.trust,
            comment: self.comment,
        }
    }
}

impl TrustDraftView {
    /// The statement that a draft becomes: the draft, in the current
    /// revision.
    pub open spec fn finished(self) -> TrustView {
        TrustView {
            version: CURRENT_TRUST_PROOF_SERIALIZATION_VERSION,
            date: self.date,
            from: self.from,
            ids: self.ids,
            trust: self.trust,
            comment: self.comment,
        }
    }
}

/// The draft of a statement: every field but the revision.
pub open spec fn draft_of(trust: Trust) -> TrustDraft {
    TrustDraft {
        date: trust.date,
        from: trust.from,
        ids: trust.ids,
        trust: trust.trust,
        comment: trust.comment,
    }
}

/// The statement that a draft becomes: every field of the draft, and the
/// current revision.
pub open spec fn finished(draft: TrustDraft) -> Trust {
    Trust {
        version: CURRENT_TRUST_PROOF_SERIALIZATION_VERSION,
        date: draft.date,
        from: draft.from,
        ids: draft.ids,
        trust: draft.trust,
        comment: draft.comment,
    }
}

impl From<Trust> for TrustDraft {
    fn from(trust: Trust) -> (r: TrustDraft) {
        TrustDraft {
            date: trust.date,
            from: trust.from,
            ids: trust.ids,
            trust: trust.trust,
            comment: trust.comment,
        }
    }
}

impl FromSpecImpl<Trust> for TrustDraft {
    open spec fn obeys_from_spec() -> bool {
        true
    }

    open spec fn from_spec(trust: Trust) -> TrustDraft {
        draft_of(trust)
    }
}

impl From<TrustDraft> for Trust {
    fn from(trust: TrustDraft) -> (r: Trust) {
        Trust {
            version: cur_version(),
            date: trust.date,
            from: trust.from,
            ids: trust.ids,
            trust: trust.trust,
            comment: trust.comment,
        }
    }
}

impl FromSpecImpl<TrustDraft> for Trust {
    open spec fn obeys_from_spec() -> bool {
        true
    }

    open spec fn from_spec(trust: TrustDraft) -> Trust {
        finished(trust)
    }
}

impl Trust {
    /// A statement in the current revision.
    pub fn new(date: Date, from: PubId, ids: Vec<PubId>, trust: TrustLevel, comment: String) -> (r:
        Trust)
        ensures
            r.version == CURRENT_TRUST_PROOF_SERIALIZATION_VERSION,
            r.date == date,
            r.from == from,
            r.ids == ids,
            r.trust == trust,
            r.comment == comment,
    {
        Trust { version: cur_version(), date, from, ids, trust, comment }
    }

    /// When the statement was made.
    pub fn date(&self) -> (r: &Date)
        ensures
            *r == self.date,
    {
        &self.date
    }

    /// Who made the statement.
    pub fn author(&self) -> (r: &PubId)
        ensures
            *r == self.from,
    {
        &self.from
    }

    /// The revision of the format that the statement is written in.
    pub fn version(&self) -> (r: i64)
        ensures
            r == self.version,
    {
        self.version
    }

    /// What the author had to say beside the level; empty if nothing.
    pub fn comment(&self) -> (r: &str)
        ensures
            r@ == self.comment@,
    {
        self.comment.as_str()
    }
}

impl Clone for Trust {
    fn clone(&self) -> (r: Trust)
        ensures
            r@ == self@,
    {
        Trust {
            version: self.version,
            date: self.date.clone(),
            from: self.from.clone(),
            ids: clone_ids(&self.ids),
            trust: self.trust,
            comment: self.comment.clone(),
        }
    }
}

impl Clone for TrustDraft {
    fn clone(&self) -> (r: TrustDraft)
        ensures
            r@ == self@,
    {
        TrustDraft {
            date: self.date.clone(),
            from: self.from.clone(),
            ids: clone_ids(&self.ids),
            trust: self.trust,
            comment: self.comment.clone(),
        }
    }
}

/// Turning a statement into a draft keeps every field but the revision.
pub proof fn lemma_draft_of_trust(trust: Trust)
    ensures
        draft_of(trust)@ == trust@.draft(),
{
}

/// Finishing a draft keeps every field and adds the current revision.
pub proof fn lemma_trust_of_draft(draft: TrustDraft)
    ensures
        finished(draft)@ == draft@.finished(),
        finished(draft).version == CURRENT_TRUST_PROOF_SERIALIZATION_VERSION,
{
}

/// A draft that is finished and turned into a draft again is the draft it
/// was: nothing is invented and nothing dropped.
pub proof fn lemma_draft_round_trip(draft: TrustDraft)
    ensures
        draft_of(finished(draft)) == draft,
{
}

/// A statement that is turned into a draft and finished again is the
/// statement it was, in the current revision.
pub proof fn lemma_trust_round_trip(trust: Trust)
    ensures
        finished(draft_of(trust)) == (Trust {
            version: CURRENT_TRUST_PROOF_SERIALIZATION_VERSION,
            ..trust
        }),
        trust.version == CURRENT_TRUST_PROOF_SERIALIZATION_VERSION ==> finished(draft_of(trust))
            == trust,
{
}

impl TrustDraftView {
    /// Every key of the draft is short enough to be written.
    pub open spec fn writable(self) -> bool {
        writable(self.from.id) && ids_writable(self.ids)
    }

    /// The fields of the draft's document, in their order.
    pub open spec fn entries(self) -> Seq<(Tree, Tree)> {
        seq![
            (Tree::Text("date"@), Tree::Text(self.date.text)),
            (Tree::Text("from"@), id_tree(self.from)),
            (Tree::Text("ids"@), Tree::List(ids_tree(self.ids))),
            (Tree::Text("trust"@), Tree::Text(self.trust.name())),
        ]
    }

    /// The document of a draft. It shows no revision, and shows the comment
    /// even where it is empty.
    pub open spec fn tree(self) -> Tree {
        Tree::Dict(self.entries().push((Tree::Text("comment"@), Tree::Text(self.comment))))
    }

    /// The text of a draft.
    pub open spec fn text(self) -> Option<Seq<char>> {
        if self.writable() {
            document_text(self.tree())
        } else {
            None
        }
    }

    /// The draft that a document stands for: its date, author, names, level
    /// and comment, where it has them and names at least one identity. A
    /// document without a comment stands for a draft with the empty one.
    pub open spec fn of_tree(tree: Tree) -> Option<TrustDraftView> {
        match (
            date_field(tree, "date"@),
            id_field(tree, "from"@),
            ids_field(tree, "ids"@),
            level_field(tree, "trust"@),
            comment_field(tree),
        ) {
            (Some(date), Some(from), Some(ids), Some(trust), Some(comment)) => if ids.len() > 0 {
                Some(TrustDraftView { date, from, ids, trust, comment })
            } else {
                None
            },
            _ => None,
        }
    }

    /// The draft that a text stands for; `Malformed` for a text that stands
    /// for none.
    pub open spec fn parsed(text: Seq<char>) -> Result<TrustDraftView, SchemaError> {
        match yaml_document(text) {
            Some(tree) => match TrustDraftView::of_tree(tree) {
                Some(draft) => Ok(draft),
                None => Err(SchemaError::Malformed),
            },
            None => Err(SchemaError::Malformed),
        }
    }
}

impl TrustView {
    /// Every key of the statement is short enough to be written.
    pub open spec fn writable(self) -> bool {
        self.draft().writable()
    }

    /// The document of a statement: the revision, then the fields of the
    /// draft, with the comment left out where it is empty.
    pub open spec fn tree(self) -> Tree {
        let head = seq![(Tree::Text("version"@), Tree::Int(self.version))]
            + self.draft().entries();
        if self.comment.len() == 0 {
            Tree::Dict(head)
        } else {
            Tree::Dict(head.push((Tree::Text("comment"@), Tree::Text(self.comment))))
        }
    }

    /// The text of a statement: what is signed.
    pub open spec fn text(self) -> Option<Seq<char>> {
        if self.writable() {
            document_text(self.tree())
        } else {
            None
        }
    }

    /// The statement that a document stands for. A document without a
    /// revision is malformed; one of a later revision than the current one is
    /// refused with that revision, whatever else it holds; one of the
    /// current revision or an earlier one is read field by field.
    pub open spec fn of_tree(tree: Tree) -> Result<TrustView, SchemaError> {
        match tree.int_field("version"@) {
            Some(version) => if version > CURRENT_TRUST_PROOF_SERIALIZATION_VERSION {
                Err(SchemaError::UnsupportedVersion(version))
            } else {
                match TrustDraftView::of_tree(tree) {
                    Some(draft) => Ok(
                        TrustView {
                            version,
                            date: draft.date,
                            from: draft.from,
                            ids: draft.ids,
                            trust: draft.trust,
                            comment: draft.comment,
                        },
                    ),
                    None => Err(SchemaError::Malformed),
                }
            },
            None => Err(SchemaError::Malformed),
        }
    }

    /// The statement that a text stands for.
    pub open spec fn parsed(text: Seq<char>) -> Result<TrustView, SchemaError> {
        match yaml_document(text) {
            Some(tree) => TrustView::of_tree(tree),
            None => Err(SchemaError::Malformed),
        }
    }
}

/// The fields that a statement and its draft share, as named values.
fn shared_fields(
    fields: &mut Vec<(String, serde_yaml::Value)>,
    date: &Date,
    from: &PubId,
    ids: &Vec<PubId>,
    trust: TrustLevel,
) -> (r: bool)
    ensures
        r == (writable(from@.id) && ids_writable(ids_view(ids@))),
        r ==> entries_of(final(fields)@) == entries_of(old(fields)@) + (TrustDraftView {
            date: date@,
            from: from@,
            ids: ids_view(ids@),
            trust,
            comment: Seq::<char>::empty(),
        }).entries(),
        r ==> final(fields)@.len() == old(fields)@.len() + 4,
        r ==> forall|k: int|
            0 <= k < old(fields)@.len() ==> (#[trigger] final(fields)@[k]).0@ == old(fields)@[k].0@,
        r ==> ({
            let n = old(fields)@.len() as int;
            &&& final(fields)@[n].0@ == "date"@
            &&& final(fields)@[n + 1].0@ == "from"@
            &&& final(fields)@[n + 2].0@ == "ids"@
            &&& final(fields)@[n + 3].0@ == "trust"@
        }),
{
    let author = match id_to_value(from) {
        Some(v) => v,
        None => {
            return false;
        },
    };
    let names = match ids_to_values(ids) {
        Some(v) => v,
        None => {
            return false;
        },
    };
    let ghost before = fields@;
    fields.push(("date".to_owned(), from_text(date.as_str())));
    fields.push(("from".to_owned(), author));
    fields.push(("ids".to_owned(), from_list(names)));
    fields.push(("trust".to_owned(), from_text(trust.as_str())));
    proof {
        let shared = (TrustDraftView {
            date: date@,
            from: from@,
            ids: ids_view(ids@),
            trust,
            comment: Seq::<char>::empty(),
        }).entries();
        assert(entries_of(fields@) =~= entries_of(before) + shared);
    }
    true
}

/// The draft that a document holds.
fn read_draft(value: &serde_yaml::Value) -> (r: Option<TrustDraft>)
    ensures
        match r {
            Some(d) => TrustDraftView::of_tree(yaml_tree(*value)) == Some(d@) && d@.date.wf(),
            None => TrustDraftView::of_tree(yaml_tree(*value)) is None,
        },
{
    let date = match read_date(value, "date") {
        Some(x) => x,
        None => {
            return None;
        },
    };
    let from = match read_id(value, "from") {
        Some(x) => x,
        None => {
            return None;
        },
    };
    let ids = match read_ids(value, "ids") {
        Some(x) => x,
        None => {
            return None;
        },
    };
    let trust = match read_level(value, "trust") {
        Some(x) => x,
        None => {
            return None;
        },
    };
    let comment = match read_comment(value) {
        Some(x) => x,
        None => {
            return None;
        },
    };
    if ids.len() == 0 {
        return None;
    }
    Some(TrustDraft { date, from, ids, trust, comment })
}

impl Trust {
    /// The document of the statement; `None` where a key is too long to be
    /// written.
    pub fn to_value(&self) -> (r: Option<serde_yaml::Value>)
        ensures
            match r {
                Some(value) => self@.writable() && yaml_tree(value) == self@.tree(),
                None => !self@.writable(),
            },
    {
        let mut fields: Vec<(String, serde_yaml::Value)> = Vec::new();
        fields.push(("version".to_owned(), from_int(self.version)));
        let ghost first = entries_of(fields@);
        if !shared_fields(&mut fields, &self.date, &self.from, &self.ids, self.trust) {
            return None;
        }
        let ghost head = entries_of(fields@);
        if !self.comment.as_str().is_empty() {
            fields.push(("comment".to_owned(), from_text(self.comment.as_str())));
        }
        proof {
            lemma_field_names();
            assert(first =~= seq![(Tree::Text("version"@), Tree::Int(self.version))]);
            assert(head == seq![(Tree::Text("version"@), Tree::Int(self.version))]
                + self@.draft().entries());
            if self.comment@.len() != 0 {
                assert(entries_of(fields@) =~= head.push(
                    (Tree::Text("comment"@), Tree::Text(self.comment@)),
                ));
            }
        }
        Some(from_fields(fields))
    }

    /// The statement that a document stands for.
    pub fn from_value(value: &serde_yaml::Value) -> (r: Result<Trust, SchemaError>)
        ensures
            match r {
                Ok(t) => TrustView::of_tree(yaml_tree(*value)) == Ok::<TrustView, SchemaError>(t@)
                    && t@.date.wf(),
                Err(e) => TrustView::of_tree(yaml_tree(*value)) == Err::<TrustView, SchemaError>(e),
            },
    {
        match crate::yaml::int_field(value, "version") {
            Some(version) => {
                if version > cur_version() {
                    return Err(SchemaError::UnsupportedVersion(version));
                }
                match read_draft(value) {
                    Some(d) => Ok(
                        Trust {
                            version,
                            date: d.date,
                            from: d.from,
                            ids: d.ids,
                            trust: d.trust,
                            comment: d.comment,
                        },
                    ),
                    None => Err(SchemaError::Malformed),
                }
            },
            None => Err(SchemaError::Malformed),
        }
    }

    /// Reads a statement from its text. A text of a later revision than the
    /// current one is refused with `UnsupportedVersion`; any other text that
    /// is no statement is `Malformed`.
    pub fn parse(s: &str) -> (r: Result<Trust, SchemaError>)
        ensures
            match r {
                Ok(t) => TrustView::parsed(s@) == Ok::<TrustView, SchemaError>(t@) && t@.date.wf(),
                Err(e) => TrustView::parsed(s@) == Err::<TrustView, SchemaError>(e),
            },
    {
        match read_document(s) {
            Some(value) => Trust::from_value(&value),
            None => Err(SchemaError::Malformed),
        }
    }

    /// The text of the statement: the bytes that are signed.
    pub fn to_string(&self) -> (r: Result<String, SchemaError>)
        ensures
            match r {
                Ok(text) => self@.text() == Some(text@),
                Err(e) => e == SchemaError::Unwritable && self@.text() is None,
            },
    {
        match self.to_value() {
            Some(value) => write_document(&value),
            None => Err(SchemaError::Unwritable),
        }
    }
}

impl TrustDraft {
    /// The document of the draft; `None` where a key is too long to be
    /// written.
    pub fn to_value(&self) -> (r: Option<serde_yaml::Value>)
        ensures
            match r {
                Some(value) => self@.writable() && yaml_tree(value) == self@.tree(),
                None => !self@.writable(),
            },
    {
        let mut fields: Vec<(String, serde_yaml::Value)> = Vec::new();
        if !shared_fields(&mut fields, &self.date, &self.from, &self.ids, self.trust) {
            return None;
        }
        let ghost head = entries_of(fields@);
        fields.push(("comment".to_owned(), from_text(self.comment.as_str())));
        proof {
            lemma_field_names();
            assert(head =~= self@.entries());
            assert(entries_of(fields@) =~= head.push(
                (Tree::Text("comment"@), Tree::Text(self.comment@)),
            ));
        }
        Some(from_fields(fields))
    }

    /// The draft that a document stands for.
    pub fn from_value(value: &serde_yaml::Value) -> (r: Result<TrustDraft, SchemaError>)
        ensures
            match r {
                Ok(d) => TrustDraftView::of_tree(yaml_tree(*value)) == Some(d@) && d@.date.wf(),
                Err(e) => e == SchemaError::Malformed && TrustDraftView::of_tree(yaml_tree(*value))
                    is None,
            },
    {
        match read_draft(value) {
            Some(d) => Ok(d),
            None => Err(SchemaError::Malformed),
        }
    }

    /// Reads a draft from the text that its author edited.
    pub fn parse(s: &str) -> (r: Result<TrustDraft, SchemaError>)
        ensures
            match r {
                Ok(d) => TrustDraftView::parsed(s@) == Ok::<TrustDraftView, SchemaError>(d@)
                    && d@.date.wf(),
                Err(e) => TrustDraftView::parsed(s@) == Err::<TrustDraftView, SchemaError>(e),
            },
    {
        match read_document(s) {
            Some(value) => TrustDraft::from_value(&value),
            None => Err(SchemaError::Malformed),
        }
    }

    /// The text of the draft, for its author to edit.
    pub fn to_string(&self) -> (r: Result<String, SchemaError>)
        ensures
            match r {
                Ok(text) => self@.text() == Some(text@),
                Err(e) => e == SchemaError::Unwritable && self@.text() is None,
            },
    {
        match self.to_value() {
            Some(value) => write_document(&value),
            None => Err(SchemaError::Unwritable),
        }
    }
}

/// A statement of a later revision than the current one is refused, and
/// the error names the revision.
pub proof fn lemma_version_gate(tree: Tree, version: i64)
    requires
        tree.int_field("version"@) == Some(version),
        version > CURRENT_TRUST_PROOF_SERIALIZATION_VERSION,
    ensures
        TrustView::of_tree(tree) == Err::<TrustView, SchemaError>(
            SchemaError::UnsupportedVersion(version),
        ),
{
}

/// A statement of the current revision or an earlier one is read by the
/// same fields, and keeps its revision.
pub proof fn lemma_earlier_versions(tree: Tree, version: i64)
    requires
        tree.int_field("version"@) == Some(version),
        version <= CURRENT_TRUST_PROOF_SERIALIZATION_VERSION,
    ensures
        match TrustView::of_tree(tree) {
            Ok(t) => t.version == version && TrustDraftView::of_tree(tree) == Some(t.draft()),
            Err(e) => e == SchemaError::Malformed && TrustDraftView::of_tree(tree) is None,
        },
{
}

/// Why a builder did not build a statement.
#[derive(Copy, Clone, Debug, PartialEq, Eq, Structural)]
pub enum BuildError {
    /// No author was given.
    MissingFrom,
    /// No identities to rate were given.
    MissingIds,
    /// No date was given, and the clock shows a time that cannot be written.
    NoDate,
}

/// Builds a trust statement field by field. The author and the identities
/// have to be given. The rest has defaults: the current revision, the
/// present time, `Medium` trust and no comment.
#[derive(Debug)]
pub struct TrustBuilder {
    pub version: Option<i64>,
    pub date: Option<Date>,
    pub from: Option<PubId>,
    pub ids: Option<Vec<PubId>>,
    pub trust: Option<TrustLevel>,
    pub comment: Option<String>,
}

impl Default for TrustBuilder {
    /// A builder to which nothing was given yet.
    fn default() -> (r: TrustBuilder)
        ensures
            r.version is None,
            r.date is None,
            r.from is None,
            r.ids is None,
            r.trust is None,
            r.comment is None,
    {
        TrustBuilder { version: None, date: None, from: None, ids: None, trust: None, comment: None }
    }
}

impl TrustBuilder {
    /// What is missing for a statement to be built, if anything: the author
    /// first, then the identities.
    pub open spec fn missing(&self) -> Option<BuildError> {
        if self.from is None {
            Some(BuildError::MissingFrom)
        } else if self.ids is None {
            Some(BuildError::MissingIds)
        } else {
            None
        }
    }

    /// Gives the revision.
    pub fn version(self, version: i64) -> (r: TrustBuilder)
        ensures
            r == (TrustBuilder { version: Some(version), ..self }),
    {
        TrustBuilder { version: Some(version), ..self }
    }

    /// Gives the date.
    pub fn date(self, date: Date) -> (r: TrustBuilder)
        ensures
            r == (TrustBuilder { date: Some(date), ..self }),
    {
        TrustBuilder { date: Some(date), ..self }
    }

    /// Gives the author.
    pub fn from(self, from: PubId) -> (r: TrustBuilder)
        ensures
            r == (TrustBuilder { from: Some(from), ..self }),
    {
        TrustBuilder { from: Some(from), ..self }
    }

    /// Gives the identities to rate.
    pub fn ids(self, ids: Vec<PubId>) -> (r: TrustBuilder)
        ensures
            r == (TrustBuilder { ids: Some(ids), ..self }),
    {
        TrustBuilder { ids: Some(ids), ..self }
    }

    /// Gives the level.
    pub fn trust(self, trust: TrustLevel) -> (r: TrustBuilder)
        ensures
            r == (TrustBuilder { trust: Some(trust), ..self }),
    {
        TrustBuilder { trust: Some(trust), ..self }
    }

    /// Gives the comment.
    pub fn comment(self, comment: String) -> (r: TrustBuilder)
        ensures
            r == (TrustBuilder { comment: Some(comment), ..self }),
    {
        TrustBuilder { comment: Some(comment), ..self }
    }

    /// Builds the statement. What was given is taken as it is; what was not
    /// given is filled in. Only the date that is filled in is not known
    /// beforehand: it is whatever the clock shows.
    pub fn build(self) -> (r: Result<Trust, BuildError>)
        ensures
            match r {
                Ok(t) => {
                    &&& self.missing() is None
                    &&& t.from == self.from->0
                    &&& t.ids == self.ids->0
                    &&& t.version == match self.version {
                        Some(v) => v,
                        None => CURRENT_TRUST_PROOF_SERIALIZATION_VERSION,
                    }
                    &&& t.trust == match self.trust {
                        Some(l) => l,
                        None => TrustLevel::Medium,
                    }
                    &&& t.comment@ == match self.comment {
                        Some(c) => c@,
                        None => Seq::<char>::empty(),
                    }
                    &&& self.date matches Some(d) ==> t.date == d
                    &&& self.date is None ==> t.date@.wf()
                },
                Err(e) => match self.missing() {
                    Some(m) => e == m,
                    None => e == BuildError::NoDate && self.date is None,
                },
            },
    {
        let from = match self.from {
            Some(x) => x,
            None => {
                return Err(BuildError::MissingFrom);
            },
        };
        let ids = match self.ids {
            Some(x) => x,
            None => {
                return Err(BuildError::MissingIds);
            },
        };
        let date = match self.date {
            Some(x) => x,
            None => match Date::now() {
                Some(x) => x,
                None => {
                    return Err(BuildError::NoDate);
                },
            },
        };
        let version = match self.version {
            Some(x) => x,
            None => cur_version(),
        };
        let trust = match self.trust {
            Some(x) => x,
            None => TrustLevel::default(),
        };
        let comment = match self.comment {
            Some(x) => x,
            None => String::new(),
        };
        Ok(Trust { version, date, from, ids, trust, comment })
    }
}

} // verus!
