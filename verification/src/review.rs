//! Reviews: one identity rating an artifact.

use crate::date::{Date, DateView};
use crate::id::{PubId, PubIdView};
use crate::level::TrustLevel;
use crate::b64::{base64_text, writable};
use blake2::Digest;
use crate::schema::{
    binary_field, comment_field, date_field, document_text, id_field, id_to_value, id_tree,
    lemma_field_names, level_field, read_binary, read_comment, read_date, read_document,
    read_id, read_level, write_document, SchemaError,
};
use crate::text::{copy_bytes, same_bytes, same_text};
use crate::yaml::{entries_of, from_fields, from_int, from_text, yaml_document, yaml_tree, Tree};
use vstd::prelude::*;

verus! {

/// The line that opens the envelope of a review.
pub const BEGIN_BLOCK: &'static str = "-----BEGIN CREV REVIEW -----";

/// The line between a review and its signature.
pub const BEGIN_SIGNATURE: &'static str = "-----BEGIN CREV REVIEW SIGNATURE-----";

/// The line that closes the envelope of a review.
pub const END_BLOCK: &'static str = "-----END CREV REVIEW-----";

/// The revision of the review's format that this library writes.
pub const CURRENT_REVIEW_PROOF_SERIALIZATION_VERSION: i64 = -1;

/// The length of a digest.
pub const DIGEST_LEN: usize = 64;

/// The BLAKE2b digest of a byte string, 64 bytes long.
pub uninterp spec fn blake2b_digest(content: Seq<u8>) -> Seq<u8>;

/// Calls `blake2::Blake2b512::digest`, which hashes its input to 64 bytes.
#[verifier::external_body]
fn blake2b(content: &[u8]) -> (r: Vec<u8>)
    ensures
        r@ == blake2b_digest(content@),
        r@.len() == DIGEST_LEN,
{
    blake2::Blake2b512::digest(content).to_vec()
}

/// The artifact that a review is about: the digest of its content, and the
/// revision that the content was taken from.
#[derive(Debug)]
pub struct Subject {
    pub digest: Vec<u8>,
    pub revision: String,
}

/// What a `Subject` stands for.
pub struct SubjectView {
    pub digest: Seq<u8>,
    pub revision: Seq<char>,
}

impl View for Subject {
    type V = SubjectView;

    open spec fn view(&self) -> SubjectView {
        SubjectView { digest: self.digest@, revision: self.revision@ }
    }
}

impl Subject {
    /// The subject with the given content, taken from the given revision.
    pub fn of_content(content: &[u8], revision: String) -> (r: Subject)
        ensures
            r@ == (SubjectView { digest: blake2b_digest(content@), revision: revision@ }),
            r@.digest.len() == DIGEST_LEN,
    {
        Subject { digest: blake2b(content), revision }
    }

    /// The digest in hexadecimal.
    pub fn digest_hex(&self) -> (r: String)
        ensures
            r@ == crate::text::hex_of(self@.digest),
    {
        crate::text::to_hex(self.digest.as_slice())
    }

    /// Whether two subjects are the same artifact at the same revision.
    pub fn same_as(&self, other: &Subject) -> (r: bool)
        ensures
            r == (self@ == other@),
    {
        same_bytes(self.digest.as_slice(), other.digest.as_slice()) && same_text(
            self.revision.as_str(),
            other.revision.as_str(),
        )
    }
}

impl Clone for Subject {
    fn clone(&self) -> (r: Subject)
        ensures
            r@ == self@,
    {
        Subject { digest: copy_bytes(self.digest.as_slice()), revision: self.revision.clone() }
    }
}

/// The body of a review proof: `from` rates `subject` at the level `rating`.
#[derive(Debug)]
pub struct Review {
    pub version: i64,
    pub date: Date,
    pub from: PubId,
    pub subject: Subject,
    pub rating: TrustLevel,
    pub comment: String,
}

/// What a `Review` stands for.
pub struct ReviewView {
    pub version: i64,
    pub date: DateView,
    pub from: PubIdView,
    pub subject: SubjectView,
    pub rating: TrustLevel,
    pub comment: Seq<char>,
}

impl View for Review {
    type V = ReviewView;

    open spec fn view(&self) -> ReviewView {
        ReviewView {
            version: self.version,
            date: self.date@,
            from: self.from@,
            subject: self.subject@,
            rating: self.rating,
            comment: self.comment@,
        }
    }
}

impl Review {
    /// A review in the current revision.
    pub fn new(date: Date, from: PubId, subject: Subject, rating: TrustLevel, comment: String) -> (r:
        Review)
        ensures
            r.version == CURRENT_REVIEW_PROOF_SERIALIZATION_VERSION,
            r.date == date,
            r.from == from,
            r.subject == subject,
            r.rating == rating,
            r.comment == comment,
    {
        Review {
            version: CURRENT_REVIEW_PROOF_SERIALIZATION_VERSION,
            date,
            from,
            subject,
            rating,
            comment,
        }
    }

    /// When the review was made.
    pub fn date(&self) -> (r: &Date)
        ensures
            *r == self.date,
    {
        &self.date
    }

    /// Who made the review.
    pub fn author(&self) -> (r: &PubId)
        ensures
            *r == self.from,
    {
        &self.from
    }
}

impl Clone for Review {
    fn clone(&self) -> (r: Review)
        ensures
            r@ == self@,
    {
        Review {
            version: self.version,
            date: self.date.clone(),
            from: self.from.clone(),
            subject: self.subject.clone(),
            rating: self.rating,
            comment: self.comment.clone(),
        }
    }
}

impl ReviewView {
    /// The author's key and the digest are short enough to be written.
    pub open spec fn writable(self) -> bool {
        writable(self.from.id) && writable(self.subject.digest)
    }

    /// The fields of the review's document that are always there, in their
    /// order.
    pub open spec fn entries(self) -> Seq<(Tree, Tree)> {
        seq![
            (Tree::Text("version"@), Tree::Int(self.version)),
            (Tree::Text("date"@), Tree::Text(self.date.text)),
            (Tree::Text("from"@), id_tree(self.from)),
            (Tree::Text("revision"@), Tree::Text(self.subject.revision)),
            (Tree::Text("digest"@), Tree::Text(base64_text(self.subject.digest))),
            (Tree::Text("rating"@), Tree::Text(self.rating.name())),
        ]
    }

    /// The document of a review, with the comment left out where it is
    /// empty.
    pub open spec fn tree(self) -> Tree {
        if self.comment.len() == 0 {
            Tree::Dict(self.entries())
        } else {
            Tree::Dict(self.entries().push((Tree::Text("comment"@), Tree::Text(self.comment))))
        }
    }

    /// The text of a review: what is signed.
    pub open spec fn text(self) -> Option<Seq<char>> {
        if self.writable() {
            document_text(self.tree())
        } else {
            None
        }
    }

    /// The review that a document stands for. A document without a revision
    /// is malformed; one of a later revision than the current one is refused
    /// with that revision; any other is read field by field.
    pub open spec fn of_tree(tree: Tree) -> Result<ReviewView, SchemaError> {
        match tree.int_field("version"@) {
            Some(version) => if version > CURRENT_REVIEW_PROOF_SERIALIZATION_VERSION {
                Err(SchemaError::UnsupportedVersion(version))
            } else {
                match (
                    date_field(tree, "date"@),
                    id_field(tree, "from"@),
                    tree.text_field("revision"@),
                    binary_field(tree, "digest"@),
                    level_field(tree, "rating"@),
                    comment_field(tree),
                ) {
                    (
                        Some(date),
                        Some(from),
                        Some(revision),
                        Some(digest),
                        Some(rating),
                        Some(comment),
                    ) => Ok(
                        ReviewView {
                            version,
                            date,
                            from,
                            subject: SubjectView { digest, revision },
                            rating,
                            comment,
                        },
                    ),
                    _ => Err(SchemaError::Malformed),
                }
            },
            None => Err(SchemaError::Malformed),
        }
    }

    /// The review that a text stands for.
    pub open spec fn parsed(text: Seq<char>) -> Result<ReviewView, SchemaError> {
        match yaml_document(text) {
            Some(tree) => ReviewView::of_tree(tree),
            None => Err(SchemaError::Malformed),
        }
    }
}

impl Review {
    /// The document of the review; `None` where the author's key or the
    /// digest is too long to be written.
    pub fn to_value(&self) -> (r: Option<serde_yaml::Value>)
        ensures
            match r {
                Some(value) => self@.writable() && yaml_tree(value) == self@.tree(),
                None => !self@.writable(),
            },
    {
        let author = match id_to_value(&self.from) {
            Some(v) => v,
            None => {
                return None;
            },
        };
        let digest = match crate::b64::to_text(self.subject.digest.as_slice()) {
            Some(t) => t,
            None => {
                return None;
            },
        };
        let mut fields: Vec<(String, serde_yaml::Value)> = Vec::new();
        fields.push(("version".to_owned(), from_int(self.version)));
        fields.push(("date".to_owned(), from_text(self.date.as_str())));
        fields.push(("from".to_owned(), author));
        fields.push(("revision".to_owned(), from_text(self.subject.revision.as_str())));
        fields.push(("digest".to_owned(), from_text(digest.as_str())));
        fields.push(("rating".to_owned(), from_text(self.rating.as_str())));
        let ghost head = entries_of(fields@);
        if !self.comment.as_str().is_empty() {
            fields.push(("comment".to_owned(), from_text(self.comment.as_str())));
        }
        proof {
            lemma_field_names();
            assert(head =~= self@.entries());
            if self.comment@.len() != 0 {
                assert(entries_of(fields@) =~= head.push(
                    (Tree::Text("comment"@), Tree::Text(self.comment@)),
                ));
            }
        }
        Some(from_fields(fields))
    }

    /// The review that a document stands for.
    pub fn from_value(value: &serde_yaml::Value) -> (r: Result<Review, SchemaError>)
        ensures
            match r {
                Ok(x) => ReviewView::of_tree(yaml_tree(*value)) == Ok::<ReviewView, SchemaError>(
                    x@,
                ) && x@.date.wf(),
                Err(e) => ReviewView::of_tree(yaml_tree(*value)) == Err::<ReviewView, SchemaError>(
                    e,
                ),
            },
    {
        let version = match crate::yaml::int_field(value, "version") {
            Some(v) => v,
            None => {
                return Err(SchemaError::Malformed);
            },
        };
        if version > CURRENT_REVIEW_PROOF_SERIALIZATION_VERSION {
            return Err(SchemaError::UnsupportedVersion(version));
        }
        let date = read_date(value, "date");
        let from = read_id(value, "from");
        let revision = crate::yaml::text_field(value, "revision");
        let digest = read_binary(value, "digest");
        let rating = read_level(value, "rating");
        let comment = read_comment(value);
        match (date, from, revision, digest, rating, comment) {
            (Some(date), Some(from), Some(revision), Some(digest), Some(rating), Some(comment)) => {
                Ok(
                    Review {
                        version,
                        date,
                        from,
                        subject: Subject { digest, revision },
                        rating,
                        comment,
                    },
                )
            },
            _ => Err(SchemaError::Malformed),
        }
    }

    /// Reads a review from its text.
    pub fn parse(s: &str) -> (r: Result<Review, SchemaError>)
        ensures
            match r {
                Ok(x) => ReviewView::parsed(s@) == Ok::<ReviewView, SchemaError>(x@) && x@.date.wf(),
                Err(e) => ReviewView::parsed(s@) == Err::<ReviewView, SchemaError>(e),
            },
    {
        match read_document(s) {
            Some(value) => Review::from_value(&value),
            None => Err(SchemaError::Malformed),
        }
    }

    /// The text of the review: the bytes that are signed.
    pub fn to_string(&self) -> (r: Result<String, SchemaError>)
        ensures
            match r {
                Ok(text) => self@.text() == Some(text@),
                Err(e) => e == SchemaError::Unwritable && self@.text() is None,
            },
    {
        match self.to_value() {
            Some(value) => write_document(&value),
            None => Err(SchemaError::Unwritable),
        }
    }
}

} // verus!
