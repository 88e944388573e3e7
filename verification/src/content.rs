//! What a proof can carry.

use crate::date::Date;
use crate::envelope::ProofKind;
use crate::id::{PubId, PubIdView};
use crate::schema::SchemaError;
use crate::review::{Review, ReviewView};
use crate::trust::{Trust, TrustView};
use vstd::prelude::*;

verus! {

/// The payload of a proof: a trust statement or a review.
#[derive(Debug)]
pub enum Content {
    Trust(Trust),
    Review(Review),
}

/// What a `Content` stands for.
pub enum ContentView {
    Trust(TrustView),
    Review(ReviewView),
}

impl View for Content {
    type V = ContentView;

    open spec fn view(&self) -> ContentView {
        match self {
            Content::Trust(t) => ContentView::Trust(t@),
            Content::Review(r) => ContentView::Review(r@),
        }
    }
}

/// What a pool of contents stands for.
pub open spec fn pool_view(pool: Seq<Content>) -> Seq<ContentView> {
    pool.map_values(|c: Content| c@)
}

impl Content {
    /// When the content was written.
    pub fn date(&self) -> (r: &Date)
        ensures
            r@ == match self@ {
                ContentView::Trust(t) => t.date,
                ContentView::Review(r) => r.date,
            },
    {
        match self {
            Content::Trust(t) => &t.date,
            Content::Review(r) => &r.date,
        }
    }

    /// Who claims to have written the content.
    pub fn author(&self) -> (r: &PubId)
        ensures
            r@ == match self@ {
                ContentView::Trust(t) => t.from,
                ContentView::Review(r) => r.from,
            },
    {
        match self {
            Content::Trust(t) => &t.from,
            Content::Review(r) => &r.from,
        }
    }
}

impl Clone for Content {
    fn clone(&self) -> (r: Content)
        ensures
            r@ == self@,
    {
        match self {
            Content::Trust(t) => Content::Trust(t.clone()),
            Content::Review(r) => Content::Review(r.clone()),
        }
    }
}

impl From<Trust> for Content {
    fn from(trust: Trust) -> (r: Content) {
        Content::Trust(trust)
    }
}

impl vstd::std_specs::convert::FromSpecImpl<Trust> for Content {
    open spec fn obeys_from_spec() -> bool {
        true
    }

    open spec fn from_spec(trust: Trust) -> Content {
        Content::Trust(trust)
    }
}

impl From<Review> for Content {
    fn from(review: Review) -> (r: Content) {
        Content::Review(review)
    }
}

impl vstd::std_specs::convert::FromSpecImpl<Review> for Content {
    open spec fn obeys_from_spec() -> bool {
        true
    }

    open spec fn from_spec(review: Review) -> Content {
        Content::Review(review)
    }
}

impl ContentView {
    /// The kind of envelope that carries the content.
    pub open spec fn kind(self) -> ProofKind {
        match self {
            ContentView::Trust(_) => ProofKind::Trust,
            ContentView::Review(_) => ProofKind::Review,
        }
    }

    /// Who claims to have written the content.
    pub open spec fn from(self) -> PubIdView {
        match self {
            ContentView::Trust(t) => t.from,
            ContentView::Review(r) => r.from,
        }
    }

    /// The text of the content: what is signed. `None` for a content that
    /// cannot be written.
    pub open spec fn text(self) -> Option<Seq<char>> {
        match self {
            ContentView::Trust(t) => t.text(),
            ContentView::Review(r) => r.text(),
        }
    }

    /// The content of the given kind that a text stands for.
    pub open spec fn parsed(kind: ProofKind, text: Seq<char>) -> Result<ContentView, SchemaError> {
        match kind {
            ProofKind::Trust => match TrustView::parsed(text) {
                Ok(t) => Ok(ContentView::Trust(t)),
                Err(e) => Err(e),
            },
            ProofKind::Review => match ReviewView::parsed(text) {
                Ok(r) => Ok(ContentView::Review(r)),
                Err(e) => Err(e),
            },
        }
    }
}

impl Content {
    /// The kind of envelope that carries the content.
    pub fn kind(&self) -> (r: ProofKind)
        ensures
            r == self@.kind(),
    {
        match self {
            Content::Trust(_) => ProofKind::Trust,
            Content::Review(_) => ProofKind::Review,
        }
    }

    /// The text of the content: the bytes that are signed.
    pub fn to_string(&self) -> (r: Result<String, SchemaError>)
        ensures
            match r {
                Ok(text) => self@.text() == Some(text@),
                Err(e) => e == SchemaError::Unwritable && self@.text() is None,
            },
    {
        match self {
            Content::Trust(t) => t.to_string(),
            Content::Review(r) => r.to_string(),
        }
    }

    /// Reads a content of the given kind from its text.
    pub fn parse(kind: ProofKind, text: &str) -> (r: Result<Content, SchemaError>)
        ensures
            match r {
                Ok(c) => ContentView::parsed(kind, text@) == Ok::<ContentView, SchemaError>(c@),
                Err(e) => ContentView::parsed(kind, text@) == Err::<ContentView, SchemaError>(e),
            },
    {
        match kind {
            ProofKind::Trust => match Trust::parse(text) {
                Ok(t) => Ok(Content::Trust(t)),
                Err(e) => Err(e),
            },
            ProofKind::Review => match Review::parse(text) {
                Ok(r) => Ok(Content::Review(r)),
                Err(e) => Err(e),
            },
        }
    }
}

} // verus!
