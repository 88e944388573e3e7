//! Public identities.

use crate::text::{copy_bytes, same_bytes};
use vstd::prelude::*;
use vstd::std_specs::cmp::PartialEqSpecImpl;

verus! {

/// A public identity: the bytes of a public key, and where its proofs can be
/// found, if that is known.
#[derive(Debug)]
pub struct PubId {
    pub id: Vec<u8>,
    pub url: Option<String>,
}

/// What a `PubId` stands for.
pub struct PubIdView {
    pub id: Seq<u8>,
    pub url: Option<Seq<char>>,
}

impl View for PubId {
    type V = PubIdView;

    open spec fn view(&self) -> PubIdView {
        PubIdView {
            id: self.id@,
            url: match self.url {
                Some(u) => Some(u@),
                None => None,
            },
        }
    }
}

impl PubId {
    /// An identity with the given key and no address.
    pub fn new(id: Vec<u8>) -> (r: PubId)
        ensures
            r@ == (PubIdView { id: id@, url: None }),
    {
        PubId { id, url: None }
    }

    /// An identity with the given key, whose proofs are found at `url`.
    pub fn with_url(id: Vec<u8>, url: String) -> (r: PubId)
        ensures
            r@ == (PubIdView { id: id@, url: Some(url@) }),
    {
        PubId { id, url: Some(url) }
    }

    /// Whether this is the identity with the given key.
    pub fn has_key(&self, key: &[u8]) -> (r: bool)
        ensures
            r == (self@.id == key@),
    {
        same_bytes(self.id.as_slice(), key)
    }
}

impl Clone for PubId {
    fn clone(&self) -> (r: PubId)
        ensures
            r@ == self@,
    {
        let url = match &self.url {
            Some(u) => Some(u.clone()),
            None => None,
        };
        PubId { id: copy_bytes(self.id.as_slice()), url }
    }
}

impl PartialEq for PubId {
    /// Two identities are the same when their keys are, whatever their
    /// addresses.
    fn eq(&self, other: &PubId) -> (r: bool) {
        same_bytes(self.id.as_slice(), other.id.as_slice())
    }
}

impl PartialEqSpecImpl for PubId {
    open spec fn obeys_eq_spec() -> bool {
        true
    }

    open spec fn eq_spec(&self, other: &PubId) -> bool {
        self.id@ == other.id@
    }
}

} // verus!
