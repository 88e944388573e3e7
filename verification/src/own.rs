//! Identities that can sign: a public identity together with its secret
//! key.

use crate::id::{PubId, PubIdView};
use crate::sig::{ed25519_public, ed25519_signature, public_key, sign_message, KEY_LEN};
use crate::text::copy_bytes;
use rand::RngCore;
use vstd::prelude::*;

verus! {

/// Why a secret key could not be made or recovered.
#[derive(Copy, Clone, Debug, PartialEq, Eq, Structural)]
pub enum KeyCustodyError {
    /// The system gave no random bytes.
    Entropy,
    /// The stored key could not be opened: the passphrase is wrong or the
    /// stored key was tampered with.
    WrongPassphrase,
    /// What was opened is no secret key, or not the one of this identity.
    Corrupted,
}

/// Asks `rand::rngs::OsRng` for 32 bytes with `try_fill_bytes`. Which bytes
/// come, and whether any do, is up to the system.
#[verifier::external_body]
fn fresh_secret() -> (r: Option<Vec<u8>>)
    ensures
        r matches Some(secret) ==> secret@.len() == KEY_LEN,
{
    let mut secret = [0u8; KEY_LEN];
    rand::rngs::OsRng.try_fill_bytes(&mut secret).ok()?;
    Some(secret.to_vec())
}

/// An identity and the secret key that signs for it. It exists only in
/// memory; at rest the key is kept locked.
pub struct OwnId {
    name: String,
    id: PubId,
    secret: Vec<u8>,
}

impl OwnId {
    #[verifier::type_invariant]
    spec fn matched(self) -> bool {
        self.secret@.len() == KEY_LEN && ed25519_public(self.secret@) == Some(self.id@.id)
    }

    /// The public identity.
    pub closed spec fn public(self) -> PubIdView {
        self.id@
    }

    /// The secret key.
    pub closed spec fn secret(self) -> Seq<u8> {
        self.secret@
    }

    /// The label that the owner gave the identity.
    pub closed spec fn label(self) -> Seq<char> {
        self.name@
    }

    /// The identity of a secret key; `None` for a byte string that is no
    /// secret key, which is any that is not 32 bytes long.
    pub fn from_secret(name: String, secret: Vec<u8>) -> (r: Option<OwnId>)
        ensures
            match r {
                Some(own) => {
                    &&& own.secret() == secret@
                    &&& own.label() == name@
                    &&& ed25519_public(secret@) == Some(own.public().id)
                    &&& own.public().url is None
                },
                None => ed25519_public(secret@) is None,
            },
            r is Some <==> secret@.len() == KEY_LEN,
    {
        match public_key(secret.as_slice()) {
            Some(key) => Some(OwnId { name, id: PubId::new(key), secret }),
            None => None,
        }
    }

    /// A new identity with a fresh secret key. It fails only where the
    /// system gives no random bytes.
    pub fn generate(name: String) -> (r: Result<OwnId, KeyCustodyError>)
        ensures
            match r {
                Ok(own) => {
                    &&& own.label() == name@
                    &&& own.secret().len() == KEY_LEN
                    &&& ed25519_public(own.secret()) == Some(own.public().id)
                    &&& own.public().url is None
                },
                Err(e) => e == KeyCustodyError::Entropy,
            },
    {
        match fresh_secret() {
            Some(secret) => match OwnId::from_secret(name, secret) {
                Some(own) => Ok(own),
                None => Err(KeyCustodyError::Entropy),
            },
            None => Err(KeyCustodyError::Entropy),
        }
    }

    /// The same identity, with proofs to be found at `url`.
    pub fn at_url(self, url: String) -> (r: OwnId)
        ensures
            r.secret() == self.secret(),
            r.label() == self.label(),
            r.public() == (PubIdView { id: self.public().id, url: Some(url@) }),
    {
        proof {
            use_type_invariant(&self);
        }
        OwnId { name: self.name, id: PubId::with_url(self.id.id, url), secret: self.secret }
    }

    /// The public identity.
    pub fn to_pubid(&self) -> (r: PubId)
        ensures
            r@ == self.public(),
            ed25519_public(self.secret()) == Some(r@.id),
    {
        proof {
            use_type_invariant(self);
        }
        self.id.clone()
    }

    /// The label that the owner gave the identity.
    pub fn name(&self) -> (r: &str)
        ensures
            r@ == self.label(),
    {
        self.name.as_str()
    }

    /// A copy of the secret key, to be locked away.
    pub fn secret_bytes(&self) -> (r: Vec<u8>)
        ensures
            r@ == self.secret(),
            r@.len() == KEY_LEN,
    {
        proof {
            use_type_invariant(self);
        }
        copy_bytes(self.secret.as_slice())
    }

    /// Signs a message with the secret key.
    pub fn sign(&self, message: &[u8]) -> (r: Vec<u8>)
        ensures
            ed25519_signature(self.secret(), message@) == Some(r@),
    {
        proof {
            use_type_invariant(self);
        }
        match sign_message(self.secret.as_slice(), message) {
            Some(signature) => signature,
            None => Vec::new(),
        }
    }
}

} // verus!
