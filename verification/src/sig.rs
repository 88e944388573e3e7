//! Ed25519 keys and signatures, as byte strings.

use ed25519_dalek::{Signer, Verifier};
use vstd::prelude::*;

verus! {

/// The length of a secret key and of a public key.
pub const KEY_LEN: usize = 32;

/// The public key that belongs to a secret key; `None` for a byte string
/// that is no secret key.
pub uninterp spec fn ed25519_public(secret: Seq<u8>) -> Option<Seq<u8>>;

/// The signature of a message under a secret key; `None` for a byte string
/// that is no secret key.
pub uninterp spec fn ed25519_signature(secret: Seq<u8>, message: Seq<u8>) -> Option<Seq<u8>>;

/// Whether a byte string is a valid signature of a message under a public
/// key. No byte string is one under what is no public key.
pub uninterp spec fn ed25519_valid(public: Seq<u8>, message: Seq<u8>, signature: Seq<u8>) -> bool;

/// Makes an `ed25519_dalek::SigningKey` of the bytes with `try_from`, which
/// takes any 32 bytes and nothing else, and gives the bytes of its
/// `verifying_key`.
#[verifier::external_body]
pub(crate) fn public_key(secret: &[u8]) -> (r: Option<Vec<u8>>)
    ensures
        match r {
            Some(key) => ed25519_public(secret@) == Some(key@) && key@.len() == KEY_LEN,
            None => ed25519_public(secret@) is None,
        },
        r is Some <==> secret@.len() == KEY_LEN,
{
    let key = ed25519_dalek::SigningKey::try_from(secret).ok()?;
    Some(key.verifying_key().to_bytes().to_vec())
}

/// Makes an `ed25519_dalek::SigningKey` of the bytes with `try_from`, which
/// takes any 32 bytes and nothing else, and signs the message with
/// `try_sign`, which does not fail for such a key. The signature depends on
/// the key and the message alone.
#[verifier::external_body]
pub(crate) fn sign_message(secret: &[u8], message: &[u8]) -> (r: Option<Vec<u8>>)
    ensures
        match r {
            Some(signature) => ed25519_signature(secret@, message@) == Some(signature@),
            None => ed25519_signature(secret@, message@) is None,
        },
        r is Some <==> secret@.len() == KEY_LEN,
{
    let key = ed25519_dalek::SigningKey::try_from(secret).ok()?;
    Some(key.try_sign(message).ok()?.to_bytes().to_vec())
}

/// Makes an `ed25519_dalek::VerifyingKey` and an `ed25519_dalek::Signature`
/// of the bytes with `try_from`, and checks the one against the other with
/// `verify`. Bytes that are no key or no signature verify nothing.
#[verifier::external_body]
pub(crate) fn verify_message(public: &[u8], message: &[u8], signature: &[u8]) -> (r: bool)
    ensures
        r == ed25519_valid(public@, message@, signature@),
{
    match (
        ed25519_dalek::VerifyingKey::try_from(public),
        ed25519_dalek::Signature::try_from(signature),
    ) {
        (Ok(key), Ok(signature)) => key.verify(message, &signature).is_ok(),
        _ => false,
    }
}

} // verus!
