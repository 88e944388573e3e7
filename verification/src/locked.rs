//! Identities at rest: the secret key sealed under a key that is derived
//! from a passphrase.
//!
//! Deriving the key and sealing or opening the secret are not done here.
//! This module holds what is stored, and decides what an opened secret is
//! worth.

use crate::b64::{base64_text, writable};
use crate::id::{PubId, PubIdView};
use crate::own::{KeyCustodyError, OwnId};
use crate::schema::{
    binary_field, document_text, id_field, id_to_value, id_tree, read_binary, read_document,
    read_id, write_document, SchemaError,
};
use crate::sig::ed25519_public;
use crate::text::same_bytes;
use crate::yaml::{entries_of, from_fields, from_int, from_text, yaml_document, yaml_tree, Tree};
use vstd::prelude::*;

verus! {

/// The revision of the stored identity's format that this library writes.
pub const CURRENT_LOCKED_ID_SERIALIZATION_VERSION: i64 = -1;

/// How the sealing key is derived from the passphrase.
#[derive(Debug)]
pub struct PassConfig {
    pub version: u32,
    pub variant: String,
    pub iterations: u32,
    pub memory_size: u32,
    pub lanes: u32,
    pub salt: Vec<u8>,
}

/// What a `PassConfig` stands for.
pub struct PassConfigView {
    pub version: u32,
    pub variant: Seq<char>,
    pub iterations: u32,
    pub memory_size: u32,
    pub lanes: u32,
    pub salt: Seq<u8>,
}

impl View for PassConfig {
    type V = PassConfigView;

    open spec fn view(&self) -> PassConfigView {
        PassConfigView {
            version: self.version,
            variant: self.variant@,
            iterations: self.iterations,
            memory_size: self.memory_size,
            lanes: self.lanes,
            salt: self.salt@,
        }
    }
}

/// An identity as it is stored: its public part in the clear, its secret
/// key sealed.
#[derive(Debug)]
pub struct LockedId {
    pub version: i64,
    pub name: String,
    pub id: PubId,
    pub sealed_secret_key: Vec<u8>,
    pub seal_nonce: Vec<u8>,
    pub pass: PassConfig,
}

/// What a `LockedId` stands for.
pub struct LockedIdView {
    pub version: i64,
    pub name: Seq<char>,
    pub id: PubIdView,
    pub sealed_secret_key: Seq<u8>,
    pub seal_nonce: Seq<u8>,
    pub pass: PassConfigView,
}

impl View for LockedId {
    type V = LockedIdView;

    open spec fn view(&self) -> LockedIdView {
        LockedIdView {
            version: self.version,
            name: self.name@,
            id: self.id@,
            sealed_secret_key: self.sealed_secret_key@,
            seal_nonce: self.seal_nonce@,
            pass: self.pass@,
        }
    }
}

/// The names of the fields of a stored identity differ from each other.
pub proof fn lemma_locked_names()
    ensures
        "version"@ != "name"@,
        "version"@ != "id"@,
        "version"@ != "sealed-secret-key"@,
        "version"@ != "seal-nonce"@,
        "version"@ != "pass"@,
        "name"@ != "id"@,
        "name"@ != "sealed-secret-key"@,
        "name"@ != "seal-nonce"@,
        "name"@ != "pass"@,
        "id"@ != "sealed-secret-key"@,
        "id"@ != "seal-nonce"@,
        "id"@ != "pass"@,
        "sealed-secret-key"@ != "seal-nonce"@,
        "sealed-secret-key"@ != "pass"@,
        "seal-nonce"@ != "pass"@,
        "version"@ != "variant"@,
        "version"@ != "iterations"@,
        "version"@ != "memory-size"@,
        "version"@ != "lanes"@,
        "version"@ != "salt"@,
        "variant"@ != "iterations"@,
        "variant"@ != "memory-size"@,
        "variant"@ != "lanes"@,
        "variant"@ != "salt"@,
        "iterations"@ != "memory-size"@,
        "iterations"@ != "lanes"@,
        "iterations"@ != "salt"@,
        "memory-size"@ != "lanes"@,
        "memory-size"@ != "salt"@,
        "lanes"@ != "salt"@,
{
    reveal_strlit("version");
    reveal_strlit("name");
    reveal_strlit("id");
    reveal_strlit("sealed-secret-key");
    reveal_strlit("seal-nonce");
    reveal_strlit("pass");
    reveal_strlit("variant");
    reveal_strlit("iterations");
    reveal_strlit("memory-size");
    reveal_strlit("lanes");
    reveal_strlit("salt");
    assert("version"@.len() == 7 && "version"@[1] == 'e');
    assert("name"@.len() == 4 && "name"@[0] == 'n');
    assert("id"@.len() == 2);
    assert("sealed-secret-key"@.len() == 17);
    assert("seal-nonce"@.len() == 10 && "seal-nonce"@[0] == 's');
    assert("pass"@.len() == 4 && "pass"@[0] == 'p');
    assert("variant"@.len() == 7 && "variant"@[1] == 'a');
    assert("iterations"@.len() == 10 && "iterations"@[0] == 'i');
    assert("memory-size"@.len() == 11);
    assert("lanes"@.len() == 5);
    assert("salt"@.len() == 4 && "salt"@[0] == 's');
}

/// The whole number under `name`, if it fits 32 bits without a sign.
pub open spec fn u32_field(tree: Tree, name: Seq<char>) -> Option<u32> {
    match tree.int_field(name) {
        Some(v) => if 0 <= v <= u32::MAX {
            Some(v as u32)
        } else {
            None
        },
        None => None,
    }
}

/// The whole number under `name`, if it fits 32 bits without a sign.
pub fn read_u32(value: &serde_yaml::Value, name: &str) -> (r: Option<u32>)
    ensures
        r == u32_field(yaml_tree(*value), name@),
{
    match crate::yaml::int_field(value, name) {
        Some(v) => if 0 <= v && v <= 0xffff_ffff {
            Some(v as u32)
        } else {
            None
        },
        None => None,
    }
}

impl PassConfigView {
    /// The document of the derivation's settings.
    pub open spec fn tree(self) -> Tree {
        Tree::Dict(
            seq![
                (Tree::Text("version"@), Tree::Int(self.version as i64)),
                (Tree::Text("variant"@), Tree::Text(self.variant)),
                (Tree::Text("iterations"@), Tree::Int(self.iterations as i64)),
                (Tree::Text("memory-size"@), Tree::Int(self.memory_size as i64)),
                (Tree::Text("lanes"@), Tree::Int(self.lanes as i64)),
                (Tree::Text("salt"@), Tree::Text(base64_text(self.salt))),
            ],
        )
    }

    /// The settings that a document stands for.
    pub open spec fn of_tree(tree: Tree) -> Option<PassConfigView> {
        match (
            u32_field(tree, "version"@),
            tree.text_field("variant"@),
            u32_field(tree, "iterations"@),
            u32_field(tree, "memory-size"@),
            u32_field(tree, "lanes"@),
            binary_field(tree, "salt"@),
        ) {
            (
                Some(version),
                Some(variant),
                Some(iterations),
                Some(memory_size),
                Some(lanes),
                Some(salt),
            ) => Some(PassConfigView { version, variant, iterations, memory_size, lanes, salt }),
            _ => None,
        }
    }
}

impl PassConfig {
    /// The document of the settings; `None` where the salt is too long to
    /// be written.
    pub fn to_value(&self) -> (r: Option<serde_yaml::Value>)
        ensures
            match r {
                Some(value) => writable(self@.salt) && yaml_tree(value) == self@.tree(),
                None => !writable(self@.salt),
            },
    {
        let salt = match crate::b64::to_text(self.salt.as_slice()) {
            Some(t) => t,
            None => {
                return None;
            },
        };
        let mut fields: Vec<(String, serde_yaml::Value)> = Vec::new();
        fields.push(("version".to_owned(), from_int(self.version as i64)));
        fields.push(("variant".to_owned(), from_text(self.variant.as_str())));
        fields.push(("iterations".to_owned(), from_int(self.iterations as i64)));
        fields.push(("memory-size".to_owned(), from_int(self.memory_size as i64)));
        fields.push(("lanes".to_owned(), from_int(self.lanes as i64)));
        fields.push(("salt".to_owned(), from_text(salt.as_str())));
        proof {
            lemma_locked_names();
            assert(entries_of(fields@) =~= self@.tree()->Dict_0);
        }
        Some(from_fields(fields))
    }

    /// The settings that a document stands for.
    pub fn from_value(value: &serde_yaml::Value) -> (r: Option<PassConfig>)
        ensures
            match r {
                Some(p) => PassConfigView::of_tree(yaml_tree(*value)) == Some(p@),
                None => PassConfigView::of_tree(yaml_tree(*value)) is None,
            },
    {
        let version = read_u32(value, "version");
        let variant = crate::yaml::text_field(value, "variant");
        let iterations = read_u32(value, "iterations");
        let memory_size = read_u32(value, "memory-size");
        let lanes = read_u32(value, "lanes");
        let salt = read_binary(value, "salt");
        match (version, variant, iterations, memory_size, lanes, salt) {
            (
                Some(version),
                Some(variant),
                Some(iterations),
                Some(memory_size),
                Some(lanes),
                Some(salt),
            ) => Some(PassConfig { version, variant, iterations, memory_size, lanes, salt }),
            _ => None,
        }
    }
}

impl LockedIdView {
    /// The keys, the sealed secret, the nonce and the salt are short enough
    /// to be written.
    pub open spec fn writable(self) -> bool {
        &&& writable(self.id.id)
        &&& writable(self.sealed_secret_key)
        &&& writable(self.seal_nonce)
        &&& writable(self.pass.salt)
    }

    /// The document of a stored identity.
    pub open spec fn tree(self) -> Tree {
        Tree::Dict(
            seq![
                (Tree::Text("version"@), Tree::Int(self.version)),
                (Tree::Text("name"@), Tree::Text(self.name)),
                (Tree::Text("id"@), id_tree(self.id)),
                (
                    Tree::Text("sealed-secret-key"@),
                    Tree::Text(base64_text(self.sealed_secret_key)),
                ),
                (Tree::Text("seal-nonce"@), Tree::Text(base64_text(self.seal_nonce))),
                (Tree::Text("pass"@), self.pass.tree()),
            ],
        )
    }

    /// The text of a stored identity.
    pub open spec fn text(self) -> Option<Seq<char>> {
        if self.writable() {
            document_text(self.tree())
        } else {
            None
        }
    }

    /// The stored identity that a document stands for. One of a later
    /// revision than the current one is refused with that revision.
    pub open spec fn of_tree(tree: Tree) -> Result<LockedIdView, SchemaError> {
        match tree.int_field("version"@) {
            Some(version) => if version > CURRENT_LOCKED_ID_SERIALIZATION_VERSION {
                Err(SchemaError::UnsupportedVersion(version))
            } else {
                match (
                    tree.text_field("name"@),
                    id_field(tree, "id"@),
                    binary_field(tree, "sealed-secret-key"@),
                    binary_field(tree, "seal-nonce"@),
                    pass_field(tree),
                ) {
                    (
                        Some(name),
                        Some(id),
                        Some(sealed_secret_key),
                        Some(seal_nonce),
                        Some(pass),
                    ) => Ok(
                        LockedIdView { version, name, id, sealed_secret_key, seal_nonce, pass },
                    ),
                    _ => Err(SchemaError::Malformed),
                }
            },
            None => Err(SchemaError::Malformed),
        }
    }

    /// The stored identity that a text stands for.
    pub open spec fn parsed(text: Seq<char>) -> Result<LockedIdView, SchemaError> {
        match yaml_document(text) {
            Some(tree) => LockedIdView::of_tree(tree),
            None => Err(SchemaError::Malformed),
        }
    }

    /// What an opened secret is worth. Nothing was opened: the passphrase
    /// was wrong or the stored key was tampered with. What was opened is no
    /// secret key, or not the one of the stored public key: the store is
    /// corrupted. Else it is the secret key of this identity.
    pub open spec fn unlocked(self, opened: Option<Seq<u8>>) -> Result<Seq<u8>, KeyCustodyError> {
        match opened {
            Some(secret) => if ed25519_public(secret) == Some(self.id.id) {
                Ok(secret)
            } else {
                Err(KeyCustodyError::Corrupted)
            },
            None => Err(KeyCustodyError::WrongPassphrase),
        }
    }
}

/// The settings under `pass`.
pub open spec fn pass_field(tree: Tree) -> Option<PassConfigView> {
    match tree.field("pass"@) {
        Some(t) => PassConfigView::of_tree(t),
        None => None,
    }
}

impl LockedId {
    /// The document of the stored identity; `None` where a part is too long
    /// to be written.
    pub fn to_value(&self) -> (r: Option<serde_yaml::Value>)
        ensures
            match r {
                Some(value) => self@.writable() && yaml_tree(value) == self@.tree(),
                None => !self@.writable(),
            },
    {
        let id = match id_to_value(&self.id) {
            Some(v) => v,
            None => {
                return None;
            },
        };
        let sealed = match crate::b64::to_text(self.sealed_secret_key.as_slice()) {
            Some(t) => t,
            None => {
                return None;
            },
        };
        let nonce = match crate::b64::to_text(self.seal_nonce.as_slice()) {
            Some(t) => t,
            None => {
                return None;
            },
        };
        let pass = match self.pass.to_value() {
            Some(v) => v,
            None => {
                return None;
            },
        };
        let mut fields: Vec<(String, serde_yaml::Value)> = Vec::new();
        fields.push(("version".to_owned(), from_int(self.version)));
        fields.push(("name".to_owned(), from_text(self.name.as_str())));
        fields.push(("id".to_owned(), id));
        fields.push(("sealed-secret-key".to_owned(), from_text(sealed.as_str())));
        fields.push(("seal-nonce".to_owned(), from_text(nonce.as_str())));
        fields.push(("pass".to_owned(), pass));
        proof {
            lemma_locked_names();
            assert(entries_of(fields@) =~= self@.tree()->Dict_0);
        }
        Some(from_fields(fields))
    }

    /// The stored identity that a document stands for.
    pub fn from_value(value: &serde_yaml::Value) -> (r: Result<LockedId, SchemaError>)
        ensures
            match r {
                Ok(x) => LockedIdView::of_tree(yaml_tree(*value)) == Ok::<
                    LockedIdView,
                    SchemaError,
                >(x@),
                Err(e) => LockedIdView::of_tree(yaml_tree(*value)) == Err::<
                    LockedIdView,
                    SchemaError,
                >(e),
            },
    {
        let version = match crate::yaml::int_field(value, "version") {
            Some(v) => v,
            None => {
                return Err(SchemaError::Malformed);
            },
        };
        if version > CURRENT_LOCKED_ID_SERIALIZATION_VERSION {
            return Err(SchemaError::UnsupportedVersion(version));
        }
        let name = crate::yaml::text_field(value, "name");
        let id = read_id(value, "id");
        let sealed_secret_key = read_binary(value, "sealed-secret-key");
        let seal_nonce = read_binary(value, "seal-nonce");
        let pass = match crate::yaml::field(value, "pass") {
            Some(p) => PassConfig::from_value(&p),
            None => None,
        };
        match (name, id, sealed_secret_key, seal_nonce, pass) {
            (Some(name), Some(id), Some(sealed_secret_key), Some(seal_nonce), Some(pass)) => Ok(
                LockedId { version, name, id, sealed_secret_key, seal_nonce, pass },
            ),
            _ => Err(SchemaError::Malformed),
        }
    }

    /// Reads a stored identity from its text.
    pub fn parse(s: &str) -> (r: Result<LockedId, SchemaError>)
        ensures
            match r {
                Ok(x) => LockedIdView::parsed(s@) == Ok::<LockedIdView, SchemaError>(x@),
                Err(e) => LockedIdView::parsed(s@) == Err::<LockedIdView, SchemaError>(e),
            },
    {
        match read_document(s) {
            Some(value) => LockedId::from_value(&value),
            None => Err(SchemaError::Malformed),
        }
    }

    /// The text of the stored identity.
    pub fn to_string(&self) -> (r: Result<String, SchemaError>)
        ensures
            match r {
                Ok(text) => self@.text() == Some(text@),
                Err(e) => e == SchemaError::Unwritable && self@.text() is None,
            },
    {
        match self.to_value() {
            Some(value) => write_document(&value),
            None => Err(SchemaError::Unwritable),
        }
    }

    /// The public identity, which is stored in the clear.
    pub fn to_pubid(&self) -> (r: PubId)
        ensures
            r@ == self@.id,
    {
        self.id.clone()
    }

    /// Makes the identity usable again from what opening the sealed secret
    /// gave: `None` where the seal did not open. A wrong key is never
    /// handed out: what was opened has to be the secret key of the stored
    /// public key.
    pub fn to_unlocked(&self, opened: Option<Vec<u8>>) -> (r: Result<OwnId, KeyCustodyError>)
        ensures
            match r {
                Ok(own) => {
                    &&& opened is Some
                    &&& self@.unlocked(Some(opened->0@)) == Ok::<Seq<u8>, KeyCustodyError>(
                        own.secret(),
                    )
                    &&& own.public() == self@.id
                    &&& own.label() == self@.name
                    &&& ed25519_public(own.secret()) == Some(own.public().id)
                },
                Err(e) => self@.unlocked(
                    match opened {
                        Some(s) => Some(s@),
                        None => None,
                    },
                ) == Err::<Seq<u8>, KeyCustodyError>(e),
            },
    {
        let secret = match opened {
            Some(s) => s,
            None => {
                return Err(KeyCustodyError::WrongPassphrase);
            },
        };
        let own = match OwnId::from_secret(self.name.clone(), secret) {
            Some(o) => o,
            None => {
                return Err(KeyCustodyError::Corrupted);
            },
        };
        let key = own.to_pubid();
        if !same_bytes(key.id.as_slice(), self.id.id.as_slice()) {
            return Err(KeyCustodyError::Corrupted);
        }
        match &self.id.url {
            Some(url) => Ok(own.at_url(url.clone())),
            None => Ok(own),
        }
    }
}

impl OwnId {
    /// The identity as it is stored, given the sealed secret key, the nonce
    /// it was sealed with and how the sealing key was derived.
    pub fn to_locked(&self, sealed_secret_key: Vec<u8>, seal_nonce: Vec<u8>, pass: PassConfig) -> (r:
        LockedId)
        ensures
            r@ == (LockedIdView {
                version: CURRENT_LOCKED_ID_SERIALIZATION_VERSION,
                name: self.label(),
                id: self.public(),
                sealed_secret_key: sealed_secret_key@,
                seal_nonce: seal_nonce@,
                pass: pass@,
            }),
    {
        LockedId {
            version: CURRENT_LOCKED_ID_SERIALIZATION_VERSION,
            name: self.name().to_owned(),
            id: self.to_pubid(),
            sealed_secret_key,
            seal_nonce,
            pass,
        }
    }
}

/// Opening the seal with the secret key of the stored public key gives the
/// identity back; anything else gives none.
pub proof fn lemma_unlock_only_the_right_key(locked: LockedIdView, opened: Option<Seq<u8>>)
    ensures
        locked.unlocked(opened) is Ok <==> (opened is Some && ed25519_public(opened->0) == Some(
            locked.id.id,
        )),
        locked.unlocked(opened) matches Ok(secret) ==> opened == Some(secret),
{
}

} // verus!
