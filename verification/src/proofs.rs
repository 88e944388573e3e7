//! Proofs: a content, the text of it that was signed, and the signature.

use crate::b64::{base64_text, binary_of};
use crate::content::{pool_view, Content, ContentView};
use crate::envelope::{armored, lemma_armored_unique, lemma_kinds_differ, unwrap, well_formed, wrap, ProofKind};
use crate::id::PubId;
use crate::own::OwnId;
use crate::review::Review;
use crate::schema::SchemaError;
use crate::sig::{ed25519_signature, ed25519_valid, verify_message};
use crate::text::same_text;
use crate::trust::Trust;
use vstd::prelude::*;
use vstd::string::StringSliceAdditionalSpecFns;

verus! {

/// Why a text is not accepted as a proof, or why a content could not be
/// signed.
#[derive(Copy, Clone, Debug, PartialEq, Eq, Structural)]
pub enum ProofError {
    /// The text is no envelope, or its signature text is no base64.
    Format,
    /// The body is no content of the envelope's kind, or the content cannot
    /// be written.
    Schema(SchemaError),
    /// The body is not the text that its content is written as.
    Integrity,
    /// The signature does not verify: under the key of the author that the
    /// content names, where a proof was read; under the signer's key, where
    /// one was made.
    SignatureMismatch,
}

/// A proof: the exact text of a content that was signed, the signature as
/// it is written, and the content that the text stands for. A proof is made
/// by parsing or by signing, and does not change afterwards.
#[derive(Debug)]
pub struct Proof {
    kind: ProofKind,
    body: String,
    signature: String,
    content: Content,
}

/// What a `Proof` stands for.
pub struct ProofView {
    pub kind: ProofKind,
    pub body: Seq<char>,
    pub signature: Seq<char>,
    pub content: ContentView,
}

impl View for Proof {
    type V = ProofView;

    closed spec fn view(&self) -> ProofView {
        ProofView {
            kind: self.kind,
            body: self.body@,
            signature: self.signature@,
            content: self.content@,
        }
    }
}

impl ProofView {
    /// The envelope of the proof.
    pub open spec fn text(self) -> Seq<char> {
        armored(self.kind, self.body, self.signature)
    }

    /// The bytes that were signed.
    pub open spec fn signed_bytes(self) -> Seq<u8> {
        vstd::utf8::encode_utf8(self.body)
    }

    /// Whether the signature is one of the body under the given public key.
    pub open spec fn verified_by(self, key: Seq<u8>) -> bool {
        match binary_of(self.signature) {
            Some(signature) => ed25519_valid(key, self.signed_bytes(), signature),
            None => false,
        }
    }

    /// The body is a content of the proof's kind, it is the very text that
    /// the content is written as, and the signature text is base64.
    pub open spec fn sound(self) -> bool {
        judged(self.kind, self.body, self.signature) == Ok::<ProofView, ProofError>(self)
    }
}

/// What the parts of an envelope make: a proof, where the signature text is
/// base64, the body stands for a content of the envelope's kind, and the
/// body is the very text that this content is written as.
pub open spec fn judged(kind: ProofKind, body: Seq<char>, signature: Seq<char>) -> Result<
    ProofView,
    ProofError,
> {
    match binary_of(signature) {
        Some(_) => match ContentView::parsed(kind, body) {
            Ok(content) => if content.text() == Some(body) {
                Ok(ProofView { kind, body, signature, content })
            } else {
                Err(ProofError::Integrity)
            },
            Err(e) => Err(ProofError::Schema(e)),
        },
        None => Err(ProofError::Format),
    }
}

/// The text is an envelope of the given kind.
pub open spec fn is_envelope(kind: ProofKind, text: Seq<char>) -> bool {
    exists|body: Seq<char>, signature: Seq<char>|
        well_formed(kind, body, signature) && #[trigger] armored(kind, body, signature) == text
}

/// The body and the signature text of an envelope.
pub open spec fn parts(kind: ProofKind, text: Seq<char>) -> (Seq<char>, Seq<char>) {
    choose|body: Seq<char>, signature: Seq<char>|
        well_formed(kind, body, signature) && #[trigger] armored(kind, body, signature) == text
}

/// The proof that a text stands for: the text has to be the envelope of a
/// trust statement or of a review, and its parts have to make a proof.
pub open spec fn parsed(text: Seq<char>) -> Result<ProofView, ProofError> {
    if is_envelope(ProofKind::Trust, text) {
        judged(
            ProofKind::Trust,
            parts(ProofKind::Trust, text).0,
            parts(ProofKind::Trust, text).1,
        )
    } else if is_envelope(ProofKind::Review, text) {
        judged(
            ProofKind::Review,
            parts(ProofKind::Review, text).0,
            parts(ProofKind::Review, text).1,
        )
    } else {
        Err(ProofError::Format)
    }
}

/// The parts of an envelope are the ones it was made of.
pub proof fn lemma_parts(kind: ProofKind, body: Seq<char>, signature: Seq<char>)
    requires
        well_formed(kind, body, signature),
    ensures
        is_envelope(kind, armored(kind, body, signature)),
        parts(kind, armored(kind, body, signature)) == (body, signature),
{
    let text = armored(kind, body, signature);
    assert(well_formed(kind, body, signature) && armored(kind, body, signature) == text);
    let q = parts(kind, text);
    assert(well_formed(kind, q.0, q.1) && armored(kind, q.0, q.1) == text);
    lemma_armored_unique(kind, body, signature, q.0, q.1);
}

/// No text is an envelope of both kinds.
pub proof fn lemma_one_kind(text: Seq<char>)
    ensures
        !(is_envelope(ProofKind::Trust, text) && is_envelope(ProofKind::Review, text)),
{
    if is_envelope(ProofKind::Trust, text) && is_envelope(ProofKind::Review, text) {
        let a = parts(ProofKind::Trust, text);
        let b = parts(ProofKind::Review, text);
        assert(well_formed(ProofKind::Trust, a.0, a.1) && armored(ProofKind::Trust, a.0, a.1)
            == text);
        assert(well_formed(ProofKind::Review, b.0, b.1) && armored(ProofKind::Review, b.0, b.1)
            == text);
        crate::envelope::lemma_armored_lines(ProofKind::Trust, a.0, a.1);
        crate::envelope::lemma_armored_lines(ProofKind::Review, b.0, b.1);
        let x = crate::envelope::framed(ProofKind::Trust, crate::lines::lines_of(a.0), a.1);
        let y = crate::envelope::framed(ProofKind::Review, crate::lines::lines_of(b.0), b.1);
        assert(x[0] == ProofKind::Trust.begin());
        assert(y[0] == ProofKind::Review.begin());
        lemma_kinds_differ();
    }
}

/// The envelope of parts that fit is read as what the parts make.
pub proof fn lemma_parsed_armored(kind: ProofKind, body: Seq<char>, signature: Seq<char>)
    requires
        well_formed(kind, body, signature),
    ensures
        parsed(armored(kind, body, signature)) == judged(kind, body, signature),
{
    lemma_parts(kind, body, signature);
    lemma_one_kind(armored(kind, body, signature));
}

/// What signing a content with a secret key gives: the content is written,
/// the text is signed, and the two make a proof. The proof has to fit into
/// an envelope, so that it is read back from its own text, and has to
/// verify under `key`.
pub open spec fn signed(content: ContentView, secret: Seq<u8>, key: Seq<u8>) -> Result<
    ProofView,
    ProofError,
> {
    match content.text() {
        Some(body) => match ed25519_signature(secret, vstd::utf8::encode_utf8(body)) {
            Some(signature) => if crate::b64::writable(signature) {
                match judged(content.kind(), body, base64_text(signature)) {
                    Ok(made) => if !well_formed(content.kind(), body, base64_text(signature)) {
                        Err(ProofError::Format)
                    } else if !made.verified_by(key) {
                        Err(ProofError::SignatureMismatch)
                    } else {
                        Ok(made)
                    },
                    Err(e) => Err(e),
                }
            } else {
                Err(ProofError::SignatureMismatch)
            },
            None => Err(ProofError::SignatureMismatch),
        },
        None => Err(ProofError::Schema(SchemaError::Unwritable)),
    }
}

impl Proof {
    #[verifier::type_invariant]
    spec fn holds(self) -> bool {
        self@.sound()
    }

    /// Every proof is sound: its body is a content of its kind and is the
    /// very text that this content is written as, and its signature text is
    /// base64.
    pub fn attest(&self)
        ensures
            self@.sound(),
            binary_of(self@.signature) is Some,
            self@.content.text() == Some(self@.body),
            ContentView::parsed(self@.kind, self@.body) == Ok::<ContentView, SchemaError>(
                self@.content,
            ),
            self@.content.kind() == self@.kind,
    {
        proof {
            use_type_invariant(self);
        }
    }

    /// Makes a proof of the parts of an envelope. The signature is not
    /// verified: that takes the author's key.
    pub fn from_parts(kind: ProofKind, body: String, signature: String) -> (r: Result<
        Proof,
        ProofError,
    >)
        ensures
            match r {
                Ok(p) => judged(kind, body@, signature@) == Ok::<ProofView, ProofError>(p@),
                Err(e) => judged(kind, body@, signature@) == Err::<ProofView, ProofError>(e),
            },
    {
        if crate::b64::from_text(signature.as_str()).is_none() {
            return Err(ProofError::Format);
        }
        let content = match Content::parse(kind, body.as_str()) {
            Ok(c) => c,
            Err(e) => {
                return Err(ProofError::Schema(e));
            },
        };
        match content.to_string() {
            Ok(text) => {
                if !same_text(text.as_str(), body.as_str()) {
                    return Err(ProofError::Integrity);
                }
            },
            Err(_) => {
                return Err(ProofError::Integrity);
            },
        }
        Ok(Proof { kind, body, signature, content })
    }

    /// Reads a proof from the text of its envelope. The signature is not
    /// verified: that takes the author's key.
    pub fn parse(text: &str) -> (r: Result<Proof, ProofError>)
        ensures
            match r {
                Ok(p) => parsed(text@) == Ok::<ProofView, ProofError>(p@) && p@.text() == text@
                    && p@.sound(),
                Err(e) => parsed(text@) == Err::<ProofView, ProofError>(e),
            },
    {
        match unwrap(ProofKind::Trust, text) {
            Some((body, signature)) => {
                proof {
                    lemma_parts(ProofKind::Trust, body@, signature@);
                }
                Proof::from_parts(ProofKind::Trust, body, signature)
            },
            None => match unwrap(ProofKind::Review, text) {
                Some((body, signature)) => {
                    proof {
                        lemma_parts(ProofKind::Review, body@, signature@);
                    }
                    Proof::from_parts(ProofKind::Review, body, signature)
                },
                None => Err(ProofError::Format),
            },
        }
    }

    /// Whether the signature is one of the body under the key of `id`. A
    /// signature that is not is nothing out of the ordinary: the proof is
    /// then left out of account.
    pub fn verify(&self, id: &PubId) -> (r: bool)
        ensures
            r == self@.verified_by(id@.id),
    {
        match crate::b64::from_text(self.signature.as_str()) {
            Some(signature) => verify_message(
                id.id.as_slice(),
                self.body.as_str().as_bytes(),
                signature.as_slice(),
            ),
            None => false,
        }
    }

    /// The text of the envelope.
    pub fn to_string(&self) -> (r: String)
        ensures
            r@ == self@.text(),
    {
        wrap(self.kind, self.body.as_str(), self.signature.as_str())
    }

    /// The kind of content that the proof carries.
    pub fn kind(&self) -> (r: ProofKind)
        ensures
            r == self@.kind,
    {
        self.kind
    }

    /// The text that was signed.
    pub fn body(&self) -> (r: &str)
        ensures
            r@ == self@.body,
    {
        self.body.as_str()
    }

    /// The signature as it is written.
    pub fn signature(&self) -> (r: &str)
        ensures
            r@ == self@.signature,
    {
        self.signature.as_str()
    }

    /// The signature as bytes.
    pub fn signature_bytes(&self) -> (r: Vec<u8>)
        ensures
            binary_of(self@.signature) == Some(r@),
    {
        proof {
            use_type_invariant(self);
        }
        match crate::b64::from_text(self.signature.as_str()) {
            Some(bytes) => bytes,
            None => Vec::new(),
        }
    }

    /// The content that the body stands for.
    pub fn content(&self) -> (r: &Content)
        ensures
            r@ == self@.content,
    {
        &self.content
    }
}

impl Content {
    /// Signs the content: writes it, signs the text, and hands back the
    /// proof that the envelope of the two is read as. A proof that comes
    /// back is read from its own text, holds the text that the content is
    /// written as, and verifies under the signer's key.
    pub fn sign_by(self, id: &OwnId) -> (r: Result<Proof, ProofError>)
        ensures
            match r {
                Ok(p) => signed(self@, id.secret(), id.public().id) == Ok::<ProofView, ProofError>(
                    p@,
                ),
                Err(e) => signed(self@, id.secret(), id.public().id) == Err::<
                    ProofView,
                    ProofError,
                >(e),
            },
            r matches Ok(p) ==> {
                &&& parsed(p@.text()) == Ok::<ProofView, ProofError>(p@)
                &&& p@.verified_by(id.public().id)
                &&& p@.kind == self@.kind()
                &&& self@.text() == Some(p@.body)
                &&& p@.content.text() == Some(p@.body)
            },
    {
        let kind = self.kind();
        let body = match self.to_string() {
            Ok(text) => text,
            Err(_) => {
                return Err(ProofError::Schema(SchemaError::Unwritable));
            },
        };
        let signature = id.sign(body.as_str().as_bytes());
        let written = match crate::b64::to_text(signature.as_slice()) {
            Some(text) => text,
            None => {
                return Err(ProofError::SignatureMismatch);
            },
        };
        let fit = crate::envelope::fits(kind, body.as_str(), written.as_str());
        let made = match Proof::from_parts(kind, body, written) {
            Ok(p) => p,
            Err(e) => {
                return Err(e);
            },
        };
        if !fit {
            return Err(ProofError::Format);
        }
        let key = id.to_pubid();
        if !made.verify(&key) {
            return Err(ProofError::SignatureMismatch);
        }
        proof {
            lemma_parsed_armored(kind, made@.body, made@.signature);
        }
        Ok(made)
    }
}

impl Trust {
    /// Signs the statement. See `Content::sign_by`.
    pub fn sign_by(self, id: &OwnId) -> (r: Result<Proof, ProofError>)
        ensures
            match r {
                Ok(p) => signed(ContentView::Trust(self@), id.secret(), id.public().id) == Ok::<
                    ProofView,
                    ProofError,
                >(p@),
                Err(e) => signed(ContentView::Trust(self@), id.secret(), id.public().id) == Err::<
                    ProofView,
                    ProofError,
                >(e),
            },
            r matches Ok(p) ==> {
                &&& parsed(p@.text()) == Ok::<ProofView, ProofError>(p@)
                &&& p@.verified_by(id.public().id)
                &&& p@.kind == ProofKind::Trust
                &&& self@.text() == Some(p@.body)
                &&& p@.content.text() == Some(p@.body)
            },
    {
        Content::from(self).sign_by(id)
    }
}

impl Review {
    /// Signs the review. See `Content::sign_by`.
    pub fn sign_by(self, id: &OwnId) -> (r: Result<Proof, ProofError>)
        ensures
            match r {
                Ok(p) => signed(ContentView::Review(self@), id.secret(), id.public().id) == Ok::<
                    ProofView,
                    ProofError,
                >(p@),
                Err(e) => signed(ContentView::Review(self@), id.secret(), id.public().id) == Err::<
                    ProofView,
                    ProofError,
                >(e),
            },
            r matches Ok(p) ==> {
                &&& parsed(p@.text()) == Ok::<ProofView, ProofError>(p@)
                &&& p@.verified_by(id.public().id)
                &&& p@.kind == ProofKind::Review
                &&& self@.text() == Some(p@.body)
                &&& p@.content.text() == Some(p@.body)
            },
    {
        Content::from(self).sign_by(id)
    }
}

/// The contents of the proofs whose signature verifies under the key of
/// the author that the content names.
pub open spec fn accepted(proofs: Seq<ProofView>) -> Seq<ContentView>
    decreases proofs.len(),
{
    if proofs.len() == 0 {
        Seq::<ContentView>::empty()
    } else if proofs.last().verified_by(proofs.last().content.from().id) {
        accepted(proofs.drop_last()).push(proofs.last().content)
    } else {
        accepted(proofs.drop_last())
    }
}

/// What a list of proofs stands for.
pub open spec fn proofs_view(proofs: Seq<Proof>) -> Seq<ProofView> {
    proofs.map_values(|p: Proof| p@)
}

/// The pool that a list of proofs gives: the contents of those whose
/// signature verifies under the key of their claimed author, in their
/// order. A proof that does not verify is left out, and the others stay.
pub fn accepted_contents(proofs: &Vec<Proof>) -> (r: Vec<Content>)
    ensures
        pool_view(r@) == accepted(proofs_view(proofs@)),
{
    let mut pool: Vec<Content> = Vec::new();
    let mut i: usize = 0;
    assert(proofs_view(proofs@).take(0) =~= Seq::<ProofView>::empty());
    assert(pool_view(pool@) =~= Seq::<ContentView>::empty());
    while i < proofs.len()
        invariant
            i <= proofs@.len(),
            pool_view(pool@) == accepted(proofs_view(proofs@).take(i as int)),
        decreases proofs@.len() - i,
    {
        let ghost views = proofs_view(proofs@);
        let ghost held = pool_view(pool@);
        let item = &proofs[i];
        assert(views.take(i + 1).drop_last() =~= views.take(i as int));
        assert(views.take(i + 1).last() == item@);
        if item.verify(item.content().author()) {
            pool.push(item.content().clone());
            assert(pool_view(pool@) =~= held.push(item@.content));
        }
        i += 1;
    }
    assert(proofs_view(proofs@).take(proofs@.len() as int) =~= proofs_view(proofs@));
    pool
}

/// What reading a text as a proof of its claimed author gives: the proof
/// that the text stands for, if its signature verifies under the key of the
/// author that its content names.
pub open spec fn parsed_verified(text: Seq<char>) -> Result<ProofView, ProofError> {
    match parsed(text) {
        Ok(made) => if made.verified_by(made.content.from().id) {
            Ok(made)
        } else {
            Err(ProofError::SignatureMismatch)
        },
        Err(e) => Err(e),
    }
}

impl Proof {
    /// Reads a proof from the text of its envelope and verifies it under
    /// the key of the author that its content names.
    pub fn parse_verified(text: &str) -> (r: Result<Proof, ProofError>)
        ensures
            match r {
                Ok(p) => parsed_verified(text@) == Ok::<ProofView, ProofError>(p@),
                Err(e) => parsed_verified(text@) == Err::<ProofView, ProofError>(e),
            },
    {
        match Proof::parse(text) {
            Ok(made) => {
                if made.verify(made.content().author()) {
                    Ok(made)
                } else {
                    Err(ProofError::SignatureMismatch)
                }
            },
            Err(e) => Err(e),
        }
    }
}

/// Reads each text as a proof of its claimed author. Every text has its own
/// outcome, in the order of the texts: a text that is refused does not
/// stand in the way of the others.
pub fn read_all(texts: &Vec<String>) -> (r: Vec<Result<Proof, ProofError>>)
    ensures
        r@.len() == texts@.len(),
        forall|k: int|
            0 <= k < texts@.len() ==> match #[trigger] r@[k] {
                Ok(p) => parsed_verified(texts@[k]@) == Ok::<ProofView, ProofError>(p@),
                Err(e) => parsed_verified(texts@[k]@) == Err::<ProofView, ProofError>(e),
            },
{
    let mut out: Vec<Result<Proof, ProofError>> = Vec::new();
    let mut i: usize = 0;
    while i < texts.len()
        invariant
            i <= texts@.len(),
            out@.len() == i,
            forall|k: int|
                0 <= k < i ==> match #[trigger] out@[k] {
                    Ok(p) => parsed_verified(texts@[k]@) == Ok::<ProofView, ProofError>(p@),
                    Err(e) => parsed_verified(texts@[k]@) == Err::<ProofView, ProofError>(e),
                },
        decreases texts@.len() - i,
    {
        out.push(Proof::parse_verified(texts[i].as_str()));
        i += 1;
    }
    out
}

/// A proof that was read holds its own envelope, and its body is the very
/// text that its content is written as: a text whose content would be
/// written otherwise is refused.
pub proof fn lemma_parsed_is_canonical(text: Seq<char>)
    ensures
        parsed(text) matches Ok(made) ==> {
            &&& made.text() == text
            &&& made.content.text() == Some(made.body)
            &&& ContentView::parsed(made.kind, made.body) == Ok::<ContentView, SchemaError>(
                made.content,
            )
            &&& binary_of(made.signature) is Some
            &&& made.sound()
        },
{
    if is_envelope(ProofKind::Trust, text) {
        let p = parts(ProofKind::Trust, text);
        assert(well_formed(ProofKind::Trust, p.0, p.1) && armored(ProofKind::Trust, p.0, p.1)
            == text);
    } else if is_envelope(ProofKind::Review, text) {
        let p = parts(ProofKind::Review, text);
        assert(well_formed(ProofKind::Review, p.0, p.1) && armored(ProofKind::Review, p.0, p.1)
            == text);
    }
}

/// Signing, reading and verifying agree: a proof that signing gives is read
/// back from its own text as the same proof, verifies under the signer's
/// key, and holds as its body the text that the signed content is written
/// as.
pub proof fn lemma_sign_parse_verify(content: ContentView, secret: Seq<u8>, key: Seq<u8>)
    ensures
        signed(content, secret, key) matches Ok(made) ==> {
            &&& parsed(made.text()) == Ok::<ProofView, ProofError>(made)
            &&& made.verified_by(key)
            &&& made.kind == content.kind()
            &&& content.text() == Some(made.body)
            &&& made.content.text() == Some(made.body)
        },
{
    if signed(content, secret, key) is Ok {
        let body = content.text()->0;
        let signature = ed25519_signature(secret, vstd::utf8::encode_utf8(body))->0;
        lemma_parsed_armored(content.kind(), body, base64_text(signature));
    }
}

/// A body of a later revision than the current one makes no proof: it is
/// refused with the revision it names, whatever else it holds.
pub proof fn lemma_later_version_is_refused(
    body: Seq<char>,
    signature: Seq<char>,
    tree: crate::yaml::Tree,
    version: i64,
)
    requires
        binary_of(signature) is Some,
        crate::yaml::yaml_document(body) == Some(tree),
        tree.int_field("version"@) == Some(version),
        version > crate::trust::CURRENT_TRUST_PROOF_SERIALIZATION_VERSION,
    ensures
        crate::trust::TrustView::parsed(body) == Err::<crate::trust::TrustView, SchemaError>(
            SchemaError::UnsupportedVersion(version),
        ),
        judged(ProofKind::Trust, body, signature) == Err::<ProofView, ProofError>(
            ProofError::Schema(SchemaError::UnsupportedVersion(version)),
        ),
        well_formed(ProofKind::Trust, body, signature) ==> parsed(
            armored(ProofKind::Trust, body, signature),
        ) == Err::<ProofView, ProofError>(
            ProofError::Schema(SchemaError::UnsupportedVersion(version)),
        ),
{
    if well_formed(ProofKind::Trust, body, signature) {
        lemma_parsed_armored(ProofKind::Trust, body, signature);
    }
}

} // verus!
