//! The envelope of a proof: the signed text between marker lines, followed
//! by the signature.
//!
//! An envelope is made of whole lines: the begin marker, the lines of the
//! body, the signature marker, one line of signature text and the end
//! marker.

use crate::lines::{
    all_plain, ended, lemma_read_unlines, lemma_terminated, lemma_unlines_more, lines_of,
    lines_view, plain, read, split_lines, terminated, unlines,
};
use crate::text::same_text;
use vstd::prelude::*;

verus! {

/// Which kind of content an envelope carries. Each kind has its own marker
/// lines.
#[derive(Copy, Clone, Debug, PartialEq, Eq, Structural)]
pub enum ProofKind {
    Trust,
    Review,
}

impl ProofKind {
    /// The line that opens an envelope.
    pub open spec fn begin(self) -> Seq<char> {
        match self {
            ProofKind::Trust => "-----BEGIN CREV TRUST -----"@,
            ProofKind::Review => "-----BEGIN CREV REVIEW -----"@,
        }
    }

    /// The line between the body and the signature.
    pub open spec fn signature(self) -> Seq<char> {
        match self {
            ProofKind::Trust => "-----BEGIN CREV TRUST SIGNATURE-----"@,
            ProofKind::Review => "-----BEGIN CREV REVIEW SIGNATURE-----"@,
        }
    }

    /// The line that closes an envelope.
    pub open spec fn end(self) -> Seq<char> {
        match self {
            ProofKind::Trust => "-----END CREV TRUST-----"@,
            ProofKind::Review => "-----END CREV REVIEW-----"@,
        }
    }

    /// Whether a line is one of the three marker lines of this kind.
    pub open spec fn is_marker(self, line: Seq<char>) -> bool {
        line == self.begin() || line == self.signature() || line == self.end()
    }

    /// The line that opens an envelope.
    pub fn begin_block(&self) -> (r: &'static str)
        ensures
            r@ == self.begin(),
    {
        match self {
            ProofKind::Trust => crate::trust::BEGIN_BLOCK,
            ProofKind::Review => crate::review::BEGIN_BLOCK,
        }
    }

    /// The line between the body and the signature.
    pub fn begin_signature(&self) -> (r: &'static str)
        ensures
            r@ == self.signature(),
    {
        match self {
            ProofKind::Trust => crate::trust::BEGIN_SIGNATURE,
            ProofKind::Review => crate::review::BEGIN_SIGNATURE,
        }
    }

    /// The line that closes an envelope.
    pub fn end_block(&self) -> (r: &'static str)
        ensures
            r@ == self.end(),
    {
        match self {
            ProofKind::Trust => crate::trust::END_BLOCK,
            ProofKind::Review => crate::review::END_BLOCK,
        }
    }

    /// Whether a line is one of the three marker lines of this kind.
    pub fn marks(&self, line: &str) -> (r: bool)
        ensures
            r == self.is_marker(line@),
    {
        same_text(line, self.begin_block()) || same_text(line, self.begin_signature())
            || same_text(line, self.end_block())
    }
}

/// The envelope of a body and a signature text.
pub open spec fn armored(kind: ProofKind, body: Seq<char>, signature: Seq<char>) -> Seq<char> {
    ended(kind.begin()) + body + ended(kind.signature()) + ended(signature) + ended(kind.end())
}

/// The lines of an envelope, given the lines of its body.
pub open spec fn framed(kind: ProofKind, body: Seq<Seq<char>>, signature: Seq<char>) -> Seq<
    Seq<char>,
> {
    seq![kind.begin()] + body + seq![kind.signature(), signature, kind.end()]
}

/// What can stand in an envelope: a body of whole lines, none of which is a
/// marker line, and a signature text of one line that is no marker line.
pub open spec fn well_formed(kind: ProofKind, body: Seq<char>, signature: Seq<char>) -> bool {
    &&& terminated(body)
    &&& forall|k: int|
        0 <= k < lines_of(body).len() ==> !kind.is_marker(#[trigger] lines_of(body)[k])
    &&& plain(signature)
    &&& !kind.is_marker(signature)
}

/// No marker line holds a line break.
pub proof fn lemma_markers_plain(kind: ProofKind)
    ensures
        plain(kind.begin()),
        plain(kind.signature()),
        plain(kind.end()),
{
    reveal_strlit("-----BEGIN CREV TRUST -----");
    reveal_strlit("-----BEGIN CREV REVIEW -----");
    reveal_strlit("-----BEGIN CREV TRUST SIGNATURE-----");
    reveal_strlit("-----BEGIN CREV REVIEW SIGNATURE-----");
    reveal_strlit("-----END CREV TRUST-----");
    reveal_strlit("-----END CREV REVIEW-----");
}

/// The two kinds open their envelopes with different lines.
pub proof fn lemma_kinds_differ()
    ensures
        ProofKind::Trust.begin() != ProofKind::Review.begin(),
{
    reveal_strlit("-----BEGIN CREV TRUST -----");
    reveal_strlit("-----BEGIN CREV REVIEW -----");
    assert("-----BEGIN CREV TRUST -----"@.len() == 27);
    assert("-----BEGIN CREV REVIEW -----"@.len() == 28);
}

/// One line written is that line and its line break.
proof fn lemma_unlines_one(line: Seq<char>)
    ensures
        unlines(seq![line]) == ended(line),
{
    assert(seq![line].drop_last() =~= Seq::<Seq<char>>::empty());
    assert(unlines(seq![line].drop_last()) =~= Seq::<char>::empty());
    assert(unlines(seq![line]) =~= ended(line));
}

/// The lines of an envelope, written one after the other, are the envelope.
pub proof fn lemma_unlines_framed(kind: ProofKind, body: Seq<Seq<char>>, signature: Seq<char>)
    ensures
        unlines(framed(kind, body, signature)) == armored(kind, unlines(body), signature),
{
    let tail = seq![kind.signature(), signature, kind.end()];
    lemma_unlines_more(seq![kind.begin()] + body, tail);
    lemma_unlines_more(seq![kind.begin()], body);
    lemma_unlines_one(kind.begin());
    lemma_unlines_one(kind.signature());
    lemma_unlines_one(signature);
    lemma_unlines_one(kind.end());
    assert(tail =~= seq![kind.signature()] + seq![signature] + seq![kind.end()]);
    lemma_unlines_more(seq![kind.signature()] + seq![signature], seq![kind.end()]);
    lemma_unlines_more(seq![kind.signature()], seq![signature]);
    assert(unlines(tail) == ended(kind.signature()) + ended(signature) + ended(kind.end()));
    assert(unlines(framed(kind, body, signature)) =~= armored(kind, unlines(body), signature));
}

/// The lines of the envelope of a well-formed body are the begin marker,
/// the lines of the body, the signature marker, the signature and the end
/// marker; and the envelope ends with a line break.
pub proof fn lemma_armored_lines(kind: ProofKind, body: Seq<char>, signature: Seq<char>)
    requires
        terminated(body),
        plain(signature),
    ensures
        read(armored(kind, body, signature)) == (
            framed(kind, lines_of(body), signature),
            Seq::<char>::empty(),
        ),
{
    lemma_markers_plain(kind);
    lemma_terminated(body);
    let lines = framed(kind, lines_of(body), signature);
    assert(all_plain(lines)) by {
        assert forall|k: int| 0 <= k < lines.len() implies plain(#[trigger] lines[k]) by {
            if 1 <= k < 1 + lines_of(body).len() {
                assert(lines[k] == lines_of(body)[k - 1]);
            }
        }
    }
    lemma_read_unlines(lines);
    lemma_unlines_framed(kind, lines_of(body), signature);
}

/// An envelope has one body and one signature: two well-formed pairs with
/// the same envelope are the same pair.
pub proof fn lemma_armored_unique(
    kind: ProofKind,
    body: Seq<char>,
    signature: Seq<char>,
    other_body: Seq<char>,
    other_signature: Seq<char>,
)
    requires
        well_formed(kind, body, signature),
        well_formed(kind, other_body, other_signature),
        armored(kind, body, signature) == armored(kind, other_body, other_signature),
    ensures
        body == other_body,
        signature == other_signature,
{
    lemma_armored_lines(kind, body, signature);
    lemma_armored_lines(kind, other_body, other_signature);
    let a = framed(kind, lines_of(body), signature);
    let b = framed(kind, lines_of(other_body), other_signature);
    assert(a == b);
    assert(a.len() == lines_of(body).len() + 4);
    assert(b.len() == lines_of(other_body).len() + 4);
    assert(signature == a[a.len() - 2]);
    assert(other_signature == b[b.len() - 2]);
    assert(lines_of(body) =~= lines_of(other_body)) by {
        assert forall|k: int| 0 <= k < lines_of(body).len() implies lines_of(body)[k]
            == lines_of(other_body)[k] by {
            assert(a[k + 1] == lines_of(body)[k]);
            assert(b[k + 1] == lines_of(other_body)[k]);
        }
    }
    lemma_terminated(body);
    lemma_terminated(other_body);
}

/// Puts a body and a signature text into an envelope.
pub fn wrap(kind: ProofKind, body: &str, signature: &str) -> (r: String)
    ensures
        r@ == armored(kind, body@, signature@),
{
    proof {
        reveal_strlit("\n");
        assert("\n"@ =~= seq!['\n']);
    }
    let mut out = String::new();
    out.append(kind.begin_block());
    out.append("\n");
    out.append(body);
    out.append(kind.begin_signature());
    out.append("\n");
    out.append(signature);
    out.append("\n");
    out.append(kind.end_block());
    out.append("\n");
    assert(out@ =~= armored(kind, body@, signature@));
    out
}

/// Takes an envelope apart into its body and its signature text. `None` for
/// a text that is no envelope of this kind: one that lacks a marker line,
/// has one out of place or more than once, or does not end with a line
/// break after the end marker.
pub fn unwrap(kind: ProofKind, text: &str) -> (r: Option<(String, String)>)
    ensures
        match r {
            Some((body, signature)) => well_formed(kind, body@, signature@) && text@ == armored(
                kind,
                body@,
                signature@,
            ),
            None => forall|body: Seq<char>, signature: Seq<char>|
                well_formed(kind, body, signature) ==> #[trigger] armored(kind, body, signature)
                    != text@,
        },
{
    let (lines, closed) = split_lines(text);
    let ghost held = lines_view(lines@);
    let n = lines.len();
    let mut fits = closed && n >= 4;
    if fits {
        fits = same_text(lines[0].as_str(), kind.begin_block()) && same_text(
            lines[n - 3].as_str(),
            kind.begin_signature(),
        ) && same_text(lines[n - 1].as_str(), kind.end_block()) && !kind.marks(
            lines[n - 2].as_str(),
        );
    }
    let mut clean = true;
    if fits {
        let mut k: usize = 1;
        while k < n - 3
            invariant
                n == lines@.len(),
                n >= 4,
                1 <= k <= n - 3,
                held == lines_view(lines@),
                clean == (forall|j: int| 1 <= j < k ==> !kind.is_marker(#[trigger] held[j])),
            decreases n - k,
        {
            let ghost was = clean;
            let marked = kind.marks(lines[k].as_str());
            if marked {
                clean = false;
            }
            proof {
                assert(held[k as int] == lines@[k as int]@);
                assert(marked == kind.is_marker(held[k as int]));
                assert(clean == (was && !marked));
            }
            k += 1;
        }
    }
    if !(fits && clean) {
        proof {
            assert forall|body: Seq<char>, signature: Seq<char>|
                well_formed(kind, body, signature) implies #[trigger] armored(
                kind,
                body,
                signature,
            ) != text@ by {
                if armored(kind, body, signature) == text@ {
                    lemma_armored_lines(kind, body, signature);
                    let f = framed(kind, lines_of(body), signature);
                    assert(held == f);
                    assert(f.len() == lines_of(body).len() + 4);
                    assert(f[0] == kind.begin());
                    assert(f[f.len() - 3] == kind.signature());
                    assert(f[f.len() - 2] == signature);
                    assert(f[f.len() - 1] == kind.end());
                    assert forall|j: int| 1 <= j < f.len() - 3 implies !kind.is_marker(
                        #[trigger] f[j],
                    ) by {
                        assert(f[j] == lines_of(body)[j - 1]);
                    }
                }
            }
        }
        return None;
    }
    let mut body = String::new();
    let mut k: usize = 1;
    assert(held.subrange(1, 1) =~= Seq::<Seq<char>>::empty());
    while k < n - 3
        invariant
            n == lines@.len(),
            n >= 4,
            1 <= k <= n - 3,
            held == lines_view(lines@),
            body@ == unlines(held.subrange(1, k as int)),
        decreases n - k,
    {
        proof {
            reveal_strlit("\n");
            assert("\n"@ =~= seq!['\n']);
            let more = held.subrange(1, k + 1);
            assert(more.drop_last() =~= held.subrange(1, k as int));
            assert(more.last() == held[k as int]);
        }
        let ghost before = body@;
        body.append(lines[k].as_str());
        body.append("\n");
        assert(body@ =~= before + ended(held[k as int]));
        k += 1;
    }
    let signature = lines[n - 2].clone();
    proof {
        let inner = held.subrange(1, n - 3);
        lemma_terminated(text@);
        assert(held =~= framed(kind, inner, signature@));
        lemma_unlines_framed(kind, inner, signature@);
        assert(all_plain(inner)) by {
            assert forall|j: int| 0 <= j < inner.len() implies plain(#[trigger] inner[j]) by {
                assert(inner[j] == held[j + 1]);
            }
        }
        lemma_read_unlines(inner);
        assert(plain(held[n - 2]));
        assert forall|j: int| 0 <= j < lines_of(body@).len() implies !kind.is_marker(
            #[trigger] lines_of(body@)[j],
        ) by {
            assert(lines_of(body@)[j] == held[j + 1]);
        }
    }
    Some((body, signature))
}

/// Whether a body and a signature text can stand in an envelope of the
/// given kind, so that the envelope is taken apart into just these two.
pub fn fits(kind: ProofKind, body: &str, signature: &str) -> (r: bool)
    ensures
        r == well_formed(kind, body@, signature@),
{
    let text = wrap(kind, body, signature);
    match unwrap(kind, text.as_str()) {
        Some((b, s)) => {
            let same = same_text(b.as_str(), body) && same_text(s.as_str(), signature);
            proof {
                if well_formed(kind, body@, signature@) {
                    lemma_armored_unique(kind, body@, signature@, b@, s@);
                }
            }
            same
        },
        None => {
            assert(armored(kind, body@, signature@) == text@);
            false
        },
    }
}

} // verus!
