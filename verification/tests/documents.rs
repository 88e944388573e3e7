use crev_data::b64;
use crev_data::envelope::{fits, unwrap, wrap};
use crev_data::lines::split_lines;
use crev_data::trust::{cur_version, BuildError, CURRENT_TRUST_PROOF_SERIALIZATION_VERSION};
use crev_data::yaml::strip_header;
use crev_data::{
    Content, Date, OwnId, Proof, ProofError, ProofKind, PubId, Review, SchemaError, Subject,
    Trust, TrustBuilder, TrustDraft, TrustLevel,
};

const ONES: &str = "AQEBAQEBAQEBAQEBAQEBAQEBAQEBAQEBAQEBAQEBAQE=";
const TWOS: &str = "AgICAgICAgICAgICAgICAgICAgICAgICAgICAgICAgI=";

fn date() -> Date {
    Date::parse("2018-09-20T22:12:01-07:00").unwrap()
}

fn sample(comment: &str) -> Trust {
    Trust::new(
        date(),
        PubId::with_url(vec![1; 32], "https://example.com/one".to_string()),
        vec![PubId::new(vec![2; 32])],
        TrustLevel::Medium,
        comment.to_string(),
    )
}

fn sample_text() -> String {
    format!(
        "version: -1\ndate: \"2018-09-20T22:12:01-07:00\"\nfrom:\n  id: {}\n  url: \"https://example.com/one\"\nids:\n  - id: {}\ntrust: medium\n",
        ONES, TWOS
    )
}

fn signer() -> OwnId {
    OwnId::from_secret("tester".to_string(), vec![7; 32]).unwrap()
}

fn signed_by(own: &OwnId, comment: &str) -> Proof {
    let trust = Trust::new(
        date(),
        own.to_pubid(),
        vec![PubId::new(vec![2; 32])],
        TrustLevel::Medium,
        comment.to_string(),
    );
    trust.sign_by(own).unwrap()
}

#[test]
fn base64_is_standard_with_padding() {
    assert_eq!(b64::to_text(b"hello").unwrap(), "aGVsbG8=");
    assert_eq!(b64::to_text(b"").unwrap(), "");
    assert_eq!(b64::to_text(&[1; 32]).unwrap(), ONES);
    assert_eq!(b64::to_text(&[2; 32]).unwrap(), TWOS);
    assert_eq!(b64::to_text(&[0xfb, 0xff]).unwrap(), "+/8=");
    assert_eq!(b64::from_text("aGVsbG8=").unwrap(), b"hello".to_vec());
    assert_eq!(b64::from_text("+/8=").unwrap(), vec![0xfb, 0xff]);
    assert_eq!(b64::from_text("").unwrap(), Vec::<u8>::new());
    assert_eq!(b64::from_text("not base64!"), None);
    assert_eq!(b64::from_text("aGVsbG8=\n"), None);
}

#[test]
fn dates_are_read_and_kept_as_written() {
    let d = Date::parse("1970-01-01T00:00:10.5+01:00").unwrap();
    assert_eq!(d.as_str(), "1970-01-01T00:00:10.5+01:00");
    assert_eq!(d.secs(), 10 - 3600);
    assert_eq!(d.nanos(), 500_000_000);
    assert_eq!(d.offset(), 3600);
    let z = Date::parse("2018-09-20T22:12:01Z").unwrap();
    assert_eq!(z.offset(), 0);
    assert_eq!(z.secs(), 1537481521);
    assert!(Date::parse("yesterday").is_none());
    assert!(Date::parse("2018-09-20").is_none());
    assert!(Date::parse("2018-13-20T22:12:01Z").is_none());
    assert!(d.same_as(&d.clone()));
    assert!(!d.same_as(&z));
}

#[test]
fn dates_are_written_from_numbers() {
    let d = Date::from_timestamp(0, 0, 0).unwrap();
    assert_eq!(d.as_str(), "1970-01-01T00:00:00+00:00");
    let d = Date::from_timestamp(1537481521, 0, -7 * 3600).unwrap();
    assert_eq!(d.as_str(), "2018-09-20T15:12:01-07:00");
    assert_eq!((d.secs(), d.nanos(), d.offset()), (1537481521, 0, -25200));
    assert!(Date::from_timestamp(0, 0, 86_400).is_none());
    assert!(Date::from_timestamp(i64::MAX, 0, 0).is_none());
    assert!(Date::from_timestamp(0, 2_000_000_000, 0).is_none());
}

#[test]
fn current_version_is_minus_one() {
    assert_eq!(cur_version(), -1);
    assert_eq!(CURRENT_TRUST_PROOF_SERIALIZATION_VERSION, -1);
    assert_eq!(sample("").version(), -1);
}

#[test]
fn trust_is_written_field_by_field() {
    assert_eq!(sample("").to_string().unwrap(), sample_text());
}

#[test]
fn comment_is_written_unless_empty() {
    let text = sample("fine work").to_string().unwrap();
    assert_eq!(text, format!("{}comment: fine work\n", sample_text()));
}

#[test]
fn trust_is_read_back() {
    let trust = Trust::parse(&sample_text()).unwrap();
    assert_eq!(trust.version(), -1);
    assert_eq!(trust.date().as_str(), "2018-09-20T22:12:01-07:00");
    assert_eq!(trust.author().id, vec![1; 32]);
    assert_eq!(trust.author().url.as_deref(), Some("https://example.com/one"));
    assert_eq!(trust.ids.len(), 1);
    assert_eq!(trust.ids[0].id, vec![2; 32]);
    assert_eq!(trust.ids[0].url, None);
    assert_eq!(trust.trust, TrustLevel::Medium);
    assert_eq!(trust.comment(), "");
    assert_eq!(trust.to_string().unwrap(), sample_text());
    let with_comment = Trust::parse(&format!("{}comment: fine work\n", sample_text())).unwrap();
    assert_eq!(with_comment.comment(), "fine work");
}

#[test]
fn version_gate() {
    let newer = sample_text().replace("version: -1", "version: 0");
    assert_eq!(Trust::parse(&newer).unwrap_err(), SchemaError::UnsupportedVersion(0));
    let far = sample_text().replace("version: -1", "version: 7");
    assert_eq!(Trust::parse(&far).unwrap_err(), SchemaError::UnsupportedVersion(7));
    let newer_and_broken = "version: 3\n";
    assert_eq!(Trust::parse(newer_and_broken).unwrap_err(), SchemaError::UnsupportedVersion(3));
    let older = sample_text().replace("version: -1", "version: -2");
    let trust = Trust::parse(&older).unwrap();
    assert_eq!(trust.version(), -2);
    assert_eq!(trust.trust, TrustLevel::Medium);
    assert_eq!(trust.ids[0].id, vec![2; 32]);
    assert_eq!(trust.to_string().unwrap(), older);
}

#[test]
fn malformed_trust_is_refused() {
    for text in [
        "",
        "just text",
        "- a\n- list\n",
        "version: -1\n",
        ": : :",
        "version: [unclosed",
    ] {
        assert_eq!(Trust::parse(text).unwrap_err(), SchemaError::Malformed, "{:?}", text);
    }
    let good = sample_text();
    for (from, to) in [
        ("version: -1\n", ""),
        ("version: -1", "version: minus one"),
        ("version: -1", "version: 1.5"),
        ("date: \"2018-09-20T22:12:01-07:00\"\n", ""),
        ("2018-09-20T22:12:01-07:00", "2018-09-20"),
        ("  id: AQEB", "  id: ?QEB"),
        ("  id: AQEB", "  key: AQEB"),
        ("  url: \"https://example.com/one\"", "  url: 5"),
        ("trust: medium", "trust: Medium"),
        ("trust: medium", "trust: 3"),
        ("trust: medium\n", ""),
        ("trust: medium\n", "trust: medium\ncomment: 5\n"),
    ] {
        let bad = good.replace(from, to);
        assert_ne!(bad, good);
        assert_eq!(Trust::parse(&bad).unwrap_err(), SchemaError::Malformed, "{:?}", bad);
    }
    let no_ids = good.replace(&format!("ids:\n  - id: {}\n", TWOS), "ids: []\n");
    assert_ne!(no_ids, good);
    assert_eq!(Trust::parse(&no_ids).unwrap_err(), SchemaError::Malformed);
    let ids_no_list = good.replace(&format!("ids:\n  - id: {}\n", TWOS), "ids: none\n");
    assert_eq!(Trust::parse(&ids_no_list).unwrap_err(), SchemaError::Malformed);
}

#[test]
fn draft_shows_no_version_and_always_a_comment() {
    let draft = TrustDraft::from(sample(""));
    let text = draft.to_string().unwrap();
    assert_eq!(text, format!("{}comment: \"\"\n", sample_text().replace("version: -1\n", "")));
    let read = TrustDraft::parse(&text).unwrap();
    assert_eq!(read.comment, "");
    assert_eq!(read.trust, TrustLevel::Medium);
    assert_eq!(read.to_string().unwrap(), text);
    let without_comment = text.replace("comment: \"\"\n", "");
    assert_eq!(TrustDraft::parse(&without_comment).unwrap().comment, "");
    assert_eq!(TrustDraft::parse("date: x\n").unwrap_err(), SchemaError::Malformed);
}

#[test]
fn draft_and_final_convert_without_loss() {
    let mut old = sample("fine work");
    old.version = -2;
    let draft = TrustDraft::from(old.clone());
    assert_eq!(draft.date.as_str(), old.date.as_str());
    assert!(draft.from == old.from);
    assert_eq!(draft.from.url, old.from.url);
    assert_eq!(draft.ids.len(), 1);
    assert_eq!(draft.ids[0].id, old.ids[0].id);
    assert_eq!(draft.trust, old.trust);
    assert_eq!(draft.comment, "fine work");
    let again = Trust::from(draft.clone());
    assert_eq!(again.version(), -1);
    assert_eq!(again.comment(), "fine work");
    assert_eq!(again.to_string().unwrap(), old.to_string().unwrap().replace("version: -2", "version: -1"));
    let draft_again = TrustDraft::from(again);
    assert_eq!(draft_again.to_string().unwrap(), draft.to_string().unwrap());
}

#[test]
fn review_is_written_and_read_back() {
    let review = Review::new(
        date(),
        PubId::new(vec![1; 32]),
        Subject { digest: b"hello".to_vec(), revision: "abc123".to_string() },
        TrustLevel::Low,
        "looks fine".to_string(),
    );
    let text = review.to_string().unwrap();
    assert_eq!(
        text,
        format!(
            "version: -1\ndate: \"2018-09-20T22:12:01-07:00\"\nfrom:\n  id: {}\nrevision: abc123\ndigest: aGVsbG8=\nrating: low\ncomment: looks fine\n",
            ONES
        )
    );
    let read = Review::parse(&text).unwrap();
    assert_eq!(read.subject.digest, b"hello".to_vec());
    assert_eq!(read.subject.revision, "abc123");
    assert_eq!(read.rating, TrustLevel::Low);
    assert_eq!(read.comment, "looks fine");
    assert_eq!(read.author().id, vec![1; 32]);
    assert_eq!(read.date().as_str(), "2018-09-20T22:12:01-07:00");
    assert!(read.subject.same_as(&review.subject));
    assert_eq!(
        Review::parse(&text.replace("version: -1", "version: 2")).unwrap_err(),
        SchemaError::UnsupportedVersion(2)
    );
    assert_eq!(
        Review::parse(&text.replace("rating: low", "rating: so-so")).unwrap_err(),
        SchemaError::Malformed
    );
    assert_eq!(Review::parse(&text.replace("digest: aGVsbG8=\n", "")).unwrap_err(), SchemaError::Malformed);
}

#[test]
fn header_line_is_taken_off() {
    assert_eq!(strip_header("---\na: 1"), "a: 1\n");
    assert_eq!(strip_header("---\na: 1\n"), "a: 1\n");
    assert_eq!(strip_header("a: 1"), "a: 1\n");
    assert_eq!(strip_header("---"), "");
    assert_eq!(strip_header("---\n"), "");
    assert_eq!(strip_header(""), "");
    assert_eq!(strip_header("----\nx"), "----\nx\n");
    assert_eq!(strip_header("---\n---\n"), "---\n");
}

#[test]
fn lines_are_split_at_line_breaks() {
    assert_eq!(split_lines(""), (vec![], true));
    assert_eq!(split_lines("a\nb\n"), (vec!["a".to_string(), "b".to_string()], true));
    assert_eq!(split_lines("a\nb"), (vec!["a".to_string()], false));
    assert_eq!(split_lines("\n\n"), (vec![String::new(), String::new()], true));
    assert_eq!(split_lines("é\n"), (vec!["é".to_string()], true));
}

#[test]
fn envelope_has_three_markers() {
    let text = wrap(ProofKind::Trust, "a: 1\nb: 2\n", "c2ln");
    assert_eq!(
        text,
        "-----BEGIN CREV TRUST -----\na: 1\nb: 2\n-----BEGIN CREV TRUST SIGNATURE-----\nc2ln\n-----END CREV TRUST-----\n"
    );
    assert_eq!(
        unwrap(ProofKind::Trust, &text),
        Some(("a: 1\nb: 2\n".to_string(), "c2ln".to_string()))
    );
    assert_eq!(unwrap(ProofKind::Review, &text), None);
    let review = wrap(ProofKind::Review, "", "");
    assert_eq!(
        review,
        "-----BEGIN CREV REVIEW -----\n-----BEGIN CREV REVIEW SIGNATURE-----\n\n-----END CREV REVIEW-----\n"
    );
    assert_eq!(unwrap(ProofKind::Review, &review), Some((String::new(), String::new())));
    assert_eq!(ProofKind::Trust.begin_block(), crev_data::trust::BEGIN_BLOCK);
    assert_eq!(ProofKind::Trust.begin_signature(), crev_data::trust::BEGIN_SIGNATURE);
    assert_eq!(ProofKind::Trust.end_block(), crev_data::trust::END_BLOCK);
    assert!(ProofKind::Review.marks("-----END CREV REVIEW-----"));
    assert!(!ProofKind::Review.marks("-----END CREV TRUST-----"));
}

#[test]
fn broken_envelopes_are_refused() {
    let b = "-----BEGIN CREV TRUST -----\n";
    let s = "-----BEGIN CREV TRUST SIGNATURE-----\n";
    let e = "-----END CREV TRUST-----\n";
    let good = format!("{}x: 1\n{}c2ln\n{}", b, s, e);
    assert!(unwrap(ProofKind::Trust, &good).is_some());
    for bad in [
        String::new(),
        format!("x: 1\n{}c2ln\n{}", s, e),
        format!("{}x: 1\nc2ln\n{}", b, e),
        format!("{}x: 1\n{}c2ln\n", b, s),
        format!("{}x: 1\n{}{}", b, s, e),
        format!("{}x: 1\n{}c2ln\nmore\n{}", b, s, e),
        format!("{}{}x: 1\n{}c2ln\n{}", b, b, s, e),
        format!("{}x: 1\n{}{}c2ln\n{}", b, s, s, e),
        format!("{}x: 1\n{}c2ln\n{}{}", b, s, e, e),
        format!("{}x: 1\n{}{}{}", b, s, e, e),
        format!("{}c2ln\n{}x: 1\n{}", s, b, e),
        format!("{}x: 1\n{}c2ln\n{}", e, s, b),
        format!("\n{}", good),
        format!("{}\n", good),
        format!(" {}", good),
        good.trim_end().to_string(),
        good.replace("\n", "\r\n"),
    ] {
        assert_eq!(unwrap(ProofKind::Trust, &bad), None, "{:?}", bad);
        assert_eq!(Proof::parse(&bad).unwrap_err(), ProofError::Format, "{:?}", bad);
    }
}

#[test]
fn only_what_fits_is_taken_apart_again() {
    assert!(fits(ProofKind::Trust, "a: 1\n", "c2ln"));
    assert!(fits(ProofKind::Trust, "", ""));
    assert!(!fits(ProofKind::Trust, "a: 1", "c2ln"));
    assert!(!fits(ProofKind::Trust, "a: 1\n", "c2\nln"));
    assert!(!fits(ProofKind::Trust, "-----END CREV TRUST-----\n", "c2ln"));
    assert!(!fits(ProofKind::Trust, "a: 1\n", "-----END CREV TRUST-----"));
    assert!(fits(ProofKind::Trust, "-----END CREV REVIEW-----\n", "c2ln"));
}

#[test]
fn ed25519_known_answer() {
    let secret = hex::decode("9d61b19deffd5a60ba844af492ec2cc44449c5697b326919703bac031cae7f60").unwrap();
    let public = hex::decode("d75a980182b10ab7d54bfed3c964073a0ee172f3daa62325af021a68f707511a").unwrap();
    let signature = hex::decode("e5564300c360ac729086e2cc806e828a84877f1eb8e5d974d873e065224901555fb8821590a33bacc61e39701cf9b46bd25bf5f0595bbe24655141438e7a100b").unwrap();
    let own = OwnId::from_secret("rfc".to_string(), secret.clone()).unwrap();
    assert_eq!(own.to_pubid().id, public);
    assert_eq!(own.to_pubid().url, None);
    assert_eq!(own.name(), "rfc");
    assert_eq!(own.secret_bytes(), secret);
    assert_eq!(own.sign(b""), signature);
    assert!(OwnId::from_secret("short".to_string(), vec![1; 31]).is_none());
    assert!(OwnId::from_secret("long".to_string(), vec![1; 33]).is_none());
    let moved = own.at_url("https://example.com".to_string());
    assert_eq!(moved.to_pubid().url.as_deref(), Some("https://example.com"));
    assert_eq!(moved.to_pubid().id, public);
}

#[test]
fn generated_identities_differ() {
    let a = OwnId::generate("a".to_string()).unwrap();
    let b = OwnId::generate("b".to_string()).unwrap();
    assert_eq!(a.secret_bytes().len(), 32);
    assert_eq!(a.to_pubid().id.len(), 32);
    assert_ne!(a.secret_bytes(), b.secret_bytes());
    assert_ne!(a.to_pubid().id, b.to_pubid().id);
    assert_eq!(a.name(), "a");
    let again = OwnId::from_secret("a".to_string(), a.secret_bytes()).unwrap();
    assert_eq!(again.to_pubid().id, a.to_pubid().id);
}

#[test]
fn sign_parse_verify_round_trip() {
    let own = signer();
    for comment in ["", "fine work", "two\nlines", "-----END CREV TRUST----- in a line", "é ü 日本"] {
        let trust = Trust::new(
            date(),
            own.to_pubid(),
            vec![PubId::new(vec![2; 32]), PubId::with_url(vec![3; 32], "u".to_string())],
            TrustLevel::High,
            comment.to_string(),
        );
        let canonical = trust.to_string().unwrap();
        let made = trust.sign_by(&own).unwrap();
        assert_eq!(made.kind(), ProofKind::Trust);
        assert_eq!(made.body(), canonical);
        assert!(made.verify(&own.to_pubid()));
        let text = made.to_string();
        let read = Proof::parse(&text).unwrap();
        assert_eq!(read.body(), canonical);
        assert_eq!(read.signature(), made.signature());
        assert_eq!(read.to_string(), text);
        assert!(read.verify(&own.to_pubid()));
        assert_eq!(read.content().to_string().unwrap(), canonical);
        assert!(read.verify(read.content().author()));
        match read.content() {
            Content::Trust(t) => {
                assert_eq!(t.comment(), comment);
                assert_eq!(t.trust, TrustLevel::High);
                assert_eq!(t.ids.len(), 2);
            }
            Content::Review(_) => panic!("a review came back"),
        }
    }
}

#[test]
fn signature_is_over_the_body() {
    let own = signer();
    let made = signed_by(&own, "");
    let signature = b64::from_text(made.signature()).unwrap();
    assert_eq!(signature.len(), 64);
    assert_eq!(signature, own.sign(made.body().as_bytes()));
    assert_eq!(made.signature(), b64::to_text(&signature).unwrap());
}

#[test]
fn a_marker_line_in_the_body_cannot_be_signed() {
    let own = signer();
    let trust = Trust::new(
        date(),
        own.to_pubid(),
        vec![PubId::new(vec![2; 32])],
        TrustLevel::High,
        "first\n-----END CREV TRUST-----\nlast".to_string(),
    );
    let text = trust.to_string().unwrap();
    if text.lines().any(|l| l == "-----END CREV TRUST-----") {
        assert_eq!(trust.sign_by(&own).unwrap_err(), ProofError::Format);
    } else {
        assert!(trust.sign_by(&own).is_ok());
    }
}

#[test]
fn review_proofs_have_their_own_markers() {
    let own = signer();
    let review = Review::new(
        date(),
        own.to_pubid(),
        Subject { digest: vec![9; 64], revision: "r1".to_string() },
        TrustLevel::Medium,
        String::new(),
    );
    let made = review.sign_by(&own).unwrap();
    let text = made.to_string();
    assert!(text.starts_with("-----BEGIN CREV REVIEW -----\n"));
    assert!(text.ends_with("\n-----END CREV REVIEW-----\n"));
    let read = Proof::parse(&text).unwrap();
    assert_eq!(read.kind(), ProofKind::Review);
    assert!(read.verify(&own.to_pubid()));
    let as_trust = text.replace("REVIEW", "TRUST");
    assert!(matches!(Proof::parse(&as_trust).unwrap_err(), ProofError::Schema(SchemaError::Malformed)));
}

#[test]
fn a_flip_that_breaks_the_form_is_caught_on_reading() {
    let own = signer();
    let made = signed_by(&own, "abcdefgh");
    let text = made.to_string();
    let at = text.find("bcdefgh").unwrap();
    let mut bytes = text.clone().into_bytes();
    bytes[at] ^= 0x02;
    let tampered = String::from_utf8(bytes).unwrap();
    assert!(tampered.contains("a`cdefgh"));
    assert_eq!(Proof::parse(&tampered).unwrap_err(), ProofError::Integrity);
}

#[test]
fn tamper_detection() {
    let own = signer();
    let made = signed_by(&own, "fine work");
    let text = made.to_string();
    let at = text.find("fine work").unwrap();
    let body_end = text.find("-----BEGIN CREV TRUST SIGNATURE-----").unwrap();
    assert!(at < body_end);
    let mut bytes = text.clone().into_bytes();
    bytes[at] ^= 0x01;
    let tampered = String::from_utf8(bytes).unwrap();
    assert_ne!(tampered, text);
    let read = Proof::parse(&tampered).unwrap();
    assert!(!read.verify(&own.to_pubid()));
    assert_eq!(read.signature(), made.signature());
    assert_ne!(read.body(), made.body());
}

#[test]
fn every_letter_of_the_comment_is_signed() {
    let own = signer();
    let made = signed_by(&own, "abcdefgh");
    let text = made.to_string();
    let at = text.find("abcdefgh").unwrap();
    for k in 0..8 {
        let mut bytes = text.clone().into_bytes();
        bytes[at + k] ^= 0x20;
        let tampered = String::from_utf8(bytes).unwrap();
        let read = Proof::parse(&tampered).unwrap();
        assert!(!read.verify(&own.to_pubid()));
        assert!(!read.verify(read.content().author()));
    }
}

#[test]
fn a_wrong_key_does_not_verify() {
    let own = signer();
    let other = OwnId::from_secret("other".to_string(), vec![8; 32]).unwrap();
    let made = signed_by(&own, "");
    assert!(made.verify(&own.to_pubid()));
    assert!(!made.verify(&other.to_pubid()));
    assert!(!made.verify(&PubId::new(vec![1, 2, 3])));
    assert!(!made.verify(&PubId::new(vec![])));
}

#[test]
fn a_changed_signature_does_not_verify() {
    let own = signer();
    let made = signed_by(&own, "");
    let mut signature = b64::from_text(made.signature()).unwrap();
    signature[10] ^= 0x40;
    let forged = Proof::from_parts(
        ProofKind::Trust,
        made.body().to_string(),
        b64::to_text(&signature).unwrap(),
    )
    .unwrap();
    assert!(!forged.verify(&own.to_pubid()));
    let short = Proof::from_parts(ProofKind::Trust, made.body().to_string(), "c2ln".to_string()).unwrap();
    assert!(!short.verify(&own.to_pubid()));
}

#[test]
fn each_failure_has_its_error() {
    let own = signer();
    let made = signed_by(&own, "");
    let body = made.body().to_string();
    let signature = made.signature().to_string();
    assert_eq!(
        Proof::from_parts(ProofKind::Trust, body.clone(), "not base64!".to_string()).unwrap_err(),
        ProofError::Format
    );
    assert_eq!(
        Proof::from_parts(ProofKind::Trust, "not: a trust\n".to_string(), signature.clone()).unwrap_err(),
        ProofError::Schema(SchemaError::Malformed)
    );
    assert_eq!(
        Proof::from_parts(ProofKind::Trust, body.replace("version: -1", "version: 4"), signature.clone())
            .unwrap_err(),
        ProofError::Schema(SchemaError::UnsupportedVersion(4))
    );
    assert_eq!(
        Proof::from_parts(ProofKind::Review, body.clone(), signature.clone()).unwrap_err(),
        ProofError::Schema(SchemaError::Malformed)
    );
    for drifted in [
        body.replace("trust: medium", "trust:   medium"),
        body.replace("trust: medium", "trust: \"medium\""),
        body.replace("trust: medium\n", "trust: medium\nextra: 1\n"),
        body.replace("trust: medium\n", "trust: medium\ncomment: \"\"\n"),
        format!("---\n{}", body),
        format!("{}\n", body),
        body.replace("2018-09-20T22:12:01-07:00\"", "2018-09-20T22:12:01-07:00\" "),
    ] {
        assert_ne!(drifted, body);
        assert_eq!(
            Proof::from_parts(ProofKind::Trust, drifted.clone(), signature.clone()).unwrap_err(),
            ProofError::Integrity,
            "{:?}",
            drifted
        );
    }
    let version_in_envelope = made.to_string().replace("version: -1", "version: 9");
    assert_eq!(
        Proof::parse(&version_in_envelope).unwrap_err(),
        ProofError::Schema(SchemaError::UnsupportedVersion(9))
    );
    let older = made.to_string().replace("version: -1", "version: -3");
    let read = Proof::parse(&older).unwrap();
    assert!(!read.verify(&own.to_pubid()));
}

#[test]
fn only_verified_proofs_are_accepted() {
    let root = signer();
    let a = OwnId::from_secret("a".to_string(), vec![8; 32]).unwrap();
    let good = Trust::new(date(), root.to_pubid(), vec![a.to_pubid()], TrustLevel::Medium, String::new())
        .sign_by(&root)
        .unwrap();
    let forged = Trust::new(
        date(),
        root.to_pubid(),
        vec![a.to_pubid()],
        TrustLevel::Distrust,
        String::new(),
    )
    .sign_by(&a)
    .unwrap();
    assert!(forged.verify(&a.to_pubid()));
    assert!(!forged.verify(forged.content().author()));
    let subject = Subject { digest: vec![9; 64], revision: "r1".to_string() };
    let review = Review::new(date(), a.to_pubid(), subject.clone(), TrustLevel::Medium, String::new())
        .sign_by(&a)
        .unwrap();
    let tampered = Proof::parse(&good.to_string().replace("trust: medium", "trust: high")).unwrap();
    let proofs = vec![tampered, good, forged, review];
    let pool = crev_data::proofs::accepted_contents(&proofs);
    assert_eq!(pool.len(), 2);
    assert_eq!(
        crev_data::wot::resolve(&root.to_pubid(), &pool, &subject, TrustLevel::Medium),
        crev_data::Verdict::Verified
    );
    assert_eq!(crev_data::wot::effective_levels(&root.to_pubid(), &pool).level(&a.to_pubid()), TrustLevel::Medium);
}

#[test]
fn each_text_has_its_own_outcome() {
    let root = signer();
    let a = OwnId::from_secret("a".to_string(), vec![8; 32]).unwrap();
    let good = signed_by(&root, "good").to_string();
    let forged = Trust::new(date(), root.to_pubid(), vec![a.to_pubid()], TrustLevel::High, String::new())
        .sign_by(&a)
        .unwrap()
        .to_string();
    let texts = vec![
        "rubbish".to_string(),
        good.clone(),
        good.replace("version: -1", "version: 1"),
        forged,
        good.replace("comment: good", "comment:  good"),
        good.replace("comment: good", "comment: fine"),
        good.clone(),
    ];
    let read = crev_data::proofs::read_all(&texts);
    assert_eq!(read.len(), 7);
    assert_eq!(read[0].as_ref().err(), Some(&ProofError::Format));
    assert_eq!(read[1].as_ref().unwrap().to_string(), good);
    assert_eq!(read[2].as_ref().err(), Some(&ProofError::Schema(SchemaError::UnsupportedVersion(1))));
    assert_eq!(read[3].as_ref().err(), Some(&ProofError::SignatureMismatch));
    assert_eq!(read[4].as_ref().err(), Some(&ProofError::Integrity));
    assert_eq!(read[5].as_ref().err(), Some(&ProofError::SignatureMismatch));
    assert_eq!(read[6].as_ref().unwrap().to_string(), good);
    assert!(Proof::parse_verified(&good).is_ok());
}

#[test]
fn resolving_proofs_leaves_out_what_does_not_verify() {
    let root = signer();
    let a = OwnId::from_secret("a".to_string(), vec![8; 32]).unwrap();
    let subject = Subject { digest: vec![9; 64], revision: "r1".to_string() };
    let trust_a = Trust::new(date(), root.to_pubid(), vec![a.to_pubid()], TrustLevel::Medium, String::new())
        .sign_by(&root)
        .unwrap();
    let review = Review::new(date(), a.to_pubid(), subject.clone(), TrustLevel::Medium, String::new())
        .sign_by(&a)
        .unwrap();
    let forged_veto = Trust::new(date(), root.to_pubid(), vec![a.to_pubid()], TrustLevel::Distrust, String::new())
        .sign_by(&a)
        .unwrap();
    let proofs = vec![review, forged_veto, trust_a];
    assert_eq!(
        crev_data::wot::resolve_proofs(&root.to_pubid(), &proofs, &subject, TrustLevel::Medium),
        crev_data::Verdict::Verified
    );
    assert_eq!(
        crev_data::wot::resolve_proofs(&root.to_pubid(), &proofs, &subject, TrustLevel::High),
        crev_data::Verdict::Insufficient
    );
    let pool: Vec<Content> = proofs.iter().map(|p| p.content().clone()).collect();
    let unchecked = crev_data::wot::resolve_with_levels(&root.to_pubid(), &pool, &subject, TrustLevel::Medium);
    assert_eq!(unchecked.verdict, crev_data::Verdict::Distrusted);
    assert_eq!(unchecked.levels.level(&a.to_pubid()), TrustLevel::Distrust);
    assert_eq!(unchecked.levels.level(&root.to_pubid()), TrustLevel::High);
}

#[test]
fn digest_is_blake2b() {
    let empty = Subject::of_content(b"", "r".to_string());
    assert_eq!(
        empty.digest_hex(),
        "786a02f742015903c6c6fd852552d272912f4740e15847618a86e217f71f5419d25e1031afee585313896444934eb04b903a685b1448b755d56f701afe9be2ce"
    );
    let abc = Subject::of_content(b"abc", "r".to_string());
    assert_eq!(
        abc.digest_hex(),
        "ba80a53f981c4d0d6a2797b69f12f6e94c212f14685ac4b74b12bb6fdbffa2d17d87c5392aab792dc252d5de4533cc9518d38aa8dbf1925ab92386edd4009923"
    );
    assert_eq!(abc.digest.len(), 64);
    assert_eq!(abc.revision, "r");
    assert!(!abc.same_as(&empty));
}

#[test]
fn hexadecimal_is_lower_case() {
    assert_eq!(crev_data::text::to_hex(&[]), "");
    assert_eq!(crev_data::text::to_hex(&[0x00, 0x09, 0x0a, 0xff, 0x10, 0xab]), "00090aff10ab");
}

#[test]
fn text_and_bytes_are_compared_and_copied() {
    assert!(crev_data::text::same_text("abc", "abc"));
    assert!(!crev_data::text::same_text("abc", "abd"));
    assert!(!crev_data::text::same_text("abc", "ab"));
    assert!(crev_data::text::same_bytes(b"", b""));
    assert!(!crev_data::text::same_bytes(b"a", b"b"));
    assert_eq!(crev_data::text::copy_bytes(b"xyz"), b"xyz".to_vec());
    assert_eq!(crev_data::text::to_chars("aé日"), vec!['a', 'é', '日']);
}

#[test]
fn what_is_too_long_cannot_be_written() {
    let long = vec![0u8; b64::MAX_BINARY_LEN + 1];
    assert_eq!(b64::to_text(&long), None);
    let mut trust = sample("");
    trust.ids.push(PubId::new(long));
    assert_eq!(trust.to_string().unwrap_err(), SchemaError::Unwritable);
    assert_eq!(TrustDraft::from(trust.clone()).to_string().unwrap_err(), SchemaError::Unwritable);
    assert_eq!(
        trust.sign_by(&signer()).unwrap_err(),
        ProofError::Schema(SchemaError::Unwritable)
    );
    assert!(b64::to_text(&vec![0u8; 1000]).is_some());
}

#[test]
fn contents_know_their_kind_author_and_date() {
    let trust = Content::from(sample("x"));
    assert_eq!(trust.kind(), ProofKind::Trust);
    assert_eq!(trust.author().id, vec![1; 32]);
    assert!(trust.author().has_key(&[1; 32]));
    assert!(!trust.author().has_key(&[2; 32]));
    assert_eq!(trust.date().as_str(), "2018-09-20T22:12:01-07:00");
    let review = Content::from(Review::new(
        date(),
        PubId::new(vec![5; 32]),
        Subject { digest: vec![9; 64], revision: "r".to_string() },
        TrustLevel::Low,
        String::new(),
    ));
    assert_eq!(review.kind(), ProofKind::Review);
    assert_eq!(review.author().id, vec![5; 32]);
    assert_eq!(review.date().as_str(), "2018-09-20T22:12:01-07:00");
    let text = trust.to_string().unwrap();
    let read = Content::parse(ProofKind::Trust, &text).unwrap();
    assert_eq!(read.to_string().unwrap(), text);
    assert_eq!(Content::parse(ProofKind::Review, &text).unwrap_err(), SchemaError::Malformed);
}

#[test]
fn the_signature_is_handed_out_as_bytes() {
    let own = signer();
    let made = signed_by(&own, "");
    let bytes = made.signature_bytes();
    made.attest();
    assert_eq!(bytes.len(), 64);
    assert_eq!(bytes, own.sign(made.body().as_bytes()));
}

#[test]
fn builder_fills_in_what_is_not_given() {
    assert_eq!(TrustBuilder::default().build().unwrap_err(), BuildError::MissingFrom);
    assert_eq!(
        TrustBuilder::default().ids(vec![PubId::new(vec![2; 32])]).build().unwrap_err(),
        BuildError::MissingFrom
    );
    assert_eq!(
        TrustBuilder::default().from(PubId::new(vec![1; 32])).build().unwrap_err(),
        BuildError::MissingIds
    );
    let plain = TrustBuilder::default()
        .from(PubId::new(vec![1; 32]))
        .ids(vec![PubId::new(vec![2; 32])])
        .build()
        .unwrap();
    assert_eq!(plain.version(), -1);
    assert_eq!(plain.trust, TrustLevel::Medium);
    assert_eq!(plain.comment(), "");
    assert_eq!(plain.author().id, vec![1; 32]);
    assert_eq!(plain.ids[0].id, vec![2; 32]);
    let read = Date::parse(plain.date().as_str()).unwrap();
    assert_eq!(
        (read.secs(), read.nanos(), read.offset()),
        (plain.date.secs(), plain.date.nanos(), plain.date.offset())
    );
    assert!(plain.date.secs() > 1_500_000_000);
    let full = TrustBuilder::default()
        .version(-2)
        .date(date())
        .from(PubId::new(vec![1; 32]))
        .ids(vec![PubId::new(vec![2; 32])])
        .trust(TrustLevel::Low)
        .comment("so-so".to_string())
        .build()
        .unwrap();
    assert_eq!(full.version(), -2);
    assert_eq!(full.date().as_str(), "2018-09-20T22:12:01-07:00");
    assert_eq!(full.trust, TrustLevel::Low);
    assert_eq!(full.comment(), "so-so");
}

#[test]
fn now_is_a_date_that_reads_back() {
    let now = Date::now().unwrap();
    let read = Date::parse(now.as_str()).unwrap();
    assert_eq!((read.secs(), read.nanos(), read.offset()), (now.secs(), now.nanos(), now.offset()));
    now.attest();
    assert!(now.secs() > 1_500_000_000);
}

#[test]
fn a_statement_is_read_from_a_document() {
    let value: serde_yaml::Value = serde_yaml::from_str(&sample_text()).unwrap();
    let trust = Trust::from_value(&value).unwrap();
    assert_eq!(trust.trust, TrustLevel::Medium);
    assert_eq!(trust.ids[0].id, vec![2; 32]);
    let back = trust.to_value().unwrap();
    assert_eq!(back, value);
    let mut map = serde_yaml::Mapping::new();
    map.insert(serde_yaml::Value::from("version"), serde_yaml::Value::from(12));
    assert_eq!(
        Trust::from_value(&serde_yaml::Value::Mapping(map)).unwrap_err(),
        SchemaError::UnsupportedVersion(12)
    );
    assert_eq!(Trust::from_value(&serde_yaml::Value::Null).unwrap_err(), SchemaError::Malformed);
    let draft = TrustDraft::from_value(&value).unwrap();
    assert_eq!(draft.trust, TrustLevel::Medium);
    let review_value = Review::new(
        date(),
        PubId::new(vec![1; 32]),
        Subject { digest: vec![3; 64], revision: "r".to_string() },
        TrustLevel::High,
        String::new(),
    )
    .to_value()
    .unwrap();
    assert_eq!(Review::from_value(&review_value).unwrap().rating, TrustLevel::High);
    assert_eq!(Trust::from_value(&review_value).unwrap_err(), SchemaError::Malformed);
}
