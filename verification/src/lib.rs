//! Signed trust proofs and the web of trust that is resolved from them.
//!
//! Identities sign statements about each other and reviews of artifacts.
//! A statement or a review is a *content*; written as text, signed and put
//! between marker lines it is a *proof*. From a pool of proofs the web of
//! trust gives every identity the level at which a root identity trusts
//! it, and every artifact a verdict.
//!
//! - `level`: the levels of trust.
//! - `id`, `own`, `locked`: public identities, identities that can sign,
//!   and identities at rest.
//! - `trust`, `review`, `content`: the contents, and their drafts.
//! - `schema`, `yaml`, `date`, `b64`: how contents are laid out in YAML.
//! - `lines`, `envelope`, `proofs`, `sig`: envelopes, proofs and signatures.
//! - `wot`, `theory`: the web of trust, and what holds of it.

pub mod b64;
pub mod content;
pub mod date;
pub mod envelope;
pub mod id;
pub mod level;
pub mod lines;
pub mod locked;
pub mod own;
pub mod proofs;
pub mod review;
pub mod schema;
pub mod sig;
pub mod text;
pub mod theory;
pub mod trust;
pub mod wot;
pub mod yaml;

pub use crate::content::Content;
pub use crate::date::Date;
pub use crate::envelope::ProofKind;
pub use crate::id::PubId;
pub use crate::level::TrustLevel;
pub use crate::locked::{LockedId, PassConfig};
pub use crate::own::{KeyCustodyError, OwnId};
pub use crate::proofs::{Proof, ProofError};
pub use crate::review::{Review, Subject};
pub use crate::schema::SchemaError;
pub use crate::trust::{Trust, TrustBuilder, TrustDraft};
pub use crate::wot::{LevelMap, Verdict};
