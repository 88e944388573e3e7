//! The levels of trust that a statement can express.

use std::cmp::Ordering;
use vstd::prelude::*;

verus! {

/// How much one identity trusts another, or an artifact.
///
/// The levels are ordered by strength, `High` above `Medium` above `Low`
/// above `Neutral`. `Distrust` is not merely the weakest of them: in the web
/// of trust it is a veto.
#[derive(Copy, Clone, Debug, PartialEq, Eq, Structural, Hash)]
pub enum TrustLevel {
    High,
    Medium,
    Low,
    /// No trust either way; written `none`.
    Neutral,
    Distrust,
}

/// The text that was given where the name of a level was expected.
#[derive(Clone, Debug)]
pub struct UnknownLevel {
    pub name: String,
}

impl TrustLevel {
    /// The strength of a level: the veto lowest, `High` highest.
    pub open spec fn rank(self) -> int {
        match self {
            TrustLevel::Distrust => 0,
            TrustLevel::Neutral => 1,
            TrustLevel::Low => 2,
            TrustLevel::Medium => 3,
            TrustLevel::High => 4,
        }
    }

    /// The name under which a level is written.
    pub open spec fn name(self) -> Seq<char> {
        match self {
            TrustLevel::Distrust => "distrust"@,
            TrustLevel::Neutral => "none"@,
            TrustLevel::Low => "low"@,
            TrustLevel::Medium => "medium"@,
            TrustLevel::High => "high"@,
        }
    }

    /// The level that a name stands for, if it is the name of one.
    pub open spec fn named(name: Seq<char>) -> Option<TrustLevel> {
        if name == "distrust"@ {
            Some(TrustLevel::Distrust)
        } else if name == "none"@ {
            Some(TrustLevel::Neutral)
        } else if name == "low"@ {
            Some(TrustLevel::Low)
        } else if name == "medium"@ {
            Some(TrustLevel::Medium)
        } else if name == "high"@ {
            Some(TrustLevel::High)
        } else {
            None
        }
    }

    /// The weaker of two levels.
    pub open spec fn weaker_of(a: TrustLevel, b: TrustLevel) -> TrustLevel {
        if a.rank() <= b.rank() {
            a
        } else {
            b
        }
    }

    /// The stronger of two levels.
    pub open spec fn stronger_of(a: TrustLevel, b: TrustLevel) -> TrustLevel {
        if a.rank() >= b.rank() {
            a
        } else {
            b
        }
    }

    /// Whether an identity at this level can vouch for, or veto, another:
    /// it is trusted at `Low` or better.
    pub open spec fn vouches(self) -> bool {
        self.rank() >= TrustLevel::Low.rank()
    }

    /// The strength of the level as a number, from 0 for `Distrust` to 4 for
    /// `High`.
    pub fn strength(&self) -> (r: u8)
        ensures
            r == self.rank(),
    {
        match self {
            TrustLevel::Distrust => 0,
            TrustLevel::Neutral => 1,
            TrustLevel::Low => 2,
            TrustLevel::Medium => 3,
            TrustLevel::High => 4,
        }
    }

    /// Whether this level is as strong as `other`, or stronger.
    pub fn at_least(&self, other: TrustLevel) -> (r: bool)
        ensures
            r == (self.rank() >= other.rank()),
    {
        self.strength() >= other.strength()
    }

    /// Whether this level is `Low` or better.
    pub fn can_vouch(&self) -> (r: bool)
        ensures
            r == self.vouches(),
    {
        self.strength() >= 2
    }

    /// The weaker of this level and `other`.
    pub fn weaker(self, other: TrustLevel) -> (r: TrustLevel)
        ensures
            r == TrustLevel::weaker_of(self, other),
    {
        if self.strength() <= other.strength() {
            self
        } else {
            other
        }
    }

    /// The stronger of this level and `other`.
    pub fn stronger(self, other: TrustLevel) -> (r: TrustLevel)
        ensures
            r == TrustLevel::stronger_of(self, other),
    {
        if self.strength() >= other.strength() {
            self
        } else {
            other
        }
    }

    /// The name of the level, in lower case.
    pub fn as_str(&self) -> (r: &'static str)
        ensures
            r@ == self.name(),
    {
        match self {
            TrustLevel::Distrust => "distrust",
            TrustLevel::Neutral => "none",
            TrustLevel::Low => "low",
            TrustLevel::Medium => "medium",
            TrustLevel::High => "high",
        }
    }

    /// The name of the level as an owned string.
    pub fn to_string(&self) -> (r: String)
        ensures
            r@ == self.name(),
    {
        self.as_str().to_owned()
    }

    /// Reads the name of a level. Any other text is handed back in the error.
    pub fn from_str(s: &str) -> (r: Result<TrustLevel, UnknownLevel>)
        ensures
            match r {
                Ok(level) => TrustLevel::named(s@) == Some(level),
                Err(e) => TrustLevel::named(s@) is None && e.name@ == s@,
            },
    {
        if crate::text::same_text(s, "distrust") {
            Ok(TrustLevel::Distrust)
        } else if crate::text::same_text(s, "none") {
            Ok(TrustLevel::Neutral)
        } else if crate::text::same_text(s, "low") {
            Ok(TrustLevel::Low)
        } else if crate::text::same_text(s, "medium") {
            Ok(TrustLevel::Medium)
        } else if crate::text::same_text(s, "high") {
            Ok(TrustLevel::High)
        } else {
            Err(UnknownLevel { name: s.to_owned() })
        }
    }
}

/// Every level is read back from its own name.
pub proof fn lemma_name_round_trip(level: TrustLevel)
    ensures
        TrustLevel::named(level.name()) == Some(level),
{
    reveal_strlit("distrust");
    reveal_strlit("none");
    reveal_strlit("low");
    reveal_strlit("medium");
    reveal_strlit("high");
    assert("distrust"@.len() == 8);
    assert("none"@.len() == 4);
    assert("low"@.len() == 3);
    assert("medium"@.len() == 6);
    assert("high"@.len() == 4);
    assert("none"@[0] == 'n');
    assert("high"@[0] == 'h');
}

impl Default for TrustLevel {
    /// A statement that names no level is one of medium trust.
    fn default() -> (r: TrustLevel)
        ensures
            r == TrustLevel::Medium,
    {
        TrustLevel::Medium
    }
}

impl PartialOrd for TrustLevel {
    /// Levels compare by strength, whatever the order of their declaration.
    fn partial_cmp(&self, other: &TrustLevel) -> (r: Option<Ordering>) {
        let a = self.strength();
        let b = other.strength();
        if a < b {
            Some(Ordering::Less)
        } else if a > b {
            Some(Ordering::Greater)
        } else {
            Some(Ordering::Equal)
        }
    }
}

impl vstd::std_specs::cmp::PartialOrdSpecImpl for TrustLevel {
    open spec fn obeys_partial_cmp_spec() -> bool {
        true
    }

    open spec fn partial_cmp_spec(&self, other: &TrustLevel) -> Option<Ordering> {
        if self.rank() < other.rank() {
            Some(Ordering::Less)
        } else if self.rank() > other.rank() {
            Some(Ordering::Greater)
        } else {
            Some(Ordering::Equal)
        }
    }
}

} // verus!
