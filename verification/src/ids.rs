//! Strongly typed identifiers for evidence, identities, records, and host
//! entities, and their stable textual renderings.
use vstd::prelude::*;
use vstd::string::StringExecFns;

verus! {

/// Unique identifier for a latent identity hypothesis node.
#[derive(Debug, Clone, Copy, PartialEq, Eq, Structural, PartialOrd, Ord, Hash)]
pub struct IdentityId(pub u64);

/// Unique identifier for an empirical observation node.
#[derive(Debug, Clone, Copy, PartialEq, Eq, Structural, PartialOrd, Ord, Hash)]
pub struct ObservationId(pub u64);

/// Unique identifier for a causal event node.
#[derive(Debug, Clone, Copy, PartialEq, Eq, Structural, PartialOrd, Ord, Hash)]
pub struct EventId(pub u64);

/// Unique identifier for an entity state node.
#[derive(Debug, Clone, Copy, PartialEq, Eq, Structural, PartialOrd, Ord, Hash)]
pub struct StateId(pub u64);

/// Unique identifier for an authoritative physical-entity node.
#[derive(Debug, Clone, Copy, PartialEq, Eq, Structural, PartialOrd, Ord, Hash)]
pub struct PhysicalNodeId(pub u64);

/// Unique identifier for an authoritative semantic-knowledge node.
#[derive(Debug, Clone, Copy, PartialEq, Eq, Structural, PartialOrd, Ord, Hash)]
pub struct SemanticNodeId(pub u64);

/// Stable identifier for a durable inference record.
#[derive(Debug, Clone, Copy, PartialEq, Eq, Structural, PartialOrd, Ord, Hash)]
pub struct InferenceId(pub u64);

/// Stable identifier for a durable decision record.
#[derive(Debug, Clone, Copy, PartialEq, Eq, Structural, PartialOrd, Ord, Hash)]
pub struct DecisionId(pub u64);

/// Stable identifier for a resolution transaction.
#[derive(Debug, Clone, Copy, PartialEq, Eq, Structural, PartialOrd, Ord, Hash)]
pub struct TransactionId(pub u64);

/// Stable identifier for a materialization outbox entry and receipt.
#[derive(Debug, Clone, Copy, PartialEq, Eq, Structural, PartialOrd, Ord, Hash)]
pub struct MaterializationId(pub u64);

/// Stable identifier for an opaque factor provider.
#[derive(Debug, Clone, Copy, PartialEq, Eq, Structural, PartialOrd, Ord, Hash)]
pub struct ProviderId(pub u64);

/// Stable identifier for a provider-owned payload schema.
#[derive(Debug, Clone, Copy, PartialEq, Eq, Structural, PartialOrd, Ord, Hash)]
pub struct SchemaId(pub u64);

/// Stable identifier for an observation source.
#[derive(Debug, Clone, Copy, PartialEq, Eq, Structural, PartialOrd, Ord, Hash)]
pub struct SourceId(pub u64);

/// Totally ordered durable commit version.
#[derive(Debug, Clone, Copy, PartialEq, Eq, Structural, PartialOrd, Ord, Hash, Default)]
pub struct CommitVersion(u64);

impl CommitVersion {
    /// Initial empty-ledger version.
    pub fn zero() -> (version: Self)
        ensures
            version.value() == 0,
    {
        Self(0)
    }

    /// The durable integer representation, for specifications.
    pub closed spec fn value(self) -> u64 {
        self.0
    }

    /// A version is determined by its durable integer representation.
    pub broadcast proof fn lemma_value_determines_version(a: Self, b: Self)
        ensures
            #[trigger] a.value() == #[trigger] b.value() ==> a == b,
    {
    }

    /// Creates a version from its durable integer representation.
    pub fn new(value: u64) -> (version: Self)
        ensures
            version.value() == value,
    {
        Self(value)
    }

    /// Returns the durable integer representation.
    pub fn get(self) -> (value: u64)
        ensures
            value == self.value(),
    {
        self.0
    }

    /// Computes the next commit version without wrapping.
    pub fn checked_next(self) -> (next: Option<Self>)
        ensures
            self.value() < u64::MAX ==> (next matches Some(v) && v.value() == self.value() + 1),
            self.value() == u64::MAX ==> next is None,
    {
        if self.0 < u64::MAX {
            Some(Self(self.0 + 1))
        } else {
            None
        }
    }

    /// Renders the version as `v` followed by its decimal value.
    pub fn to_string(&self) -> (text: String)
        ensures
            text@ == seq!['v'] + decimal_chars(self.value() as nat),
    {
        proof {
            reveal_strlit("v");
        }
        prefixed_decimal("v", self.0)
    }
}

/// The character of a decimal digit `d < 10`.
pub open spec fn digit_char(d: nat) -> char {
    if d == 0 {
        '0'
    } else if d == 1 {
        '1'
    } else if d == 2 {
        '2'
    } else if d == 3 {
        '3'
    } else if d == 4 {
        '4'
    } else if d == 5 {
        '5'
    } else if d == 6 {
        '6'
    } else if d == 7 {
        '7'
    } else if d == 8 {
        '8'
    } else {
        '9'
    }
}

/// The shortest decimal rendering of `n`, most significant digit first.
pub open spec fn decimal_chars(n: nat) -> Seq<char>
    decreases n,
{
    if n < 10 {
        seq![digit_char(n)]
    } else {
        decimal_chars(n / 10).push(digit_char(n % 10))
    }
}

fn digit_str(d: u64) -> (text: &'static str)
    requires
        d < 10,
    ensures
        text@ == seq![digit_char(d as nat)],
{
    proof {
        reveal_strlit("0");
        reveal_strlit("1");
        reveal_strlit("2");
        reveal_strlit("3");
        reveal_strlit("4");
        reveal_strlit("5");
        reveal_strlit("6");
        reveal_strlit("7");
        reveal_strlit("8");
        reveal_strlit("9");
    }
    if d == 0 {
        "0"
    } else if d == 1 {
        "1"
    } else if d == 2 {
        "2"
    } else if d == 3 {
        "3"
    } else if d == 4 {
        "4"
    } else if d == 5 {
        "5"
    } else if d == 6 {
        "6"
    } else if d == 7 {
        "7"
    } else if d == 8 {
        "8"
    } else {
        "9"
    }
}

/// Appends the decimal rendering of `n` to `out`.
pub fn push_decimal(out: &mut String, n: u64)
    ensures
        final(out)@ == old(out)@ + decimal_chars(n as nat),
    decreases n,
{
    if n >= 10 {
        push_decimal(out, n / 10);
        out.append(digit_str(n % 10));
        assert(decimal_chars(n as nat) == decimal_chars((n / 10) as nat).push(
            digit_char((n % 10) as nat),
        ));
    } else {
        out.append(digit_str(n));
    }
}

fn prefixed_decimal(prefix: &str, n: u64) -> (text: String)
    ensures
        text@ == prefix@ + decimal_chars(n as nat),
{
    let mut text = String::from_str(prefix);
    push_decimal(&mut text, n);
    text
}

impl IdentityId {
    /// Renders the identifier as `I#` followed by its decimal value.
    pub fn to_string(&self) -> (text: String)
        ensures
            text@ == seq!['I', '#'] + decimal_chars(self.0 as nat),
    {
        proof {
            reveal_strlit("I#");
        }
        prefixed_decimal("I#", self.0)
    }
}

impl ObservationId {
    /// Renders the identifier as `O#` followed by its decimal value.
    pub fn to_string(&self) -> (text: String)
        ensures
            text@ == seq!['O', '#'] + decimal_chars(self.0 as nat),
    {
        proof {
            reveal_strlit("O#");
        }
        prefixed_decimal("O#", self.0)
    }
}

impl EventId {
    /// Renders the identifier as `E#` followed by its decimal value.
    pub fn to_string(&self) -> (text: String)
        ensures
            text@ == seq!['E', '#'] + decimal_chars(self.0 as nat),
    {
        proof {
            reveal_strlit("E#");
        }
        prefixed_decimal("E#", self.0)
    }
}

impl StateId {
    /// Renders the identifier as `S#` followed by its decimal value.
    pub fn to_string(&self) -> (text: String)
        ensures
            text@ == seq!['S', '#'] + decimal_chars(self.0 as nat),
    {
        proof {
            reveal_strlit("S#");
        }
        prefixed_decimal("S#", self.0)
    }
}

} // verus!
