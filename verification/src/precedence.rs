//! Three-way precedence results and the lexicographic order on byte strings
//! that canonical candidate groups are sorted by.
use vstd::prelude::*;

verus! {

/// Outcome of comparing two values under a strict total order.
#[derive(Debug, Clone, Copy, PartialEq, Eq, Structural)]
pub enum Precedence {
    /// The first value comes first.
    Before,
    /// The values are equal.
    Same,
    /// The first value comes after the second.
    After,
}

/// Strict lexicographic order of `a` and `b` from position `i` on: the first
/// differing byte decides, and a proper prefix comes first.
pub open spec fn bytes_precede_from(a: Seq<u8>, b: Seq<u8>, i: nat) -> bool
    decreases a.len() - i,
{
    if i >= a.len() {
        i < b.len()
    } else if i >= b.len() {
        false
    } else if a[i as int] < b[i as int] {
        true
    } else if a[i as int] > b[i as int] {
        false
    } else {
        bytes_precede_from(a, b, i + 1)
    }
}

/// Strict lexicographic order on byte strings.
pub open spec fn bytes_precede(a: Seq<u8>, b: Seq<u8>) -> bool {
    bytes_precede_from(a, b, 0)
}

/// The lexicographic order is irreflexive and asymmetric from any position.
pub proof fn lemma_bytes_precede_from_asymmetric(a: Seq<u8>, b: Seq<u8>, i: nat)
    ensures
        bytes_precede_from(a, b, i) ==> !bytes_precede_from(b, a, i),
    decreases a.len() - i,
{
    if i < a.len() && i < b.len() && a[i as int] == b[i as int] {
        lemma_bytes_precede_from_asymmetric(a, b, i + 1);
    }
}

/// The lexicographic order is transitive from any position.
pub proof fn lemma_bytes_precede_from_transitive(a: Seq<u8>, b: Seq<u8>, c: Seq<u8>, i: nat)
    requires
        bytes_precede_from(a, b, i),
        bytes_precede_from(b, c, i),
    ensures
        bytes_precede_from(a, c, i),
    decreases a.len() - i,
{
    if i < a.len() && i < b.len() && i < c.len() && a[i as int] == b[i as int] && b[i as int]
        == c[i as int] {
        lemma_bytes_precede_from_transitive(a, b, c, i + 1);
    }
}

/// Two byte strings that agree on every position below `i` and from `i` on
/// precede neither way are equal.
proof fn lemma_bytes_equal_from(a: Seq<u8>, b: Seq<u8>, i: nat)
    requires
        i <= a.len(),
        i <= b.len(),
        forall|k: int| 0 <= k < i ==> a[k] == b[k],
        !bytes_precede_from(a, b, i),
        !bytes_precede_from(b, a, i),
    ensures
        a == b,
    decreases a.len() - i,
{
    if i < a.len() && i < b.len() {
        lemma_bytes_equal_from(a, b, i + 1);
    } else {
        assert(a =~= b);
    }
}

/// Compares two byte strings lexicographically.
pub fn compare_bytes(a: &[u8], b: &[u8]) -> (p: Precedence)
    ensures
        (p == Precedence::Before) == bytes_precede(a@, b@),
        (p == Precedence::Same) == (a@ == b@),
        (p == Precedence::After) == bytes_precede(b@, a@),
{
    proof {
        lemma_bytes_precede_from_asymmetric(a@, b@, 0);
        lemma_bytes_precede_from_asymmetric(b@, a@, 0);
    }
    let mut i: usize = 0;
    while i < a.len() && i < b.len()
        invariant
            i <= a@.len(),
            i <= b@.len(),
            forall|k: int| 0 <= k < i ==> a@[k] == b@[k],
            bytes_precede(a@, b@) == bytes_precede_from(a@, b@, i as nat),
            bytes_precede(b@, a@) == bytes_precede_from(b@, a@, i as nat),
        decreases a@.len() - i,
    {
        if a[i] < b[i] {
            return Precedence::Before;
        }
        if a[i] > b[i] {
            return Precedence::After;
        }
        i += 1;
    }
    if a.len() < b.len() {
        Precedence::Before
    } else if b.len() < a.len() {
        Precedence::After
    } else {
        proof {
            lemma_bytes_equal_from(a@, b@, i as nat);
        }
        Precedence::Same
    }
}

} // verus!
