//! Provider-agnostic candidate storage with one canonical range per
//! observation of a batch.
use crate::ids::{CommitVersion, ProviderId};
use crate::inference::IdentityReference;
use crate::precedence::Precedence;
use smallvec::SmallVec;
use vstd::prelude::*;

verus! {

/// Error returned by provider dispatch or buffer validation.
#[derive(Debug, Clone, Copy, PartialEq, Eq, Structural)]
pub enum ProviderError {
    /// A provider emitted candidates for an observation outside the batch.
    ObservationOutOfBounds {
        /// Offending observation index.
        index: usize,
        /// Length of the batch.
        batch_len: usize,
    },
    /// Candidate groups were emitted out of observation order.
    CandidateOrder,
    /// A factor scope was empty.
    EmptyFactorScope,
    /// A factor referenced one batch-local variable more than once.
    DuplicateFactorVariable,
    /// A cardinality was zero or overflowed its representation.
    InvalidCardinality,
    /// A dense table length did not match the scope cardinalities.
    FactorTableLength {
        /// Number of values the scope requires.
        expected: usize,
        /// Number of values received.
        actual: usize,
    },
    /// A factor held non-finite log potentials.
    NonFinitePotential,
    /// Provider-specific failure with a stable diagnostic code.
    Provider {
        /// Failing provider.
        provider: ProviderId,
        /// Stable diagnostic code.
        code: u32,
    },
}

/// Coherent read-only versions held for a complete provider batch.
#[derive(Debug, Clone, Copy, PartialEq, Eq)]
pub struct ProviderContext {
    /// Authoritative host snapshot version.
    pub host_snapshot: CommitVersion,
    /// Candidate index snapshot or configuration version.
    pub candidate_snapshot: u64,
}

/// A group is canonical when it is strictly increasing in the canonical
/// reference order, so no identity occurs twice.
pub open spec fn is_strictly_increasing(group: Seq<IdentityReference>) -> bool {
    forall|i: int, j: int| 0 <= i < j < group.len() ==> #[trigger] group[i].spec_precedes(&#[trigger] group[j])
}

/// `group` is the canonical form of `input`: strictly increasing, made of
/// items of `input`, and holding an item the same as each item of `input`.
pub open spec fn is_canonical_group(group: Seq<IdentityReference>, input: Seq<IdentityReference>) -> bool {
    &&& is_strictly_increasing(group)
    &&& forall|k: int| 0 <= k < group.len() ==> input.contains(#[trigger] group[k])
    &&& forall|m: int| 0 <= m < input.len() ==> has_same(group, #[trigger] input[m])
}

/// Whether `group` holds a reference the same as `y`.
pub open spec fn has_same(group: Seq<IdentityReference>, y: IdentityReference) -> bool {
    exists|k: int| 0 <= k < group.len() && #[trigger] group[k].spec_same(&y)
}

/// Inserts `x` into a strictly increasing group unless the same reference is
/// already present.
fn insert_canonical(group: &mut Vec<IdentityReference>, x: IdentityReference)
    requires
        is_strictly_increasing(old(group)@),
    ensures
        is_strictly_increasing(final(group)@),
        forall|y: IdentityReference| #[trigger] final(group)@.contains(y) ==> old(group)@.contains(y) || y == x,
        forall|y: IdentityReference| old(group)@.contains(y) ==> #[trigger] final(group)@.contains(y),
        has_same(final(group)@, x),
{
    let ghost g = group@;
    let mut k: usize = 0;
    while k < group.len()
        invariant
            group@ == g,
            is_strictly_increasing(g),
            k <= g.len(),
            forall|j: int| 0 <= j < k ==> #[trigger] g[j].spec_precedes(&x),
        ensures
            group@ == g,
            k <= g.len(),
            forall|j: int| 0 <= j < k ==> #[trigger] g[j].spec_precedes(&x),
            k < g.len() ==> x.spec_precedes(&g[k as int]),
        decreases g.len() - k,
    {
        match group[k].precedence(&x) {
            Precedence::Before => {
                k += 1;
            },
            Precedence::Same => {
                assert(group@[k as int].spec_same(&x));
                return;
            },
            Precedence::After => {
                break;
            },
        }
    }
    group.insert(k, x);
    proof {
        let h = group@;
        assert(h[k as int] == x);
        assert forall|i: int, j: int| 0 <= i < j < h.len() implies #[trigger] h[i].spec_precedes(
            &#[trigger] h[j],
        ) by {
            if j < k {
                assert(h[i] == g[i] && h[j] == g[j]);
            } else if j == k {
                assert(h[i] == g[i]);
            } else if i == k {
                assert(h[j] == g[j - 1]);
                assert(x.spec_precedes(&g[k as int]));
                if j - 1 > k {
                    assert(g[k as int].spec_precedes(&g[j - 1]));
                    IdentityReference::lemma_precedes_strict_order(&x, &g[k as int], &g[j - 1]);
                }
            } else if i < k {
                assert(h[i] == g[i] && h[j] == g[j - 1]);
            } else {
                assert(h[i] == g[i - 1] && h[j] == g[j - 1]);
            }
        }
        assert forall|y: IdentityReference| #[trigger] h.contains(y) implies g.contains(y) || y == x by {
            let m = choose|m: int| 0 <= m < h.len() && h[m] == y;
            if m < k {
                assert(g[m] == y);
            } else if m > k {
                assert(g[m - 1] == y);
            }
        }
        assert forall|y: IdentityReference| g.contains(y) implies #[trigger] h.contains(y) by {
            let m = choose|m: int| 0 <= m < g.len() && g[m] == y;
            if m < k {
                assert(h[m] == y);
            } else {
                assert(h[m + 1] == y);
            }
        }
        IdentityReference::lemma_precedes_strict_order(&x, &x, &x);
        assert(x.spec_same(&x));
        assert(h[k as int].spec_same(&x));
    }
}

/// Canonicalizes a candidate list: sorts it in the canonical order and
/// keeps one item of each run of the same reference.
pub fn canonical_group(candidates: Vec<IdentityReference>) -> (group: Vec<IdentityReference>)
    ensures
        is_canonical_group(group@, candidates@),
{
    let ghost input = candidates@;
    let mut rest = candidates;
    let mut group: Vec<IdentityReference> = Vec::new();
    while rest.len() > 0
        invariant
            is_strictly_increasing(group@),
            rest@.len() <= input.len(),
            rest@ == input.take(rest@.len() as int),
            forall|k: int| 0 <= k < group@.len() ==> input.contains(#[trigger] group@[k]),
            forall|m: int| rest@.len() <= m < input.len() ==> has_same(group@, #[trigger] input[m]),
        decreases rest@.len(),
    {
        let ghost before = group@;
        let ghost r = rest@.len() - 1;
        let x = rest.pop().unwrap();
        proof {
            assert(x == input[r]);
            assert(rest@ =~= input.take(r));
        }
        insert_canonical(&mut group, x);
        proof {
            assert forall|k: int| 0 <= k < group@.len() implies input.contains(#[trigger] group@[k]) by {
                assert(group@.contains(group@[k]));
                if group@[k] == x {
                    assert(input[r] == x);
                } else {
                    let j = choose|j: int| 0 <= j < before.len() && before[j] == group@[k];
                    assert(input.contains(before[j]));
                }
            }
            assert forall|m: int| rest@.len() <= m < input.len() implies has_same(group@, #[trigger] input[m]) by {
                if m > r {
                    let k0 = choose|k: int| 0 <= k < before.len() && #[trigger] before[k].spec_same(&input[m]);
                    assert(before.contains(before[k0]));
                    assert(group@.contains(before[k0]));
                    let k1 = choose|k: int| 0 <= k < group@.len() && group@[k] == before[k0];
                    assert(group@[k1].spec_same(&input[m]));
                } else {
                    assert(input[m] == x);
                }
            }
        }
    }
    group
}

/// Flat candidate storage: group `i` is the candidates between offsets `i`
/// and `i + 1`.
#[derive(Debug, Default)]
pub struct CandidateBuffer {
    offsets: Vec<u32>,
    candidates: Vec<IdentityReference>,
    next_observation: usize,
}

impl CandidateBuffer {
    /// Group boundaries into the candidate storage, for specifications.
    pub closed spec fn spec_offsets(&self) -> Seq<u32> {
        self.offsets@
    }

    /// All stored candidates, group after group, for specifications.
    pub closed spec fn spec_candidates(&self) -> Seq<IdentityReference> {
        self.candidates@
    }

    /// Index of the next observation expected, for specifications.
    pub closed spec fn spec_next_observation(&self) -> usize {
        self.next_observation
    }

    /// Offsets never decrease and stay within the candidate storage.
    pub open spec fn inv(&self) -> bool {
        &&& forall|i: int, j: int|
            0 <= i <= j < self.spec_offsets().len() ==> #[trigger] self.spec_offsets()[i]
                <= #[trigger] self.spec_offsets()[j]
        &&& forall|i: int|
            0 <= i < self.spec_offsets().len() ==> #[trigger] self.spec_offsets()[i] <= self.spec_candidates().len()
    }

    /// The candidates of observation `index`, when both of its boundaries
    /// are recorded.
    pub open spec fn spec_get(&self, index: int) -> Option<Seq<IdentityReference>> {
        if 0 <= index && index + 1 < self.spec_offsets().len() && self.spec_offsets()[index]
            <= self.spec_offsets()[index + 1] <= self.spec_candidates().len() {
            Some(
                self.spec_candidates().subrange(
                    self.spec_offsets()[index] as int,
                    self.spec_offsets()[index + 1] as int,
                ),
            )
        } else {
            None
        }
    }

    /// Creates empty storage with reserved capacity; call [`Self::reset`]
    /// before the first batch.
    pub fn with_capacity(batch_capacity: usize, candidate_capacity: usize) -> (buffer: Self)
        ensures
            buffer.inv(),
            buffer.spec_offsets() == Seq::<u32>::empty(),
            buffer.spec_candidates() == Seq::<IdentityReference>::empty(),
            buffer.spec_next_observation() == 0,
    {
        CandidateBuffer {
            offsets: Vec::with_capacity(batch_capacity.saturating_add(1)),
            candidates: Vec::with_capacity(candidate_capacity),
            next_observation: 0,
        }
    }

    /// Clears the contents for a batch of `batch_len` observations while
    /// keeping the allocations.
    pub fn reset(&mut self, batch_len: usize)
        ensures
            final(self).inv(),
            final(self).spec_offsets() == seq![0u32],
            final(self).spec_candidates() == Seq::<IdentityReference>::empty(),
            final(self).spec_next_observation() == 0,
    {
        self.offsets.clear();
        self.offsets.reserve(batch_len.saturating_add(1));
        self.offsets.push(0);
        self.candidates.clear();
        self.next_observation = 0;
    }

    /// Appends the canonical group of one observation's candidates.
    ///
    /// Providers call this once per observation, empty groups included, in
    /// ascending observation order. An index outside the batch or out of
    /// order is refused with the buffer unchanged; a storage size beyond
    /// `u32::MAX` is refused after the group was stored, its boundary
    /// unrecorded.
    pub fn push_observation(
        &mut self,
        observation_index: usize,
        batch_len: usize,
        candidates: Vec<IdentityReference>,
    ) -> (result: Result<(), ProviderError>)
        requires
            old(self).inv(),
        ensures
            final(self).inv(),
            observation_index >= batch_len ==> result == Err::<(), ProviderError>(
                ProviderError::ObservationOutOfBounds { index: observation_index, batch_len },
            ) && *final(self) == *old(self),
            observation_index < batch_len && observation_index != old(self).spec_next_observation()
                ==> result == Err::<(), ProviderError>(ProviderError::CandidateOrder) && *final(self)
                == *old(self),
            observation_index < batch_len && observation_index == old(self).spec_next_observation()
                ==> {
                let group = final(self).spec_candidates().skip(old(self).spec_candidates().len() as int);
                &&& final(self).spec_candidates().take(old(self).spec_candidates().len() as int)
                    == old(self).spec_candidates()
                &&& final(self).spec_candidates().len() >= old(self).spec_candidates().len()
                &&& is_canonical_group(group, candidates@)
                &&& final(self).spec_candidates().len() <= u32::MAX ==> {
                    &&& result is Ok
                    &&& final(self).spec_offsets() == old(self).spec_offsets().push(
                        final(self).spec_candidates().len() as u32,
                    )
                    &&& final(self).spec_next_observation() == old(self).spec_next_observation() + 1
                }
                &&& final(self).spec_candidates().len() > u32::MAX ==> {
                    &&& result == Err::<(), ProviderError>(ProviderError::InvalidCardinality)
                    &&& final(self).spec_offsets() == old(self).spec_offsets()
                    &&& final(self).spec_next_observation() == old(self).spec_next_observation()
                }
            },
    {
        if observation_index >= batch_len {
            return Err(ProviderError::ObservationOutOfBounds { index: observation_index, batch_len });
        }
        if observation_index != self.next_observation {
            return Err(ProviderError::CandidateOrder);
        }
        let ghost old_candidates = self.candidates@;
        let ghost old_offsets = self.offsets@;
        proof {
            assert forall|i: int| 0 <= i < old_offsets.len() implies #[trigger] old_offsets[i] <= old_candidates.len() by {
                assert(old(self).spec_offsets()[i] <= old(self).spec_candidates().len());
            }
            assert forall|i: int, j: int| 0 <= i <= j < old_offsets.len() implies #[trigger] old_offsets[i]
                <= #[trigger] old_offsets[j] by {
                assert(old(self).spec_offsets()[i] <= old(self).spec_offsets()[j]);
            }
        }
        let mut group = canonical_group(candidates);
        let ghost g = group@;
        self.candidates.append(&mut group);
        proof {
            assert(self.candidates@.take(old_candidates.len() as int) =~= old_candidates);
            assert(self.candidates@.skip(old_candidates.len() as int) =~= g);
        }
        let end = self.candidates.len();
        if end > 4294967295usize {
            proof {
                assert forall|i: int| 0 <= i < self.spec_offsets().len() implies #[trigger] self.spec_offsets()[i]
                    <= self.spec_candidates().len() by {
                    assert(old_offsets[i] <= old_candidates.len());
                }
                assert forall|i: int, j: int| 0 <= i <= j < self.spec_offsets().len() implies #[trigger] self.spec_offsets()[i]
                    <= #[trigger] self.spec_offsets()[j] by {
                    assert(old_offsets[i] <= old_offsets[j]);
                }
            }
            return Err(ProviderError::InvalidCardinality);
        }
        self.offsets.push(end as u32);
        self.next_observation = self.next_observation + 1;
        proof {
            assert forall|i: int| 0 <= i < self.spec_offsets().len() implies #[trigger] self.spec_offsets()[i]
                <= self.spec_candidates().len() by {
                if i < old_offsets.len() {
                    assert(old_offsets[i] <= old_candidates.len());
                }
            }
            assert forall|i: int, j: int| 0 <= i <= j < self.spec_offsets().len() implies #[trigger] self.spec_offsets()[i]
                <= #[trigger] self.spec_offsets()[j] by {
                if j < old_offsets.len() {
                    assert(old_offsets[i] <= old_offsets[j]);
                } else if i < old_offsets.len() {
                    assert(old_offsets[i] <= old_candidates.len());
                }
            }
        }
        Ok(())
    }

    /// Borrows the candidates of one observation, or `None` when its group
    /// is not complete.
    pub fn get(&self, observation_index: usize) -> (group: Option<&[IdentityReference]>)
        requires
            self.inv(),
        ensures
            match self.spec_get(observation_index as int) {
                Some(expected) => group matches Some(g) && g@ == expected,
                None => group is None,
            },
    {
        if observation_index >= self.offsets.len() {
            return None;
        }
        let after = observation_index.saturating_add(1);
        if after >= self.offsets.len() {
            return None;
        }
        let start = self.offsets[observation_index] as usize;
        let end = self.offsets[after] as usize;
        Some(vstd::slice::slice_subrange(self.candidates.as_slice(), start, end))
    }

    /// Number of completed observation groups.
    pub fn observation_count(&self) -> (count: usize)
        ensures
            count == (if self.spec_offsets().len() == 0 {
                0
            } else {
                self.spec_offsets().len() - 1
            }),
    {
        self.offsets.len().saturating_sub(1)
    }

    /// Total number of stored candidates.
    pub fn candidate_count(&self) -> (count: usize)
        ensures
            count == self.spec_candidates().len(),
    {
        self.candidates.len()
    }
}

/// Batch-local variables of a factor scope, held in a `smallvec` vector
/// that keeps small scopes inline.
#[verifier::external_body]
#[derive(Debug)]
pub struct ScopeVariables {
    items: SmallVec<[u32; 4]>,
}

/// Domain cardinalities of a factor scope, held in a `smallvec` vector
/// that keeps small scopes inline.
#[verifier::external_body]
#[derive(Debug)]
pub struct ScopeCardinalities {
    items: SmallVec<[u16; 4]>,
}

/// Items of a scope's variable vector, in order.
pub uninterp spec fn scope_variable_items(v: ScopeVariables) -> Seq<u32>;

/// Items of a scope's cardinality vector, in order.
pub uninterp spec fn scope_cardinality_items(v: ScopeCardinalities) -> Seq<u16>;

/// `SmallVec::from_vec`: the same items, in order.
#[verifier::external_body]
fn variables_from_vec(items: Vec<u32>) -> (v: ScopeVariables)
    ensures
        scope_variable_items(v) == items@,
{
    ScopeVariables { items: SmallVec::from_vec(items) }
}

/// `SmallVec::from_vec`: the same items, in order.
#[verifier::external_body]
fn cardinalities_from_vec(items: Vec<u16>) -> (v: ScopeCardinalities)
    ensures
        scope_cardinality_items(v) == items@,
{
    ScopeCardinalities { items: SmallVec::from_vec(items) }
}

/// `SmallVec::as_slice` on a variable scope: its items in order.
#[verifier::external_body]
fn variables_as_slice(v: &ScopeVariables) -> (items: &[u32])
    ensures
        items@ == scope_variable_items(*v),
{
    v.items.as_slice()
}

/// `SmallVec::as_slice` on a cardinality scope: its items in order.
#[verifier::external_body]
fn cardinalities_as_slice(v: &ScopeCardinalities) -> (items: &[u16])
    ensures
        items@ == scope_cardinality_items(*v),
{
    v.items.as_slice()
}

/// Number of rows of a dense table over the given cardinalities: their
/// product.
pub open spec fn table_size(cardinalities: Seq<u16>) -> int
    decreases cardinalities.len(),
{
    if cardinalities.len() == 0 {
        1
    } else {
        table_size(cardinalities.drop_last()) * cardinalities.last()
    }
}

/// With every cardinality positive, a longer prefix never has fewer rows.
proof fn lemma_table_size_grows(cardinalities: Seq<u16>, p: int, q: int)
    requires
        0 <= p <= q <= cardinalities.len(),
        forall|i: int| 0 <= i < cardinalities.len() ==> cardinalities[i] > 0,
    ensures
        1 <= table_size(cardinalities.take(p)) <= table_size(cardinalities.take(q)),
    decreases q - p,
{
    if p < q {
        lemma_table_size_grows(cardinalities, p, q - 1);
        let prefix = cardinalities.take(q);
        assert(prefix.drop_last() =~= cardinalities.take(q - 1));
        let a = table_size(cardinalities.take(q - 1));
        let c = cardinalities[q - 1] as int;
        assert(a <= a * c) by (nonlinear_arith)
            requires
                a >= 1,
                c >= 1,
        ;
    } else {
        lemma_table_size_positive(cardinalities.take(p));
    }
}

/// With every cardinality positive, a table has at least one row.
proof fn lemma_table_size_positive(cardinalities: Seq<u16>)
    requires
        forall|i: int| 0 <= i < cardinalities.len() ==> cardinalities[i] > 0,
    ensures
        table_size(cardinalities) >= 1,
    decreases cardinalities.len(),
{
    if cardinalities.len() > 0 {
        lemma_table_size_positive(cardinalities.drop_last());
        let a = table_size(cardinalities.drop_last());
        let c = cardinalities.last() as int;
        assert(a * c >= 1) by (nonlinear_arith)
            requires
                a >= 1,
                c >= 1,
        ;
    }
}

/// Why a factor scope is refused, checked in order: an empty or ragged
/// scope, a repeated variable, a zero or overflowing cardinality, then a
/// table of the wrong length.
pub open spec fn shape_error(variables: Seq<u32>, cardinalities: Seq<u16>, table_len: usize) -> Option<
    ProviderError,
> {
    if variables.len() == 0 || variables.len() != cardinalities.len() {
        Some(ProviderError::EmptyFactorScope)
    } else if !variables.no_duplicates() {
        Some(ProviderError::DuplicateFactorVariable)
    } else if cardinalities.contains(0) || table_size(cardinalities) > usize::MAX {
        Some(ProviderError::InvalidCardinality)
    } else if table_size(cardinalities) != table_len {
        Some(ProviderError::FactorTableLength { expected: table_size(cardinalities) as usize, actual: table_len })
    } else {
        None
    }
}

/// Scope of a dense factor table: distinct batch-local variables and the
/// positive cardinality of each, whose product fits in `usize`.
#[derive(Debug)]
pub struct FactorShape {
    variables: ScopeVariables,
    cardinalities: ScopeCardinalities,
}

impl FactorShape {
    /// Variables in scope order, for specifications.
    pub closed spec fn spec_variables(&self) -> Seq<u32> {
        scope_variable_items(self.variables)
    }

    /// Cardinalities in scope order, for specifications.
    pub closed spec fn spec_cardinalities(&self) -> Seq<u16> {
        scope_cardinality_items(self.cardinalities)
    }

    /// A valid scope: non-empty, aligned, duplicate-free, with positive
    /// cardinalities whose product fits in `usize`.
    #[verifier::type_invariant]
    pub open spec fn wf(&self) -> bool {
        shape_error(self.spec_variables(), self.spec_cardinalities(), table_size(self.spec_cardinalities()) as usize)
            is None
    }

    /// Validates a factor scope against the length of its dense table.
    pub fn new(variables: Vec<u32>, cardinalities: Vec<u16>, table_len: usize) -> (shape: Result<
        Self,
        ProviderError,
    >)
        ensures
            match shape_error(variables@, cardinalities@, table_len) {
                Some(error) => shape == Err::<Self, ProviderError>(error),
                None => shape matches Ok(s) && s.spec_variables() == variables@ && s.spec_cardinalities()
                    == cardinalities@,
            },
    {
        let vars = variables.as_slice();
        let cards = cardinalities.as_slice();
        let ghost vs = vars@;
        let ghost cs = cards@;
        if vars.len() == 0 || vars.len() != cards.len() {
            return Err(ProviderError::EmptyFactorScope);
        }
        let mut i: usize = 0;
        while i < vars.len()
            invariant
                vs == vars@,
                vs == variables@,
                cs == cardinalities@,
                vs.len() > 0,
                vs.len() == cs.len(),
                i <= vars@.len(),
                forall|a: int, b: int| 0 <= a < i && a < b < vars@.len() ==> vars@[a] != vars@[b],
            decreases vars@.len() - i,
        {
            let mut j: usize = i + 1;
            while j < vars.len()
                invariant
                    vs == vars@,
                    vs == variables@,
                    cs == cardinalities@,
                    vs.len() > 0,
                    vs.len() == cs.len(),
                    i < vars@.len(),
                    i < j <= vars@.len(),
                    forall|a: int, b: int| 0 <= a < i && a < b < vars@.len() ==> vars@[a] != vars@[b],
                    forall|b: int| i < b < j ==> vars@[i as int] != vars@[b],
                decreases vars@.len() - j,
            {
                if vars[i] == vars[j] {
                    proof {
                        assert(!vs.no_duplicates());
                    }
                    return Err(ProviderError::DuplicateFactorVariable);
                }
                j += 1;
            }
            i += 1;
        }
        proof {
            assert forall|a: int, b: int| 0 <= a < vs.len() && 0 <= b < vs.len() && a != b implies vs[a]
                != vs[b] by {
                if a > b {
                    assert(vs[b] != vs[a]);
                }
            }
        }
        let mut expected: usize = 1;
        let mut p: usize = 0;
        while p < cards.len()
            invariant
                cs == cards@,
                vs == variables@,
                cs == cardinalities@,
                vs.len() > 0,
                vs.len() == cs.len(),
                vs.no_duplicates(),
                p <= cards@.len(),
                expected == table_size(cards@.take(p as int)),
                forall|k: int| 0 <= k < p ==> cards@[k] > 0,
            decreases cards@.len() - p,
        {
            proof {
                assert(cards@.take(p + 1).drop_last() =~= cards@.take(p as int));
            }
            if cards[p] == 0 {
                proof {
                    assert(cs[p as int] == 0);
                }
                return Err(ProviderError::InvalidCardinality);
            }
            match expected.checked_mul(cards[p] as usize) {
                Some(next) => {
                    expected = next;
                },
                None => {
                    proof {
                        if !cs.contains(0) {
                            lemma_table_size_grows(cs, p + 1, cs.len() as int);
                            assert(cs.take(cs.len() as int) =~= cs);
                        }
                    }
                    return Err(ProviderError::InvalidCardinality);
                },
            }
            p += 1;
        }
        proof {
            assert(cs.take(cs.len() as int) =~= cs);
        }
        if expected != table_len {
            return Err(ProviderError::FactorTableLength { expected, actual: table_len });
        }
        Ok(FactorShape { variables: variables_from_vec(variables), cardinalities: cardinalities_from_vec(cardinalities) })
    }

    /// Borrows batch-local variable indexes in scope order.
    pub fn variables(&self) -> (variables: &[u32])
        ensures
            variables@ == self.spec_variables(),
    {
        variables_as_slice(&self.variables)
    }

    /// Borrows domain cardinalities in scope order.
    pub fn cardinalities(&self) -> (cardinalities: &[u16])
        ensures
            cardinalities@ == self.spec_cardinalities(),
    {
        cardinalities_as_slice(&self.cardinalities)
    }
}

} // verus!
