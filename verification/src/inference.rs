//! Identity references, association outcomes, validity intervals, and
//! provenance records of durable inference.
use crate::evidence::ContentHash;
use crate::host::HostEntityRef;
use crate::ids::{CommitVersion, ProviderId, SchemaId};
use crate::precedence::Precedence;
use vstd::prelude::*;

verus! {

/// Known or latent identity reference admitted to a gated domain.
#[derive(Debug, Clone, PartialEq, Eq, PartialOrd, Ord, Hash)]
pub enum IdentityReference {
    /// Active latent identity hypothesis.
    Latent(crate::ids::IdentityId),
    /// Lightweight authoritative host-entity reference.
    Known(HostEntityRef),
}

impl IdentityReference {
    /// The canonical order of references: latent identities by identifier,
    /// all before known host references, which follow their own order.
    pub open spec fn spec_precedes(&self, other: &Self) -> bool {
        match (self, other) {
            (IdentityReference::Latent(a), IdentityReference::Latent(b)) => a.0 < b.0,
            (IdentityReference::Latent(_), IdentityReference::Known(_)) => true,
            (IdentityReference::Known(_), IdentityReference::Latent(_)) => false,
            (IdentityReference::Known(a), IdentityReference::Known(b)) => a.spec_precedes(b),
        }
    }

    /// Whether two references denote the same identity.
    pub open spec fn spec_same(&self, other: &Self) -> bool {
        match (self, other) {
            (IdentityReference::Latent(a), IdentityReference::Latent(b)) => a == b,
            (IdentityReference::Known(a), IdentityReference::Known(b)) => a.spec_same(b),
            _ => false,
        }
    }

    /// The canonical order is a strict order: asymmetric and transitive, and
    /// references that are the same precede nothing the other does not.
    pub proof fn lemma_precedes_strict_order(a: &Self, b: &Self, c: &Self)
        ensures
            a.spec_precedes(b) ==> !b.spec_precedes(a),
            a.spec_precedes(b) && b.spec_precedes(c) ==> a.spec_precedes(c),
            a.spec_same(b) ==> !a.spec_precedes(b),
    {
        match (a, b, c) {
            (
                IdentityReference::Known(x),
                IdentityReference::Known(y),
                IdentityReference::Known(z),
            ) => {
                HostEntityRef::lemma_precedes_strict_order(x, y, z);
                HostEntityRef::lemma_precedes_strict_order(x, x, x);
            },
            (IdentityReference::Known(x), IdentityReference::Known(y), _) => {
                HostEntityRef::lemma_precedes_strict_order(x, y, y);
                HostEntityRef::lemma_precedes_strict_order(x, x, x);
            },
            _ => {},
        }
    }

    /// Compares two references under the canonical order.
    pub fn precedence(&self, other: &Self) -> (p: Precedence)
        ensures
            (p == Precedence::Before) == self.spec_precedes(other),
            (p == Precedence::Same) == self.spec_same(other),
            (p == Precedence::After) == other.spec_precedes(self),
    {
        match (self, other) {
            (IdentityReference::Latent(a), IdentityReference::Latent(b)) => {
                if a.0 < b.0 {
                    Precedence::Before
                } else if a.0 > b.0 {
                    Precedence::After
                } else {
                    Precedence::Same
                }
            },
            (IdentityReference::Latent(_), IdentityReference::Known(_)) => Precedence::Before,
            (IdentityReference::Known(_), IdentityReference::Latent(_)) => Precedence::After,
            (IdentityReference::Known(a), IdentityReference::Known(b)) => a.precedence(b),
        }
    }
}

/// One value in the finite inference domain `C(o) ∪ {new, noise}`.
#[derive(Debug, Clone, PartialEq, Eq, PartialOrd, Ord, Hash)]
pub enum AssociationOutcome {
    /// Assignment to a gated identity reference.
    Identity(IdentityReference),
    /// Evidence for an identity not represented by the gated candidates.
    New,
    /// Invalid, irrelevant, or non-entity evidence.
    Noise,
}

impl AssociationOutcome {
    /// The canonical order of outcomes: gated identities first, in the
    /// canonical reference order, then `new`, then `noise`.
    pub open spec fn spec_precedes(&self, other: &Self) -> bool {
        match (self, other) {
            (AssociationOutcome::Identity(a), AssociationOutcome::Identity(b)) => a.spec_precedes(b),
            (AssociationOutcome::Identity(_), _) => true,
            (AssociationOutcome::New, AssociationOutcome::Noise) => true,
            _ => false,
        }
    }

    /// Whether two outcomes are the same value of the domain.
    pub open spec fn spec_same(&self, other: &Self) -> bool {
        match (self, other) {
            (AssociationOutcome::Identity(a), AssociationOutcome::Identity(b)) => a.spec_same(b),
            (AssociationOutcome::New, AssociationOutcome::New) => true,
            (AssociationOutcome::Noise, AssociationOutcome::Noise) => true,
            _ => false,
        }
    }

    /// The canonical order of outcomes is a strict order, and sameness is
    /// symmetric and excludes precedence either way.
    pub proof fn lemma_precedes_strict_order(a: &Self, b: &Self, c: &Self)
        ensures
            a.spec_precedes(b) ==> !b.spec_precedes(a),
            a.spec_precedes(b) && b.spec_precedes(c) ==> a.spec_precedes(c),
            a.spec_same(b) ==> b.spec_same(a) && !a.spec_precedes(b) && !b.spec_precedes(a),
    {
        match (a, b, c) {
            (AssociationOutcome::Identity(x), AssociationOutcome::Identity(y), AssociationOutcome::Identity(z)) => {
                IdentityReference::lemma_precedes_strict_order(x, y, z);
                IdentityReference::lemma_precedes_strict_order(y, x, x);
            },
            (AssociationOutcome::Identity(x), AssociationOutcome::Identity(y), _) => {
                IdentityReference::lemma_precedes_strict_order(x, y, y);
                IdentityReference::lemma_precedes_strict_order(y, x, x);
            },
            _ => {},
        }
    }

    /// Compares two outcomes under the canonical order.
    pub fn precedence(&self, other: &Self) -> (p: Precedence)
        ensures
            (p == Precedence::Before) == self.spec_precedes(other),
            (p == Precedence::Same) == self.spec_same(other),
            (p == Precedence::After) == other.spec_precedes(self),
    {
        match (self, other) {
            (AssociationOutcome::Identity(a), AssociationOutcome::Identity(b)) => a.precedence(b),
            (AssociationOutcome::Identity(_), _) => Precedence::Before,
            (_, AssociationOutcome::Identity(_)) => Precedence::After,
            (AssociationOutcome::New, AssociationOutcome::New) => Precedence::Same,
            (AssociationOutcome::New, AssociationOutcome::Noise) => Precedence::Before,
            (AssociationOutcome::Noise, AssociationOutcome::New) => Precedence::After,
            (AssociationOutcome::Noise, AssociationOutcome::Noise) => Precedence::Same,
        }
    }
}

/// Error of a finite association domain that cannot carry a distribution.
#[derive(Debug, Clone, Copy, PartialEq, Eq, Structural)]
pub enum OutcomeDomainError {
    /// The same outcome appears more than once.
    DuplicateOutcome,
    /// The mandatory `new` or `noise` outcome is absent.
    MissingOpenWorldOutcome,
}

/// Whether two positions of the domain hold the same outcome.
pub open spec fn has_duplicate_outcome(outcomes: Seq<AssociationOutcome>) -> bool {
    exists|i: int, j: int| 0 <= i < j < outcomes.len() && #[trigger] outcomes[i].spec_same(&#[trigger] outcomes[j])
}

/// Whether the domain holds both open-world outcomes, `new` and `noise`.
pub open spec fn has_open_world_outcomes(outcomes: Seq<AssociationOutcome>) -> bool {
    outcomes.contains(AssociationOutcome::New) && outcomes.contains(AssociationOutcome::Noise)
}

/// Whether `order` lists every position of the domain once, so that the
/// outcomes it points to ascend strictly in the canonical order.
pub open spec fn is_canonical_order(outcomes: Seq<AssociationOutcome>, order: Seq<usize>) -> bool {
    &&& order.len() == outcomes.len()
    &&& forall|a: int| 0 <= a < order.len() ==> #[trigger] order[a] < outcomes.len()
    &&& forall|a: int, b: int|
        0 <= a < b < order.len() ==> #[trigger] outcomes[order[a] as int].spec_precedes(
            &#[trigger] outcomes[order[b] as int],
        )
}

/// Validates a finite association domain and returns the positions of its
/// outcomes in the canonical order. A domain holding the same outcome twice
/// is refused first; then one lacking `new` or `noise`.
pub fn canonical_outcome_order(outcomes: &[AssociationOutcome]) -> (order: Result<Vec<usize>, OutcomeDomainError>)
    ensures
        has_duplicate_outcome(outcomes@) <==> order == Err::<Vec<usize>, OutcomeDomainError>(
            OutcomeDomainError::DuplicateOutcome,
        ),
        !has_duplicate_outcome(outcomes@) && !has_open_world_outcomes(outcomes@) <==> order == Err::<
            Vec<usize>,
            OutcomeDomainError,
        >(OutcomeDomainError::MissingOpenWorldOutcome),
        order matches Ok(o) ==> is_canonical_order(outcomes@, o@),
{
    let ghost os = outcomes@;
    let n = outcomes.len();
    let mut order: Vec<usize> = Vec::new();
    let mut i: usize = 0;
    while i < n
        invariant
            os == outcomes@,
            n == os.len(),
            i <= n,
            order@.len() == i,
            forall|a: int| 0 <= a < order@.len() ==> #[trigger] order@[a] < i,
            forall|k: usize| k < i ==> #[trigger] order@.contains(k),
            forall|a: int, b: int|
                0 <= a < b < order@.len() ==> #[trigger] os[order@[a] as int].spec_precedes(
                    &#[trigger] os[order@[b] as int],
                ),
        decreases n - i,
    {
        let ghost g = order@;
        let mut k: usize = 0;
        while k < order.len()
            invariant
                os == outcomes@,
                n == os.len(),
                i < n,
                order@ == g,
                g.len() == i,
                forall|a: int| 0 <= a < g.len() ==> #[trigger] g[a] < i,
                k <= g.len(),
                forall|j: int| 0 <= j < k ==> #[trigger] os[g[j] as int].spec_precedes(&os[i as int]),
            ensures
                order@ == g,
                k <= g.len(),
                forall|j: int| 0 <= j < k ==> #[trigger] os[g[j] as int].spec_precedes(&os[i as int]),
                k < g.len() ==> os[i as int].spec_precedes(&os[g[k as int] as int]),
            decreases g.len() - k,
        {
            let earlier = order[k];
            match outcomes[earlier].precedence(&outcomes[i]) {
                Precedence::Before => {
                    k += 1;
                },
                Precedence::Same => {
                    proof {
                        assert(os[earlier as int].spec_same(&os[i as int]));
                        assert(has_duplicate_outcome(os));
                    }
                    return Err(OutcomeDomainError::DuplicateOutcome);
                },
                Precedence::After => {
                    break;
                },
            }
        }
        order.insert(k, i);
        proof {
            let h = order@;
            assert(h[k as int] == i);
            assert forall|a: int, b: int| 0 <= a < b < h.len() implies #[trigger] os[h[a] as int].spec_precedes(
                &#[trigger] os[h[b] as int],
            ) by {
                if b < k {
                    assert(h[a] == g[a] && h[b] == g[b]);
                } else if b == k {
                    assert(h[a] == g[a]);
                } else if a == k {
                    assert(h[b] == g[b - 1]);
                    if b - 1 > k {
                        assert(os[g[k as int] as int].spec_precedes(&os[g[b - 1] as int]));
                        AssociationOutcome::lemma_precedes_strict_order(
                            &os[i as int],
                            &os[g[k as int] as int],
                            &os[g[b - 1] as int],
                        );
                    }
                } else if a < k {
                    assert(h[a] == g[a] && h[b] == g[b - 1]);
                } else {
                    assert(h[a] == g[a - 1] && h[b] == g[b - 1]);
                }
            }
            assert forall|a: int| 0 <= a < h.len() implies #[trigger] h[a] < i + 1 by {
                if a < k {
                    assert(h[a] == g[a]);
                } else if a > k {
                    assert(h[a] == g[a - 1]);
                }
            }
            assert forall|m: usize| m < i + 1 implies #[trigger] h.contains(m) by {
                if m < i {
                    assert(g.contains(m));
                    let a = choose|a: int| 0 <= a < g.len() && g[a] == m;
                    if a < k {
                        assert(h[a] == g[a]);
                    } else {
                        assert(h[a + 1] == g[a]);
                    }
                } else {
                    assert(h[k as int] == m);
                }
            }
        }
        i += 1;
    }
    proof {
        assert forall|x: int, y: int| 0 <= x < y < os.len() implies !#[trigger] os[x].spec_same(&#[trigger] os[y]) by {
            assert(order@.contains(x as usize));
            assert(order@.contains(y as usize));
            let a = choose|a: int| 0 <= a < order@.len() && order@[a] == x as usize;
            let b = choose|b: int| 0 <= b < order@.len() && order@[b] == y as usize;
            AssociationOutcome::lemma_precedes_strict_order(&os[x], &os[y], &os[y]);
            AssociationOutcome::lemma_precedes_strict_order(&os[y], &os[x], &os[x]);
            if a < b {
                assert(os[order@[a] as int].spec_precedes(&os[order@[b] as int]));
            } else if b < a {
                assert(os[order@[b] as int].spec_precedes(&os[order@[a] as int]));
            }
        }
    }
    let mut has_new = false;
    let mut has_noise = false;
    let mut j: usize = 0;
    while j < n
        invariant
            os == outcomes@,
            n == os.len(),
            j <= n,
            has_new == exists|t: int| 0 <= t < j && os[t] == AssociationOutcome::New,
            has_noise == exists|t: int| 0 <= t < j && os[t] == AssociationOutcome::Noise,
        decreases n - j,
    {
        match outcomes[j] {
            AssociationOutcome::New => {
                has_new = true;
            },
            AssociationOutcome::Noise => {
                has_noise = true;
            },
            AssociationOutcome::Identity(_) => {},
        }
        j += 1;
    }
    if !has_new || !has_noise {
        return Err(OutcomeDomainError::MissingOpenWorldOutcome);
    }
    Ok(order)
}

/// Statistical meaning of one numeric provider contribution.
#[derive(Debug, Clone, Copy, PartialEq, Eq, Structural, Hash)]
pub enum ScoreSemantics {
    /// Log probability of evidence under a declared model.
    LogLikelihood,
    /// Log ratio of two declared evidence models.
    LogLikelihoodRatio,
    /// General factor-graph log potential.
    LogPotential,
    /// Calibrated posterior probability in `[0, 1]`.
    CalibratedPosterior,
}

/// Error returned when a score lacks valid statistical semantics.
#[derive(Debug, Clone, Copy, PartialEq, Eq, Structural)]
pub enum ScoreError {
    /// The numeric value was NaN or infinite.
    NonFinite,
    /// A calibrated posterior was outside `[0, 1]`.
    PosteriorOutOfRange,
    /// Statistical validity-domain description was empty.
    EmptyValidityDomain,
}

/// Half-open durable validity interval `[begin, end)`.
#[derive(Debug, Clone, Copy, PartialEq, Eq, Structural)]
pub struct VersionInterval {
    begin: CommitVersion,
    end: Option<CommitVersion>,
}

/// Error returned for an empty or reversed validity interval.
#[derive(Debug, Clone, Copy, PartialEq, Eq, Structural)]
pub struct VersionIntervalError;

/// Membership of a version in the half-open interval `[begin, end)`.
pub open spec fn spec_interval_contains(
    begin: CommitVersion,
    end: Option<CommitVersion>,
    version: CommitVersion,
) -> bool {
    &&& version.value() >= begin.value()
    &&& match end {
        Some(e) => version.value() < e.value(),
        None => true,
    }
}

impl VersionInterval {
    /// Inclusive opening version, for specifications.
    pub closed spec fn spec_begin(self) -> CommitVersion {
        self.begin
    }

    /// Exclusive closing version, for specifications.
    pub closed spec fn spec_end(self) -> Option<CommitVersion> {
        self.end
    }

    /// An interval is never empty: a finite end lies after its begin.
    pub closed spec fn inv(self) -> bool {
        match self.end {
            Some(e) => e.value() > self.begin.value(),
            None => true,
        }
    }

    /// Creates a validated half-open commit interval; a finite end that is
    /// not after `begin` is rejected.
    pub fn new(begin: CommitVersion, end: Option<CommitVersion>) -> (interval: Result<
        Self,
        VersionIntervalError,
    >)
        ensures
            interval is Err <==> (end matches Some(e) && e.value() <= begin.value()),
            interval matches Ok(i) ==> i.inv() && i.spec_begin() == begin && i.spec_end() == end,
    {
        match end {
            Some(e) => {
                if e.get() <= begin.get() {
                    return Err(VersionIntervalError);
                }
            },
            None => {},
        }
        Ok(VersionInterval { begin, end })
    }

    /// Creates a current interval with no closing version.
    pub fn current(begin: CommitVersion) -> (interval: Self)
        ensures
            interval.inv(),
            interval.spec_begin() == begin,
            interval.spec_end() is None,
    {
        VersionInterval { begin, end: None }
    }

    /// Returns the inclusive opening version.
    pub fn begin(self) -> (begin: CommitVersion)
        ensures
            begin == self.spec_begin(),
    {
        self.begin
    }

    /// Returns the exclusive closing version.
    pub fn end(self) -> (end: Option<CommitVersion>)
        ensures
            end == self.spec_end(),
    {
        self.end
    }

    /// Returns whether `version` belongs to the interval.
    pub fn contains(self, version: CommitVersion) -> (member: bool)
        ensures
            member == spec_interval_contains(self.spec_begin(), self.spec_end(), version),
    {
        version.get() >= self.begin.get() && match self.end {
            Some(e) => version.get() < e.get(),
            None => true,
        }
    }
}

/// Every valid interval contains its opening version and never its closing
/// version, so it is non-empty and half-open.
pub proof fn law_interval_is_half_open_and_nonempty(interval: VersionInterval)
    requires
        interval.inv(),
    ensures
        spec_interval_contains(interval.spec_begin(), interval.spec_end(), interval.spec_begin()),
        interval.spec_end() matches Some(e) ==> !spec_interval_contains(
            interval.spec_begin(),
            interval.spec_end(),
            e,
        ),
{
    reveal(VersionInterval::inv);
}

/// Membership in an interval is exactly lying at or after its opening
/// version and, when it has a closing version, before that: an open-ended
/// interval holds every version from its opening on, and no version before
/// the opening or at or after the closing one is ever a member.
pub proof fn law_interval_membership(interval: VersionInterval, version: CommitVersion)
    ensures
        version.value() < interval.spec_begin().value() ==> !spec_interval_contains(
            interval.spec_begin(),
            interval.spec_end(),
            version,
        ),
        interval.spec_end() matches Some(e) && version.value() >= e.value() ==> !spec_interval_contains(
            interval.spec_begin(),
            interval.spec_end(),
            version,
        ),
        interval.spec_end() matches Some(e) && interval.spec_begin().value() <= version.value()
            && version.value() < e.value() ==> spec_interval_contains(
            interval.spec_begin(),
            interval.spec_end(),
            version,
        ),
        interval.spec_end() is None && interval.spec_begin().value() <= version.value()
            ==> spec_interval_contains(interval.spec_begin(), interval.spec_end(), version),
{
}

/// Intervals are convex: a version between two members is a member.
pub proof fn law_interval_is_convex(
    interval: VersionInterval,
    low: CommitVersion,
    middle: CommitVersion,
    high: CommitVersion,
)
    requires
        spec_interval_contains(interval.spec_begin(), interval.spec_end(), low),
        spec_interval_contains(interval.spec_begin(), interval.spec_end(), high),
        low.value() <= middle.value() <= high.value(),
    ensures
        spec_interval_contains(interval.spec_begin(), interval.spec_end(), middle),
{
}

/// Solver completion status recorded for exactness and approximation audits.
#[derive(Debug, Clone, Copy, PartialEq, Eq, Structural)]
pub enum SolverStoppingReason {
    /// Exact algorithm completed on an acyclic factor graph.
    Exact,
    /// Approximate messages met the configured residual tolerance.
    Converged,
    /// Iteration budget was exhausted.
    IterationLimit,
    /// Approximate messages oscillated under the configured damping schedule.
    Oscillation,
    /// Solver rejected invalid numeric input.
    NumericalFailure,
}

/// Treatment of factors crossing a local inference boundary.
#[derive(Debug, Clone, Copy, PartialEq, Eq, Structural)]
pub enum BoundaryTreatment {
    /// Full global factor graph was solved.
    Global,
    /// Exact induced boundary potential was included.
    ExactInduced,
    /// No factor crossed the local boundary.
    NoCrossBoundary,
    /// Induced boundary potential is constant for relevant local states.
    ConstantInduced,
    /// Cached boundary messages approximate the induced potential.
    CachedApproximation,
    /// Boundary support or messages were truncated.
    TruncatedApproximation,
    /// Cross-boundary information was omitted.
    OmittedApproximation,
}

impl BoundaryTreatment {
    /// Whether the treatment is exact with respect to the global marginal.
    pub open spec fn spec_preserves_global_marginal(self) -> bool {
        match self {
            BoundaryTreatment::Global | BoundaryTreatment::ExactInduced
            | BoundaryTreatment::NoCrossBoundary | BoundaryTreatment::ConstantInduced => true,
            _ => false,
        }
    }

    /// Returns whether this treatment preserves the global marginal by
    /// contract.
    pub fn preserves_global_marginal(self) -> (exact: bool)
        ensures
            exact == self.spec_preserves_global_marginal(),
    {
        match self {
            BoundaryTreatment::Global | BoundaryTreatment::ExactInduced
            | BoundaryTreatment::NoCrossBoundary | BoundaryTreatment::ConstantInduced => true,
            _ => false,
        }
    }
}

/// Approximations are never reported as globally exact.
pub proof fn law_approximations_never_claim_exactness(treatment: BoundaryTreatment)
    ensures
        (treatment == BoundaryTreatment::CachedApproximation || treatment
            == BoundaryTreatment::TruncatedApproximation || treatment
            == BoundaryTreatment::OmittedApproximation) ==> !treatment.spec_preserves_global_marginal(),
{
}

/// One provider/model/calibration artifact used by an inference run.
#[derive(Debug, Clone, Copy, PartialEq, Eq, Structural)]
pub struct ProviderArtifact {
    /// Provider implementation identifier.
    pub provider: ProviderId,
    /// Provider payload schema.
    pub schema: SchemaId,
    /// Provider statistical model version.
    pub model_version: u64,
    /// Calibration artifact identifier.
    pub calibration_id: u64,
}

/// Versioned provenance shared by a durable inference record.
#[derive(Debug, Clone, PartialEq, Eq)]
pub struct InferenceProvenance {
    /// Every provider/model/calibration artifact used by the factor graph.
    pub providers: Vec<ProviderArtifact>,
    /// Candidate generation/index version.
    pub candidate_version: u64,
    /// Coherent host snapshot used for candidate generation.
    pub host_snapshot: CommitVersion,
    /// Hash of the provider/index configuration.
    pub configuration_hash: ContentHash,
}

} // verus!
