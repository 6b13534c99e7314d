//! Validatable append-only resolution commands and dependency-aware split
//! plans.
use crate::host::{HostEntityRef, HostRelation};
use crate::ids::{CommitVersion, DecisionId, IdentityId, MaterializationId, ObservationId, TransactionId};
use crate::observation::Timestamp;
use std::sync::Arc;
use vstd::prelude::*;

verus! {

/// Stable replay key supplied by a command producer.
#[derive(Debug, Clone, Copy, PartialEq, Eq, PartialOrd, Ord, Hash)]
pub struct IdempotencyKey([u8; 16]);

/// Structural command construction error.
#[derive(Debug, Clone, Copy, PartialEq, Eq, Structural)]
pub enum CommandError {
    /// Reserved all-zero idempotency key was supplied.
    ZeroIdempotencyKey,
    /// Merge endpoints were identical.
    SelfMerge,
    /// Split did not contain at least two non-empty partitions.
    IncompleteSplit,
    /// An identity or observation appeared in more than one split partition.
    OverlappingSplit,
    /// Atomic transaction did not contain a command.
    EmptyBatch,
}

/// Whether every byte of a key is zero.
pub open spec fn all_zero(bytes: Seq<u8>) -> bool {
    forall|i: int| 0 <= i < bytes.len() ==> bytes[i] == 0
}

impl IdempotencyKey {
    /// The exact key bytes, for specifications.
    pub closed spec fn spec_bytes(&self) -> Seq<u8> {
        self.0@
    }

    /// Creates a replay key; the reserved all-zero key is rejected.
    pub fn new(bytes: [u8; 16]) -> (key: Result<Self, CommandError>)
        ensures
            all_zero(bytes@) <==> key == Err::<Self, CommandError>(CommandError::ZeroIdempotencyKey),
            !all_zero(bytes@) <==> key is Ok,
            key matches Ok(k) ==> k.spec_bytes() == bytes@,
    {
        let mut index: usize = 0;
        while index < 16
            invariant
                0 <= index <= 16,
                bytes@.len() == 16,
                forall|i: int| 0 <= i < index ==> bytes@[i] == 0,
            decreases 16 - index,
        {
            if bytes[index] != 0 {
                return Ok(IdempotencyKey(bytes));
            }
            index += 1;
        }
        Err(CommandError::ZeroIdempotencyKey)
    }

    /// Returns the exact stable key bytes.
    pub fn as_bytes(&self) -> (bytes: &[u8; 16])
        ensures
            bytes@ == self.spec_bytes(),
    {
        &self.0
    }
}

/// Reversal behavior when active dependents exist.
#[derive(Debug, Clone, Copy, PartialEq, Eq, Structural)]
pub enum RevertMode {
    /// Reject the command when the target has active dependents.
    Strict,
    /// Close the complete transitive dependency closure.
    Cascade,
    /// Append an explicit semantic replacement when inversion is impossible.
    Compensating,
}

/// One non-empty split partition and its observation allocation.
#[derive(Debug, Clone, PartialEq, Eq)]
pub struct SplitPartition {
    /// Identity that represents this partition after the split.
    pub identity: IdentityId,
    /// Observations retained or reassigned into the partition.
    pub observations: Vec<ObservationId>,
}

/// Complete dependency-aware split plan.
#[derive(Debug, Clone, PartialEq, Eq)]
pub struct SplitPlan {
    /// Active merge decisions whose validity intervals must close.
    pub close_merges: Vec<DecisionId>,
    /// Intended identity/observation partition.
    pub partitions: Vec<SplitPartition>,
    /// Downstream transactions to invalidate or mark ambiguous.
    pub invalidate_dependents: Vec<TransactionId>,
}

/// At least two partitions, each holding at least one observation.
pub open spec fn split_is_complete(parts: Seq<SplitPartition>) -> bool {
    &&& parts.len() >= 2
    &&& forall|a: int| 0 <= a < parts.len() ==> #[trigger] parts[a].observations@.len() > 0
}

/// No identity represents two partitions.
pub open spec fn split_identities_distinct(parts: Seq<SplitPartition>) -> bool {
    forall|a: int, b: int|
        0 <= a < b < parts.len() ==> #[trigger] parts[a].identity != #[trigger] parts[b].identity
}

/// A position `(partition, slot)` of an observation in a split.
pub open spec fn split_position(parts: Seq<SplitPartition>, a: int, x: int) -> bool {
    0 <= a < parts.len() && 0 <= x < parts[a].observations@.len()
}

/// Lexicographic order of observation positions.
pub open spec fn position_before(a: int, x: int, b: int, y: int) -> bool {
    a < b || (a == b && x < y)
}

/// The observation at a position.
pub open spec fn observation_at(parts: Seq<SplitPartition>, a: int, x: int) -> ObservationId {
    parts[a].observations@[x]
}

/// No observation occurs at two positions of the split, within one
/// partition or across partitions.
pub open spec fn split_observations_distinct(parts: Seq<SplitPartition>) -> bool {
    forall|a: int, x: int, b: int, y: int|
        split_position(parts, a, x) && split_position(parts, b, y) && position_before(a, x, b, y)
            ==> #[trigger] observation_at(parts, a, x) != #[trigger] observation_at(parts, b, y)
}

fn occurs_in_prefix(values: &Vec<ObservationId>, upto: usize, value: ObservationId) -> (found: bool)
    requires
        upto <= values@.len(),
    ensures
        found == exists|x: int| 0 <= x < upto && values@[x] == value,
{
    let mut x: usize = 0;
    while x < upto
        invariant
            x <= upto <= values@.len(),
            forall|k: int| 0 <= k < x ==> values@[k] != value,
        decreases upto - x,
    {
        if values[x].0 == value.0 {
            return true;
        }
        x += 1;
    }
    false
}

fn occurs_earlier(parts: &Vec<SplitPartition>, i: usize, j: usize) -> (found: bool)
    requires
        split_position(parts@, i as int, j as int),
    ensures
        found == exists|a: int, x: int|
            split_position(parts@, a, x) && position_before(a, x, i as int, j as int)
                && #[trigger] observation_at(parts@, a, x) == observation_at(
                parts@,
                i as int,
                j as int,
            ),
{
    let value = parts[i].observations[j];
    let mut a: usize = 0;
    while a < i
        invariant
            a <= i < parts@.len(),
            value == observation_at(parts@, i as int, j as int),
            forall|b: int, y: int|
                0 <= b < a && split_position(parts@, b, y) ==> #[trigger] observation_at(parts@, b, y)
                    != value,
        decreases i - a,
    {
        if occurs_in_prefix(&parts[a].observations, parts[a].observations.len(), value) {
            let ghost x = choose|x: int|
                0 <= x < parts@[a as int].observations@.len() && parts@[a as int].observations@[x]
                    == value;
            assert(observation_at(parts@, a as int, x) == value);
            return true;
        }
        a += 1;
    }
    if occurs_in_prefix(&parts[i].observations, j, value) {
        let ghost x = choose|x: int| 0 <= x < j && parts@[i as int].observations@[x] == value;
        assert(observation_at(parts@, i as int, x) == value);
        return true;
    }
    assert forall|b: int, y: int|
        split_position(parts@, b, y) && position_before(b, y, i as int, j as int) implies #[trigger] observation_at(
        parts@,
        b,
        y,
    ) != observation_at(parts@, i as int, j as int) by {
        if b == i {
            assert(parts@[i as int].observations@[y] != value);
        }
    }
    false
}

fn identity_earlier(parts: &Vec<SplitPartition>, i: usize) -> (found: bool)
    requires
        i < parts@.len(),
    ensures
        found == exists|a: int| 0 <= a < i && parts@[a].identity == parts@[i as int].identity,
{
    let mut a: usize = 0;
    while a < i
        invariant
            a <= i < parts@.len(),
            forall|b: int| 0 <= b < a ==> parts@[b].identity != parts@[i as int].identity,
        decreases i - a,
    {
        if parts[a].identity.0 == parts[i].identity.0 {
            return true;
        }
        a += 1;
    }
    false
}

impl SplitPlan {
    /// Creates a complete intended split partition and dependency plan.
    ///
    /// Fewer than two partitions, or a partition without observations, is an
    /// incomplete split; an identity or observation that occurs twice is an
    /// overlapping split.
    pub fn new(
        close_merges: Vec<DecisionId>,
        partitions: Vec<SplitPartition>,
        invalidate_dependents: Vec<TransactionId>,
    ) -> (plan: Result<Self, CommandError>)
        ensures
            !split_is_complete(partitions@) ==> plan == Err::<Self, CommandError>(
                CommandError::IncompleteSplit,
            ),
            split_is_complete(partitions@) && !(split_identities_distinct(partitions@)
                && split_observations_distinct(partitions@)) ==> plan == Err::<Self, CommandError>(
                CommandError::OverlappingSplit,
            ),
            split_is_complete(partitions@) && split_identities_distinct(partitions@)
                && split_observations_distinct(partitions@) ==> (plan matches Ok(p) && p
                == (SplitPlan { close_merges, partitions, invalidate_dependents })),
    {
        if partitions.len() < 2 {
            return Err(CommandError::IncompleteSplit);
        }
        let mut k: usize = 0;
        while k < partitions.len()
            invariant
                k <= partitions@.len(),
                forall|a: int| 0 <= a < k ==> #[trigger] partitions@[a].observations@.len() > 0,
            decreases partitions@.len() - k,
        {
            if partitions[k].observations.len() == 0 {
                return Err(CommandError::IncompleteSplit);
            }
            k += 1;
        }
        let mut i: usize = 0;
        while i < partitions.len()
            invariant
                i <= partitions@.len(),
                split_is_complete(partitions@),
                forall|a: int, b: int|
                    0 <= a < b < i ==> #[trigger] partitions@[a].identity
                        != #[trigger] partitions@[b].identity,
                forall|a: int, x: int, b: int, y: int|
                    split_position(partitions@, a, x) && split_position(partitions@, b, y)
                        && position_before(a, x, b, y) && b < i ==> #[trigger] observation_at(
                        partitions@,
                        a,
                        x,
                    ) != #[trigger] observation_at(partitions@, b, y),
            decreases partitions@.len() - i,
        {
            if identity_earlier(&partitions, i) {
                assert(!split_identities_distinct(partitions@));
                return Err(CommandError::OverlappingSplit);
            }
            let mut j: usize = 0;
            while j < partitions[i].observations.len()
                invariant
                    i < partitions@.len(),
                    j <= partitions@[i as int].observations@.len(),
                    split_is_complete(partitions@),
                    forall|a: int, x: int, b: int, y: int|
                        split_position(partitions@, a, x) && split_position(partitions@, b, y)
                            && position_before(a, x, b, y) && (b < i || (b == i && y < j))
                            ==> #[trigger] observation_at(partitions@, a, x)
                            != #[trigger] observation_at(partitions@, b, y),
                decreases partitions@[i as int].observations@.len() - j,
            {
                if occurs_earlier(&partitions, i, j) {
                    assert(!split_observations_distinct(partitions@));
                    return Err(CommandError::OverlappingSplit);
                }
                j += 1;
            }
            i += 1;
        }
        Ok(SplitPlan { close_merges, partitions, invalidate_dependents })
    }
}

/// Valid structural command payload; contextual ledger checks happen at
/// commit. The evidence envelope `O`, the inference record `I` and the
/// decision record `D` are the types of the numeric scoring layer.
#[derive(Debug, Clone, PartialEq)]
pub enum ResolutionCommand<O, I, D> {
    /// Append immutable evidence before inference.
    PersistObservation(O),
    /// Atomically append one inference and its distinct policy decision.
    CommitResolution {
        /// Durable normalized inference record.
        inference: Arc<I>,
        /// Durable policy decision supported by `inference`.
        decision: Arc<D>,
        /// Identity allocated when the selected action creates one.
        created_identity: Option<IdentityId>,
    },
    /// Create a latent identity explicitly.
    CreateIdentity {
        /// New stable identity identifier.
        identity: IdentityId,
        /// Event time used for the lifecycle descriptor.
        created_at: Timestamp,
    },
    /// Promote a latent identity to an authoritative host entity.
    Promote {
        /// Latent identity leaving the active workspace.
        identity: IdentityId,
        /// Authoritative promotion target.
        target: HostEntityRef,
    },
    /// Append an explicit merge decision with supporting decisions.
    Merge {
        /// Stable merge decision identifier.
        decision: DecisionId,
        /// First merge-class member.
        left: IdentityId,
        /// Second merge-class member.
        right: IdentityId,
        /// Association decisions supporting the merge.
        support: Vec<DecisionId>,
        /// Merge policy version.
        policy_version: u64,
        /// Merge loss model or operating-point version.
        loss_version: u64,
    },
    /// Apply an intended split and dependent invalidations.
    Split(SplitPlan),
    /// Remove an active identity from the hot workspace.
    Dormant(IdentityId),
    /// Return a dormant identity to the hot workspace.
    Reactivate(IdentityId),
    /// Exclude an identity from ordinary retrieval.
    Retire(IdentityId),
    /// Revert, cascade-close, or compensate an earlier transaction.
    Revert {
        /// Earlier transaction being revised.
        transaction: TransactionId,
        /// Dependency handling strategy.
        mode: RevertMode,
    },
    /// Record a successful idempotent host materialization receipt.
    Materialized {
        /// Outbox entry identifier.
        materialization: MaterializationId,
        /// Decision responsible for the host write.
        decision: DecisionId,
    },
    /// Append a transactional outbox plan without mutating the host graph.
    EnqueueMaterialization {
        /// Stable outbox entry identifier.
        materialization: MaterializationId,
        /// Decision responsible for the future host write.
        decision: DecisionId,
        /// Native host relation to write idempotently.
        relation: HostRelation,
    },
}

impl<O, I, D> ResolutionCommand<O, I, D> {
    /// Creates a structurally valid merge command; identical endpoints are
    /// rejected.
    pub fn merge(
        decision: DecisionId,
        left: IdentityId,
        right: IdentityId,
        support: Vec<DecisionId>,
        policy_version: u64,
        loss_version: u64,
    ) -> (command: Result<Self, CommandError>)
        ensures
            left == right ==> command == Err::<Self, CommandError>(CommandError::SelfMerge),
            left != right ==> command == Ok::<Self, CommandError>(
                ResolutionCommand::Merge { decision, left, right, support, policy_version, loss_version },
            ),
    {
        if left == right {
            return Err(CommandError::SelfMerge);
        }
        Ok(ResolutionCommand::Merge { decision, left, right, support, policy_version, loss_version })
    }
}

/// Command envelope carrying conflict and deterministic replay metadata
/// around an atomic, non-empty command batch.
#[derive(Debug, Clone, PartialEq)]
pub struct CommandEnvelope<O, I, D> {
    transaction: TransactionId,
    expected_version: CommitVersion,
    idempotency: IdempotencyKey,
    issued_at: Timestamp,
    depends_on: Vec<TransactionId>,
    commands: Vec<ResolutionCommand<O, I, D>>,
}

impl<O, I, D> CommandEnvelope<O, I, D> {
    /// Producer transaction identifier, for specifications.
    pub closed spec fn spec_transaction(&self) -> TransactionId {
        self.transaction
    }

    /// Snapshot version of the producer, for specifications.
    pub closed spec fn spec_expected_version(&self) -> CommitVersion {
        self.expected_version
    }

    /// Replay key, for specifications.
    pub closed spec fn spec_idempotency(&self) -> IdempotencyKey {
        self.idempotency
    }

    /// Ingestion timestamp, for specifications.
    pub closed spec fn spec_issued_at(&self) -> Timestamp {
        self.issued_at
    }

    /// Explicit transaction dependencies, for specifications.
    pub closed spec fn spec_depends_on(&self) -> Seq<TransactionId> {
        self.depends_on@
    }

    /// The atomic command batch, for specifications.
    pub closed spec fn spec_commands(&self) -> Seq<ResolutionCommand<O, I, D>> {
        self.commands@
    }

    /// Creates an atomic command envelope; an empty batch is rejected.
    pub fn new(
        transaction: TransactionId,
        expected_version: CommitVersion,
        idempotency: IdempotencyKey,
        issued_at: Timestamp,
        depends_on: Vec<TransactionId>,
        commands: Vec<ResolutionCommand<O, I, D>>,
    ) -> (envelope: Result<Self, CommandError>)
        ensures
            commands@.len() == 0 <==> envelope == Err::<Self, CommandError>(CommandError::EmptyBatch),
            commands@.len() > 0 <==> envelope is Ok,
            envelope matches Ok(e) ==> {
                &&& e.spec_transaction() == transaction
                &&& e.spec_expected_version() == expected_version
                &&& e.spec_idempotency() == idempotency
                &&& e.spec_issued_at() == issued_at
                &&& e.spec_depends_on() == depends_on@
                &&& e.spec_commands() == commands@
            },
    {
        if commands.len() == 0 {
            return Err(CommandError::EmptyBatch);
        }
        Ok(CommandEnvelope { transaction, expected_version, idempotency, issued_at, depends_on, commands })
    }

    /// Returns the producer transaction identifier.
    pub fn transaction(&self) -> (transaction: TransactionId)
        ensures
            transaction == self.spec_transaction(),
    {
        self.transaction
    }

    /// Returns the coherent snapshot version used by the command producer.
    pub fn expected_version(&self) -> (version: CommitVersion)
        ensures
            version == self.spec_expected_version(),
    {
        self.expected_version
    }

    /// Returns the stable replay key.
    pub fn idempotency(&self) -> (key: IdempotencyKey)
        ensures
            key == self.spec_idempotency(),
    {
        self.idempotency
    }

    /// Returns the command ingestion timestamp.
    pub fn issued_at(&self) -> (issued_at: Timestamp)
        ensures
            issued_at == self.spec_issued_at(),
    {
        self.issued_at
    }

    /// Borrows the explicit transaction dependencies.
    pub fn depends_on(&self) -> (dependencies: &[TransactionId])
        ensures
            dependencies@ == self.spec_depends_on(),
    {
        self.depends_on.as_slice()
    }

    /// Borrows the atomic command batch.
    pub fn commands(&self) -> (commands: &[ResolutionCommand<O, I, D>])
        ensures
            commands@ == self.spec_commands(),
    {
        self.commands.as_slice()
    }
}

} // verus!
