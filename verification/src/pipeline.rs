//! Batch phase tokens, snapshot versions, host-materialization boundary,
//! bounded ingestion and stable identifier sequences of the resolution
//! pipeline.
use crate::command::{CommandEnvelope, CommandError, IdempotencyKey, ResolutionCommand};
use crate::decision::DecisionError;
use crate::evidence::ContentHash;
use crate::host::HostRelation;
use crate::ids::{CommitVersion, DecisionId, MaterializationId, ProviderId, TransactionId};
use crate::observation::Timestamp;
use crate::provider::ProviderError;
use crate::raw_channel::{
    channel_bounded, channel_is_empty, channel_len, channel_try_recv, channel_try_send, ReceiveRefusal,
    SendRefusal,
};
use crate::solver::SolverError;
use core::marker::PhantomData;
use crossbeam_channel::{Receiver, Sender};
use vstd::prelude::*;

verus! {

/// Coherent read-mostly host and provider-index versions for one batch.
#[derive(Debug, Clone, Copy, PartialEq, Eq)]
pub struct RuntimeSnapshot {
    /// Authoritative host snapshot version.
    pub host: CommitVersion,
    /// Candidate index snapshot or configuration version.
    pub candidates: u64,
    /// Hash of candidate, solver and provider configuration.
    pub configuration_hash: ContentHash,
}

/// Stable materializer failure retained while the outbox entry stays pending.
#[derive(Debug, Clone, Copy, PartialEq, Eq, Structural)]
pub struct MaterializationFailure {
    /// Deployment-specific stable diagnostic code.
    pub code: u32,
}

/// Idempotent adapter writing native relations into the authoritative host;
/// implemented by deployments.
pub trait HostMaterializer {
    /// Writes one native relation, using `materialization` as the
    /// idempotency key.
    fn materialize(
        &mut self,
        materialization: MaterializationId,
        relation: HostRelation,
        decision: DecisionId,
        commit: CommitVersion,
    ) -> Result<(), MaterializationFailure>;
}

/// Marker for a received but unpersisted batch.
pub struct Received;

/// Marker for an evidence-persisted batch.
pub struct Persisted;

/// Marker for a batch with a normalized posterior.
pub struct Inferred;

/// Marker for a batch with explicit policy decisions.
pub struct Decided;

/// Marker for an atomically committed resolution batch.
pub struct Committed;

/// Typestate token making the order of batch phases non-interchangeable:
/// a token of one phase is only obtained by consuming the previous one.
pub struct BatchPhase<S> {
    batch_len: usize,
    version: CommitVersion,
    marker: PhantomData<S>,
}

impl<S> BatchPhase<S> {
    /// Number of observations in the batch, for specifications.
    pub closed spec fn spec_batch_len(&self) -> usize {
        self.batch_len
    }

    /// Ledger version reached by the batch, for specifications.
    pub closed spec fn spec_version(&self) -> CommitVersion {
        self.version
    }

    /// Number of observations in the batch.
    pub fn batch_len(&self) -> (len: usize)
        ensures
            len == self.spec_batch_len(),
    {
        self.batch_len
    }

    /// Ledger version reached by the batch.
    pub fn version(&self) -> (version: CommitVersion)
        ensures
            version == self.spec_version(),
    {
        self.version
    }
}

impl BatchPhase<Received> {
    /// Opens a batch of `batch_len` observations read at `version`.
    pub fn new(batch_len: usize, version: CommitVersion) -> (phase: Self)
        ensures
            phase.spec_batch_len() == batch_len,
            phase.spec_version() == version,
    {
        BatchPhase { batch_len, version, marker: PhantomData }
    }

    /// Records that the evidence became durable at `version`.
    pub fn persisted(self, version: CommitVersion) -> (phase: BatchPhase<Persisted>)
        ensures
            phase.spec_batch_len() == self.spec_batch_len(),
            phase.spec_version() == version,
    {
        BatchPhase { batch_len: self.batch_len, version, marker: PhantomData }
    }
}

impl BatchPhase<Persisted> {
    /// Records that the posterior was inferred; the version is kept.
    pub fn inferred(self) -> (phase: BatchPhase<Inferred>)
        ensures
            phase.spec_batch_len() == self.spec_batch_len(),
            phase.spec_version() == self.spec_version(),
    {
        BatchPhase { batch_len: self.batch_len, version: self.version, marker: PhantomData }
    }
}

impl BatchPhase<Inferred> {
    /// Records that policy decisions were taken; the version is kept.
    pub fn decided(self) -> (phase: BatchPhase<Decided>)
        ensures
            phase.spec_batch_len() == self.spec_batch_len(),
            phase.spec_version() == self.spec_version(),
    {
        BatchPhase { batch_len: self.batch_len, version: self.version, marker: PhantomData }
    }
}

impl BatchPhase<Decided> {
    /// Records that the resolution committed at `version`.
    pub fn committed(self, version: CommitVersion) -> (phase: BatchPhase<Committed>)
        ensures
            phase.spec_batch_len() == self.spec_batch_len(),
            phase.spec_version() == version,
    {
        BatchPhase { batch_len: self.batch_len, version, marker: PhantomData }
    }
}

/// Error returned when a stable identifier sequence cannot advance.
#[derive(Debug, Clone, Copy, PartialEq, Eq, Structural)]
pub enum SequenceError {
    /// The sequence reached `u64::MAX`.
    IdExhausted,
}

/// Monotonic source of stable identifiers, starting at one; it never wraps.
#[derive(Debug)]
pub struct Sequence {
    next: u64,
}

impl Sequence {
    /// The value the next call hands out, for specifications.
    pub closed spec fn spec_next(&self) -> u64 {
        self.next
    }

    /// Creates a sequence whose first identifier is one.
    pub fn new() -> (sequence: Self)
        ensures
            sequence.spec_next() == 1,
    {
        Sequence { next: 1 }
    }

    /// Hands out the current identifier and advances by one; fails, leaving
    /// the sequence unchanged, once the identifier has reached `u64::MAX`.
    pub fn next(&mut self) -> (id: Result<u64, SequenceError>)
        ensures
            old(self).spec_next() == u64::MAX ==> id == Err::<u64, SequenceError>(
                SequenceError::IdExhausted,
            ) && final(self).spec_next() == old(self).spec_next(),
            old(self).spec_next() < u64::MAX ==> id == Ok::<u64, SequenceError>(
                old(self).spec_next(),
            ) && final(self).spec_next() == old(self).spec_next() + 1,
    {
        match self.next.checked_add(1) {
            Some(advanced) => {
                let current = self.next;
                self.next = advanced;
                Ok(current)
            },
            None => Err(SequenceError::IdExhausted),
        }
    }
}

/// Error returned before a resolution batch is durably complete.
#[derive(Debug, Clone, Copy, PartialEq, Eq)]
pub enum PipelineError {
    /// Empty collective batches have no inference semantics.
    EmptyBatch,
    /// A stable identifier sequence reached `u64::MAX`.
    IdExhausted,
    /// A provider did not emit exactly one candidate group per observation.
    IncompleteProvider {
        /// Provider that broke the batch contract.
        provider: ProviderId,
        /// Required number of observation groups.
        expected: usize,
        /// Number of observation groups emitted.
        actual: usize,
    },
    /// Structural command construction failed.
    Command(CommandError),
    /// A candidate or factor provider rejected input or emitted invalid data.
    Provider(ProviderError),
    /// Factor-graph compilation or inference failed.
    Solver(SolverError),
    /// A decision action was inconsistent with its posterior domain.
    Decision(DecisionError),
}

/// Bounded multi-producer ingestion queue with explicit overload feedback.
#[derive(Debug)]
#[verifier::reject_recursive_types(T)]
pub struct BoundedIngress<T> {
    sender: Sender<T>,
    receiver: Receiver<T>,
}

impl<T> BoundedIngress<T> {
    /// Creates a queue holding at most `capacity` items; a zero capacity is
    /// refused.
    pub fn new(capacity: usize) -> (queue: Result<Self, PipelineError>)
        requires
            capacity < usize::MAX / 4,
        ensures
            capacity == 0 <==> queue == Err::<Self, PipelineError>(PipelineError::EmptyBatch),
            capacity > 0 <==> queue is Ok,
    {
        if capacity == 0 {
            return Err(PipelineError::EmptyBatch);
        }
        let (sender, receiver) = channel_bounded(capacity);
        Ok(BoundedIngress { sender, receiver })
    }

    /// Attempts to enqueue without blocking; a refused item is handed back
    /// with the reason.
    pub fn try_send(&self, item: T) -> (result: Result<(), SendRefusal<T>>)
        ensures
            result matches Err(SendRefusal::Full(back)) ==> back == item,
            result matches Err(SendRefusal::Disconnected(back)) ==> back == item,
    {
        channel_try_send(&self.sender, item)
    }

    /// Attempts to dequeue the oldest item without blocking. Other handles
    /// of the queue decide what comes back, so no clause constrains it.
    pub fn try_recv(&self) -> (result: Result<T, ReceiveRefusal>) {
        channel_try_recv(&self.receiver)
    }

    /// Returns the current queue depth. Other handles of the queue decide
    /// it, so no clause constrains it.
    pub fn len(&self) -> (len: usize) {
        channel_len(&self.receiver)
    }

    /// Returns whether the queue currently holds no item. Other handles of
    /// the queue decide it, so no clause constrains it.
    pub fn is_empty(&self) -> (empty: bool) {
        channel_is_empty(&self.receiver)
    }
}

/// The replay key derived from transaction number `raw`: its eight
/// little-endian bytes, the tag `LIESKG`, then two zero bytes.
pub open spec fn transaction_key_bytes(raw: u64) -> Seq<u8> {
    seq![
        raw as u8,
        (raw >> 8u64) as u8,
        (raw >> 16u64) as u8,
        (raw >> 24u64) as u8,
        (raw >> 32u64) as u8,
        (raw >> 40u64) as u8,
        (raw >> 48u64) as u8,
        (raw >> 56u64) as u8,
        76u8,
        73u8,
        69u8,
        83u8,
        75u8,
        71u8,
        0u8,
        0u8,
    ]
}

/// Stable identifier sequences of one runtime: transactions, inferences,
/// decisions, identities and host materializations.
#[derive(Debug)]
pub struct IdPool {
    /// Transaction identifiers.
    pub transactions: Sequence,
    /// Inference record identifiers.
    pub inferences: Sequence,
    /// Decision record identifiers.
    pub decisions: Sequence,
    /// Identity identifiers.
    pub identities: Sequence,
    /// Host materialization identifiers.
    pub materializations: Sequence,
}

impl IdPool {
    /// Creates a pool whose sequences all start at one.
    pub fn new() -> (pool: Self)
        ensures
            pool.transactions.spec_next() == 1,
            pool.inferences.spec_next() == 1,
            pool.decisions.spec_next() == 1,
            pool.identities.spec_next() == 1,
            pool.materializations.spec_next() == 1,
    {
        IdPool {
            transactions: Sequence::new(),
            inferences: Sequence::new(),
            decisions: Sequence::new(),
            identities: Sequence::new(),
            materializations: Sequence::new(),
        }
    }

    /// Wraps a command batch in an envelope under the next transaction
    /// identifier, whose replay key is derived from it. Fails when the
    /// transaction sequence is exhausted, leaving it unchanged, or, after
    /// the identifier was drawn, when the batch is empty.
    pub fn envelope<O, I, D>(
        &mut self,
        expected: CommitVersion,
        issued_at: Timestamp,
        depends_on: Vec<TransactionId>,
        commands: Vec<ResolutionCommand<O, I, D>>,
    ) -> (envelope: Result<CommandEnvelope<O, I, D>, PipelineError>)
        ensures
            final(self).inferences == old(self).inferences,
            final(self).decisions == old(self).decisions,
            final(self).identities == old(self).identities,
            final(self).materializations == old(self).materializations,
            old(self).transactions.spec_next() == u64::MAX ==> {
                &&& envelope == Err::<CommandEnvelope<O, I, D>, PipelineError>(PipelineError::IdExhausted)
                &&& final(self).transactions.spec_next() == old(self).transactions.spec_next()
            },
            old(self).transactions.spec_next() < u64::MAX ==> {
                let raw = old(self).transactions.spec_next();
                &&& final(self).transactions.spec_next() == raw + 1
                &&& commands@.len() == 0 ==> envelope == Err::<CommandEnvelope<O, I, D>, PipelineError>(
                    PipelineError::Command(CommandError::EmptyBatch),
                )
                &&& commands@.len() > 0 ==> (envelope matches Ok(e) && {
                    &&& e.spec_transaction() == TransactionId(raw)
                    &&& e.spec_expected_version() == expected
                    &&& e.spec_idempotency().spec_bytes() == transaction_key_bytes(raw)
                    &&& e.spec_issued_at() == issued_at
                    &&& e.spec_depends_on() == depends_on@
                    &&& e.spec_commands() == commands@
                })
            },
    {
        let raw = match self.transactions.next() {
            Ok(raw) => raw,
            Err(_) => return Err(PipelineError::IdExhausted),
        };
        let bytes: [u8; 16] = [
            raw as u8,
            (raw >> 8u64) as u8,
            (raw >> 16u64) as u8,
            (raw >> 24u64) as u8,
            (raw >> 32u64) as u8,
            (raw >> 40u64) as u8,
            (raw >> 48u64) as u8,
            (raw >> 56u64) as u8,
            76u8,
            73u8,
            69u8,
            83u8,
            75u8,
            71u8,
            0u8,
            0u8,
        ];
        proof {
            assert(bytes@ =~= transaction_key_bytes(raw));
            assert(bytes@[8] != 0);
        }
        let idempotency = match IdempotencyKey::new(bytes) {
            Ok(key) => key,
            Err(error) => {
                proof {
                    assert(bytes@[8] == 0);
                }
                return Err(PipelineError::Command(error));
            },
        };
        match CommandEnvelope::new(TransactionId(raw), expected, idempotency, issued_at, depends_on, commands) {
            Ok(envelope) => Ok(envelope),
            Err(error) => Err(PipelineError::Command(error)),
        }
    }
}

} // verus!
