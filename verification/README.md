# li_eskg

A latent-identity event-state knowledge graph: uncertain entity resolution
joined to an authoritative event-state graph. The library keeps three planes
apart: an active, allocation-reusing probabilistic workspace; an append-only
resolution ledger of immutable evidence, inferences, decisions, revisions and
outbox entries; and a host graph that holds accepted native event-state
relations only.

## Layout

- `src/` is the library, written in Verus: identifiers and typed lifecycle
  states, relation schema rules, the `petgraph`-backed knowledge-graph store
  with atomic batches, identity merges and support queries, graph invariant
  validators, the event-state projection, host materialization, candidate
  buffers and factor scopes, the message layout and topology of the
  sum-product solver, command envelopes, RDF/PROV export text, bounded queues
  and histories. Every function carries a contract that Verus proves; calls
  into `petgraph`, `hashbrown`, `smallvec`, `chrono` and `crossbeam-channel`
  go through small trusted wrappers whose contracts restate what those crates
  document, and the `raw_*` modules hold them.
- `app/` is ordinary Rust around the library: probability scalars, scores,
  loss models and decisions, numeric message passing and belief propagation,
  spatial likelihoods, the evaluation protocol's metrics, `serde` forms and
  `chrono` datetime conversions — everything whose logic computes with
  floating-point values or needs an outside trait on a library type.
- `tests/` exercises the library through its public interface.

## Not included

The runtime orchestration is not part of this library: the batch resolution
runtime, the reactive runtime engine, the operational pipeline with its
scheduler, and the factor compilers that feed them. They drive the
append-only ledger of `li_storage` and the active workspace of `li_workspace`,
crates that this library does not depend on. Their decision steps are here and
verified: `scheduler::plan_observation_commit` fixes the operations that
commit one observation, `executor::OperationExecutor` hands a batch to an
`ExecutionSink` exactly once, and `pipeline` holds the batch phases, the
sequence counter, the identifier pool and the bounded ingress queue.
