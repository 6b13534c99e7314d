//! Latent-identity event-state knowledge graph: identifiers, typed lifecycle
//! states, ledger commands, graph schema rules, and runtime building blocks.
pub mod ids;
pub mod precedence;
pub mod observation;
pub mod history;
pub mod belief;
pub mod ontology;
pub mod relation;
pub mod events;
pub mod channels;
pub mod host;
pub mod sealed;
pub mod identity;
pub mod evidence;
pub mod probability;
pub mod inference;
pub mod decision;
pub mod command;
pub mod host_graph;
pub mod raw_host_graph;
pub mod interoperability;
pub mod graph_ontology;
pub mod operations;
pub mod projection;
pub mod memory;
pub mod raw_graph;
pub mod graph;
pub mod queries;
pub mod invariants;
pub mod dispatcher;
pub mod executor;
pub mod pipeline;
pub mod provider;
pub mod factor;
pub mod compiler;
pub mod factor_graph;
pub mod raw_buffers;
pub mod raw_channel;
pub mod raw_components;
pub mod solver;
pub mod spatial;
pub mod map;
pub mod scheduler;
pub mod protocol;
