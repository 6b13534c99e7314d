//! Node and edge payload representations of the knowledge graph.
use crate::ids::{EventId, IdentityId, StateId};
use crate::observation::{Observation, Timestamp};
use crate::ontology::Vertex;
use crate::relation::Relation;
use vstd::prelude::*;

verus! {

/// Heterogeneous vertex payloads of the knowledge graph.
#[derive(Debug, Clone, PartialEq)]
pub enum NodeData<P, E, S> {
    /// Empirical observation node (`O`).
    Observation(Observation<P>),
    /// Latent identity hypothesis node (`I`).
    Identity {
        /// Identity identifier.
        id: IdentityId,
        /// Creation time.
        created_at: Timestamp,
    },
    /// Causal event occurrence node (`E`).
    Event {
        /// Event identifier.
        id: EventId,
        /// Occurrence time.
        timestamp: Timestamp,
        /// Domain payload.
        payload: E,
    },
    /// Entity state snapshot node (`S`).
    State {
        /// State identifier.
        id: StateId,
        /// Snapshot time.
        timestamp: Timestamp,
        /// Domain payload.
        payload: S,
    },
}

impl<P, E, S> NodeData<P, E, S> {
    /// The typed vertex of a node.
    pub open spec fn spec_vertex(&self) -> Vertex {
        match self {
            NodeData::Observation(obs) => Vertex::Observation(obs.id),
            NodeData::Identity { id, .. } => Vertex::Identity(*id),
            NodeData::Event { id, .. } => Vertex::Event(*id),
            NodeData::State { id, .. } => Vertex::State(*id),
        }
    }

    /// Resolves the domain typed `Vertex` corresponding to this node.
    pub fn vertex(&self) -> (vertex: Vertex)
        ensures
            vertex == self.spec_vertex(),
    {
        match self {
            NodeData::Observation(obs) => Vertex::Observation(obs.id),
            NodeData::Identity { id, .. } => Vertex::Identity(*id),
            NodeData::Event { id, .. } => Vertex::Event(*id),
            NodeData::State { id, .. } => Vertex::State(*id),
        }
    }

    /// Extracts the raw underlying numeric ID value.
    pub fn raw_id(&self) -> (raw: u64)
        ensures
            raw == self.spec_vertex().spec_raw_id(),
    {
        self.vertex().raw_id()
    }
}

/// Persistent directed edge payload storing the semantic relation type and
/// timestamp.
#[derive(Debug, Clone, Copy, PartialEq, Eq, Structural, PartialOrd, Ord, Hash)]
pub struct EdgeData {
    /// Semantic edge classification.
    pub relation: Relation,
    /// Temporal marker when the edge was established.
    pub created_at: Timestamp,
}

/// Directed relation between two domain vertices.
#[derive(Debug, Clone, Copy, PartialEq, Eq, Structural, PartialOrd, Ord, Hash)]
pub struct Edge {
    /// Origin vertex.
    pub source: Vertex,
    /// Semantic edge classification.
    pub relation: Relation,
    /// Destination vertex.
    pub target: Vertex,
    /// Temporal marker when the edge was established.
    pub created_at: Timestamp,
}

/// Latent identity node payload.
#[derive(Debug, Clone, Copy, PartialEq, Eq, Structural)]
pub struct IdentityNode {
    /// Identity identifier.
    pub id: IdentityId,
    /// Creation time.
    pub created_at: Timestamp,
}

/// Causal event node payload.
#[derive(Debug, Clone, PartialEq)]
pub struct EventNode<E> {
    /// Event identifier.
    pub id: EventId,
    /// Occurrence time.
    pub timestamp: Timestamp,
    /// Domain payload.
    pub payload: E,
}

/// Entity state node payload.
#[derive(Debug, Clone, PartialEq)]
pub struct StateNode<S> {
    /// State identifier.
    pub id: StateId,
    /// Snapshot time.
    pub timestamp: Timestamp,
    /// Domain payload.
    pub payload: S,
}

} // verus!
