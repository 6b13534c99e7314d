//! Formal schema models for partitioned vertex sets.
use crate::ids::{EventId, IdentityId, ObservationId, StateId};
use vstd::prelude::*;
use vstd::std_specs::convert::FromSpecImpl;

verus! {

/// Ontology partition of a vertex.
#[derive(Debug, Clone, Copy, PartialEq, Eq, Structural, PartialOrd, Ord, Hash)]
pub enum VertexKind {
    /// Empirical observation partition `O`.
    Observation,
    /// Latent identity partition `I`.
    Identity,
    /// Temporal event partition `E`.
    Event,
    /// Causal entity state partition `S`.
    State,
}

/// Partition-tagged generic vertex identifier: equal raw values in
/// different partitions are distinct identifiers.
#[derive(Debug, Clone, Copy, PartialEq, Eq, Structural, PartialOrd, Ord, Hash)]
pub struct VertexId {
    /// Partition containing the vertex.
    pub kind: VertexKind,
    /// Raw numeric identifier inside the partition.
    pub raw: u64,
}

impl VertexId {
    /// Returns the partition containing the vertex.
    pub fn kind(&self) -> (kind: VertexKind)
        ensures
            kind == self.kind,
    {
        self.kind
    }

    /// Returns the raw numeric identifier.
    pub fn raw(&self) -> (raw: u64)
        ensures
            raw == self.raw,
    {
        self.raw
    }
}

/// Compile-time enforcement of the partitioned vertex set `V = O ⊔ I ⊔ E ⊔ S`.
#[derive(Debug, Clone, Copy, PartialEq, Eq, Structural, PartialOrd, Ord, Hash)]
pub enum Vertex {
    /// Empirical observation node (`O`).
    Observation(ObservationId),
    /// Latent identity hypothesis node (`I`).
    Identity(IdentityId),
    /// Temporal event node (`E`).
    Event(EventId),
    /// Causal entity state node (`S`).
    State(StateId),
}

impl Vertex {
    /// The raw numeric identifier of a vertex.
    pub open spec fn spec_raw_id(self) -> u64 {
        match self {
            Vertex::Observation(id) => id.0,
            Vertex::Identity(id) => id.0,
            Vertex::Event(id) => id.0,
            Vertex::State(id) => id.0,
        }
    }

    /// The partition of a vertex.
    pub open spec fn spec_kind(self) -> VertexKind {
        match self {
            Vertex::Observation(_) => VertexKind::Observation,
            Vertex::Identity(_) => VertexKind::Identity,
            Vertex::Event(_) => VertexKind::Event,
            Vertex::State(_) => VertexKind::State,
        }
    }

    /// The tagged identifier of a vertex.
    pub open spec fn spec_vertex_id(self) -> VertexId {
        VertexId { kind: self.spec_kind(), raw: self.spec_raw_id() }
    }

    /// Extracts the raw numeric value of the encapsulated node identifier.
    pub fn raw_id(&self) -> (raw: u64)
        ensures
            raw == self.spec_raw_id(),
    {
        match self {
            Vertex::Observation(id) => id.0,
            Vertex::Identity(id) => id.0,
            Vertex::Event(id) => id.0,
            Vertex::State(id) => id.0,
        }
    }

    /// Converts the typed vertex into a partition-tagged `VertexId`.
    pub fn vertex_id(&self) -> (id: VertexId)
        ensures
            id == self.spec_vertex_id(),
    {
        VertexId { kind: self.kind(), raw: self.raw_id() }
    }

    /// Returns the ontology partition containing this vertex.
    pub fn kind(&self) -> (kind: VertexKind)
        ensures
            kind == self.spec_kind(),
    {
        match self {
            Vertex::Observation(_) => VertexKind::Observation,
            Vertex::Identity(_) => VertexKind::Identity,
            Vertex::Event(_) => VertexKind::Event,
            Vertex::State(_) => VertexKind::State,
        }
    }
}

/// The tagged identifier determines the vertex: the partitions are disjoint
/// and each partition is indexed injectively by its raw identifier.
pub proof fn law_vertex_id_is_injective(a: Vertex, b: Vertex)
    ensures
        a.spec_vertex_id() == b.spec_vertex_id() <==> a == b,
{
}

impl From<ObservationId> for Vertex {
    fn from(id: ObservationId) -> (vertex: Self) {
        Vertex::Observation(id)
    }
}

impl FromSpecImpl<ObservationId> for Vertex {
    open spec fn obeys_from_spec() -> bool {
        true
    }

    open spec fn from_spec(id: ObservationId) -> Self {
        Vertex::Observation(id)
    }
}

impl From<IdentityId> for Vertex {
    fn from(id: IdentityId) -> (vertex: Self) {
        Vertex::Identity(id)
    }
}

impl FromSpecImpl<IdentityId> for Vertex {
    open spec fn obeys_from_spec() -> bool {
        true
    }

    open spec fn from_spec(id: IdentityId) -> Self {
        Vertex::Identity(id)
    }
}

impl From<EventId> for Vertex {
    fn from(id: EventId) -> (vertex: Self) {
        Vertex::Event(id)
    }
}

impl FromSpecImpl<EventId> for Vertex {
    open spec fn obeys_from_spec() -> bool {
        true
    }

    open spec fn from_spec(id: EventId) -> Self {
        Vertex::Event(id)
    }
}

impl From<StateId> for Vertex {
    fn from(id: StateId) -> (vertex: Self) {
        Vertex::State(id)
    }
}

impl FromSpecImpl<StateId> for Vertex {
    open spec fn obeys_from_spec() -> bool {
        true
    }

    open spec fn from_spec(id: StateId) -> Self {
        Vertex::State(id)
    }
}

impl From<Vertex> for VertexId {
    fn from(vertex: Vertex) -> (id: Self) {
        vertex.vertex_id()
    }
}

impl FromSpecImpl<Vertex> for VertexId {
    open spec fn obeys_from_spec() -> bool {
        true
    }

    open spec fn from_spec(vertex: Vertex) -> Self {
        vertex.spec_vertex_id()
    }
}

} // verus!
