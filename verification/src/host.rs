//! Authoritative host-graph references and type-safe ESKG relation roles.
use crate::ids::{CommitVersion, EventId, PhysicalNodeId, SemanticNodeId, StateId};
use vstd::prelude::*;
use crate::precedence::{bytes_precede, compare_bytes, lemma_bytes_precede_from_asymmetric, lemma_bytes_precede_from_transitive, Precedence};
use vstd::string::StringExecFns;

verus! {

/// Lightweight reference to an authoritative entity at one coherent snapshot.
#[derive(Debug, Clone, PartialEq, Eq, PartialOrd, Ord, Hash)]
pub struct HostEntityRef {
    backend: u32,
    key: String,
    snapshot: CommitVersion,
}

/// Error returned when an authoritative host reference is malformed.
#[derive(Debug, Clone, Copy, PartialEq, Eq, Structural)]
pub enum HostReferenceError {
    /// The backend-specific key was empty.
    EmptyKey,
}

impl HostEntityRef {
    /// Deployment-local host adapter code, for specifications.
    pub closed spec fn spec_backend(&self) -> u32 {
        self.backend
    }

    /// Opaque backend key, for specifications.
    pub closed spec fn spec_key(&self) -> Seq<char> {
        self.key@
    }

    /// Host snapshot version, for specifications.
    pub closed spec fn spec_snapshot(&self) -> CommitVersion {
        self.snapshot
    }

    /// A reference is valid when its key is non-empty.
    pub closed spec fn inv(&self) -> bool {
        self.key@.len() > 0
    }

    /// Creates a validated reference to an authoritative host entity; the
    /// key is preserved without interpretation.
    pub fn new(backend: u32, key: &str, snapshot: CommitVersion) -> (reference: Result<
        Self,
        HostReferenceError,
    >)
        ensures
            key@.len() == 0 <==> reference is Err,
            reference matches Ok(r) ==> {
                &&& r.inv()
                &&& r.spec_backend() == backend
                &&& r.spec_key() == key@
                &&& r.spec_snapshot() == snapshot
            },
    {
        if key.is_empty() {
            return Err(HostReferenceError::EmptyKey);
        }
        Ok(Self { backend, key: String::from_str(key), snapshot })
    }

    /// The order of references: by backend, then by the UTF-8 bytes of the
    /// key, then by snapshot version.
    pub open spec fn spec_precedes(&self, other: &Self) -> bool {
        ||| self.spec_backend() < other.spec_backend()
        ||| self.spec_backend() == other.spec_backend() && bytes_precede(
            vstd::utf8::encode_utf8(self.spec_key()),
            vstd::utf8::encode_utf8(other.spec_key()),
        )
        ||| self.spec_backend() == other.spec_backend() && self.spec_key() == other.spec_key()
            && self.spec_snapshot().value() < other.spec_snapshot().value()
    }

    /// Whether two references agree on backend, key and snapshot.
    pub open spec fn spec_same(&self, other: &Self) -> bool {
        &&& self.spec_backend() == other.spec_backend()
        &&& self.spec_key() == other.spec_key()
        &&& self.spec_snapshot() == other.spec_snapshot()
    }

    /// The order of references is a strict order: asymmetric and
    /// transitive.
    pub proof fn lemma_precedes_strict_order(a: &Self, b: &Self, c: &Self)
        ensures
            a.spec_precedes(b) ==> !b.spec_precedes(a),
            a.spec_precedes(b) && b.spec_precedes(c) ==> a.spec_precedes(c),
    {
        let ka = vstd::utf8::encode_utf8(a.spec_key());
        let kb = vstd::utf8::encode_utf8(b.spec_key());
        let kc = vstd::utf8::encode_utf8(c.spec_key());
        lemma_bytes_precede_from_asymmetric(ka, kb, 0);
        lemma_bytes_precede_from_asymmetric(ka, ka, 0);
        lemma_bytes_precede_from_asymmetric(kb, kb, 0);
        if bytes_precede(ka, kb) && bytes_precede(kb, kc) {
            lemma_bytes_precede_from_transitive(ka, kb, kc, 0);
        }
    }

    /// Compares two references under [`HostEntityRef::spec_precedes`].
    pub fn precedence(&self, other: &Self) -> (p: Precedence)
        ensures
            (p == Precedence::Before) == self.spec_precedes(other),
            (p == Precedence::Same) == self.spec_same(other),
            (p == Precedence::After) == other.spec_precedes(self),
    {
        proof {
            Self::lemma_precedes_strict_order(self, other, other);
            Self::lemma_precedes_strict_order(self, self, self);
            vstd::utf8::encode_utf8_decode_utf8(self.key@);
            vstd::utf8::encode_utf8_decode_utf8(other.key@);
        }
        if self.backend < other.backend {
            return Precedence::Before;
        }
        if self.backend > other.backend {
            return Precedence::After;
        }
        match compare_bytes(self.key.as_str().as_bytes(), other.key.as_str().as_bytes()) {
            Precedence::Before => Precedence::Before,
            Precedence::After => Precedence::After,
            Precedence::Same => {
                let mine = self.snapshot.get();
                let theirs = other.snapshot.get();
                if mine < theirs {
                    Precedence::Before
                } else if mine > theirs {
                    Precedence::After
                } else {
                    proof {
                        CommitVersion::lemma_value_determines_version(self.snapshot, other.snapshot);
                    }
                    Precedence::Same
                }
            },
        }
    }

    /// Returns the deployment-local host adapter code.
    pub fn backend(&self) -> (backend: u32)
        ensures
            backend == self.spec_backend(),
    {
        self.backend
    }

    /// Returns the opaque backend key without allocation.
    pub fn key(&self) -> (key: &str)
        ensures
            key@ == self.spec_key(),
    {
        self.key.as_str()
    }

    /// Returns the coherent host snapshot version.
    pub fn snapshot(&self) -> (snapshot: CommitVersion)
        ensures
            snapshot == self.spec_snapshot(),
    {
        self.snapshot
    }
}

/// Authoritative host node partition.
#[derive(Debug, Clone, Copy, PartialEq, Eq, Structural, Hash)]
pub enum HostNodeId {
    /// Event-state graph state node.
    State(StateId),
    /// Event-state graph event node.
    Event(EventId),
    /// Authoritative physical-entity node.
    Physical(PhysicalNodeId),
    /// Authoritative semantic-knowledge node.
    Semantic(SemanticNodeId),
}

/// Closed set of motivating ESKG host predicate roles.
#[derive(Debug, Clone, Copy, PartialEq, Eq, Structural, PartialOrd, Ord, Hash)]
pub enum HostRelationRole {
    /// State activates or enables an event: `State -> Event`.
    Triggers,
    /// Event produces or leads to a resulting state: `Event -> State`.
    LeadsTo,
    /// Direct state evolution: `State -> State`.
    Evolution,
    /// Composite-event containment: `Event -> Event`.
    Contain,
    /// Event-space attribution: `Event -> Physical`.
    Occur,
    /// Host process or quality influence: `Event -> Physical`.
    Influence,
}

/// The stable compact code of each role, in declaration order.
pub open spec fn spec_role_code(role: HostRelationRole) -> u8 {
    match role {
        HostRelationRole::Triggers => 0,
        HostRelationRole::LeadsTo => 1,
        HostRelationRole::Evolution => 2,
        HostRelationRole::Contain => 3,
        HostRelationRole::Occur => 4,
        HostRelationRole::Influence => 5,
    }
}

impl HostRelationRole {
    /// Returns all six host roles in their stable code order.
    pub fn all() -> (roles: [HostRelationRole; 6])
        ensures
            forall|i: int| 0 <= i < 6 ==> spec_role_code(#[trigger] roles@[i]) == i,
    {
        [
            HostRelationRole::Triggers,
            HostRelationRole::LeadsTo,
            HostRelationRole::Evolution,
            HostRelationRole::Contain,
            HostRelationRole::Occur,
            HostRelationRole::Influence,
        ]
    }

    /// Returns the stable compact role code.
    pub fn code(self) -> (code: u8)
        ensures
            code == spec_role_code(self),
    {
        match self {
            HostRelationRole::Triggers => 0,
            HostRelationRole::LeadsTo => 1,
            HostRelationRole::Evolution => 2,
            HostRelationRole::Contain => 3,
            HostRelationRole::Occur => 4,
            HostRelationRole::Influence => 5,
        }
    }
}

/// Distinct roles have distinct codes, and every code is below six.
pub proof fn law_role_codes_are_distinct(a: HostRelationRole, b: HostRelationRole)
    ensures
        spec_role_code(a) < 6,
        spec_role_code(a) == spec_role_code(b) <==> a == b,
{
}

/// Type-safe host relation whose endpoints are valid by construction.
#[derive(Debug, Clone, Copy, PartialEq, Eq, Structural, Hash)]
pub enum HostRelation {
    /// `Triggers(state, event)`.
    Triggers {
        /// Enabling state.
        state: StateId,
        /// Triggered event.
        event: EventId,
    },
    /// `LeadsTo(event, state)`.
    LeadsTo {
        /// Producing event.
        event: EventId,
        /// Resulting state.
        state: StateId,
    },
    /// `Evolution(from, to)`.
    Evolution {
        /// Earlier state.
        from: StateId,
        /// Later state.
        to: StateId,
    },
    /// `Contain(container, contained)`.
    Contain {
        /// Composite event.
        container: EventId,
        /// Contained event.
        contained: EventId,
    },
    /// `Occur(event, physical)`.
    Occur {
        /// Located event.
        event: EventId,
        /// Physical location or entity.
        physical: PhysicalNodeId,
    },
    /// `Influence(event, physical)`.
    Influence {
        /// Influencing event.
        event: EventId,
        /// Influenced physical node.
        physical: PhysicalNodeId,
    },
}

/// The host-schema role of a relation.
pub open spec fn spec_relation_role(relation: HostRelation) -> HostRelationRole {
    match relation {
        HostRelation::Triggers { .. } => HostRelationRole::Triggers,
        HostRelation::LeadsTo { .. } => HostRelationRole::LeadsTo,
        HostRelation::Evolution { .. } => HostRelationRole::Evolution,
        HostRelation::Contain { .. } => HostRelationRole::Contain,
        HostRelation::Occur { .. } => HostRelationRole::Occur,
        HostRelation::Influence { .. } => HostRelationRole::Influence,
    }
}

/// The typed source and target nodes of a relation.
pub open spec fn spec_relation_endpoints(relation: HostRelation) -> (HostNodeId, HostNodeId) {
    match relation {
        HostRelation::Triggers { state, event } => (HostNodeId::State(state), HostNodeId::Event(event)),
        HostRelation::LeadsTo { event, state } => (HostNodeId::Event(event), HostNodeId::State(state)),
        HostRelation::Evolution { from, to } => (HostNodeId::State(from), HostNodeId::State(to)),
        HostRelation::Contain { container, contained } => (
            HostNodeId::Event(container),
            HostNodeId::Event(contained),
        ),
        HostRelation::Occur { event, physical } => (
            HostNodeId::Event(event),
            HostNodeId::Physical(physical),
        ),
        HostRelation::Influence { event, physical } => (
            HostNodeId::Event(event),
            HostNodeId::Physical(physical),
        ),
    }
}

impl HostRelation {
    /// Returns the host-schema role represented by this relation.
    pub fn role(self) -> (role: HostRelationRole)
        ensures
            role == spec_relation_role(self),
    {
        match self {
            HostRelation::Triggers { .. } => HostRelationRole::Triggers,
            HostRelation::LeadsTo { .. } => HostRelationRole::LeadsTo,
            HostRelation::Evolution { .. } => HostRelationRole::Evolution,
            HostRelation::Contain { .. } => HostRelationRole::Contain,
            HostRelation::Occur { .. } => HostRelationRole::Occur,
            HostRelation::Influence { .. } => HostRelationRole::Influence,
        }
    }

    /// Returns the typed source and target nodes without dynamic validation.
    pub fn endpoints(self) -> (endpoints: (HostNodeId, HostNodeId))
        ensures
            endpoints == spec_relation_endpoints(self),
    {
        match self {
            HostRelation::Triggers { state, event } => (
                HostNodeId::State(state),
                HostNodeId::Event(event),
            ),
            HostRelation::LeadsTo { event, state } => (
                HostNodeId::Event(event),
                HostNodeId::State(state),
            ),
            HostRelation::Evolution { from, to } => (HostNodeId::State(from), HostNodeId::State(to)),
            HostRelation::Contain { container, contained } => (
                HostNodeId::Event(container),
                HostNodeId::Event(contained),
            ),
            HostRelation::Occur { event, physical } => (
                HostNodeId::Event(event),
                HostNodeId::Physical(physical),
            ),
            HostRelation::Influence { event, physical } => (
                HostNodeId::Event(event),
                HostNodeId::Physical(physical),
            ),
        }
    }
}

/// The endpoint partitions of every host relation follow its role's
/// signature, and no relation ever touches a semantic node.
pub proof fn law_endpoints_follow_role_signature(relation: HostRelation)
    ensures
        ({
            let (source, target) = spec_relation_endpoints(relation);
            match spec_relation_role(relation) {
                HostRelationRole::Triggers => source is State && target is Event,
                HostRelationRole::LeadsTo => source is Event && target is State,
                HostRelationRole::Evolution => source is State && target is State,
                HostRelationRole::Contain => source is Event && target is Event,
                HostRelationRole::Occur | HostRelationRole::Influence => source is Event
                    && target is Physical,
            }
        }),
        !(spec_relation_endpoints(relation).0 is Semantic),
        !(spec_relation_endpoints(relation).1 is Semantic),
{
}

/// Every relation runs from its first declared node to its second: an
/// enabling state triggers its event, an event leads to its resulting state,
/// a state evolves from the earlier to the later one, a composite event
/// contains its part, and an event occurs at or influences its physical
/// node.
pub proof fn law_endpoints_run_in_declaration_order(
    state: StateId,
    event: EventId,
    from: StateId,
    to: StateId,
    container: EventId,
    contained: EventId,
    physical: PhysicalNodeId,
)
    ensures
        spec_relation_endpoints(HostRelation::Triggers { state, event }) == (HostNodeId::State(state), HostNodeId::Event(event)),
        spec_relation_endpoints(HostRelation::LeadsTo { event, state }) == (HostNodeId::Event(event), HostNodeId::State(state)),
        spec_relation_endpoints(HostRelation::Evolution { from, to }) == (HostNodeId::State(from), HostNodeId::State(to)),
        spec_relation_endpoints(HostRelation::Contain { container, contained }) == (
            HostNodeId::Event(container),
            HostNodeId::Event(contained),
        ),
        spec_relation_endpoints(HostRelation::Occur { event, physical }) == (
            HostNodeId::Event(event),
            HostNodeId::Physical(physical),
        ),
        spec_relation_endpoints(HostRelation::Influence { event, physical }) == (
            HostNodeId::Event(event),
            HostNodeId::Physical(physical),
        ),
{
}

} // verus!
