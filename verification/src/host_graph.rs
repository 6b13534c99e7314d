//! Authoritative host-only ESKG profile and the `petgraph`-backed host graph
//! that accepted decisions are materialized into.
use crate::host::{
    spec_relation_endpoints, spec_relation_role, spec_role_code, HostNodeId, HostRelation, HostRelationRole,
};
use crate::ids::{CommitVersion, DecisionId, MaterializationId};
use crate::raw_host_graph::{
    host_graph_add_edge, host_graph_add_node, host_graph_edge_count, host_graph_edge_endpoints, host_graph_edge_weight,
    host_graph_edges, host_graph_node_count, host_graph_node_weight, host_graph_nodes, host_graph_with_capacity,
    materialization_entries, materialization_index_get, materialization_index_insert, materialization_index_with_capacity,
    node_index_entries, node_index_get, node_index_insert, node_index_with_capacity, HostNodeIndex, MaterializationIndex,
};
use petgraph::stable_graph::StableGraph;
use petgraph::Directed;
use vstd::prelude::*;
use vstd::string::{StrSliceExecFns, StringExecFns};

verus! {

/// Error returned when a host schema profile is invalid.
#[derive(Debug, Clone, Copy, PartialEq, Eq, Structural)]
pub enum HostSchemaError {
    /// The host predicate for the role was empty.
    EmptyPredicate(HostRelationRole),
    /// Host predicate identifiers must be unique across the six roles.
    DuplicatePredicate,
}

/// Native host predicates for the six ESKG roles, indexed by role code.
#[derive(Debug, Clone, PartialEq, Eq)]
pub struct HostSchemaProfile {
    predicates: [String; 6],
}

/// The role whose stable code is `code`.
pub open spec fn spec_role_at(code: int) -> HostRelationRole {
    if code == 0 {
        HostRelationRole::Triggers
    } else if code == 1 {
        HostRelationRole::LeadsTo
    } else if code == 2 {
        HostRelationRole::Evolution
    } else if code == 3 {
        HostRelationRole::Contain
    } else if code == 4 {
        HostRelationRole::Occur
    } else {
        HostRelationRole::Influence
    }
}

/// The first profile violation at or after position `i`, scanning the roles
/// in code order: an empty predicate, or a predicate equal to an earlier one.
pub open spec fn profile_violation(predicates: Seq<Seq<char>>, i: int) -> Option<HostSchemaError>
    decreases predicates.len() - i,
{
    if i < 0 || i >= predicates.len() {
        None
    } else if predicates[i].len() == 0 {
        Some(HostSchemaError::EmptyPredicate(spec_role_at(i)))
    } else if exists|j: int| 0 <= j < i && predicates[j] == predicates[i] {
        Some(HostSchemaError::DuplicatePredicate)
    } else {
        profile_violation(predicates, i + 1)
    }
}

/// The character views of six predicates.
pub open spec fn predicate_views(predicates: [String; 6]) -> Seq<Seq<char>> {
    predicates@.map_values(|p: String| p@)
}

fn role_at(code: usize) -> (role: HostRelationRole)
    requires
        code < 6,
    ensures
        role == spec_role_at(code as int),
        spec_role_code(role) == code,
{
    if code == 0 {
        HostRelationRole::Triggers
    } else if code == 1 {
        HostRelationRole::LeadsTo
    } else if code == 2 {
        HostRelationRole::Evolution
    } else if code == 3 {
        HostRelationRole::Contain
    } else if code == 4 {
        HostRelationRole::Occur
    } else {
        HostRelationRole::Influence
    }
}

impl HostSchemaProfile {
    /// The predicate of each role, indexed by role code, for specifications.
    pub closed spec fn spec_predicates(&self) -> Seq<Seq<char>> {
        predicate_views(self.predicates)
    }

    /// Validates six native predicates given in role-code order: each must be
    /// non-empty and all must be distinct.
    pub fn new(predicates: [String; 6]) -> (profile: Result<Self, HostSchemaError>)
        ensures
            match profile_violation(predicate_views(predicates), 0) {
                Some(error) => profile == Err::<Self, HostSchemaError>(error),
                None => profile matches Ok(p) && p.spec_predicates() == predicate_views(
                    predicates,
                ),
            },
    {
        let ghost views = predicate_views(predicates);
        let mut i: usize = 0;
        while i < 6
            invariant
                0 <= i <= 6,
                views == predicate_views(predicates),
                views.len() == 6,
                profile_violation(views, 0) == profile_violation(views, i as int),
            decreases 6 - i,
        {
            assert(views[i as int] == predicates[i as int]@);
            if predicates[i].as_str().is_empty() {
                return Err(HostSchemaError::EmptyPredicate(role_at(i)));
            }
            let mut j: usize = 0;
            while j < i
                invariant
                    j <= i < 6,
                    views == predicate_views(predicates),
                    views.len() == 6,
                    views[i as int].len() > 0,
                    profile_violation(views, 0) == profile_violation(views, i as int),
                    forall|k: int| 0 <= k < j ==> views[k] != views[i as int],
                decreases i - j,
            {
                assert(views[j as int] == predicates[j as int]@);
                if predicates[j] == predicates[i] {
                    assert(views[j as int] == views[i as int]);
                    assert(profile_violation(views, i as int) == Some(
                        HostSchemaError::DuplicatePredicate,
                    ));
                    return Err(HostSchemaError::DuplicatePredicate);
                }
                j += 1;
            }
            i += 1;
        }
        Ok(HostSchemaProfile { predicates })
    }

    /// Returns the native predicate of a role.
    pub fn predicate(&self, role: HostRelationRole) -> (predicate: &str)
        ensures
            predicate@ == self.spec_predicates()[spec_role_code(role) as int],
    {
        let code = role.code();
        self.predicates[code as usize].as_str()
    }
}

/// One materialized native host relation and its lineage.
#[derive(Debug, Clone, PartialEq, Eq)]
pub struct HostEdge {
    /// ESKG role of the relation.
    pub role: HostRelationRole,
    /// Native host predicate of the role.
    pub predicate: String,
    /// Decision responsible for the host write.
    pub decision: DecisionId,
    /// Commit version of the responsible decision.
    pub commit: CommitVersion,
    /// Outbox/materialization identifier.
    pub materialization: MaterializationId,
}

/// Error returned by the authoritative host graph.
#[derive(Debug, Clone, Copy, PartialEq, Eq, Structural)]
pub enum HostGraphError {
    /// The host node already exists.
    DuplicateNode(HostNodeId),
    /// The host node does not exist.
    MissingNode(HostNodeId),
    /// A materialization identifier was replayed with different content.
    IdempotencyCollision,
}

/// Result of an idempotent authoritative host write, with the edge index.
#[derive(Debug, Clone, Copy, PartialEq, Eq, Structural)]
pub enum MaterializationOutcome {
    /// A new host relation was written.
    Applied(u32),
    /// The identical materialization was already present.
    Replayed(u32),
}

/// The index key of a host node: its kind code and raw identifier.
pub open spec fn spec_host_key(node: HostNodeId) -> (u8, u64) {
    match node {
        HostNodeId::State(id) => (0, id.0),
        HostNodeId::Event(id) => (1, id.0),
        HostNodeId::Physical(id) => (2, id.0),
        HostNodeId::Semantic(id) => (3, id.0),
    }
}

/// Distinct host nodes have distinct index keys.
pub proof fn lemma_host_key_injective(a: HostNodeId, b: HostNodeId)
    ensures
        spec_host_key(a) == spec_host_key(b) ==> a == b,
{
}

fn host_key(node: HostNodeId) -> (key: (u8, u64))
    ensures
        key == spec_host_key(node),
{
    match node {
        HostNodeId::State(id) => (0, id.0),
        HostNodeId::Event(id) => (1, id.0),
        HostNodeId::Physical(id) => (2, id.0),
        HostNodeId::Semantic(id) => (3, id.0),
    }
}

/// Whether `edge` is the host edge that materializing `relation` for the
/// given decision, commit and identifier writes under `profile`.
pub open spec fn is_materialized_edge(
    profile: HostSchemaProfile,
    relation: HostRelation,
    decision: DecisionId,
    commit: CommitVersion,
    materialization: MaterializationId,
    edge: HostEdge,
) -> bool {
    &&& edge.role == spec_relation_role(relation)
    &&& edge.predicate@ == profile.spec_predicates()[spec_role_code(spec_relation_role(relation)) as int]
    &&& edge.decision == decision
    &&& edge.commit == commit
    &&& edge.materialization == materialization
}

/// `petgraph`-backed authoritative host graph containing no transient
/// latent-identity objects: host nodes, and the relations materialized from
/// accepted decisions, each under its idempotency identifier.
pub struct AuthoritativeHostGraph {
    profile: HostSchemaProfile,
    graph: StableGraph<HostNodeId, HostEdge, Directed, u32>,
    indexes: HostNodeIndex,
    materializations: MaterializationIndex,
}

impl AuthoritativeHostGraph {
    /// The schema profile, for specifications.
    pub closed spec fn spec_profile(&self) -> HostSchemaProfile {
        self.profile
    }

    /// Live host nodes keyed by node index, for specifications.
    pub closed spec fn spec_nodes(&self) -> Map<u32, HostNodeId> {
        host_graph_nodes(self.graph)
    }

    /// Live host edges keyed by edge index, for specifications.
    pub closed spec fn spec_edges(&self) -> Map<u32, (u32, u32, HostEdge)> {
        host_graph_edges(self.graph)
    }

    /// Node index of each host node key, for specifications.
    pub closed spec fn spec_node_index(&self) -> Map<(u8, u64), u32> {
        node_index_entries(self.indexes)
    }

    /// Edge index of each materialization identifier, for specifications.
    pub closed spec fn spec_materializations(&self) -> Map<u64, u32> {
        materialization_entries(self.materializations)
    }

    /// Well-formedness: the node index and the graph hold the same host
    /// nodes, and the materialization index and the graph the same edges.
    pub closed spec fn inv(&self) -> bool {
        let nodes = self.spec_nodes();
        let edges = self.spec_edges();
        let index = self.spec_node_index();
        let mats = self.spec_materializations();
        &&& nodes.dom().finite()
        &&& edges.dom().finite()
        &&& index.dom().finite()
        &&& mats.dom().finite()
        &&& index.len() == nodes.len()
        &&& mats.len() == edges.len()
        &&& forall|k: (u8, u64)|
            #[trigger] index.contains_key(k) ==> nodes.contains_key(index[k]) && spec_host_key(nodes[index[k]]) == k
        &&& forall|i: u32|
            #[trigger] nodes.contains_key(i) ==> index.contains_key(spec_host_key(nodes[i]))
                && index[spec_host_key(nodes[i])] == i
        &&& forall|e: u32|
            #[trigger] edges.contains_key(e) ==> {
                &&& nodes.contains_key(edges[e].0)
                &&& nodes.contains_key(edges[e].1)
                &&& mats.contains_key(edges[e].2.materialization.0)
                &&& mats[edges[e].2.materialization.0] == e
            }
        &&& forall|m: u64|
            #[trigger] mats.contains_key(m) ==> edges.contains_key(mats[m])
                && edges[mats[m]].2.materialization.0 == m
    }

    /// Whether a host node is present.
    pub open spec fn has_node(&self, node: HostNodeId) -> bool {
        self.spec_node_index().contains_key(spec_host_key(node))
    }

    /// Whether a materialization identifier has been applied.
    pub open spec fn is_materialized(&self, materialization: MaterializationId) -> bool {
        self.spec_materializations().contains_key(materialization.0)
    }

    /// The edge index, endpoints and edge written under a materialization
    /// identifier.
    pub open spec fn materialization_record(&self, materialization: MaterializationId) -> (
        u32,
        HostNodeId,
        HostNodeId,
        HostEdge,
    ) {
        let e = self.spec_materializations()[materialization.0];
        (e, self.spec_nodes()[self.spec_edges()[e].0], self.spec_nodes()[self.spec_edges()[e].1], self.spec_edges()[e].2)
    }

    /// Creates an empty host graph with reserved topology capacity, bounded
    /// by the `u32` index space.
    pub fn with_capacity(profile: HostSchemaProfile, nodes: usize, edges: usize) -> (graph: Self)
        requires
            nodes <= u32::MAX,
            edges <= u32::MAX,
        ensures
            graph.inv(),
            graph.spec_profile() == profile,
            graph.spec_nodes().dom().is_empty(),
            graph.spec_edges().dom().is_empty(),
    {
        let graph = AuthoritativeHostGraph {
            profile,
            graph: host_graph_with_capacity(nodes, edges),
            indexes: node_index_with_capacity(nodes),
            materializations: materialization_index_with_capacity(edges),
        };
        proof {
            assert(graph.spec_nodes().dom() =~= Set::empty());
            assert(graph.spec_edges().dom() =~= Set::empty());
            assert(graph.spec_node_index().dom() =~= Set::empty());
            assert(graph.spec_materializations().dom() =~= Set::empty());
        }
        graph
    }

    /// Adds one authoritative host node, refusing one already present. The
    /// graph holds fewer than `u32::MAX` nodes before the call.
    pub fn add_node(&mut self, node: HostNodeId) -> (result: Result<u32, HostGraphError>)
        requires
            old(self).inv(),
            old(self).spec_nodes().len() < u32::MAX,
        ensures
            final(self).inv(),
            old(self).has_node(node) ==> result == Err::<u32, HostGraphError>(HostGraphError::DuplicateNode(node))
                && *final(self) == *old(self),
            !old(self).has_node(node) ==> (result matches Ok(index) && {
                &&& !old(self).spec_nodes().contains_key(index)
                &&& final(self).spec_nodes() == old(self).spec_nodes().insert(index, node)
                &&& final(self).spec_edges() == old(self).spec_edges()
                &&& final(self).spec_materializations() == old(self).spec_materializations()
                &&& final(self).spec_profile() == old(self).spec_profile()
                &&& forall|n: HostNodeId| #[trigger] final(self).has_node(n) <==> old(self).has_node(n) || n == node
            }),
    {
        let key = host_key(node);
        if node_index_get(&self.indexes, key).is_some() {
            return Err(HostGraphError::DuplicateNode(node));
        }
        let ghost before_nodes = self.spec_nodes();
        let ghost before_index = self.spec_node_index();
        let index = host_graph_add_node(&mut self.graph, node);
        proof {
            assert(!before_index.contains_key(key));
            assert forall|k: (u8, u64)| #[trigger] before_index.contains_key(k) implies before_index[k] != index by {
            }
        }
        node_index_insert(&mut self.indexes, key, index);
        proof {
            let nodes = self.spec_nodes();
            let idx = self.spec_node_index();
            assert(idx.dom() =~= before_index.dom().insert(key));
            assert(nodes.dom() =~= before_nodes.dom().insert(index));
            assert forall|i: u32| #[trigger] nodes.contains_key(i) implies idx.contains_key(spec_host_key(nodes[i]))
                && idx[spec_host_key(nodes[i])] == i by {
                if i != index {
                    assert(before_nodes.contains_key(i));
                    assert(spec_host_key(before_nodes[i]) != key);
                }
            }
            assert forall|n: HostNodeId| #[trigger] self.has_node(n) <==> old(self).has_node(n) || n == node by {
                lemma_host_key_injective(n, node);
            }
        }
        Ok(index)
    }

    /// Applies one accepted native host relation idempotently.
    ///
    /// Only this method writes authoritative edges. A known materialization
    /// identifier is replayed when it carries the same role, decision, commit
    /// and endpoints, and refused as a collision otherwise; a new one needs
    /// both endpoints present and writes one edge. The graph holds fewer than
    /// `u32::MAX` edges before the call.
    pub fn materialize(
        &mut self,
        relation: HostRelation,
        decision: DecisionId,
        commit: CommitVersion,
        materialization: MaterializationId,
    ) -> (result: Result<MaterializationOutcome, HostGraphError>)
        requires
            old(self).inv(),
            old(self).spec_edges().len() < u32::MAX,
        ensures
            final(self).inv(),
            materialize_step(*old(self), relation, decision, commit, materialization, result, *final(self)),
    {
        let m = materialization.0;
        let role = relation.role();
        let (source, target) = relation.endpoints();
        let ghost before = *self;
        match materialization_index_get(&self.materializations, m) {
            Some(index) => {
                let same = match host_graph_edge_weight(&self.graph, index) {
                    Some(edge) => {
                        if edge.role == role && edge.decision == decision && edge.commit == commit {
                            match host_graph_edge_endpoints(&self.graph, index) {
                                Some((s, t)) => {
                                    let source_matches = match host_graph_node_weight(&self.graph, s) {
                                        Some(n) => n == source,
                                        None => false,
                                    };
                                    let target_matches = match host_graph_node_weight(&self.graph, t) {
                                        Some(n) => n == target,
                                        None => false,
                                    };
                                    source_matches && target_matches
                                },
                                None => false,
                            }
                        } else {
                            false
                        }
                    },
                    None => false,
                };
                if same {
                    Ok(MaterializationOutcome::Replayed(index))
                } else {
                    Err(HostGraphError::IdempotencyCollision)
                }
            },
            None => {
                let source_index = match node_index_get(&self.indexes, host_key(source)) {
                    Some(i) => i,
                    None => return Err(HostGraphError::MissingNode(source)),
                };
                let target_index = match node_index_get(&self.indexes, host_key(target)) {
                    Some(i) => i,
                    None => return Err(HostGraphError::MissingNode(target)),
                };
                let edge = HostEdge {
                    role,
                    predicate: String::from_str(self.profile.predicate(role)),
                    decision,
                    commit,
                    materialization,
                };
                let ghost before_edges = self.spec_edges();
                let ghost before_mats = self.spec_materializations();
                let index = host_graph_add_edge(&mut self.graph, source_index, target_index, edge);
                proof {
                    assert forall|k: u64| #[trigger] before_mats.contains_key(k) implies before_mats[k] != index by {
                    }
                }
                materialization_index_insert(&mut self.materializations, m, index);
                proof {
                    let edges = self.spec_edges();
                    let mats = self.spec_materializations();
                    assert(mats.dom() =~= before_mats.dom().insert(m));
                    assert(edges.dom() =~= before_edges.dom().insert(index));
                    assert forall|e: u32| #[trigger] edges.contains_key(e) implies {
                        &&& self.spec_nodes().contains_key(edges[e].0)
                        &&& self.spec_nodes().contains_key(edges[e].1)
                        &&& mats.contains_key(edges[e].2.materialization.0)
                        &&& mats[edges[e].2.materialization.0] == e
                    } by {
                        if e != index {
                            assert(before_edges.contains_key(e));
                            assert(before_mats.contains_key(before_edges[e].2.materialization.0));
                        }
                    }
                    lemma_host_key_injective(self.spec_nodes()[source_index], source);
                    lemma_host_key_injective(self.spec_nodes()[target_index], target);
                }
                Ok(MaterializationOutcome::Applied(index))
            },
        }
    }

    /// Number of authoritative nodes.
    pub fn node_count(&self) -> (count: usize)
        ensures
            count == self.spec_nodes().len(),
    {
        host_graph_node_count(&self.graph)
    }

    /// Number of materialized host relations.
    pub fn edge_count(&self) -> (count: usize)
        ensures
            count == self.spec_edges().len(),
    {
        host_graph_edge_count(&self.graph)
    }

    /// Borrows the underlying host-only `petgraph` graph for traversal.
    pub fn graph(&self) -> (graph: &StableGraph<HostNodeId, HostEdge, Directed, u32>)
        ensures
            host_graph_nodes(*graph) == self.spec_nodes(),
            host_graph_edges(*graph) == self.spec_edges(),
    {
        &self.graph
    }
}

/// One materialization step: what `materialize` returns and leaves behind.
/// A known identifier is replayed, with the recorded edge index, exactly
/// when role, decision, commit and endpoints agree, and refused as a
/// collision otherwise; an unknown identifier needs both endpoints and adds
/// one fresh edge recorded under it. Every refusal and every replay leaves
/// the graph as it was.
pub open spec fn materialize_step(
    before: AuthoritativeHostGraph,
    relation: HostRelation,
    decision: DecisionId,
    commit: CommitVersion,
    materialization: MaterializationId,
    result: Result<MaterializationOutcome, HostGraphError>,
    after: AuthoritativeHostGraph,
) -> bool {
    let (source, target) = spec_relation_endpoints(relation);
    if before.is_materialized(materialization) {
        let record = before.materialization_record(materialization);
        let same = record.3.role == spec_relation_role(relation) && record.3.decision == decision
            && record.3.commit == commit && record.1 == source && record.2 == target;
        &&& after == before
        &&& same ==> result == Ok::<MaterializationOutcome, HostGraphError>(MaterializationOutcome::Replayed(record.0))
        &&& !same ==> result == Err::<MaterializationOutcome, HostGraphError>(HostGraphError::IdempotencyCollision)
    } else if !before.has_node(source) {
        &&& after == before
        &&& result == Err::<MaterializationOutcome, HostGraphError>(HostGraphError::MissingNode(source))
    } else if !before.has_node(target) {
        &&& after == before
        &&& result == Err::<MaterializationOutcome, HostGraphError>(HostGraphError::MissingNode(target))
    } else {
        &&& result matches Ok(MaterializationOutcome::Applied(index))
        &&& !before.spec_edges().contains_key(index)
        &&& after.spec_profile() == before.spec_profile()
        &&& after.spec_nodes() == before.spec_nodes()
        &&& after.spec_node_index() == before.spec_node_index()
        &&& after.spec_materializations() == before.spec_materializations().insert(materialization.0, index)
        &&& after.spec_edges().dom() == before.spec_edges().dom().insert(index)
        &&& forall|e: u32| #[trigger] before.spec_edges().contains_key(e) ==> after.spec_edges()[e] == before.spec_edges()[e]
        &&& after.materialization_record(materialization).0 == index
        &&& after.materialization_record(materialization).1 == source
        &&& after.materialization_record(materialization).2 == target
        &&& is_materialized_edge(
            before.spec_profile(),
            relation,
            decision,
            commit,
            materialization,
            after.materialization_record(materialization).3,
        )
    }
}

/// Replaying a materialization is idempotent: once a relation has been
/// applied (or replayed), the same request is replayed with the same edge
/// index and changes nothing.
pub proof fn law_materialization_replay_is_idempotent(
    g0: AuthoritativeHostGraph,
    g1: AuthoritativeHostGraph,
    g2: AuthoritativeHostGraph,
    relation: HostRelation,
    decision: DecisionId,
    commit: CommitVersion,
    materialization: MaterializationId,
    first: Result<MaterializationOutcome, HostGraphError>,
    second: Result<MaterializationOutcome, HostGraphError>,
)
    requires
        materialize_step(g0, relation, decision, commit, materialization, first, g1),
        first is Ok,
        materialize_step(g1, relation, decision, commit, materialization, second, g2),
    ensures
        g2 == g1,
        second == Ok::<MaterializationOutcome, HostGraphError>(
            MaterializationOutcome::Replayed(
                match first {
                    Ok(MaterializationOutcome::Applied(index)) => index,
                    Ok(MaterializationOutcome::Replayed(index)) => index,
                    Err(_) => 0,
                },
            ),
        ),
{
    let (source, target) = spec_relation_endpoints(relation);
    assert(g1.is_materialized(materialization));
}

/// A refused materialization leaves the host graph exactly as it was.
pub proof fn law_refused_materialization_changes_nothing(
    before: AuthoritativeHostGraph,
    after: AuthoritativeHostGraph,
    relation: HostRelation,
    decision: DecisionId,
    commit: CommitVersion,
    materialization: MaterializationId,
    result: Result<MaterializationOutcome, HostGraphError>,
)
    requires
        materialize_step(before, relation, decision, commit, materialization, result, after),
        result is Err,
    ensures
        after == before,
{
}

} // verus!
