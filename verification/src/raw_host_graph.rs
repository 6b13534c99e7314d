//! The `petgraph` stable graph and `hashbrown` indexes behind the
//! authoritative host graph, described by what they hold: live host nodes
//! and materialized edges keyed by index, the node index of each host node,
//! and the edge index of each materialization identifier.
use crate::host::HostNodeId;
use crate::host_graph::HostEdge;
use hashbrown::HashMap;
use petgraph::stable_graph::{EdgeIndex, NodeIndex, StableGraph};
use petgraph::Directed;
use vstd::prelude::*;

verus! {

/// Live host nodes of a host stable graph: node index to host node.
pub uninterp spec fn host_graph_nodes(g: StableGraph<HostNodeId, HostEdge, Directed, u32>) -> Map<u32, HostNodeId>;

/// Live edges of a host stable graph: edge index to source index, target
/// index and materialized edge.
pub uninterp spec fn host_graph_edges(g: StableGraph<HostNodeId, HostEdge, Directed, u32>) -> Map<u32, (u32, u32, HostEdge)>;

/// `StableGraph::with_capacity`: an empty host graph. Capacities are bounded
/// by the `u32` index space.
#[verifier::external_body]
pub(crate) fn host_graph_with_capacity(nodes: usize, edges: usize) -> (graph: StableGraph<HostNodeId, HostEdge, Directed, u32>)
    requires
        nodes <= u32::MAX,
        edges <= u32::MAX,
    ensures
        host_graph_nodes(graph).dom().is_empty(),
        host_graph_edges(graph).dom().is_empty(),
{
    StableGraph::with_capacity(nodes, edges)
}

/// `StableGraph::add_node`: the host node gets an index that was not live,
/// and edges are untouched. It panics only when no index below `u32::MAX`
/// is free, which the bound on live nodes excludes.
#[verifier::external_body]
pub(crate) fn host_graph_add_node(g: &mut StableGraph<HostNodeId, HostEdge, Directed, u32>, node: HostNodeId) -> (index: u32)
    requires
        host_graph_nodes(*old(g)).len() < u32::MAX,
    ensures
        !host_graph_nodes(*old(g)).contains_key(index),
        host_graph_nodes(*final(g)) == host_graph_nodes(*old(g)).insert(index, node),
        host_graph_edges(*final(g)) == host_graph_edges(*old(g)),
{
    g.add_node(node).index() as u32
}

/// `StableGraph::add_edge`: the edge gets an index that was not live, and
/// nodes are untouched. It panics when an endpoint is not a live node or no
/// edge index below `u32::MAX` is free, which the requirements exclude.
#[verifier::external_body]
pub(crate) fn host_graph_add_edge(
    g: &mut StableGraph<HostNodeId, HostEdge, Directed, u32>,
    source: u32,
    target: u32,
    edge: HostEdge,
) -> (index: u32)
    requires
        host_graph_nodes(*old(g)).contains_key(source),
        host_graph_nodes(*old(g)).contains_key(target),
        host_graph_edges(*old(g)).len() < u32::MAX,
    ensures
        !host_graph_edges(*old(g)).contains_key(index),
        host_graph_edges(*final(g)) == host_graph_edges(*old(g)).insert(index, (source, target, edge)),
        host_graph_nodes(*final(g)) == host_graph_nodes(*old(g)),
{
    g.add_edge(NodeIndex::new(source as usize), NodeIndex::new(target as usize), edge).index() as u32
}

/// `StableGraph::node_weight`: the host node at a live index.
#[verifier::external_body]
pub(crate) fn host_graph_node_weight(g: &StableGraph<HostNodeId, HostEdge, Directed, u32>, index: u32) -> (node: Option<HostNodeId>)
    ensures
        host_graph_nodes(*g).contains_key(index) ==> node == Some(host_graph_nodes(*g)[index]),
        !host_graph_nodes(*g).contains_key(index) ==> node is None,
{
    g.node_weight(NodeIndex::new(index as usize)).copied()
}

/// `StableGraph::edge_weight`: the materialized edge at a live index.
#[verifier::external_body]
pub(crate) fn host_graph_edge_weight(g: &StableGraph<HostNodeId, HostEdge, Directed, u32>, index: u32) -> (edge: Option<&HostEdge>)
    ensures
        edge matches Some(w) ==> host_graph_edges(*g).contains_key(index) && *w == host_graph_edges(*g)[index].2,
        edge is None ==> !host_graph_edges(*g).contains_key(index),
{
    g.edge_weight(EdgeIndex::new(index as usize))
}

/// `StableGraph::edge_endpoints`: the source and target indexes of a live
/// edge.
#[verifier::external_body]
pub(crate) fn host_graph_edge_endpoints(g: &StableGraph<HostNodeId, HostEdge, Directed, u32>, index: u32) -> (endpoints: Option<(u32, u32)>)
    ensures
        host_graph_edges(*g).contains_key(index) ==> endpoints == Some(
            (host_graph_edges(*g)[index].0, host_graph_edges(*g)[index].1),
        ),
        !host_graph_edges(*g).contains_key(index) ==> endpoints is None,
{
    g.edge_endpoints(EdgeIndex::new(index as usize)).map(|(a, b)| (a.index() as u32, b.index() as u32))
}

/// `StableGraph::node_count`: the number of live host nodes.
#[verifier::external_body]
pub(crate) fn host_graph_node_count(g: &StableGraph<HostNodeId, HostEdge, Directed, u32>) -> (count: usize)
    ensures
        count == host_graph_nodes(*g).len(),
{
    g.node_count()
}

/// `StableGraph::edge_count`: the number of live edges.
#[verifier::external_body]
pub(crate) fn host_graph_edge_count(g: &StableGraph<HostNodeId, HostEdge, Directed, u32>) -> (count: usize)
    ensures
        count == host_graph_edges(*g).len(),
{
    g.edge_count()
}

/// Node index of each host node, in a `hashbrown` map keyed by the node's
/// kind code and raw identifier.
#[verifier::external_body]
pub struct HostNodeIndex {
    map: HashMap<(u8, u64), u32>,
}

/// Entries of a host node index.
pub uninterp spec fn node_index_entries(index: HostNodeIndex) -> Map<(u8, u64), u32>;

/// `HashMap::with_capacity`: an empty index. The capacity is bounded by the
/// `u32` index space.
#[verifier::external_body]
pub(crate) fn node_index_with_capacity(capacity: usize) -> (index: HostNodeIndex)
    requires
        capacity <= u32::MAX,
    ensures
        node_index_entries(index).dom().is_empty(),
{
    HostNodeIndex { map: HashMap::with_capacity(capacity) }
}

/// `HashMap::get`: the value of a key, if present.
#[verifier::external_body]
pub(crate) fn node_index_get(index: &HostNodeIndex, key: (u8, u64)) -> (value: Option<u32>)
    ensures
        node_index_entries(*index).contains_key(key) ==> value == Some(node_index_entries(*index)[key]),
        !node_index_entries(*index).contains_key(key) ==> value is None,
{
    index.map.get(&key).copied()
}

/// `HashMap::insert`: the key maps to the value afterwards and every other
/// key keeps its value. The table only grows within the `u32` index space.
#[verifier::external_body]
pub(crate) fn node_index_insert(index: &mut HostNodeIndex, key: (u8, u64), value: u32)
    requires
        node_index_entries(*old(index)).len() < u32::MAX,
    ensures
        node_index_entries(*final(index)) == node_index_entries(*old(index)).insert(key, value),
{
    index.map.insert(key, value);
}

/// Edge index of each materialization identifier, in a `hashbrown` map keyed
/// by the raw identifier.
#[verifier::external_body]
pub struct MaterializationIndex {
    map: HashMap<u64, u32>,
}

/// Entries of a materialization index.
pub uninterp spec fn materialization_entries(index: MaterializationIndex) -> Map<u64, u32>;

/// `HashMap::with_capacity`: an empty index. The capacity is bounded by the
/// `u32` index space.
#[verifier::external_body]
pub(crate) fn materialization_index_with_capacity(capacity: usize) -> (index: MaterializationIndex)
    requires
        capacity <= u32::MAX,
    ensures
        materialization_entries(index).dom().is_empty(),
{
    MaterializationIndex { map: HashMap::with_capacity(capacity) }
}

/// `HashMap::get`: the value of a key, if present.
#[verifier::external_body]
pub(crate) fn materialization_index_get(index: &MaterializationIndex, key: u64) -> (value: Option<u32>)
    ensures
        materialization_entries(*index).contains_key(key) ==> value == Some(materialization_entries(*index)[key]),
        !materialization_entries(*index).contains_key(key) ==> value is None,
{
    index.map.get(&key).copied()
}

/// `HashMap::insert`: the key maps to the value afterwards and every other
/// key keeps its value. The table only grows within the `u32` index space.
#[verifier::external_body]
pub(crate) fn materialization_index_insert(index: &mut MaterializationIndex, key: u64, value: u32)
    requires
        materialization_entries(*old(index)).len() < u32::MAX,
    ensures
        materialization_entries(*final(index)) == materialization_entries(*old(index)).insert(key, value),
{
    index.map.insert(key, value);
}

} // verus!
