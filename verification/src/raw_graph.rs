//! The `petgraph` stable graph that stores the knowledge-graph topology,
//! described by what it holds: live nodes keyed by index with their typed
//! vertex, and live edges keyed by index with their endpoints and payload.
use crate::graph_ontology::EdgeData;
use crate::ontology::Vertex;
use crate::relation::spec_is_eskg;
use petgraph::algo::toposort;
use petgraph::visit::EdgeFiltered;
use petgraph::stable_graph::{EdgeIndex, NodeIndex, StableGraph};
use petgraph::visit::{EdgeRef, IntoEdgeReferences};
use petgraph::{Directed, Direction};
use vstd::prelude::*;

verus! {

/// The stable graph type of `petgraph`.
#[verifier::external_type_specification]
#[verifier::external_body]
#[verifier::reject_recursive_types(N)]
#[verifier::reject_recursive_types(E)]
#[verifier::reject_recursive_types(Ty)]
#[verifier::reject_recursive_types(Ix)]
pub struct ExStableGraph<N, E, Ty, Ix>(StableGraph<N, E, Ty, Ix>);

/// The marker type of directed `petgraph` graphs.
#[verifier::external_type_specification]
#[verifier::external_body]
pub struct ExDirected(Directed);

/// Live nodes of a stable graph: node index to typed vertex.
pub uninterp spec fn graph_nodes(g: StableGraph<Vertex, EdgeData, Directed, u32>) -> Map<u32, Vertex>;

/// Live edges of a stable graph: edge index to source index, target index
/// and payload.
pub uninterp spec fn graph_edges(g: StableGraph<Vertex, EdgeData, Directed, u32>) -> Map<u32, (u32, u32, EdgeData)>;

/// Whether edge `e` of `edges` has `i` as an endpoint.
pub open spec fn touches(edges: Map<u32, (u32, u32, EdgeData)>, e: u32, i: u32) -> bool {
    edges[e].0 == i || edges[e].1 == i
}

/// `StableGraph::with_capacity`: an empty graph. Capacities are bounded so
/// that the allocation size cannot overflow.
#[verifier::external_body]
pub(crate) fn raw_with_capacity(nodes: usize, edges: usize) -> (graph: StableGraph<Vertex, EdgeData, Directed, u32>)
    requires
        nodes <= u32::MAX,
        edges <= u32::MAX,
    ensures
        graph_nodes(graph).dom() == Set::<u32>::empty(),
        graph_edges(graph).dom() == Set::<u32>::empty(),
{
    StableGraph::with_capacity(nodes, edges)
}

/// `StableGraph::reserve_nodes`: room for more nodes; nodes and edges stay
/// as they are. The request is bounded by the `u32` index space.
#[verifier::external_body]
pub(crate) fn raw_reserve_nodes(g: &mut StableGraph<Vertex, EdgeData, Directed, u32>, additional: usize)
    requires
        additional <= u32::MAX,
    ensures
        graph_nodes(*final(g)) == graph_nodes(*old(g)),
        graph_edges(*final(g)) == graph_edges(*old(g)),
{
    g.reserve_nodes(additional)
}

/// `StableGraph::reserve_edges`: room for more edges; nodes and edges stay
/// as they are. The request is bounded by the `u32` index space.
#[verifier::external_body]
pub(crate) fn raw_reserve_edges(g: &mut StableGraph<Vertex, EdgeData, Directed, u32>, additional: usize)
    requires
        additional <= u32::MAX,
    ensures
        graph_nodes(*final(g)) == graph_nodes(*old(g)),
        graph_edges(*final(g)) == graph_edges(*old(g)),
{
    g.reserve_edges(additional)
}

/// `StableGraph::add_node`: the vertex gets an index that was not live, and
/// edges are untouched. It panics only when no index below `u32::MAX` is
/// free, which the bound on live nodes excludes.
#[verifier::external_body]
pub(crate) fn raw_add_node(g: &mut StableGraph<Vertex, EdgeData, Directed, u32>, weight: Vertex) -> (index: u32)
    requires
        graph_nodes(*old(g)).len() < u32::MAX,
    ensures
        !graph_nodes(*old(g)).contains_key(index),
        graph_nodes(*final(g)) == graph_nodes(*old(g)).insert(index, weight),
        graph_edges(*final(g)) == graph_edges(*old(g)),
{
    g.add_node(weight).index() as u32
}

/// `StableGraph::remove_node`: a live node is removed with every edge that
/// has it as an endpoint, and its vertex returned; otherwise nothing
/// changes.
#[verifier::external_body]
pub(crate) fn raw_remove_node(g: &mut StableGraph<Vertex, EdgeData, Directed, u32>, index: u32) -> (weight: Option<Vertex>)
    ensures
        graph_nodes(*old(g)).contains_key(index) ==> {
            &&& weight == Some(graph_nodes(*old(g))[index])
            &&& graph_nodes(*final(g)) == graph_nodes(*old(g)).remove(index)
            &&& graph_edges(*final(g)) == graph_edges(*old(g)).restrict(
                graph_edges(*old(g)).dom().filter(|e: u32| !touches(graph_edges(*old(g)), e, index)),
            )
        },
        !graph_nodes(*old(g)).contains_key(index) ==> {
            &&& weight is None
            &&& graph_nodes(*final(g)) == graph_nodes(*old(g))
            &&& graph_edges(*final(g)) == graph_edges(*old(g))
        },
{
    g.remove_node(NodeIndex::new(index as usize))
}

/// `StableGraph::add_edge`: the edge gets an index that was not live, and
/// nodes are untouched. It panics when an endpoint is not a live node or no
/// edge index below `u32::MAX` is free, which the requirements exclude.
#[verifier::external_body]
pub(crate) fn raw_add_edge(
    g: &mut StableGraph<Vertex, EdgeData, Directed, u32>,
    source: u32,
    target: u32,
    weight: EdgeData,
) -> (index: u32)
    requires
        graph_nodes(*old(g)).contains_key(source),
        graph_nodes(*old(g)).contains_key(target),
        graph_edges(*old(g)).len() < u32::MAX,
    ensures
        !graph_edges(*old(g)).contains_key(index),
        graph_edges(*final(g)) == graph_edges(*old(g)).insert(index, (source, target, weight)),
        graph_nodes(*final(g)) == graph_nodes(*old(g)),
{
    g.add_edge(NodeIndex::new(source as usize), NodeIndex::new(target as usize), weight).index() as u32
}

/// `StableGraph::remove_edge`: a live edge is removed and its payload
/// returned; otherwise nothing changes.
#[verifier::external_body]
pub(crate) fn raw_remove_edge(g: &mut StableGraph<Vertex, EdgeData, Directed, u32>, index: u32) -> (weight: Option<EdgeData>)
    ensures
        graph_edges(*old(g)).contains_key(index) ==> {
            &&& weight == Some(graph_edges(*old(g))[index].2)
            &&& graph_edges(*final(g)) == graph_edges(*old(g)).remove(index)
        },
        !graph_edges(*old(g)).contains_key(index) ==> weight is None && graph_edges(*final(g))
            == graph_edges(*old(g)),
        graph_nodes(*final(g)) == graph_nodes(*old(g)),
{
    g.remove_edge(EdgeIndex::new(index as usize))
}

/// `StableGraph::node_weight`: the vertex of a live node.
#[verifier::external_body]
pub(crate) fn raw_node_weight(g: &StableGraph<Vertex, EdgeData, Directed, u32>, index: u32) -> (weight: Option<Vertex>)
    ensures
        graph_nodes(*g).contains_key(index) ==> weight == Some(graph_nodes(*g)[index]),
        !graph_nodes(*g).contains_key(index) ==> weight is None,
{
    g.node_weight(NodeIndex::new(index as usize)).copied()
}

/// `StableGraph::node_count`: the number of live nodes.
#[verifier::external_body]
pub(crate) fn raw_node_count(g: &StableGraph<Vertex, EdgeData, Directed, u32>) -> (count: usize)
    ensures
        count == graph_nodes(*g).len(),
{
    g.node_count()
}

/// `StableGraph::edge_count`: the number of live edges.
#[verifier::external_body]
pub(crate) fn raw_edge_count(g: &StableGraph<Vertex, EdgeData, Directed, u32>) -> (count: usize)
    ensures
        count == graph_edges(*g).len(),
{
    g.edge_count()
}

/// `StableGraph::edges_directed`: the live edges leaving (`outgoing`) or
/// entering node `index`, each once, as edge index, source, target and
/// payload. The order in which they come is not stated.
#[verifier::external_body]
pub(crate) fn raw_edges_directed(
    g: &StableGraph<Vertex, EdgeData, Directed, u32>,
    index: u32,
    outgoing: bool,
) -> (edges: Vec<(u32, u32, u32, EdgeData)>)
    ensures
        forall|k: int|
            0 <= k < edges@.len() ==> {
                &&& graph_edges(*g).contains_key(#[trigger] edges@[k].0)
                &&& graph_edges(*g)[edges@[k].0] == (edges@[k].1, edges@[k].2, edges@[k].3)
                &&& if outgoing {
                    edges@[k].1 == index
                } else {
                    edges@[k].2 == index
                }
            },
        forall|a: int, b: int| 0 <= a < b < edges@.len() ==> #[trigger] edges@[a].0 != #[trigger] edges@[b].0,
        forall|e: u32|
            #![trigger graph_edges(*g)[e]]
            graph_edges(*g).contains_key(e) && (if outgoing {
                graph_edges(*g)[e].0 == index
            } else {
                graph_edges(*g)[e].1 == index
            }) ==> exists|k: int| 0 <= k < edges@.len() && #[trigger] edges@[k].0 == e,
{
    let direction = if outgoing { Direction::Outgoing } else { Direction::Incoming };
    g.edges_directed(NodeIndex::new(index as usize), direction).map(
        |r| (r.id().index() as u32, r.source().index() as u32, r.target().index() as u32, *r.weight()),
    ).collect()
}

/// `StableGraph::node_indices`: every live node index, each once. The
/// order in which they come is not stated.
#[verifier::external_body]
pub(crate) fn raw_node_indices(g: &StableGraph<Vertex, EdgeData, Directed, u32>) -> (indices: Vec<u32>)
    ensures
        indices@.no_duplicates(),
        forall|i: u32| #[trigger] indices@.contains(i) <==> graph_nodes(*g).contains_key(i),
{
    g.node_indices().map(|n| n.index() as u32).collect()
}

/// The live edges of a stable graph (`edge_references`), each once, as edge
/// index, source, target and payload. The order in which they come is not
/// stated.
#[verifier::external_body]
pub(crate) fn raw_edge_references(g: &StableGraph<Vertex, EdgeData, Directed, u32>) -> (edges: Vec<(u32, u32, u32, EdgeData)>)
    ensures
        forall|k: int|
            0 <= k < edges@.len() ==> {
                &&& graph_edges(*g).contains_key(#[trigger] edges@[k].0)
                &&& graph_edges(*g)[edges@[k].0] == (edges@[k].1, edges@[k].2, edges@[k].3)
            },
        forall|a: int, b: int| 0 <= a < b < edges@.len() ==> #[trigger] edges@[a].0 != #[trigger] edges@[b].0,
        forall|e: u32|
            #[trigger] graph_edges(*g).contains_key(e) ==> exists|k: int|
                0 <= k < edges@.len() && #[trigger] edges@[k].0 == e,
{
    g.edge_references().map(
        |r| (r.id().index() as u32, r.source().index() as u32, r.target().index() as u32, *r.weight()),
    ).collect()
}

/// Whether `walk` is a closed walk through live edges with causal (ESKG)
/// relations: each edge ends where the next begins, and the last ends where
/// the first begins.
pub open spec fn is_causal_walk(edges: Map<u32, (u32, u32, EdgeData)>, walk: Seq<u32>) -> bool {
    &&& walk.len() > 0
    &&& forall|k: int|
        0 <= k < walk.len() ==> edges.contains_key(#[trigger] walk[k]) && spec_is_eskg(
            edges[walk[k]].2.relation,
        )
    &&& forall|k: int, l: int|
        #![trigger walk[k], walk[l]]
        0 <= k && l == k + 1 && l < walk.len() ==> edges[walk[k]].1 == edges[walk[l]].0
    &&& edges[walk[walk.len() - 1]].1 == edges[walk[0]].0
}

/// `petgraph::algo::toposort` on the graph restricted to causal relations
/// (`EdgeFiltered`): it fails exactly when those edges hold a cycle,
/// self-loops included.
#[verifier::external_body]
pub(crate) fn raw_has_causal_cycle(g: &StableGraph<Vertex, EdgeData, Directed, u32>) -> (cyclic: bool)
    ensures
        cyclic == exists|walk: Seq<u32>| #[trigger] is_causal_walk(graph_edges(*g), walk),
{
    let causal = EdgeFiltered::from_fn(g, |edge| edge.weight().relation.is_eskg_relation());
    toposort(&causal, None).is_err()
}

} // verus!
