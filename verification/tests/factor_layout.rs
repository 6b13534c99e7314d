use li_eskg::factor::{validate_scope, FactorError};
use li_eskg::ids::IdentityId;
use li_eskg::inference::IdentityReference;
use li_eskg::provider::{CandidateBuffer, FactorShape, ProviderError};
use li_eskg::factor_graph::FactorGraph;
use li_eskg::solver::{message_topology, MessageEdge, MessageLayout, SolverError};

fn two_observation_batch() -> CandidateBuffer {
    let mut buffer = CandidateBuffer::with_capacity(2, 2);
    buffer.reset(2);
    buffer.push_observation(0, 2, vec![IdentityReference::Latent(IdentityId(9))]).unwrap();
    buffer.push_observation(1, 2, Vec::new()).unwrap();
    buffer
}

#[test]
fn factor_shape_checks_scope_before_table_length() {
    assert_eq!(FactorShape::new(Vec::new(), Vec::new(), 1).err(), Some(ProviderError::EmptyFactorScope));
    assert_eq!(FactorShape::new(vec![0, 1], vec![2], 2).err(), Some(ProviderError::EmptyFactorScope));
    assert_eq!(
        FactorShape::new(vec![3, 1, 3], vec![2, 2, 2], 8).err(),
        Some(ProviderError::DuplicateFactorVariable)
    );
    assert_eq!(FactorShape::new(vec![0, 1], vec![2, 0], 0).err(), Some(ProviderError::InvalidCardinality));
    assert_eq!(
        FactorShape::new(vec![0, 1, 2, 3, 4], vec![u16::MAX; 5], 0).err(),
        Some(ProviderError::InvalidCardinality)
    );
    assert_eq!(
        FactorShape::new(vec![0, 1], vec![3, 2], 5).err(),
        Some(ProviderError::FactorTableLength { expected: 6, actual: 5 })
    );
    let shape = FactorShape::new(vec![1, 0], vec![2, 3], 6).unwrap();
    assert_eq!(shape.variables(), &[1, 0]);
    assert_eq!(shape.cardinalities(), &[2, 3]);
}

#[test]
fn layout_places_messages_in_factor_and_scope_order() {
    let candidates = two_observation_batch();
    let factors = vec![
        FactorShape::new(vec![0, 1], vec![3, 2], 6).unwrap(),
        FactorShape::new(vec![1], vec![2], 2).unwrap(),
    ];
    let mut layout = MessageLayout::new();
    assert_eq!(layout.compile(&candidates, &factors), Ok(()));
    assert_eq!(
        layout.edges(),
        &[
            MessageEdge { variable: 0, factor: 0, factor_position: 0, message_offset: 0, cardinality: 3 },
            MessageEdge { variable: 1, factor: 0, factor_position: 1, message_offset: 3, cardinality: 2 },
            MessageEdge { variable: 1, factor: 1, factor_position: 0, message_offset: 5, cardinality: 2 },
        ]
    );
    assert_eq!(layout.message_len(), 7);
    assert_eq!(layout.variable_cardinalities(), &[3, 2]);
    assert_eq!(layout.factor_edges(0), &[0, 1]);
    assert_eq!(layout.factor_edges(1), &[2]);
    assert_eq!(layout.variable_edges(0), &[0]);
    assert_eq!(layout.variable_edges(1), &[1, 2]);
    assert_eq!(layout.factor_strides(0), &[2, 1]);
    assert_eq!(layout.factor_strides(1), &[1]);
}

#[test]
fn layout_rejects_variables_outside_the_batch_and_mismatched_domains() {
    let candidates = two_observation_batch();
    let mut layout = MessageLayout::new();
    let outside = vec![FactorShape::new(vec![2], vec![2], 2).unwrap()];
    assert_eq!(
        layout.compile(&candidates, &outside),
        Err(SolverError::VariableOutOfBounds { variable: 2, batch_len: 2 })
    );
    let mismatched = vec![FactorShape::new(vec![0], vec![2], 2).unwrap()];
    assert_eq!(layout.compile(&candidates, &mismatched), Err(SolverError::CardinalityMismatch));
    assert_eq!(layout.compile(&candidates, &[]), Ok(()));
    assert_eq!(layout.message_len(), 0);
    assert_eq!(layout.variable_edges(0), &[] as &[usize]);
}

#[test]
fn cleared_layout_is_empty_and_recompiles() {
    let candidates = two_observation_batch();
    let factors = vec![FactorShape::new(vec![0, 1], vec![3, 2], 6).unwrap()];
    let mut layout = MessageLayout::new();
    assert_eq!(layout.compile(&candidates, &factors), Ok(()));
    assert_eq!(layout.message_len(), 5);
    layout.clear();
    assert_eq!(layout.edges(), &[] as &[MessageEdge]);
    assert_eq!(layout.message_len(), 0);
    assert_eq!(layout.variable_cardinalities(), &[] as &[usize]);
    assert_eq!(layout.compile(&candidates, &factors), Ok(()));
    assert_eq!(layout.message_len(), 5);
    assert_eq!(layout.factor_strides(0), &[2, 1]);
}

#[derive(Debug)]
struct DummyFactor {
    scope: Vec<IdentityId>,
}

#[test]
fn test_precomputed_adjacency_offsets() {
    let mut fg = FactorGraph::new();
    let v0 = fg.add_variable(IdentityId(10));
    let v1 = fg.add_variable(IdentityId(20));

    let f0 = fg.add_factor(DummyFactor { scope: vec![IdentityId(10), IdentityId(20)] }, &[v0, v1]);

    assert_eq!(fg.var_adjacencies[v0.0][0].factor_idx, f0);
    assert_eq!(fg.var_adjacencies[v0.0][0].pos_in_factor, 0);
    assert_eq!(fg.factor_adjacencies[f0.0][0].var_idx, v0);
    assert_eq!(fg.factor_adjacencies[f0.0][0].pos_in_var, 0);

    assert_eq!(fg.var_adjacencies[v1.0][0].factor_idx, f0);
    assert_eq!(fg.var_adjacencies[v1.0][0].pos_in_factor, 1);
    assert_eq!(fg.factor_adjacencies[f0.0][1].var_idx, v1);
    assert_eq!(fg.factor_adjacencies[f0.0][1].pos_in_var, 0);
    assert_eq!(fg.factors[f0.0].scope.len(), 2);
}

#[test]
fn test_empty_graph_creation() {
    let fg = FactorGraph::<DummyFactor>::with_capacity(10, 10);
    assert!(fg.variables.is_empty());
    assert!(fg.factors.is_empty());
}

#[test]
fn adjacency_positions_point_back_across_shared_variables() {
    let mut fg = FactorGraph::new();
    let a = fg.add_variable(IdentityId(1));
    let b = fg.add_variable(IdentityId(2));
    let first = fg.add_factor("pair", &[a, b]);
    let second = fg.add_factor("repeat", &[b, b]);
    assert_eq!(fg.var_adjacencies[b.0].len(), 3);
    for (f, edges) in fg.factor_adjacencies.iter().enumerate() {
        for (p, edge) in edges.iter().enumerate() {
            let back = fg.var_adjacencies[edge.var_idx.0][edge.pos_in_var];
            assert_eq!((back.factor_idx.0, back.pos_in_factor), (f, p));
        }
    }
    assert_eq!(fg.factor_adjacencies[second.0][1].pos_in_var, 2);
    assert_eq!(fg.var_adjacencies[a.0][0].factor_idx, first);
}

#[test]
fn empty_factor_scope_is_refused() {
    assert_eq!(validate_scope(&[]), Err(FactorError::EmptyScope));
    assert_eq!(validate_scope(&[IdentityId(1), IdentityId(2)]), Ok(()));
}

fn link(variable: usize, factor: usize) -> MessageEdge {
    MessageEdge { variable, factor, factor_position: 0, message_offset: 0, cardinality: 2 }
}

#[test]
fn tree_topology_runs_one_pass_per_component_edge() {
    assert_eq!(message_topology(&[], 0, 0), (true, 1));
    assert_eq!(message_topology(&[link(0, 0), link(1, 0)], 2, 1), (true, 3));
    assert_eq!(message_topology(&[link(0, 0), link(1, 0), link(2, 1)], 3, 2), (true, 3));
}

#[test]
fn cycle_through_two_factors_is_not_a_forest() {
    let edges = [link(0, 0), link(1, 0), link(0, 1), link(1, 1)];
    assert_eq!(message_topology(&edges, 2, 2), (false, 5));
    let with_tree = [link(0, 0), link(1, 0), link(0, 1), link(1, 1), link(2, 2)];
    assert_eq!(message_topology(&with_tree, 3, 3), (false, 5));
}
