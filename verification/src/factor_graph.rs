//! Bipartite factor graph with pre-computed adjacency positions, so that a
//! message can find its reverse edge in constant time.
use crate::ids::IdentityId;
use vstd::prelude::*;

verus! {

/// Index of a variable node.
#[derive(Debug, Clone, Copy, PartialEq, Eq, Structural, PartialOrd, Ord, Hash)]
pub struct VarIndex(pub usize);

/// Index of a factor node.
#[derive(Debug, Clone, Copy, PartialEq, Eq, Structural, PartialOrd, Ord, Hash)]
pub struct FactorIndex(pub usize);

/// Variable node holding one candidate identity's binary assignment.
#[derive(Debug, Clone, Copy, PartialEq, Eq, Structural)]
pub struct VariableNode {
    /// Index of this variable node.
    pub id: VarIndex,
    /// Candidate identity evaluated by this node.
    pub candidate_identity: IdentityId,
}

/// Adjacency from a variable node to a connected factor.
#[derive(Debug, Clone, Copy, PartialEq, Eq, Structural)]
pub struct VarEdge {
    /// Connected factor.
    pub factor_idx: FactorIndex,
    /// Position of the variable in the factor's scope.
    pub pos_in_factor: usize,
}

/// Adjacency from a factor node to a connected variable.
#[derive(Debug, Clone, Copy, PartialEq, Eq, Structural)]
pub struct FactorEdge {
    /// Connected variable.
    pub var_idx: VarIndex,
    /// Position of the factor among the variable's connected factors.
    pub pos_in_var: usize,
}

/// Number of occurrences of `v` among the first `n` scope entries.
pub open spec fn scope_count(scopes: Seq<VarIndex>, n: int, v: VarIndex) -> nat
    decreases n,
{
    if n <= 0 || scopes.len() < n {
        0
    } else if scopes[n - 1] == v {
        scope_count(scopes, n - 1, v) + 1
    } else {
        scope_count(scopes, n - 1, v)
    }
}

/// Bipartite graph of candidate-identity variables and factor potentials,
/// with each adjacency recording its position in the opposite list.
pub struct FactorGraph<F> {
    /// Variable nodes; node `i` has index `i`.
    pub variables: Vec<VariableNode>,
    /// Factor potentials.
    pub factors: Vec<F>,
    /// For each variable, its connected factors.
    pub var_adjacencies: Vec<Vec<VarEdge>>,
    /// For each factor, its scope variables.
    pub factor_adjacencies: Vec<Vec<FactorEdge>>,
}

impl<F> FactorGraph<F> {
    /// Well-formedness: one adjacency list per node, and every adjacency
    /// names the position of its reverse adjacency, in both directions.
    pub open spec fn wf(&self) -> bool {
        let va = self.var_adjacencies@;
        let fa = self.factor_adjacencies@;
        &&& va.len() == self.variables@.len()
        &&& fa.len() == self.factors@.len()
        &&& forall|i: int| 0 <= i < self.variables@.len() ==> (#[trigger] self.variables@[i]).id == VarIndex(i as usize)
        &&& forall|f: int, p: int|
            0 <= f < fa.len() && 0 <= p < fa[f]@.len() ==> {
                let e = #[trigger] fa[f]@[p];
                &&& e.var_idx.0 < va.len()
                &&& e.pos_in_var < va[e.var_idx.0 as int]@.len()
                &&& va[e.var_idx.0 as int]@[e.pos_in_var as int] == VarEdge {
                    factor_idx: FactorIndex(f as usize),
                    pos_in_factor: p as usize,
                }
            }
        &&& forall|v: int, q: int|
            0 <= v < va.len() && 0 <= q < va[v]@.len() ==> {
                let e = #[trigger] va[v]@[q];
                &&& e.factor_idx.0 < fa.len()
                &&& e.pos_in_factor < fa[e.factor_idx.0 as int]@.len()
                &&& fa[e.factor_idx.0 as int]@[e.pos_in_factor as int] == FactorEdge {
                    var_idx: VarIndex(v as usize),
                    pos_in_var: q as usize,
                }
            }
    }

    /// Constructs an empty factor graph.
    pub fn new() -> (graph: Self)
        ensures
            graph.wf(),
            graph.variables@.len() == 0,
            graph.factors@.len() == 0,
    {
        FactorGraph {
            variables: Vec::new(),
            factors: Vec::new(),
            var_adjacencies: Vec::new(),
            factor_adjacencies: Vec::new(),
        }
    }

    /// Constructs an empty factor graph with reserved capacity.
    pub fn with_capacity(var_capacity: usize, factor_capacity: usize) -> (graph: Self)
        ensures
            graph.wf(),
            graph.variables@.len() == 0,
            graph.factors@.len() == 0,
    {
        FactorGraph {
            variables: Vec::with_capacity(var_capacity),
            factors: Vec::with_capacity(factor_capacity),
            var_adjacencies: Vec::with_capacity(var_capacity),
            factor_adjacencies: Vec::with_capacity(factor_capacity),
        }
    }

    /// Adds a candidate identity variable, connected to no factor yet, and
    /// returns its index.
    pub fn add_variable(&mut self, candidate_identity: IdentityId) -> (idx: VarIndex)
        requires
            old(self).wf(),
        ensures
            final(self).wf(),
            idx == VarIndex(old(self).variables@.len() as usize),
            final(self).variables@ == old(self).variables@.push(VariableNode { id: idx, candidate_identity }),
            final(self).factors@ == old(self).factors@,
            final(self).factor_adjacencies@ == old(self).factor_adjacencies@,
            final(self).var_adjacencies@.len() == old(self).var_adjacencies@.len() + 1,
            final(self).var_adjacencies@[idx.0 as int]@ == Seq::<VarEdge>::empty(),
            forall|v: int|
                0 <= v < old(self).var_adjacencies@.len() ==> #[trigger] final(self).var_adjacencies@[v]
                    == old(self).var_adjacencies@[v],
    {
        let idx = VarIndex(self.variables.len());
        self.variables.push(VariableNode { id: idx, candidate_identity });
        self.var_adjacencies.push(Vec::with_capacity(4));
        idx
    }

    /// Connects a factor to its scope of variables and returns its index.
    /// Each scope position gets the next slot of its variable's adjacency
    /// list, and both adjacencies record each other's position.
    pub fn add_factor(&mut self, factor: F, scopes: &[VarIndex]) -> (f_idx: FactorIndex)
        requires
            old(self).wf(),
            forall|p: int| 0 <= p < scopes@.len() ==> (#[trigger] scopes@[p]).0 < old(self).variables@.len(),
        ensures
            final(self).wf(),
            f_idx == FactorIndex(old(self).factors@.len() as usize),
            final(self).factors@ == old(self).factors@.push(factor),
            final(self).variables@ == old(self).variables@,
            final(self).factor_adjacencies@.len() == old(self).factor_adjacencies@.len() + 1,
            forall|g: int|
                0 <= g < old(self).factor_adjacencies@.len() ==> #[trigger] final(self).factor_adjacencies@[g]
                    == old(self).factor_adjacencies@[g],
            final(self).factor_adjacencies@[f_idx.0 as int]@.len() == scopes@.len(),
            forall|p: int|
                0 <= p < scopes@.len() ==> (#[trigger] final(self).factor_adjacencies@[f_idx.0 as int]@[p]).var_idx
                    == scopes@[p],
            forall|v: int|
                0 <= v < old(self).var_adjacencies@.len() ==> {
                    &&& #[trigger] final(self).var_adjacencies@[v]@.len() == old(self).var_adjacencies@[v]@.len()
                        + scope_count(scopes@, scopes@.len() as int, VarIndex(v as usize))
                    &&& final(self).var_adjacencies@[v]@.subrange(0, old(self).var_adjacencies@[v]@.len() as int)
                        == old(self).var_adjacencies@[v]@
                },
    {
        let f_idx = FactorIndex(self.factors.len());
        let ghost old_variables = self.variables@;
        self.factors.push(factor);
        let ghost pushed_factors = self.factors@;
        let ghost old_va = self.var_adjacencies@;
        let ghost old_fa = self.factor_adjacencies@;
        let variable_total = self.var_adjacencies.len();
        let mut factor_edges: Vec<FactorEdge> = Vec::with_capacity(scopes.len());
        let mut pos_in_factor: usize = 0;
        while pos_in_factor < scopes.len()
            invariant
                f_idx.0 == old_fa.len(),
                variable_total == old_va.len(),
                self.factors@ == pushed_factors,
                self.variables@ == old_variables,
                self.factors@.len() == old_fa.len() + 1,
                self.factor_adjacencies@ == old_fa,
                self.var_adjacencies@.len() == old_va.len(),
                self.variables@.len() == old_va.len(),
                forall|i: int| 0 <= i < self.variables@.len() ==> (#[trigger] self.variables@[i]).id == VarIndex(i as usize),
                forall|p: int| 0 <= p < scopes@.len() ==> (#[trigger] scopes@[p]).0 < old_va.len(),
                pos_in_factor <= scopes@.len(),
                factor_edges@.len() == pos_in_factor,
                forall|p: int| 0 <= p < pos_in_factor ==> (#[trigger] factor_edges@[p]).var_idx == scopes@[p],
                forall|v: int|
                    0 <= v < old_va.len() ==> {
                        &&& #[trigger] self.var_adjacencies@[v]@.len() == old_va[v]@.len() + scope_count(
                            scopes@,
                            pos_in_factor as int,
                            VarIndex(v as usize),
                        )
                        &&& self.var_adjacencies@[v]@.subrange(0, old_va[v]@.len() as int) == old_va[v]@
                    },
                forall|g: int, p: int|
                    0 <= g < old_fa.len() && 0 <= p < old_fa[g]@.len() ==> {
                        let e = #[trigger] old_fa[g]@[p];
                        &&& e.var_idx.0 < old_va.len()
                        &&& e.pos_in_var < old_va[e.var_idx.0 as int]@.len()
                        &&& old_va[e.var_idx.0 as int]@[e.pos_in_var as int] == VarEdge {
                            factor_idx: FactorIndex(g as usize),
                            pos_in_factor: p as usize,
                        }
                    },
                forall|v: int, q: int|
                    0 <= v < old_va.len() && 0 <= q < self.var_adjacencies@[v]@.len() ==> {
                        let e = #[trigger] self.var_adjacencies@[v]@[q];
                        if q < old_va[v]@.len() {
                            &&& e.factor_idx.0 < old_fa.len()
                            &&& e.pos_in_factor < old_fa[e.factor_idx.0 as int]@.len()
                            &&& old_fa[e.factor_idx.0 as int]@[e.pos_in_factor as int] == FactorEdge {
                                var_idx: VarIndex(v as usize),
                                pos_in_var: q as usize,
                            }
                        } else {
                            &&& e.factor_idx == f_idx
                            &&& e.pos_in_factor < pos_in_factor
                            &&& factor_edges@[e.pos_in_factor as int] == FactorEdge {
                                var_idx: VarIndex(v as usize),
                                pos_in_var: q as usize,
                            }
                        }
                    },
                forall|p: int|
                    0 <= p < pos_in_factor ==> {
                        let e = #[trigger] factor_edges@[p];
                        &&& e.pos_in_var < self.var_adjacencies@[e.var_idx.0 as int]@.len()
                        &&& e.pos_in_var >= old_va[e.var_idx.0 as int]@.len()
                        &&& self.var_adjacencies@[e.var_idx.0 as int]@[e.pos_in_var as int] == VarEdge {
                            factor_idx: f_idx,
                            pos_in_factor: p as usize,
                        }
                    },
            decreases scopes@.len() - pos_in_factor,
        {
            let v_idx = scopes[pos_in_factor];
            let ghost before = self.var_adjacencies@;
            let pos_in_var = self.var_adjacencies[v_idx.0].len();
            self.var_adjacencies[v_idx.0].push(VarEdge { factor_idx: f_idx, pos_in_factor });
            factor_edges.push(FactorEdge { var_idx: v_idx, pos_in_var });
            proof {
                assert forall|v: int| 0 <= v < old_va.len() && v != v_idx.0 implies #[trigger] self.var_adjacencies@[v]
                    == before[v] by {
                }
                assert(self.var_adjacencies@[v_idx.0 as int]@ == before[v_idx.0 as int]@.push(
                    VarEdge { factor_idx: f_idx, pos_in_factor },
                ));
                assert forall|v: int| 0 <= v < old_va.len() implies #[trigger] self.var_adjacencies@[v]@.len()
                    == old_va[v]@.len() + scope_count(scopes@, pos_in_factor + 1, VarIndex(v as usize)) by {
                    assert(before[v]@.len() == old_va[v]@.len() + scope_count(
                        scopes@,
                        pos_in_factor as int,
                        VarIndex(v as usize),
                    ));
                    if v != v_idx.0 {
                        assert(self.var_adjacencies@[v] == before[v]);
                        assert(scopes@[pos_in_factor as int] != VarIndex(v as usize));
                    } else {
                        assert(scopes@[pos_in_factor as int] == VarIndex(v as usize));
                        assert(self.var_adjacencies@[v]@.len() == before[v]@.len() + 1);
                    }
                    assert(scope_count(scopes@, pos_in_factor + 1, VarIndex(v as usize)) == scope_count(
                        scopes@,
                        pos_in_factor as int,
                        VarIndex(v as usize),
                    ) + (if scopes@[pos_in_factor as int] == VarIndex(v as usize) {
                        1nat
                    } else {
                        0nat
                    }));
                }
                assert forall|v: int| 0 <= v < old_va.len() implies self.var_adjacencies@[v]@.subrange(
                    0,
                    old_va[v]@.len() as int,
                ) == old_va[v]@ by {
                    if v == v_idx.0 {
                        assert(self.var_adjacencies@[v]@.subrange(0, old_va[v]@.len() as int) =~= before[v]@.subrange(
                            0,
                            old_va[v]@.len() as int,
                        ));
                    }
                }
            }
            pos_in_factor += 1;
        }
        self.factor_adjacencies.push(factor_edges);
        proof {
            assert(scopes@.len() as int == pos_in_factor as int);
        }
        f_idx
    }
}

} // verus!
