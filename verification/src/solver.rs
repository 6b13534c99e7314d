//! Factor-graph compilation for the sum-product solver: the message layout
//! of a collective batch, checked against the variables' domains, and the
//! connectivity of its bipartite variable-factor graph.
use crate::provider::{table_size, CandidateBuffer, FactorShape};
use crate::raw_components::{joined_labels, union_find_find, union_find_labels, union_find_new, union_find_union};
use vstd::prelude::*;

verus! {

/// Error raised while compiling or solving a collective factor graph.
#[derive(Debug, Clone, Copy, PartialEq, Eq, Structural)]
pub enum SolverError {
    /// A factor referenced a variable outside the candidate batch.
    VariableOutOfBounds {
        /// Offending batch-local variable index.
        variable: usize,
        /// Number of variables in the batch.
        batch_len: usize,
    },
    /// A factor cardinality differs from the variable's domain.
    CardinalityMismatch,
    /// Message storage size overflowed `usize`.
    CapacityOverflow,
    /// The solver configuration holds invalid bounds.
    InvalidConfiguration,
    /// Log-domain normalization found no finite support.
    NoFiniteSupport,
}

/// One message slot between a variable and a factor of the compiled graph.
#[derive(Debug, Clone, Copy, PartialEq, Eq, Structural)]
pub struct MessageEdge {
    /// Batch-local variable index.
    pub variable: usize,
    /// Factor index.
    pub factor: usize,
    /// Position of the variable in the factor's scope.
    pub factor_position: usize,
    /// First slot of this edge's messages in the message buffers.
    pub message_offset: usize,
    /// Number of message slots: the variable's domain size.
    pub cardinality: usize,
}

/// Number of variables of a candidate batch: one per completed group.
pub open spec fn batch_len(candidates: CandidateBuffer) -> int {
    if candidates.spec_offsets().len() == 0 {
        0
    } else {
        candidates.spec_offsets().len() - 1
    }
}

/// Domain size of batch variable `v`: its gated candidates, then `new` and
/// `noise`.
pub open spec fn domain_cardinality(candidates: CandidateBuffer, v: int) -> usize {
    match candidates.spec_get(v) {
        Some(group) => if group.len() + 2 > usize::MAX {
            usize::MAX
        } else {
            (group.len() + 2) as usize
        },
        None => 2,
    }
}

/// Domain sizes of every variable of a batch.
pub open spec fn domain_cardinalities(candidates: CandidateBuffer) -> Seq<usize> {
    Seq::new(batch_len(candidates) as nat, |v: int| domain_cardinality(candidates, v))
}

/// Row-major strides of a dense table: the number of rows spanned by one
/// step at each scope position.
pub open spec fn scope_strides(cardinalities: Seq<u16>) -> Seq<usize> {
    Seq::new(cardinalities.len(), |p: int| table_size(cardinalities.skip(p + 1)) as usize)
}

/// Compiles positions `p..` of factor `f`'s scope: each adds one edge at the
/// current message offset, after checking that the variable is in the
/// batch, that its domain matches the factor's cardinality, and that the
/// message storage still fits in `usize`.
pub open spec fn compile_scope(
    cards: Seq<usize>,
    f: int,
    variables: Seq<u32>,
    cardinalities: Seq<u16>,
    p: int,
    edges: Seq<MessageEdge>,
    offset: int,
) -> Result<(Seq<MessageEdge>, int), SolverError>
    decreases variables.len() - p,
{
    if p < 0 || p >= variables.len() {
        Ok((edges, offset))
    } else {
        let v = variables[p] as int;
        if v >= cards.len() {
            Err(SolverError::VariableOutOfBounds { variable: v as usize, batch_len: cards.len() as usize })
        } else if cards[v] != cardinalities[p] as usize {
            Err(SolverError::CardinalityMismatch)
        } else if offset + cards[v] > usize::MAX {
            Err(SolverError::CapacityOverflow)
        } else {
            compile_scope(
                cards,
                f,
                variables,
                cardinalities,
                p + 1,
                edges.push(
                    MessageEdge {
                        variable: v as usize,
                        factor: f as usize,
                        factor_position: p as usize,
                        message_offset: offset as usize,
                        cardinality: cards[v],
                    },
                ),
                offset + cards[v],
            )
        }
    }
}

/// Compiles factors `f..`, in order, each scope position after the other.
pub open spec fn compile_factors(
    cards: Seq<usize>,
    shapes: Seq<FactorShape>,
    f: int,
    edges: Seq<MessageEdge>,
    offset: int,
) -> Result<(Seq<MessageEdge>, int), SolverError>
    decreases shapes.len() - f, 1int,
{
    if f < 0 || f >= shapes.len() {
        Ok((edges, offset))
    } else {
        continue_factor(cards, shapes, f, 0, edges, offset)
    }
}

/// Compiles the rest of factor `f` from scope position `p`, then the
/// factors after it.
pub open spec fn continue_factor(
    cards: Seq<usize>,
    shapes: Seq<FactorShape>,
    f: int,
    p: int,
    edges: Seq<MessageEdge>,
    offset: int,
) -> Result<(Seq<MessageEdge>, int), SolverError>
    decreases shapes.len() - f, 0int,
{
    if f < 0 || f >= shapes.len() {
        Ok((edges, offset))
    } else {
        match compile_scope(cards, f, shapes[f].spec_variables(), shapes[f].spec_cardinalities(), p, edges, offset) {
            Ok((next_edges, next_offset)) => compile_factors(cards, shapes, f + 1, next_edges, next_offset),
            Err(error) => Err(error),
        }
    }
}

/// Indexes of the edges at variable `v`, in ascending order.
pub open spec fn edges_at_variable(edges: Seq<MessageEdge>, v: int) -> Seq<usize>
    decreases edges.len(),
{
    if edges.len() == 0 {
        Seq::empty()
    } else if edges.last().variable == v {
        edges_at_variable(edges.drop_last(), v).push((edges.len() - 1) as usize)
    } else {
        edges_at_variable(edges.drop_last(), v)
    }
}

/// Indexes of the edges at factor `f`, in ascending order.
pub open spec fn edges_at_factor(edges: Seq<MessageEdge>, f: int) -> Seq<usize>
    decreases edges.len(),
{
    if edges.len() == 0 {
        Seq::empty()
    } else if edges.last().factor == f {
        edges_at_factor(edges.drop_last(), f).push((edges.len() - 1) as usize)
    } else {
        edges_at_factor(edges.drop_last(), f)
    }
}

/// No edge is at a variable or factor that no edge names.
proof fn lemma_no_edges_at(edges: Seq<MessageEdge>, v: int, f: int)
    requires
        forall|k: int| 0 <= k < edges.len() ==> edges[k].variable != v,
        forall|k: int| 0 <= k < edges.len() ==> edges[k].factor != f,
    ensures
        edges_at_variable(edges, v) == Seq::<usize>::empty(),
        edges_at_factor(edges, f) == Seq::<usize>::empty(),
    decreases edges.len(),
{
    if edges.len() > 0 {
        lemma_no_edges_at(edges.drop_last(), v, f);
    }
}

/// Prepending one cardinality multiplies the number of rows by it.
proof fn lemma_table_size_prepend(c: u16, s: Seq<u16>)
    ensures
        table_size(seq![c] + s) == c * table_size(s),
    decreases s.len(),
{
    let whole = seq![c] + s;
    if s.len() == 0 {
        assert(whole.drop_last() =~= Seq::<u16>::empty());
        assert(table_size(Seq::<u16>::empty()) == 1);
        assert(table_size(whole) == table_size(whole.drop_last()) * whole.last());
        assert(whole.last() == c);
    } else {
        lemma_table_size_prepend(c, s.drop_last());
        assert(whole.drop_last() =~= seq![c] + s.drop_last());
        assert(whole.last() == s.last());
        assert(table_size(whole) == table_size(whole.drop_last()) * whole.last());
        assert(table_size(s) == table_size(s.drop_last()) * s.last());
        let a = table_size(s.drop_last());
        let l = s.last() as int;
        assert((c * a) * l == c * (a * l)) by (nonlinear_arith);
    }
}

/// With positive cardinalities, every suffix spans at least one and at most
/// all rows of the table.
proof fn lemma_suffix_size_bounded(cards: Seq<u16>, q: int)
    requires
        0 <= q <= cards.len(),
        forall|i: int| 0 <= i < cards.len() ==> cards[i] > 0,
    ensures
        1 <= table_size(cards.skip(q)) <= table_size(cards),
    decreases q,
{
    if q == 0 {
        assert(cards.skip(0) =~= cards);
        lemma_positive_size(cards);
    } else {
        lemma_suffix_size_bounded(cards, q - 1);
        assert(cards.skip(q - 1) =~= seq![cards[q - 1]] + cards.skip(q));
        lemma_table_size_prepend(cards[q - 1], cards.skip(q));
        let t = table_size(cards.skip(q));
        let c = cards[q - 1] as int;
        lemma_positive_size(cards.skip(q));
        assert(t <= c * t) by (nonlinear_arith)
            requires
                c >= 1,
                t >= 1,
        ;
    }
}

/// With positive cardinalities, a table has at least one row.
proof fn lemma_positive_size(cards: Seq<u16>)
    requires
        forall|i: int| 0 <= i < cards.len() ==> cards[i] > 0,
    ensures
        table_size(cards) >= 1,
    decreases cards.len(),
{
    if cards.len() > 0 {
        lemma_positive_size(cards.drop_last());
        let a = table_size(cards.drop_last());
        let c = cards.last() as int;
        assert(a * c >= 1) by (nonlinear_arith)
            requires
                a >= 1,
                c >= 1,
        ;
    }
}

/// Message slots are laid out back to back: the first edge starts at slot
/// zero, each edge starts where the previous one ends, and the last one ends
/// at `end`.
pub open spec fn slots_contiguous(edges: Seq<MessageEdge>, end: int) -> bool {
    &&& edges.len() == 0 ==> end == 0
    &&& edges.len() > 0 ==> edges[0].message_offset == 0 && edges.last().message_offset
        + edges.last().cardinality == end
    &&& forall|k: int|
        0 <= k < edges.len() - 1 ==> #[trigger] edges[k].message_offset + edges[k].cardinality
            == edges[k + 1].message_offset
}

proof fn lemma_scope_contiguous(
    cards: Seq<usize>,
    f: int,
    variables: Seq<u32>,
    cardinalities: Seq<u16>,
    p: int,
    edges: Seq<MessageEdge>,
    offset: int,
)
    requires
        0 <= offset,
        slots_contiguous(edges, offset),
    ensures
        compile_scope(cards, f, variables, cardinalities, p, edges, offset) matches Ok((e, o)) ==> slots_contiguous(e, o),
    decreases variables.len() - p,
{
    if 0 <= p < variables.len() {
        let v = variables[p] as int;
        if v < cards.len() && cards[v] == cardinalities[p] as usize && offset + cards[v] <= usize::MAX {
            let edge = MessageEdge {
                variable: v as usize,
                factor: f as usize,
                factor_position: p as usize,
                message_offset: offset as usize,
                cardinality: cards[v],
            };
            let next = edges.push(edge);
            assert forall|k: int| 0 <= k < next.len() - 1 implies #[trigger] next[k].message_offset + next[k].cardinality
                == next[k + 1].message_offset by {
                if k < edges.len() - 1 {
                    assert(next[k] == edges[k] && next[k + 1] == edges[k + 1]);
                }
            }
            lemma_scope_contiguous(cards, f, variables, cardinalities, p + 1, next, offset + cards[v]);
        }
    }
}

proof fn lemma_factors_contiguous(
    cards: Seq<usize>,
    shapes: Seq<FactorShape>,
    f: int,
    edges: Seq<MessageEdge>,
    offset: int,
)
    requires
        0 <= offset,
        slots_contiguous(edges, offset),
    ensures
        compile_factors(cards, shapes, f, edges, offset) matches Ok((e, o)) ==> slots_contiguous(e, o),
    decreases shapes.len() - f, 1int,
{
    if 0 <= f < shapes.len() {
        lemma_continue_contiguous(cards, shapes, f, edges, offset);
    }
}

proof fn lemma_continue_contiguous(
    cards: Seq<usize>,
    shapes: Seq<FactorShape>,
    f: int,
    edges: Seq<MessageEdge>,
    offset: int,
)
    requires
        0 <= offset,
        slots_contiguous(edges, offset),
    ensures
        continue_factor(cards, shapes, f, 0, edges, offset) matches Ok((e, o)) ==> slots_contiguous(e, o),
    decreases shapes.len() - f, 0int,
{
    if 0 <= f < shapes.len() {
        lemma_scope_contiguous(cards, f, shapes[f].spec_variables(), shapes[f].spec_cardinalities(), 0, edges, offset);
        lemma_scope_offsets_grow(cards, f, shapes[f].spec_variables(), shapes[f].spec_cardinalities(), 0, edges, offset);
        match compile_scope(cards, f, shapes[f].spec_variables(), shapes[f].spec_cardinalities(), 0, edges, offset) {
            Ok((e, o)) => {
                lemma_factors_contiguous(cards, shapes, f + 1, e, o);
            },
            Err(_) => {},
        }
    }
}

proof fn lemma_scope_offsets_grow(
    cards: Seq<usize>,
    f: int,
    variables: Seq<u32>,
    cardinalities: Seq<u16>,
    p: int,
    edges: Seq<MessageEdge>,
    offset: int,
)
    requires
        0 <= offset,
    ensures
        compile_scope(cards, f, variables, cardinalities, p, edges, offset) matches Ok((e, o)) ==> offset <= o,
    decreases variables.len() - p,
{
    if 0 <= p < variables.len() {
        let v = variables[p] as int;
        if v < cards.len() && cards[v] == cardinalities[p] as usize && offset + cards[v] <= usize::MAX {
            let edge = MessageEdge {
                variable: v as usize,
                factor: f as usize,
                factor_position: p as usize,
                message_offset: offset as usize,
                cardinality: cards[v],
            };
            lemma_scope_offsets_grow(cards, f, variables, cardinalities, p + 1, edges.push(edge), offset + cards[v]);
        }
    }
}

/// A compiled layout packs message slots back to back: the first edge's
/// messages start at slot zero, each edge's start where the previous
/// edge's end, and the last end at the total message length.
pub proof fn law_message_slots_are_contiguous(cards: Seq<usize>, shapes: Seq<FactorShape>)
    ensures
        compile_factors(cards, shapes, 0, Seq::empty(), 0) matches Ok((edges, len)) ==> slots_contiguous(edges, len),
{
    lemma_factors_contiguous(cards, shapes, 0, Seq::empty(), 0);
}

/// Message layout of a compiled collective factor graph: the edges in
/// factor and scope order, the edges at each factor and at each variable,
/// each variable's domain size, each factor's row-major strides, and the
/// total number of message slots.
#[derive(Debug)]
pub struct MessageLayout {
    edges: Vec<MessageEdge>,
    factor_edges: Vec<Vec<usize>>,
    variable_edges: Vec<Vec<usize>>,
    variable_cardinalities: Vec<usize>,
    factor_strides: Vec<Vec<usize>>,
    message_len: usize,
}

impl MessageLayout {
    /// Edges in factor and scope order, for specifications.
    pub closed spec fn spec_edges(&self) -> Seq<MessageEdge> {
        self.edges@
    }

    /// Edge indexes at each factor, for specifications.
    pub closed spec fn spec_factor_edges(&self) -> Seq<Seq<usize>> {
        self.factor_edges@.map_values(|list: Vec<usize>| list@)
    }

    /// Edge indexes at each variable, for specifications.
    pub closed spec fn spec_variable_edges(&self) -> Seq<Seq<usize>> {
        self.variable_edges@.map_values(|list: Vec<usize>| list@)
    }

    /// Domain size of each variable, for specifications.
    pub closed spec fn spec_variable_cardinalities(&self) -> Seq<usize> {
        self.variable_cardinalities@
    }

    /// Strides of each factor, for specifications.
    pub closed spec fn spec_factor_strides(&self) -> Seq<Seq<usize>> {
        self.factor_strides@.map_values(|list: Vec<usize>| list@)
    }

    /// Total number of message slots, for specifications.
    pub closed spec fn spec_message_len(&self) -> usize {
        self.message_len
    }

    /// Creates an empty layout.
    pub fn new() -> (layout: Self)
        ensures
            layout.spec_edges() == Seq::<MessageEdge>::empty(),
            layout.spec_factor_edges() == Seq::<Seq<usize>>::empty(),
            layout.spec_variable_edges() == Seq::<Seq<usize>>::empty(),
            layout.spec_variable_cardinalities() == Seq::<usize>::empty(),
            layout.spec_factor_strides() == Seq::<Seq<usize>>::empty(),
            layout.spec_message_len() == 0,
    {
        let layout = MessageLayout {
            edges: Vec::new(),
            factor_edges: Vec::new(),
            variable_edges: Vec::new(),
            variable_cardinalities: Vec::new(),
            factor_strides: Vec::new(),
            message_len: 0,
        };
        proof {
            assert(layout.spec_factor_edges() =~= Seq::<Seq<usize>>::empty());
            assert(layout.spec_variable_edges() =~= Seq::<Seq<usize>>::empty());
            assert(layout.spec_factor_strides() =~= Seq::<Seq<usize>>::empty());
        }
        layout
    }

    /// Clears the compiled graph while keeping the top-level allocations:
    /// afterwards the layout is the empty layout.
    pub fn clear(&mut self)
        ensures
            final(self).spec_edges() == Seq::<MessageEdge>::empty(),
            final(self).spec_factor_edges() == Seq::<Seq<usize>>::empty(),
            final(self).spec_variable_edges() == Seq::<Seq<usize>>::empty(),
            final(self).spec_variable_cardinalities() == Seq::<usize>::empty(),
            final(self).spec_factor_strides() == Seq::<Seq<usize>>::empty(),
            final(self).spec_message_len() == 0,
    {
        self.edges.clear();
        self.factor_edges.clear();
        self.variable_edges.clear();
        self.variable_cardinalities.clear();
        self.factor_strides.clear();
        self.message_len = 0;
        proof {
            assert(self.spec_factor_edges() =~= Seq::<Seq<usize>>::empty());
            assert(self.spec_variable_edges() =~= Seq::<Seq<usize>>::empty());
            assert(self.spec_factor_strides() =~= Seq::<Seq<usize>>::empty());
        }
    }

    /// Compiles the factor graph of a batch: one variable per completed
    /// candidate group, with the group's candidates plus `new` and `noise` as
    /// its domain, and one edge per factor scope position. Fails on the
    /// first position, in factor and scope order, whose variable is outside
    /// the batch or whose cardinality differs from the variable's domain, or
    /// when the message storage would overflow `usize`.
    pub fn compile(&mut self, candidates: &CandidateBuffer, factors: &[FactorShape]) -> (result: Result<
        (),
        SolverError,
    >)
        requires
            candidates.inv(),
        ensures
            match compile_factors(domain_cardinalities(*candidates), factors@, 0, Seq::empty(), 0) {
                Ok((edges, len)) => {
                    &&& result is Ok
                    &&& final(self).spec_edges() == edges
                    &&& final(self).spec_message_len() == len
                    &&& forall|k: int|
                        0 <= k < edges.len() ==> (#[trigger] edges[k]).variable < batch_len(*candidates)
                            && edges[k].factor < factors@.len()
                    &&& final(self).spec_variable_cardinalities() == domain_cardinalities(*candidates)
                    &&& final(self).spec_variable_edges().len() == batch_len(*candidates)
                    &&& forall|v: int|
                        0 <= v < batch_len(*candidates) ==> #[trigger] final(self).spec_variable_edges()[v]
                            == edges_at_variable(edges, v)
                    &&& final(self).spec_factor_edges().len() == factors@.len()
                    &&& forall|f: int|
                        0 <= f < factors@.len() ==> #[trigger] final(self).spec_factor_edges()[f]
                            == edges_at_factor(edges, f)
                    &&& final(self).spec_factor_strides().len() == factors@.len()
                    &&& forall|f: int|
                        0 <= f < factors@.len() ==> #[trigger] final(self).spec_factor_strides()[f]
                            == scope_strides(factors@[f].spec_cardinalities())
                },
                Err(error) => result == Err::<(), SolverError>(error),
            },
    {
        let variables = candidates.observation_count();
        let ghost cards = domain_cardinalities(*candidates);
        let ghost shapes = factors@;
        self.edges.clear();
        self.factor_edges.clear();
        self.variable_edges.clear();
        self.variable_cardinalities.clear();
        self.factor_strides.clear();
        self.message_len = 0;
        let mut v: usize = 0;
        while v < variables
            invariant
                candidates.inv(),
                cards == domain_cardinalities(*candidates),
                variables == batch_len(*candidates),
                v <= variables,
                self.variable_cardinalities@ == cards.take(v as int),
                self.variable_edges@.len() == v,
                forall|u: int| 0 <= u < v ==> (#[trigger] self.variable_edges@[u])@ == Seq::<usize>::empty(),
                self.edges@ == Seq::<MessageEdge>::empty(),
                self.factor_edges@ == Seq::<Vec<usize>>::empty(),
                self.factor_strides@ == Seq::<Vec<usize>>::empty(),
            decreases variables - v,
        {
            let cardinality = match candidates.get(v) {
                Some(domain) => domain.len().saturating_add(2),
                None => 2,
            };
            proof {
                assert(cardinality == domain_cardinality(*candidates, v as int));
            }
            self.variable_cardinalities.push(cardinality);
            self.variable_edges.push(Vec::new());
            proof {
                assert(self.variable_cardinalities@ =~= cards.take(v + 1));
            }
            v += 1;
        }
        proof {
            assert(self.variable_cardinalities@ =~= cards);
        }
        let mut message_len: usize = 0;
        let mut f: usize = 0;
        while f < factors.len()
            invariant
                shapes == factors@,
                cards == domain_cardinalities(*candidates),
                cards.len() == variables,
                self.variable_cardinalities@ == cards,
                f <= factors@.len(),
                compile_factors(cards, shapes, 0, Seq::empty(), 0) == compile_factors(
                    cards,
                    shapes,
                    f as int,
                    self.edges@,
                    message_len as int,
                ),
                self.variable_edges@.len() == variables,
                forall|u: int|
                    0 <= u < variables ==> (#[trigger] self.variable_edges@[u])@ == edges_at_variable(
                        self.edges@,
                        u,
                    ),
                self.factor_edges@.len() == f,
                forall|g: int|
                    0 <= g < f ==> (#[trigger] self.factor_edges@[g])@ == edges_at_factor(self.edges@, g),
                self.factor_strides@.len() == f,
                forall|g: int|
                    0 <= g < f ==> (#[trigger] self.factor_strides@[g])@ == scope_strides(
                        shapes[g].spec_cardinalities(),
                    ),
                forall|k: int| 0 <= k < self.edges@.len() ==> (#[trigger] self.edges@[k]).factor < f,
                forall|k: int| 0 <= k < self.edges@.len() ==> (#[trigger] self.edges@[k]).variable < variables,
            decreases factors@.len() - f,
        {
            let shape = &factors[f];
            proof {
                use_type_invariant(shape);
            }
            let vars = shape.variables();
            let scope_cards = shape.cardinalities();
            let ghost cs = scope_cards@;
            let scope_len = vars.len();
            proof {
                assert forall|i: int| 0 <= i < cs.len() implies cs[i] > 0 by {
                    if cs[i] == 0 {
                        assert(cs.contains(0));
                    }
                }
            }
            let mut strides: Vec<usize> = Vec::new();
            let mut s: usize = 0;
            while s < scope_len
                invariant
                    s <= scope_len,
                    strides@.len() == s,
                    forall|k: int| 0 <= k < s ==> strides@[k] == 1,
                decreases scope_len - s,
            {
                strides.push(1);
                s += 1;
            }
            proof {
                assert(cs.skip(scope_len as int) =~= Seq::<u16>::empty());
                assert(table_size(cs.skip(scope_len as int)) == 1);
            }
            let mut position: usize = scope_len;
            while position > 1
                invariant
                    scope_len == cs.len(),
                    cs == scope_cards@,
                    cs.len() > 0,
                    1 <= position <= scope_len,
                    forall|i: int| 0 <= i < cs.len() ==> cs[i] > 0,
                    table_size(cs) <= usize::MAX,
                    strides@.len() == scope_len,
                    strides@[scope_len - 1] == 1,
                    forall|q: int| position - 1 <= q < scope_len ==> #[trigger] strides@[q] == scope_strides(cs)[q],
                decreases position,
            {
                let at = position - 2;
                let next = position - 1;
                proof {
                    assert(cs.skip(next as int) =~= seq![cs[next as int]] + cs.skip(next + 1));
                    lemma_table_size_prepend(cs[next as int], cs.skip(next + 1));
                    lemma_suffix_size_bounded(cs, next as int);
                    lemma_suffix_size_bounded(cs, next + 1);
                    let t = table_size(cs.skip(next + 1));
                    let c = cs[next as int] as int;
                    assert(t * c == c * t) by (nonlinear_arith);
                }
                let step = match strides[next].checked_mul(scope_cards[next] as usize) {
                    Some(step) => step,
                    None => {
                        proof {
                            assert(false);
                        }
                        return Err(SolverError::CapacityOverflow);
                    },
                };
                strides[at] = step;
                position = next;
            }
            proof {
                if scope_len == 1 {
                    assert(cs.skip(1) =~= Seq::<u16>::empty());
                }
                assert(strides@ =~= scope_strides(cs));
            }
            self.factor_strides.push(strides);
            self.factor_edges.push(Vec::new());
            proof {
                lemma_no_edges_at(self.edges@, -1, f as int);
            }
            let ghost vs = vars@;
            let mut p: usize = 0;
            while p < scope_len
                invariant
                    shapes == factors@,
                    cards == domain_cardinalities(*candidates),
                    cards.len() == variables,
                    self.variable_cardinalities@ == cards,
                    f < factors@.len(),
                    vs == vars@,
                    vs == shapes[f as int].spec_variables(),
                    cs == shapes[f as int].spec_cardinalities(),
                    cs == scope_cards@,
                    scope_len == vs.len(),
                    scope_len == cs.len(),
                    p <= scope_len,
                    compile_factors(cards, shapes, 0, Seq::empty(), 0) == continue_factor(
                        cards,
                        shapes,
                        f as int,
                        p as int,
                        self.edges@,
                        message_len as int,
                    ),
                    self.variable_edges@.len() == variables,
                    forall|u: int|
                        0 <= u < variables ==> (#[trigger] self.variable_edges@[u])@ == edges_at_variable(
                            self.edges@,
                            u,
                        ),
                    self.factor_edges@.len() == f + 1,
                    forall|g: int|
                        0 <= g <= f ==> (#[trigger] self.factor_edges@[g])@ == edges_at_factor(self.edges@, g),
                    self.factor_strides@.len() == f + 1,
                    forall|g: int|
                        0 <= g <= f ==> (#[trigger] self.factor_strides@[g])@ == scope_strides(
                            shapes[g].spec_cardinalities(),
                        ),
                    forall|k: int| 0 <= k < self.edges@.len() ==> (#[trigger] self.edges@[k]).factor <= f,
                    forall|k: int| 0 <= k < self.edges@.len() ==> (#[trigger] self.edges@[k]).variable < variables,
                decreases scope_len - p,
            {
                let variable = vars[p] as usize;
                if variable >= variables {
                    return Err(SolverError::VariableOutOfBounds { variable, batch_len: variables });
                }
                let cardinality = self.variable_cardinalities[variable];
                if cardinality != scope_cards[p] as usize {
                    return Err(SolverError::CardinalityMismatch);
                }
                let edge_index = self.edges.len();
                let ghost before = self.edges@;
                self.edges.push(
                    MessageEdge {
                        variable,
                        factor: f,
                        factor_position: p,
                        message_offset: message_len,
                        cardinality,
                    },
                );
                proof {
                    assert(self.edges@.drop_last() =~= before);
                }
                self.factor_edges[f].push(edge_index);
                self.variable_edges[variable].push(edge_index);
                let next_len = match message_len.checked_add(cardinality) {
                    Some(next_len) => next_len,
                    None => return Err(SolverError::CapacityOverflow),
                };
                message_len = next_len;
                p += 1;
            }
            f += 1;
        }
        self.message_len = message_len;
        Ok(())
    }

    /// Edges in factor and scope order.
    pub fn edges(&self) -> (edges: &[MessageEdge])
        ensures
            edges@ == self.spec_edges(),
    {
        self.edges.as_slice()
    }

    /// Indexes of the edges at factor `factor`, in ascending order.
    pub fn factor_edges(&self, factor: usize) -> (edges: &[usize])
        requires
            factor < self.spec_factor_edges().len(),
        ensures
            edges@ == self.spec_factor_edges()[factor as int],
    {
        self.factor_edges[factor].as_slice()
    }

    /// Indexes of the edges at variable `variable`, in ascending order.
    pub fn variable_edges(&self, variable: usize) -> (edges: &[usize])
        requires
            variable < self.spec_variable_edges().len(),
        ensures
            edges@ == self.spec_variable_edges()[variable as int],
    {
        self.variable_edges[variable].as_slice()
    }

    /// Domain size of each variable.
    pub fn variable_cardinalities(&self) -> (cardinalities: &[usize])
        ensures
            cardinalities@ == self.spec_variable_cardinalities(),
    {
        self.variable_cardinalities.as_slice()
    }

    /// Row-major strides of factor `factor`.
    pub fn factor_strides(&self, factor: usize) -> (strides: &[usize])
        requires
            factor < self.spec_factor_strides().len(),
        ensures
            strides@ == self.spec_factor_strides()[factor as int],
    {
        self.factor_strides[factor].as_slice()
    }

    /// Total number of message slots.
    pub fn message_len(&self) -> (len: usize)
        ensures
            len == self.spec_message_len(),
    {
        self.message_len
    }
}

/// Whether nodes `x` and `y` are joined by the first `k` edges of a batch's
/// bipartite graph, whose nodes are the variables `0..variables` followed
/// by the factors: each edge links its variable to node `variables + factor`.
/// It is the equivalence closure of the edges, grown one edge at a time.
pub open spec fn connected(edges: Seq<MessageEdge>, variables: int, k: int, x: int, y: int) -> bool
    decreases k,
{
    if k <= 0 {
        x == y
    } else {
        let a = edges[k - 1].variable as int;
        let b = variables + edges[k - 1].factor;
        ||| connected(edges, variables, k - 1, x, y)
        ||| connected(edges, variables, k - 1, x, a) && connected(edges, variables, k - 1, b, y)
        ||| connected(edges, variables, k - 1, x, b) && connected(edges, variables, k - 1, a, y)
    }
}

/// Whether edge `k` closes a cycle: the edges before it already join its
/// variable and its factor.
pub open spec fn closes_cycle(edges: Seq<MessageEdge>, variables: int, k: int) -> bool {
    connected(edges, variables, k, edges[k].variable as int, variables + edges[k].factor)
}

/// Whether the bipartite graph of the edges is a forest: no edge closes a
/// cycle.
pub open spec fn is_forest(edges: Seq<MessageEdge>, variables: int) -> bool {
    forall|k: int| 0 <= k < edges.len() ==> !#[trigger] closes_cycle(edges, variables, k)
}

/// Number of the first `j` edges that lie in the connected component of
/// node `x`.
pub open spec fn component_edge_count(edges: Seq<MessageEdge>, variables: int, x: int, j: int) -> nat
    decreases j,
{
    if j <= 0 {
        0
    } else {
        component_edge_count(edges, variables, x, j - 1) + if connected(
            edges,
            variables,
            edges.len() as int,
            edges[j - 1].variable as int,
            x,
        ) {
            1nat
        } else {
            0nat
        }
    }
}

/// Edge count of the largest connected component that holds one of the
/// first `i` edges; zero without edges.
pub open spec fn largest_component_edges(edges: Seq<MessageEdge>, variables: int, i: int) -> nat
    decreases i,
{
    if i <= 0 {
        0
    } else {
        let count = component_edge_count(edges, variables, edges[i - 1].variable as int, edges.len() as int);
        let before = largest_component_edges(edges, variables, i - 1);
        if count > before {
            count
        } else {
            before
        }
    }
}

/// Synchronous passes an exact tree schedule needs: one more than the edge
/// count of the largest component, saturated to `u32`.
pub open spec fn exact_passes(edges: Seq<MessageEdge>, variables: int) -> u32 {
    let passes = largest_component_edges(edges, variables, edges.len() as int) + 1;
    if passes > u32::MAX {
        u32::MAX
    } else {
        passes as u32
    }
}

/// Connectivity over the first `k` edges is an equivalence relation that
/// joins the endpoints of each of those edges: it is reflexive, symmetric
/// and transitive, and edge `e < k` connects its variable to its factor.
pub proof fn law_connectivity_is_an_equivalence(
    edges: Seq<MessageEdge>,
    variables: int,
    k: int,
    x: int,
    y: int,
    z: int,
)
    requires
        0 <= k <= edges.len(),
    ensures
        connected(edges, variables, k, x, x),
        connected(edges, variables, k, x, y) ==> connected(edges, variables, k, y, x),
        connected(edges, variables, k, x, y) && connected(edges, variables, k, y, z) ==> connected(
            edges,
            variables,
            k,
            x,
            z,
        ),
        forall|e: int|
            0 <= e < k ==> #[trigger] connected(
                edges,
                variables,
                k,
                edges[e].variable as int,
                variables + edges[e].factor,
            ),
    decreases k,
{
    if k > 0 {
        let a = edges[k - 1].variable as int;
        let b = variables + edges[k - 1].factor;
        law_connectivity_is_an_equivalence(edges, variables, k - 1, x, y, z);
        law_connectivity_is_an_equivalence(edges, variables, k - 1, y, x, z);
        law_connectivity_is_an_equivalence(edges, variables, k - 1, x, y, a);
        law_connectivity_is_an_equivalence(edges, variables, k - 1, x, y, b);
        law_connectivity_is_an_equivalence(edges, variables, k - 1, b, y, z);
        law_connectivity_is_an_equivalence(edges, variables, k - 1, x, a, z);
        law_connectivity_is_an_equivalence(edges, variables, k - 1, a, y, z);
        law_connectivity_is_an_equivalence(edges, variables, k - 1, x, b, z);
        law_connectivity_is_an_equivalence(edges, variables, k - 1, y, a, z);
        law_connectivity_is_an_equivalence(edges, variables, k - 1, a, a, a);
        law_connectivity_is_an_equivalence(edges, variables, k - 1, b, b, b);
        law_connectivity_is_an_equivalence(edges, variables, k - 1, y, b, z);
        law_connectivity_is_an_equivalence(edges, variables, k - 1, b, x, y);
        law_connectivity_is_an_equivalence(edges, variables, k - 1, a, x, y);
        assert forall|e: int| 0 <= e < k implies #[trigger] connected(
            edges,
            variables,
            k,
            edges[e].variable as int,
            variables + edges[e].factor,
        ) by {
            let u = edges[e].variable as int;
            let w = variables + edges[e].factor;
            law_connectivity_is_an_equivalence(edges, variables, k - 1, u, w, w);
            if e == k - 1 {
                law_connectivity_is_an_equivalence(edges, variables, k - 1, a, a, a);
                law_connectivity_is_an_equivalence(edges, variables, k - 1, b, b, b);
            }
        }
    }
}

/// Number of the first `j` edges whose variable has representative `root`.
spec fn rooted_count(labels: Seq<usize>, edges: Seq<MessageEdge>, root: int, j: int) -> nat
    decreases j,
{
    if j <= 0 {
        0
    } else {
        rooted_count(labels, edges, root, j - 1) + if labels[edges[j - 1].variable as int] == root {
            1nat
        } else {
            0nat
        }
    }
}

/// Joining the endpoints of edge `i` turns labels that mirror the first `i`
/// edges' components into labels that mirror the first `i + 1`.
proof fn lemma_join_step(
    edges: Seq<MessageEdge>,
    variables: int,
    i: int,
    nodes: int,
    before: Seq<usize>,
    after: Seq<usize>,
)
    requires
        0 <= i < edges.len(),
        0 <= edges[i].variable < nodes,
        0 <= variables + edges[i].factor < nodes,
        before.len() == nodes,
        forall|x: int, y: int|
            0 <= x < nodes && 0 <= y < nodes ==> ((before[x] == before[y]) <==> connected(
                edges,
                variables,
                i,
                x,
                y,
            )),
        joined_labels(before, after, edges[i].variable as int, variables + edges[i].factor),
    ensures
        forall|x: int, y: int|
            0 <= x < nodes && 0 <= y < nodes ==> ((after[x] == after[y]) <==> connected(
                edges,
                variables,
                i + 1,
                x,
                y,
            )),
{
    let a = edges[i].variable as int;
    let b = variables + edges[i].factor;
    assert forall|x: int, y: int| 0 <= x < nodes && 0 <= y < nodes implies ((after[x] == after[y])
        <==> connected(edges, variables, i + 1, x, y)) by {
        assert((before[x] == before[y]) <==> connected(edges, variables, i, x, y));
        assert((before[x] == before[a]) <==> connected(edges, variables, i, x, a));
        assert((before[b] == before[y]) <==> connected(edges, variables, i, b, y));
        assert((before[x] == before[b]) <==> connected(edges, variables, i, x, b));
        assert((before[a] == before[y]) <==> connected(edges, variables, i, a, y));
        assert((after[x] == after[y]) <==> (before[x] == before[y] || (before[x] == before[a] && before[y]
            == before[b]) || (before[x] == before[b] && before[y] == before[a])));
    }
}

/// Counting edges by representative counts them by component, when the
/// representatives mirror the components.
proof fn lemma_rooted_count_is_component_count(
    labels: Seq<usize>,
    edges: Seq<MessageEdge>,
    variables: int,
    nodes: int,
    x: int,
    j: int,
)
    requires
        0 <= x < nodes,
        0 <= j <= edges.len(),
        labels.len() == nodes,
        forall|k: int| 0 <= k < edges.len() ==> (#[trigger] edges[k]).variable < nodes,
        forall|u: int, w: int|
            0 <= u < nodes && 0 <= w < nodes ==> ((labels[u] == labels[w]) <==> connected(
                edges,
                variables,
                edges.len() as int,
                u,
                w,
            )),
    ensures
        rooted_count(labels, edges, labels[x] as int, j) == component_edge_count(edges, variables, x, j),
    decreases j,
{
    if j > 0 {
        lemma_rooted_count_is_component_count(labels, edges, variables, nodes, x, j - 1);
        let u = edges[j - 1].variable as int;
        assert((labels[u] == labels[x]) <==> connected(edges, variables, edges.len() as int, u, x));
    }
}

/// At most `j` of the first `j` edges share a representative; where some
/// do, one of them is among those edges.
proof fn lemma_rooted_count_bounds(labels: Seq<usize>, edges: Seq<MessageEdge>, root: int, j: int)
    requires
        0 <= j <= edges.len(),
    ensures
        rooted_count(labels, edges, root, j) <= j,
        rooted_count(labels, edges, root, j) > 0 ==> exists|k: int|
            0 <= k < j && labels[(#[trigger] edges[k]).variable as int] == root,
    decreases j,
{
    if j > 0 {
        lemma_rooted_count_bounds(labels, edges, root, j - 1);
        if labels[edges[j - 1].variable as int] == root {
            assert(labels[edges[j - 1].variable as int] == root);
        }
    }
}

/// The largest component over the first `i` edges bounds each of their
/// components, and is zero or one of them.
proof fn lemma_largest_component(edges: Seq<MessageEdge>, variables: int, i: int)
    requires
        0 <= i <= edges.len(),
    ensures
        forall|k: int|
            0 <= k < i ==> component_edge_count(edges, variables, (#[trigger] edges[k]).variable as int, edges.len() as int)
                <= largest_component_edges(edges, variables, i),
        largest_component_edges(edges, variables, i) == 0 || exists|k: int|
            0 <= k < i && largest_component_edges(edges, variables, i) == component_edge_count(
                edges,
                variables,
                (#[trigger] edges[k]).variable as int,
                edges.len() as int,
            ),
    decreases i,
{
    if i > 0 {
        lemma_largest_component(edges, variables, i - 1);
    }
}

/// Whether the bipartite variable-factor graph of a compiled batch is a
/// forest, and the number of synchronous passes an exact tree schedule
/// needs: one more than the edge count of the largest connected component,
/// saturated to `u32`. Variables are the nodes `0..variables`, factors the
/// nodes after them; every edge must stay within both ranges.
pub fn message_topology(edges: &[MessageEdge], variables: usize, factors: usize) -> (result: (bool, u32))
    requires
        variables + factors <= usize::MAX,
        forall|k: int|
            0 <= k < edges@.len() ==> (#[trigger] edges@[k]).variable < variables && edges@[k].factor < factors,
    ensures
        result.0 == is_forest(edges@, variables as int),
        result.1 == exact_passes(edges@, variables as int),
{
    let ghost es = edges@;
    let ghost nv = variables as int;
    let nodes = variables + factors;
    let mut components = union_find_new(nodes);
    let mut acyclic = true;
    let mut i: usize = 0;
    while i < edges.len()
        invariant
            es == edges@,
            nv == variables,
            nodes == variables + factors,
            forall|k: int| 0 <= k < es.len() ==> (#[trigger] es[k]).variable < variables && es[k].factor < factors,
            i <= es.len(),
            union_find_labels(components).len() == nodes,
            forall|x: int| 0 <= x < nodes ==> #[trigger] union_find_labels(components)[x] < nodes,
            forall|x: int, y: int|
                0 <= x < nodes && 0 <= y < nodes ==> ((union_find_labels(components)[x] == union_find_labels(
                    components,
                )[y]) <==> connected(es, nv, i as int, x, y)),
            acyclic == (forall|k: int| 0 <= k < i ==> !#[trigger] closes_cycle(es, nv, k)),
        decreases es.len() - i,
    {
        let variable = edges[i].variable;
        let factor = variables + edges[i].factor;
        let ghost before = union_find_labels(components);
        let joined = union_find_union(&mut components, variable, factor);
        proof {
            lemma_join_step(es, nv, i as int, nodes as int, before, union_find_labels(components));
            assert(closes_cycle(es, nv, i as int) == connected(es, nv, i as int, variable as int, factor as int));
            assert((before[variable as int] == before[factor as int]) <==> connected(
                es,
                nv,
                i as int,
                variable as int,
                factor as int,
            ));
        }
        if !joined {
            acyclic = false;
        }
        proof {
            assert(acyclic == (forall|k: int| 0 <= k < i + 1 ==> !#[trigger] closes_cycle(es, nv, k)));
        }
        i += 1;
    }
    let ghost labels = union_find_labels(components);
    let mut component_edges: Vec<usize> = Vec::new();
    let mut r: usize = 0;
    while r < nodes
        invariant
            r <= nodes,
            component_edges@.len() == r,
            forall|q: int| 0 <= q < r ==> #[trigger] component_edges@[q] == 0,
        decreases nodes - r,
    {
        component_edges.push(0);
        r += 1;
    }
    let mut j: usize = 0;
    while j < edges.len()
        invariant
            es == edges@,
            labels == union_find_labels(components),
            labels.len() == nodes,
            forall|k: int| 0 <= k < es.len() ==> (#[trigger] es[k]).variable < variables && es[k].factor < factors,
            nodes == variables + factors,
            forall|x: int| 0 <= x < nodes ==> #[trigger] labels[x] < nodes,
            j <= es.len(),
            component_edges@.len() == nodes,
            forall|q: int| 0 <= q < nodes ==> #[trigger] component_edges@[q] == rooted_count(labels, es, q, j as int),
        decreases es.len() - j,
    {
        let root = union_find_find(&components, edges[j].variable);
        proof {
            lemma_rooted_count_bounds(labels, es, root as int, j as int);
            assert forall|q: int| 0 <= q < nodes implies #[trigger] rooted_count(labels, es, q, j + 1) == if q
                == root {
                rooted_count(labels, es, q, j as int) + 1
            } else {
                rooted_count(labels, es, q, j as int)
            } by {}
        }
        component_edges.set(root, component_edges[root] + 1);
        j += 1;
    }
    let mut largest: usize = 0;
    let mut q: usize = 0;
    while q < nodes
        invariant
            q <= nodes,
            component_edges@.len() == nodes,
            forall|t: int| 0 <= t < q ==> #[trigger] component_edges@[t] <= largest,
            largest == 0 || exists|t: int| 0 <= t < q && #[trigger] component_edges@[t] == largest,
        decreases nodes - q,
    {
        if component_edges[q] > largest {
            largest = component_edges[q];
        }
        q += 1;
    }
    proof {
        let total = es.len() as int;
        let spec_largest = largest_component_edges(es, nv, total);
        lemma_largest_component(es, nv, total);
        assert forall|k: int| 0 <= k < total implies component_edges@[labels[(#[trigger] es[k]).variable as int] as int]
            == component_edge_count(es, nv, es[k].variable as int, total) by {
            lemma_rooted_count_is_component_count(labels, es, nv, nodes as int, es[k].variable as int, total);
        }
        if largest > 0 {
            let t = choose|t: int| 0 <= t < nodes && #[trigger] component_edges@[t] == largest;
            lemma_rooted_count_bounds(labels, es, t, total);
            let k = choose|k: int| 0 <= k < total && labels[(#[trigger] es[k]).variable as int] == t;
            assert(component_edges@[labels[es[k].variable as int] as int] == component_edge_count(
                es,
                nv,
                es[k].variable as int,
                total,
            ));
        }
        if spec_largest > 0 {
            let k = choose|k: int|
                0 <= k < total && spec_largest == component_edge_count(
                    es,
                    nv,
                    (#[trigger] es[k]).variable as int,
                    total,
                );
            assert(component_edges@[labels[es[k].variable as int] as int] <= largest);
        }
        assert(largest == spec_largest);
    }
    let plus = if largest < usize::MAX {
        largest + 1
    } else {
        largest
    };
    let passes: u32 = if plus > 4294967295usize {
        u32::MAX
    } else {
        plus as u32
    };
    (acyclic, passes)
}

} // verus!
