//! Identity allocation and the graph commit that follows a MAP decision
//! for one observation.
use crate::graph::{materialize_ops, spec_run, spec_step, StoreView};
use crate::graph_ontology::Edge;
use crate::ids::IdentityId;
use crate::observation::Observation;
use crate::ontology::Vertex;
use crate::operations::{GraphOperation, IdentityAssignment};
use crate::relation::Relation;
use vstd::prelude::*;

verus! {

/// Source of fresh identity identifiers; implemented by deployments.
pub trait IdentityGenerator {
    /// The identifier the next call hands out, for specifications.
    closed spec fn spec_next_id(&self) -> IdentityId {
        arbitrary()
    }

    /// The identifiers handed out so far, oldest first, for specifications.
    closed spec fn spec_issued(&self) -> Seq<IdentityId> {
        arbitrary()
    }

    /// Produces the next identity identifier.
    fn next_identity_id(&mut self) -> (id: IdentityId)
        ensures
            id == old(self).spec_next_id(),
            final(self).spec_issued() == old(self).spec_issued().push(id),
    ;
}

/// The operations committing an observation supported by `target`: the
/// observation, the identity itself when it is new, then the support
/// relation, all stamped with the observation time.
pub open spec fn spec_commit_operations<P, E, S>(
    observation: Observation<P>,
    target: IdentityId,
    is_new: bool,
) -> Seq<GraphOperation<P, E, S>> {
    let relation = GraphOperation::CommitRelation {
        source: Vertex::Observation(observation.id),
        relation: Relation::Supports,
        target: Vertex::Identity(target),
        created_at: observation.timestamp,
    };
    if is_new {
        seq![
            GraphOperation::CommitObservation(observation),
            GraphOperation::CommitIdentity { id: target, created_at: observation.timestamp },
            relation,
        ]
    } else {
        seq![GraphOperation::CommitObservation(observation), relation]
    }
}

/// Plans the graph commit for an observation after MAP selection: a selected
/// identity receives the support relation; otherwise one fresh identity is
/// drawn from the generator and created in the same batch. Returns the
/// operations and the supported identity.
pub fn plan_observation_commit<P, E, S, G: IdentityGenerator>(
    observation: Observation<P>,
    selected: Option<IdentityId>,
    id_gen: &mut G,
) -> (plan: (Vec<GraphOperation<P, E, S>>, IdentityId))
    ensures
        selected matches Some(existing) ==> plan.1 == existing && plan.0@ == spec_commit_operations::<
            P,
            E,
            S,
        >(observation, existing, false) && *final(id_gen) == *old(id_gen),
        selected is None ==> plan.0@ == spec_commit_operations::<P, E, S>(observation, plan.1, true)
            && plan.1 == old(id_gen).spec_next_id()
            && final(id_gen).spec_issued() == old(id_gen).spec_issued().push(plan.1),
{
    let id = observation.id;
    let timestamp = observation.timestamp;
    let mut operations: Vec<GraphOperation<P, E, S>> = Vec::with_capacity(4);
    operations.push(GraphOperation::CommitObservation(observation));
    let target = match selected {
        Some(existing) => existing,
        None => {
            let fresh = id_gen.next_identity_id();
            operations.push(GraphOperation::CommitIdentity { id: fresh, created_at: timestamp });
            fresh
        },
    };
    operations.push(
        GraphOperation::CommitRelation {
            source: Vertex::Observation(id),
            relation: Relation::Supports,
            target: Vertex::Identity(target),
            created_at: timestamp,
        },
    );
    (operations, target)
}

/// A commit plan is the batch that materializes the observation with its
/// assignment: the existing identity when one was selected, a new one
/// otherwise.
pub proof fn law_commit_plan_materializes_assignment<P, E, S>(
    observation: Observation<P>,
    target: IdentityId,
    is_new: bool,
)
    ensures
        spec_commit_operations::<P, E, S>(observation, target, is_new) == materialize_ops::<P, E, S>(
            observation,
            if is_new {
                IdentityAssignment::New(target)
            } else {
                IdentityAssignment::Existing(target)
            },
        ),
{
}

/// A commit plan applies to every store that does not hold the observation
/// yet (so no relation leaves it), and that holds the supported identity
/// exactly when it is not new: the batch is accepted, the observation is
/// registered, the new identity is created, and the observation supports
/// the identity.
pub proof fn law_commit_plan_applies<P, E, S>(
    view: StoreView<P, E, S>,
    observation: Observation<P>,
    target: IdentityId,
    is_new: bool,
)
    requires
        !view.contains_vertex(Vertex::Observation(observation.id)),
        forall|x: Edge| #[trigger] view.relations.contains(x) ==> x.source != Vertex::Observation(observation.id),
        is_new <==> !view.contains_vertex(Vertex::Identity(target)),
    ensures
        spec_run(view, spec_commit_operations::<P, E, S>(observation, target, is_new)) is Ok,
        ({
            let after = spec_run(view, spec_commit_operations::<P, E, S>(observation, target, is_new))->Ok_0;
            &&& after.observations.contains_key(observation.id.0)
            &&& after.observations[observation.id.0] == observation
            &&& after.identities.contains_key(target.0)
            &&& after.supports(observation.id, target)
        }),
{
    let ops = spec_commit_operations::<P, E, S>(observation, target, is_new);
    let source = Vertex::Observation(observation.id);
    let relation = GraphOperation::<P, E, S>::CommitRelation {
        source,
        relation: Relation::Supports,
        target: Vertex::Identity(target),
        created_at: observation.timestamp,
    };
    let edge = Edge {
        source,
        relation: Relation::Supports,
        target: Vertex::Identity(target),
        created_at: observation.timestamp,
    };
    let v1 = StoreView { observations: view.observations.insert(observation.id.0, observation), ..view };
    assert(spec_run(view, Seq::<GraphOperation<P, E, S>>::empty()) == Ok::<StoreView<P, E, S>, crate::graph::GraphError>(view));
    let first = seq![GraphOperation::<P, E, S>::CommitObservation(observation)];
    assert(first.drop_last() =~= Seq::<GraphOperation<P, E, S>>::empty());
    assert(spec_run(view, first) == spec_step(view, GraphOperation::<P, E, S>::CommitObservation(observation)));
    assert(spec_run(view, first) == Ok::<StoreView<P, E, S>, crate::graph::GraphError>(v1));
    let before = if is_new {
        v1.with_identity(target, observation.timestamp)
    } else {
        v1
    };
    let prefix = if is_new {
        first.push(GraphOperation::CommitIdentity { id: target, created_at: observation.timestamp })
    } else {
        first
    };
    if is_new {
        assert(prefix.drop_last() =~= first);
        assert(spec_run(view, prefix) == Ok::<StoreView<P, E, S>, crate::graph::GraphError>(before));
    }
    assert(spec_run(view, prefix) == Ok::<StoreView<P, E, S>, crate::graph::GraphError>(before));
    assert(ops =~= prefix.push(relation));
    assert(ops.drop_last() =~= prefix);
    assert(before.relations == view.relations);
    assert(before.contains_vertex(source));
    assert(before.contains_vertex(Vertex::Identity(target)));
    assert(!(exists|x: Edge| #[trigger] before.is_support_from(x, source)));
    assert(before.support_owner(source) is None);
    assert(!before.has_relation(source, Relation::Supports, Vertex::Identity(target)));
    assert(spec_step(before, relation) == Ok::<StoreView<P, E, S>, crate::graph::GraphError>(before.with_relation(edge)));
    let after = before.with_relation(edge);
    assert(spec_run(view, ops) == Ok::<StoreView<P, E, S>, crate::graph::GraphError>(after));
    assert(after.relations.contains(edge));
    assert(after.supports(observation.id, target));
}

} // verus!
