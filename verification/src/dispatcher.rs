//! Event routing from runtime stimuli to operational directives.
use crate::events::RuntimeEvent;
use crate::ids::IdentityId;
use vstd::prelude::*;

verus! {

/// Operational directive produced by dispatching one runtime event.
///
/// `P` is the evidence package carried by an observation stimulus.
#[derive(Debug, Clone, PartialEq)]
pub enum DispatchOutcome<P> {
    /// Process the evidence through candidate evaluation and inference.
    EvaluateObservation(P),
    /// Merge two existing identity nodes in the graph.
    MergeIdentities {
        /// Identity that absorbs the duplicate.
        target: IdentityId,
        /// Identity merged and removed.
        duplicate: IdentityId,
    },
    /// Persist a state checkpoint.
    TriggerCheckpoint,
    /// Terminate the runtime gracefully.
    Shutdown,
    /// Nothing to do for this event.
    NoOp,
}

/// The directive that a runtime event is routed to.
pub open spec fn spec_dispatch<P>(event: RuntimeEvent<P>) -> DispatchOutcome<P> {
    match event {
        RuntimeEvent::Observation(evidence) => DispatchOutcome::EvaluateObservation(evidence),
        RuntimeEvent::IdentityMerged { target, duplicate } => DispatchOutcome::MergeIdentities {
            target,
            duplicate,
        },
        RuntimeEvent::Checkpoint => DispatchOutcome::TriggerCheckpoint,
        RuntimeEvent::Shutdown => DispatchOutcome::Shutdown,
        _ => DispatchOutcome::NoOp,
    }
}

/// Stateless router from runtime events to operational directives.
#[derive(Debug, Default, Clone, Copy)]
pub struct EventDispatcher;

impl EventDispatcher {
    /// Creates a dispatcher.
    pub fn new() -> (dispatcher: Self)
        ensures
            dispatcher == EventDispatcher,
    {
        EventDispatcher
    }

    /// Routes a runtime event to its directive: observations are evaluated,
    /// merges are forwarded, checkpoints and shutdowns are signalled, and
    /// split or creation notices need no action.
    pub fn dispatch<P>(&self, event: RuntimeEvent<P>) -> (outcome: DispatchOutcome<P>)
        ensures
            outcome == spec_dispatch(event),
    {
        match event {
            RuntimeEvent::Observation(evidence) => DispatchOutcome::EvaluateObservation(evidence),
            RuntimeEvent::IdentityMerged { target, duplicate } => DispatchOutcome::MergeIdentities {
                target,
                duplicate,
            },
            RuntimeEvent::Checkpoint => DispatchOutcome::TriggerCheckpoint,
            RuntimeEvent::Shutdown => DispatchOutcome::Shutdown,
            _ => DispatchOutcome::NoOp,
        }
    }
}

/// Each directive comes from exactly one kind of event: only a merge event
/// yields a merge, with its own target and duplicate; only an observation is
/// evaluated, and its evidence is passed on unchanged; checkpoints and
/// shutdowns are signalled only for those signals; and split and creation
/// notices, and only they, need no action.
pub proof fn law_dispatch_routes_by_event_kind<P>(event: RuntimeEvent<P>)
    ensures
        forall|target: IdentityId, duplicate: IdentityId|
            spec_dispatch(event) == (DispatchOutcome::<P>::MergeIdentities { target, duplicate }) <==> event
                == (RuntimeEvent::<P>::IdentityMerged { target, duplicate }),
        forall|evidence: P|
            spec_dispatch(event) == DispatchOutcome::EvaluateObservation(evidence) <==> event
                == RuntimeEvent::Observation(evidence),
        spec_dispatch(event) is TriggerCheckpoint <==> event is Checkpoint,
        spec_dispatch(event) is Shutdown <==> event is Shutdown,
        spec_dispatch(event) is NoOp <==> (event is IdentitySplit || event is IdentityCreated),
{
}

} // verus!
