//! Engine stimuli and transitions driving the execution pipeline loop.
use crate::ids::{IdentityId, ObservationId};
use vstd::prelude::*;

verus! {

/// State machine transition triggers driving the core runtime execution loop.
///
/// `P` is the evidence package carried by an observation stimulus.
#[derive(Debug, Clone, PartialEq)]
pub enum RuntimeEvent<P> {
    /// Stimulus package signaling the arrival of a new empirical evidence
    /// item.
    Observation(P),
    /// Operational directive executing structural merge transitions of
    /// identity nodes.
    IdentityMerged {
        /// Target persistent identity node absorbing historical records.
        target: IdentityId,
        /// Duplicate identity node to be removed from active partitions.
        duplicate: IdentityId,
    },
    /// Operational directive executing the scission of an observation link.
    IdentitySplit {
        /// Source identity currently holding the observation.
        source: IdentityId,
        /// Empirical observation to detach.
        observation: ObservationId,
        /// Destination identity node or `None` if a new identity must be
        /// instantiated.
        destination: Option<IdentityId>,
    },
    /// Operational directive registering a new identity allocation sequence.
    IdentityCreated(IdentityId),
    /// Signal instructing the runtime to execute workspace checkpoint
    /// serialization.
    Checkpoint,
    /// Termination signal executing immediate system loop shutdown.
    Shutdown,
}

impl<P> RuntimeEvent<P> {
    /// Structural soundness: merges and splits are not self-referential.
    pub open spec fn spec_is_valid(&self) -> bool {
        match self {
            RuntimeEvent::IdentityMerged { target, duplicate } => target != duplicate,
            RuntimeEvent::IdentitySplit { source, destination, .. } => match destination {
                Some(dest) => source != dest,
                None => true,
            },
            _ => true,
        }
    }

    /// Validates whether the runtime event payload is structurally sound and
    /// non-self-referential.
    pub fn is_valid(&self) -> (valid: bool)
        ensures
            valid == self.spec_is_valid(),
    {
        match self {
            RuntimeEvent::IdentityMerged { target, duplicate } => target.0 != duplicate.0,
            RuntimeEvent::IdentitySplit { source, destination, .. } => match destination {
                Some(dest) => source.0 != dest.0,
                None => true,
            },
            _ => true,
        }
    }

    /// Constructs a validated `IdentityMerged` event; `None` when
    /// `target == duplicate`.
    pub fn merged(target: IdentityId, duplicate: IdentityId) -> (event: Option<Self>)
        ensures
            target == duplicate ==> event is None,
            target != duplicate ==> event == Some(
                RuntimeEvent::<P>::IdentityMerged { target, duplicate },
            ),
            event matches Some(e) ==> e.spec_is_valid(),
    {
        if target.0 == duplicate.0 {
            None
        } else {
            Some(RuntimeEvent::IdentityMerged { target, duplicate })
        }
    }

    /// Constructs a validated `IdentitySplit` event; `None` when the
    /// destination equals the source.
    pub fn split(
        source: IdentityId,
        observation: ObservationId,
        destination: Option<IdentityId>,
    ) -> (event: Option<Self>)
        ensures
            destination == Some(source) ==> event is None,
            destination != Some(source) ==> event == Some(
                RuntimeEvent::<P>::IdentitySplit { source, observation, destination },
            ),
            event matches Some(e) ==> e.spec_is_valid(),
    {
        match destination {
            Some(dest) => {
                if dest.0 == source.0 {
                    return None;
                }
            },
            None => {},
        }
        Some(RuntimeEvent::IdentitySplit { source, observation, destination })
    }
}

} // verus!
