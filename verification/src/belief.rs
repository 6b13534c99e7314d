//! Active-layer tracking structures; the fixed-limit FIFO history is shared
//! with the history module.
pub use crate::history::BoundedHistory;
use crate::ids::IdentityId;
use crate::observation::Timestamp;
use vstd::prelude::*;

verus! {

/// State of a tracking hypothesis inside the active layer: the identity it
/// follows, a modality-agnostic rolling summary, the current marginal
/// posterior `P` (a probability scalar of the caller's numeric layer) and
/// the time of the latest update.
#[derive(Debug, Clone, PartialEq)]
pub struct BeliefState<S, P> {
    /// Target latent identity identifier.
    pub identity: IdentityId,
    /// Modality-agnostic rolling statistical summary data.
    pub summary: S,
    /// Current marginal posterior probability.
    pub posterior: P,
    /// Time of the latest update or reinforcement.
    pub last_update: Timestamp,
}

impl<S, P> BeliefState<S, P> {
    /// Instantiates a new active belief state.
    pub fn new(identity: IdentityId, summary: S, posterior: P, last_update: Timestamp) -> (belief: Self)
        ensures
            belief == (BeliefState { identity, summary, posterior, last_update }),
    {
        BeliefState { identity, summary, posterior, last_update }
    }

    /// Replaces the posterior and advances the update time; an update
    /// stamped before the latest one keeps the latest time.
    pub fn update_posterior(&mut self, posterior: P, timestamp: Timestamp)
        ensures
            final(self).posterior == posterior,
            final(self).identity == old(self).identity,
            final(self).summary == old(self).summary,
            final(self).last_update.spec_micros() == if old(self).last_update.spec_micros()
                >= timestamp.spec_micros() {
                old(self).last_update.spec_micros()
            } else {
                timestamp.spec_micros()
            },
    {
        self.posterior = posterior;
        self.last_update = self.last_update.latest(timestamp);
    }
}

} // verus!
