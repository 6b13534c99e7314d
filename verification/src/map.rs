//! Result of MAP identity selection over posterior marginals.
use crate::ids::IdentityId;
use vstd::prelude::*;

verus! {

/// Identity selected by MAP estimation, when one clears the threshold.
#[derive(Debug, Clone, Copy, PartialEq, Eq, Structural)]
pub struct MapAssignment {
    /// Selected identity with the highest posterior above the threshold.
    pub selected_identity: Option<IdentityId>,
}

/// Stateless MAP decision estimator.
#[derive(Debug, Clone, Copy)]
pub struct MapEstimator;

impl MapEstimator {
    /// Creates an estimator.
    pub fn new() -> (estimator: Self)
        ensures
            estimator == MapEstimator,
    {
        MapEstimator
    }
}

} // verus!
