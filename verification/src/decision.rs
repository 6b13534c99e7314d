//! Policy actions and durable decision records.
use crate::ids::{DecisionId, InferenceId};
use crate::inference::{AssociationOutcome, IdentityReference, VersionInterval};
use crate::precedence::Precedence;
use vstd::prelude::*;

verus! {

/// Action selected by a decision policy for one observation.
#[derive(Debug, Clone, PartialEq, Eq)]
pub enum DecisionAction {
    /// Assign the observation to a gated identity reference.
    Assign(IdentityReference),
    /// Create a new latent identity.
    CreateIdentity,
    /// Reject the observation as noise.
    RejectNoise,
    /// Defer the decision.
    Abstain,
}

/// Error returned by decision policies and records.
#[derive(Debug, Clone, Copy, PartialEq, Eq)]
pub enum DecisionError {
    /// A loss value was not finite and non-negative; names the field.
    InvalidLoss {
        /// Name of the invalid loss field.
        field: &'static str,
    },
    /// The selected target was not present in the supporting inference
    /// domain.
    TargetOutsideDomain,
}

/// Durable policy decision, distinct from the inference supporting it.
#[derive(Debug, Clone, PartialEq, Eq)]
pub struct DecisionRecord {
    /// Stable record identifier.
    pub id: DecisionId,
    /// Supporting inference record.
    pub inference: InferenceId,
    /// Selected action.
    pub action: DecisionAction,
    /// Decision policy version.
    pub policy_version: u64,
    /// Loss model version.
    pub loss_version: u64,
    /// Durable validity interval.
    pub validity: VersionInterval,
}

/// Whether a decision action stays inside an inference domain: an
/// assignment's target must be one of the domain's outcomes; every other
/// action is always inside.
pub open spec fn action_within_domain(action: DecisionAction, domain: Seq<AssociationOutcome>) -> bool {
    match action {
        DecisionAction::Assign(target) => exists|k: int|
            0 <= k < domain.len() && #[trigger] domain[k].spec_same(&AssociationOutcome::Identity(target)),
        _ => true,
    }
}

/// Whether one of the domain's outcomes is the assignment to `target`.
fn domain_holds_identity(domain: &[AssociationOutcome], target: &IdentityReference) -> (found: bool)
    ensures
        found == exists|k: int|
            0 <= k < domain@.len() && #[trigger] domain@[k].spec_same(&AssociationOutcome::Identity(*target)),
{
    let mut k: usize = 0;
    while k < domain.len()
        invariant
            k <= domain@.len(),
            forall|j: int| 0 <= j < k ==> !#[trigger] domain@[j].spec_same(&AssociationOutcome::Identity(*target)),
        decreases domain@.len() - k,
    {
        if let AssociationOutcome::Identity(reference) = &domain[k] {
            if reference.precedence(target) == Precedence::Same {
                proof {
                    assert(domain@[k as int].spec_same(&AssociationOutcome::Identity(*target)));
                }
                return true;
            }
        }
        k += 1;
    }
    false
}

impl DecisionRecord {
    /// Creates a decision proven to belong to the supporting domain, given
    /// by the outcomes of its normalized distribution; an assignment whose
    /// target is not among them is refused.
    pub fn new(
        id: DecisionId,
        inference: InferenceId,
        action: DecisionAction,
        policy_version: u64,
        loss_version: u64,
        validity: VersionInterval,
        domain: &[AssociationOutcome],
    ) -> (record: Result<Self, DecisionError>)
        ensures
            !action_within_domain(action, domain@) <==> record == Err::<Self, DecisionError>(
                DecisionError::TargetOutsideDomain,
            ),
            action_within_domain(action, domain@) ==> record == Ok::<Self, DecisionError>(
                (DecisionRecord { id, inference, action, policy_version, loss_version, validity }),
            ),
    {
        if let DecisionAction::Assign(target) = &action {
            if !domain_holds_identity(domain, target) {
                return Err(DecisionError::TargetOutsideDomain);
            }
        }
        Ok(DecisionRecord { id, inference, action, policy_version, loss_version, validity })
    }
}

} // verus!
