//! Analytic decisions a factor compiler may supply in place of inference,
//! and the candidate filtering that precedes factor compilation.
use crate::belief::BeliefState;
use crate::ids::IdentityId;
use vstd::prelude::*;

verus! {

/// Result of an analytic MAP shortcut supplied by a factor compiler.
#[derive(Debug, Clone, Copy, PartialEq, Eq, Structural)]
pub enum DirectMapDecision {
    /// The factor family has no closed-form decision.
    Unsupported,
    /// The observation is assigned to an existing identity.
    Assign(IdentityId),
    /// The background hypothesis wins: a new identity must be created.
    CreateIdentity,
}

/// The beliefs whose identity is one of `candidates`, in their order.
pub open spec fn beliefs_among<'a, S, P>(
    candidates: Seq<IdentityId>,
    beliefs: Seq<&'a BeliefState<S, P>>,
) -> Seq<&'a BeliefState<S, P>>
    decreases beliefs.len(),
{
    if beliefs.len() == 0 {
        Seq::empty()
    } else {
        let rest = beliefs_among(candidates, beliefs.drop_last());
        if candidates.contains(beliefs.last().identity) {
            rest.push(beliefs.last())
        } else {
            rest
        }
    }
}

/// Whether `identity` is one of `candidates`.
fn is_candidate(candidates: &[IdentityId], identity: IdentityId) -> (found: bool)
    ensures
        found == candidates@.contains(identity),
{
    let mut k: usize = 0;
    while k < candidates.len()
        invariant
            k <= candidates@.len(),
            forall|m: int| 0 <= m < k ==> candidates@[m] != identity,
        decreases candidates@.len() - k,
    {
        if candidates[k] == identity {
            proof {
                assert(candidates@[k as int] == identity);
            }
            return true;
        }
        k += 1;
    }
    false
}

/// Narrows the active beliefs to an evidence package's candidate scope:
/// with no candidate listed every active belief stays, otherwise the
/// beliefs whose identity is listed, in their order.
pub fn filter_candidates<'a, S, P>(
    candidates: &[IdentityId],
    active_beliefs: &[&'a BeliefState<S, P>],
) -> (kept: Vec<&'a BeliefState<S, P>>)
    ensures
        kept@ == (if candidates@.len() == 0 {
            active_beliefs@
        } else {
            beliefs_among(candidates@, active_beliefs@)
        }),
{
    let mut kept: Vec<&'a BeliefState<S, P>> = Vec::new();
    let mut i: usize = 0;
    while i < active_beliefs.len()
        invariant
            i <= active_beliefs@.len(),
            kept@ == (if candidates@.len() == 0 {
                active_beliefs@.take(i as int)
            } else {
                beliefs_among(candidates@, active_beliefs@.take(i as int))
            }),
        decreases active_beliefs@.len() - i,
    {
        let belief = active_beliefs[i];
        proof {
            assert(active_beliefs@.take(i + 1).drop_last() =~= active_beliefs@.take(i as int));
            assert(active_beliefs@.take(i + 1).last() == belief);
        }
        if candidates.len() == 0 || is_candidate(candidates, belief.identity) {
            kept.push(belief);
        }
        i += 1;
        proof {
            if candidates@.len() == 0 {
                assert(kept@ =~= active_beliefs@.take(i as int));
            }
        }
    }
    proof {
        assert(active_beliefs@.take(i as int) =~= active_beliefs@);
    }
    kept
}

} // verus!
