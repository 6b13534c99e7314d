//! Factor scopes over candidate identities and their validation errors.
use crate::ids::IdentityId;
use vstd::prelude::*;

verus! {

/// Errors raised while evaluating factor scopes and domain assignments.
#[derive(Debug, Clone, Copy, PartialEq, Eq, Structural)]
pub enum FactorError {
    /// The assignment length does not match the scope.
    ScopeLengthMismatch {
        /// Number of variables the factor expects.
        expected: usize,
        /// Number of variables received.
        actual: usize,
    },
    /// An invalid variable index was queried.
    InvalidAssignmentIndex {
        /// Offending position.
        index: usize,
    },
    /// A factor was built over an empty scope.
    EmptyScope,
    /// An identity occurs twice in a scope.
    DuplicateScopeIdentity {
        /// Repeated identity.
        identity_id: IdentityId,
    },
    /// Several candidates of one scope were selected at once.
    MutualExclusionViolation,
}

/// The variable scope of a factor node; implemented by factor families.
pub trait FactorScope {
    /// The identities forming the scope, for specifications.
    spec fn spec_scope(&self) -> Seq<IdentityId>;

    /// The identities forming the scope.
    fn scope(&self) -> (scope: &[IdentityId])
        ensures
            scope@ == self.spec_scope(),
    ;

    /// Checks that an assignment can be evaluated: the default accepts any
    /// assignment over a non-empty scope and refuses an empty scope.
    fn validate_assignment(&self, assignment: &[IdentityId]) -> (result: Result<(), FactorError>)
        default_ensures
            self.spec_scope().len() == 0 <==> result == Err::<(), FactorError>(FactorError::EmptyScope),
            self.spec_scope().len() > 0 <==> result is Ok,
    {
        validate_scope(self.scope())
    }
}

/// Checks that a scope can carry assignments: an empty scope is refused.
pub fn validate_scope(scope: &[IdentityId]) -> (result: Result<(), FactorError>)
    ensures
        scope@.len() == 0 <==> result == Err::<(), FactorError>(FactorError::EmptyScope),
        scope@.len() > 0 <==> result is Ok,
{
    if scope.len() == 0 {
        Err(FactorError::EmptyScope)
    } else {
        Ok(())
    }
}

} // verus!
