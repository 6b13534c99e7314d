//! Type-state lifecycle for latent identity hypotheses.
use crate::host::HostEntityRef;
use crate::ids::{CommitVersion, IdentityId};
use crate::observation::Timestamp;
pub use crate::sealed::Sealed;
use std::marker::PhantomData;
use vstd::prelude::*;

verus! {

/// Durable runtime identity lifecycle status.
#[derive(Debug, Clone, Copy, PartialEq, Eq, Structural, Hash)]
pub enum IdentityStatus {
    /// Receives committed observations in the hot workspace.
    Active,
    /// Removed from hot belief state but eligible for retrieval.
    Dormant,
    /// Promoted or mapped to an authoritative host entity.
    Resolved,
    /// Historical member of an active merge equivalence class.
    Merged,
    /// Excluded from ordinary candidate retrieval.
    Retired,
}

/// Sealed marker implemented by valid compile-time identity states.
pub trait IdentityState: Sealed {
    /// Runtime status corresponding to the marker, for specifications.
    spec fn spec_status() -> IdentityStatus;

    /// Runtime status corresponding to the marker.
    fn status() -> (status: IdentityStatus)
        ensures
            status == Self::spec_status(),
    ;
}

/// Active identity marker.
#[derive(Debug, Clone, Copy, PartialEq, Eq, Structural)]
pub struct Active;

/// Dormant identity marker.
#[derive(Debug, Clone, Copy, PartialEq, Eq, Structural)]
pub struct Dormant;

/// Resolved identity marker.
#[derive(Debug, Clone, Copy, PartialEq, Eq, Structural)]
pub struct Resolved;

/// Merged historical identity marker.
#[derive(Debug, Clone, Copy, PartialEq, Eq, Structural)]
pub struct Merged;

/// Retired identity marker.
#[derive(Debug, Clone, Copy, PartialEq, Eq, Structural)]
pub struct Retired;

impl Sealed for Active {}

impl Sealed for Dormant {}

impl Sealed for Resolved {}

impl Sealed for Merged {}

impl Sealed for Retired {}

impl IdentityState for Active {
    open spec fn spec_status() -> IdentityStatus {
        IdentityStatus::Active
    }

    fn status() -> (status: IdentityStatus) {
        IdentityStatus::Active
    }
}

impl IdentityState for Dormant {
    open spec fn spec_status() -> IdentityStatus {
        IdentityStatus::Dormant
    }

    fn status() -> (status: IdentityStatus) {
        IdentityStatus::Dormant
    }
}

impl IdentityState for Resolved {
    open spec fn spec_status() -> IdentityStatus {
        IdentityStatus::Resolved
    }

    fn status() -> (status: IdentityStatus) {
        IdentityStatus::Resolved
    }
}

impl IdentityState for Merged {
    open spec fn spec_status() -> IdentityStatus {
        IdentityStatus::Merged
    }

    fn status() -> (status: IdentityStatus) {
        IdentityStatus::Merged
    }
}

impl IdentityState for Retired {
    open spec fn spec_status() -> IdentityStatus {
        IdentityStatus::Retired
    }

    fn status() -> (status: IdentityStatus) {
        IdentityStatus::Retired
    }
}

/// Error returned by a lifecycle transition that would create an invalid
/// state.
#[derive(Debug, Clone, Copy, PartialEq, Eq, Structural)]
pub enum IdentityTransitionError {
    /// A merge attempted to target the same identity.
    SelfMerge,
}

/// Latent identity whose legal transitions are selected by `S` at compile
/// time.
#[derive(Debug, PartialEq, Eq)]
pub struct Identity<S: IdentityState> {
    id: IdentityId,
    created_at: Timestamp,
    applied_version: CommitVersion,
    host: Option<HostEntityRef>,
    canonical: Option<IdentityId>,
    marker: PhantomData<S>,
}

impl<S: IdentityState> Clone for Identity<S> {
    fn clone(&self) -> (copy: Self)
        ensures
            copy.spec_id() == self.spec_id(),
            copy.spec_created_at() == self.spec_created_at(),
            copy.spec_applied_version() == self.spec_applied_version(),
            copy.spec_canonical() == self.spec_canonical(),
            copy.spec_host() is Some <==> self.spec_host() is Some,
    {
        Identity {
            id: self.id,
            created_at: self.created_at,
            applied_version: self.applied_version,
            host: match &self.host {
                Some(h) => Some(h.clone()),
                None => None,
            },
            canonical: self.canonical,
            marker: PhantomData,
        }
    }
}

impl<S: IdentityState> Identity<S> {
    /// Stable identifier, for specifications.
    pub closed spec fn spec_id(&self) -> IdentityId {
        self.id
    }

    /// Creation time of the identity, for specifications.
    pub closed spec fn spec_created_at(&self) -> Timestamp {
        self.created_at
    }

    /// Latest applied lifecycle commit, for specifications.
    pub closed spec fn spec_applied_version(&self) -> CommitVersion {
        self.applied_version
    }

    /// Promotion target, for specifications.
    pub closed spec fn spec_host(&self) -> Option<HostEntityRef> {
        self.host
    }

    /// Merge representative, for specifications.
    pub closed spec fn spec_canonical(&self) -> Option<IdentityId> {
        self.canonical
    }

    /// Returns the stable latent identity identifier.
    pub fn id(&self) -> (id: IdentityId)
        ensures
            id == self.spec_id(),
    {
        self.id
    }

    /// Returns the creation event time of the identity.
    pub fn created_at(&self) -> (created_at: Timestamp)
        ensures
            created_at == self.spec_created_at(),
    {
        self.created_at
    }

    /// Returns the latest lifecycle commit applied to this typed view.
    pub fn applied_version(&self) -> (version: CommitVersion)
        ensures
            version == self.spec_applied_version(),
    {
        self.applied_version
    }

    /// Returns the compile-time lifecycle status.
    pub fn status(&self) -> (status: IdentityStatus)
        ensures
            status == S::spec_status(),
    {
        S::status()
    }

    /// Borrows the promotion target when this is a resolved identity.
    pub fn host(&self) -> (host: Option<&HostEntityRef>)
        ensures
            match self.spec_host() {
                Some(h) => host == Some(&h),
                None => host is None,
            },
    {
        match &self.host {
            Some(h) => Some(h),
            None => None,
        }
    }

    /// Returns the selected merge representative for a merged identity.
    pub fn canonical(&self) -> (canonical: Option<IdentityId>)
        ensures
            canonical == self.spec_canonical(),
    {
        self.canonical
    }

    fn transition<N: IdentityState>(
        self,
        applied_version: CommitVersion,
        host: Option<HostEntityRef>,
        canonical: Option<IdentityId>,
    ) -> (next: Identity<N>)
        ensures
            next.spec_id() == self.spec_id(),
            next.spec_created_at() == self.spec_created_at(),
            next.spec_applied_version() == applied_version,
            next.spec_host() == host,
            next.spec_canonical() == canonical,
    {
        Identity {
            id: self.id,
            created_at: self.created_at,
            applied_version,
            host,
            canonical,
            marker: PhantomData,
        }
    }
}

impl Identity<Active> {
    /// Creates a new active explanatory hypothesis.
    pub fn new(id: IdentityId, created_at: Timestamp, applied_version: CommitVersion) -> (identity:
        Self)
        ensures
            identity.spec_id() == id,
            identity.spec_created_at() == created_at,
            identity.spec_applied_version() == applied_version,
            identity.spec_host() is None,
            identity.spec_canonical() is None,
    {
        Identity { id, created_at, applied_version, host: None, canonical: None, marker: PhantomData }
    }

    /// Moves the hypothesis out of the hot workspace without retiring it.
    pub fn dormant(self, version: CommitVersion) -> (dormant: Identity<Dormant>)
        ensures
            dormant.spec_id() == self.spec_id(),
            dormant.spec_created_at() == self.spec_created_at(),
            dormant.spec_applied_version() == version,
            dormant.spec_host() is None,
            dormant.spec_canonical() is None,
    {
        self.transition(version, None, None)
    }

    /// Resolves the hypothesis to an authoritative host entity.
    pub fn resolve(self, host: HostEntityRef, version: CommitVersion) -> (resolved: Identity<
        Resolved,
    >)
        ensures
            resolved.spec_id() == self.spec_id(),
            resolved.spec_created_at() == self.spec_created_at(),
            resolved.spec_applied_version() == version,
            resolved.spec_host() == Some(host),
            resolved.spec_canonical() is None,
    {
        self.transition(version, Some(host), None)
    }

    /// Closes this identity into another merge-class member; merging an
    /// identity into itself is rejected.
    pub fn merge(self, canonical: IdentityId, version: CommitVersion) -> (merged: Result<
        Identity<Merged>,
        IdentityTransitionError,
    >)
        ensures
            canonical == self.spec_id() ==> merged == Err::<Identity<Merged>, _>(
                IdentityTransitionError::SelfMerge,
            ),
            canonical != self.spec_id() ==> (merged matches Ok(m) && m.spec_id() == self.spec_id()
                && m.spec_created_at() == self.spec_created_at() && m.spec_applied_version()
                == version && m.spec_host() is None && m.spec_canonical() == Some(canonical)),
    {
        if canonical.0 == self.id.0 {
            return Err(IdentityTransitionError::SelfMerge);
        }
        Ok(self.transition(version, None, Some(canonical)))
    }

    /// Retires the identity from ordinary candidate retrieval.
    pub fn retire(self, version: CommitVersion) -> (retired: Identity<Retired>)
        ensures
            retired.spec_id() == self.spec_id(),
            retired.spec_created_at() == self.spec_created_at(),
            retired.spec_applied_version() == version,
            retired.spec_host() is None,
            retired.spec_canonical() is None,
    {
        self.transition(version, None, None)
    }
}

impl Identity<Dormant> {
    /// Reactivates a dormant identity into the hot workspace.
    pub fn reactivate(self, version: CommitVersion) -> (active: Identity<Active>)
        ensures
            active.spec_id() == self.spec_id(),
            active.spec_created_at() == self.spec_created_at(),
            active.spec_applied_version() == version,
            active.spec_host() is None,
            active.spec_canonical() is None,
    {
        self.transition(version, None, None)
    }

    /// Resolves a dormant hypothesis to an authoritative host entity.
    pub fn resolve(self, host: HostEntityRef, version: CommitVersion) -> (resolved: Identity<
        Resolved,
    >)
        ensures
            resolved.spec_id() == self.spec_id(),
            resolved.spec_created_at() == self.spec_created_at(),
            resolved.spec_applied_version() == version,
            resolved.spec_host() == Some(host),
            resolved.spec_canonical() is None,
    {
        self.transition(version, Some(host), None)
    }

    /// Retires a dormant identity.
    pub fn retire(self, version: CommitVersion) -> (retired: Identity<Retired>)
        ensures
            retired.spec_id() == self.spec_id(),
            retired.spec_created_at() == self.spec_created_at(),
            retired.spec_applied_version() == version,
            retired.spec_host() is None,
            retired.spec_canonical() is None,
    {
        self.transition(version, None, None)
    }
}

/// A dormancy round trip keeps the identity and its creation time and only
/// advances the applied version.
pub proof fn law_dormancy_round_trip_preserves_identity(
    active: Identity<Active>,
    dormant: Identity<Dormant>,
    reactivated: Identity<Active>,
    v1: CommitVersion,
    v2: CommitVersion,
)
    requires
        dormant.spec_id() == active.spec_id(),
        dormant.spec_created_at() == active.spec_created_at(),
        dormant.spec_applied_version() == v1,
        reactivated.spec_id() == dormant.spec_id(),
        reactivated.spec_created_at() == dormant.spec_created_at(),
        reactivated.spec_applied_version() == v2,
    ensures
        reactivated.spec_id() == active.spec_id(),
        reactivated.spec_created_at() == active.spec_created_at(),
        reactivated.spec_applied_version() == v2,
{
}

} // verus!
