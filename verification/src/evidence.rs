//! Immutable observation envelopes, content hashes and evidence
//! validation errors.
use crate::ids::{ObservationId, SourceId};
use crate::observation::{Modality, Timestamp};
use vstd::prelude::*;
use vstd::string::StrSliceExecFns;

verus! {

/// Content hash of an immutable observation payload.
#[derive(Debug, Clone, Copy, PartialEq, Eq, PartialOrd, Ord, Hash)]
pub struct ContentHash(pub [u8; 32]);

impl ContentHash {
    /// Wraps the exact digest bytes.
    pub fn new(bytes: [u8; 32]) -> (hash: Self)
        ensures
            hash.0 == bytes,
    {
        ContentHash(bytes)
    }

    /// Returns the exact digest bytes.
    pub fn as_bytes(&self) -> (bytes: &[u8; 32])
        ensures
            *bytes == self.0,
    {
        &self.0
    }
}

/// Error returned when evidence metadata is invalid.
#[derive(Debug, Clone, Copy, PartialEq, Eq)]
pub enum EvidenceError {
    /// An external payload key was empty.
    EmptyPayloadKey,
    /// Quality metadata was invalid; names the offending field.
    InvalidQuality {
        /// Name of the invalid quality field.
        field: &'static str,
    },
    /// An observation cannot supersede itself.
    SelfSupersession,
}

/// Immutable evidence tuple with separate event and ingestion clocks: the
/// observation, its source and modality, both times, a payload reference
/// `P`, modality-specific quality metadata `Q`, the content hash and the
/// observation it corrects, if any.
#[derive(Debug, Clone, PartialEq)]
pub struct ObservationEnvelope<P, Q> {
    id: ObservationId,
    source: SourceId,
    modality: Modality,
    event_time: Timestamp,
    ingestion_time: Timestamp,
    payload: P,
    quality: Q,
    content_hash: ContentHash,
    supersedes: Option<ObservationId>,
}

impl<P, Q> ObservationEnvelope<P, Q> {
    /// Observation identifier, for specifications.
    pub closed spec fn spec_id(&self) -> ObservationId {
        self.id
    }

    /// Source code, for specifications.
    pub closed spec fn spec_source(&self) -> SourceId {
        self.source
    }

    /// Modality code, for specifications.
    pub closed spec fn spec_modality(&self) -> Modality {
        self.modality
    }

    /// Event time, for specifications.
    pub closed spec fn spec_event_time(&self) -> Timestamp {
        self.event_time
    }

    /// Ingestion time, for specifications.
    pub closed spec fn spec_ingestion_time(&self) -> Timestamp {
        self.ingestion_time
    }

    /// Payload reference, for specifications.
    pub closed spec fn spec_payload(&self) -> P {
        self.payload
    }

    /// Quality metadata, for specifications.
    pub closed spec fn spec_quality(&self) -> Q {
        self.quality
    }

    /// Content hash, for specifications.
    pub closed spec fn spec_content_hash(&self) -> ContentHash {
        self.content_hash
    }

    /// Superseded observation, for specifications.
    pub closed spec fn spec_supersedes(&self) -> Option<ObservationId> {
        self.supersedes
    }

    /// Creates an immutable observation. No order is imposed between the
    /// two clocks: delayed data and imperfect source clocks may place either
    /// first. A correction that names itself as superseded is refused.
    pub fn new(
        id: ObservationId,
        source: SourceId,
        modality: Modality,
        event_time: Timestamp,
        ingestion_time: Timestamp,
        payload: P,
        quality: Q,
        content_hash: ContentHash,
        supersedes: Option<ObservationId>,
    ) -> (envelope: Result<Self, EvidenceError>)
        ensures
            supersedes == Some(id) <==> envelope == Err::<Self, EvidenceError>(EvidenceError::SelfSupersession),
            supersedes != Some(id) ==> (envelope matches Ok(e) && {
                &&& e.spec_id() == id
                &&& e.spec_source() == source
                &&& e.spec_modality() == modality
                &&& e.spec_event_time() == event_time
                &&& e.spec_ingestion_time() == ingestion_time
                &&& e.spec_payload() == payload
                &&& e.spec_quality() == quality
                &&& e.spec_content_hash() == content_hash
                &&& e.spec_supersedes() == supersedes
            }),
    {
        if let Some(corrected) = supersedes {
            if corrected.0 == id.0 {
                return Err(EvidenceError::SelfSupersession);
            }
        }
        Ok(ObservationEnvelope {
            id,
            source,
            modality,
            event_time,
            ingestion_time,
            payload,
            quality,
            content_hash,
            supersedes,
        })
    }

    /// Returns the stable observation identifier.
    pub fn id(&self) -> (id: ObservationId)
        ensures
            id == self.spec_id(),
    {
        self.id
    }

    /// Returns the stable source code.
    pub fn source(&self) -> (source: SourceId)
        ensures
            source == self.spec_source(),
    {
        self.source
    }

    /// Returns the compact modality code.
    pub fn modality(&self) -> (modality: Modality)
        ensures
            modality == self.spec_modality(),
    {
        self.modality
    }

    /// Returns the observed-world event time.
    pub fn event_time(&self) -> (time: Timestamp)
        ensures
            time == self.spec_event_time(),
    {
        self.event_time
    }

    /// Returns the system ingestion time.
    pub fn ingestion_time(&self) -> (time: Timestamp)
        ensures
            time == self.spec_ingestion_time(),
    {
        self.ingestion_time
    }

    /// Borrows the immutable payload reference.
    pub fn payload(&self) -> (payload: &P)
        ensures
            *payload == self.spec_payload(),
    {
        &self.payload
    }

    /// Borrows the modality-specific quality metadata.
    pub fn quality(&self) -> (quality: &Q)
        ensures
            *quality == self.spec_quality(),
    {
        &self.quality
    }

    /// Returns the content hash.
    pub fn content_hash(&self) -> (hash: ContentHash)
        ensures
            hash == self.spec_content_hash(),
    {
        self.content_hash
    }

    /// Returns the superseded observation, when this is a correction.
    pub fn supersedes(&self) -> (corrected: Option<ObservationId>)
        ensures
            corrected == self.spec_supersedes(),
    {
        self.supersedes
    }
}

/// Checks the key of an external payload reference: an empty key is
/// refused.
pub fn check_payload_key(key: &str) -> (result: Result<(), EvidenceError>)
    ensures
        key@.len() == 0 <==> result == Err::<(), EvidenceError>(EvidenceError::EmptyPayloadKey),
        key@.len() > 0 <==> result is Ok,
{
    if key.unicode_len() == 0 {
        Err(EvidenceError::EmptyPayloadKey)
    } else {
        Ok(())
    }
}

} // verus!
