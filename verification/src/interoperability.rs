//! Deterministic RDF, PROV-O, nanopublication, and SHACL export profiles.
use crate::decision::{DecisionAction, DecisionRecord};
use crate::evidence::ContentHash;
use crate::ids::{CommitVersion, DecisionId, InferenceId, ObservationId, SourceId};
use crate::inference::{AssociationOutcome, IdentityReference, ProviderArtifact, SolverStoppingReason};
use crate::observation::Timestamp;
use vstd::prelude::*;
use vstd::string::{StrSliceExecFns, StringExecFns};

verus! {

/// RDF compatibility profile used for uncertain proposition representation.
#[derive(Debug, Clone, Copy, PartialEq, Eq, Structural)]
pub enum RdfProfile {
    /// RDF 1.1 reification-compatible output.
    Rdf11,
    /// RDF 1.2 triple terms and reifiers.
    Rdf12,
}

/// Error returned by interoperability configuration or serialization.
#[derive(Debug, Clone, Copy, PartialEq, Eq, Structural)]
pub enum ProjectionError {
    /// Base IRI was empty, relative, or contained whitespace.
    InvalidBaseIri,
    /// Inference and decision lineage did not match the observation.
    InvalidLineage,
    /// Writing into the provided string buffer failed.
    Formatting,
}

/// Unicode `White_Space` characters, as classified by `char::is_whitespace`.
pub open spec fn is_unicode_whitespace(c: char) -> bool {
    let u = c as u32;
    (0x9 <= u <= 0xd) || u == 0x20 || u == 0x85 || u == 0xa0 || u == 0x1680 || (0x2000 <= u
        <= 0x200a) || u == 0x2028 || u == 0x2029 || u == 0x202f || u == 0x205f || u == 0x3000
}

/// Characters that may not appear in an exported IRI.
pub open spec fn is_forbidden_iri_char(c: char) -> bool {
    is_unicode_whitespace(c) || c == '<' || c == '>' || c == '"' || c == '{' || c == '}'
}

/// A non-empty IRI that names a scheme and holds no whitespace or
/// delimiter characters.
pub open spec fn spec_valid_absolute_iri(value: Seq<char>) -> bool {
    &&& value.len() > 0
    &&& value.contains(':')
    &&& forall|i: int| 0 <= i < value.len() ==> !is_forbidden_iri_char(#[trigger] value[i])
}

fn is_forbidden_char(c: char) -> (forbidden: bool)
    ensures
        forbidden == is_forbidden_iri_char(c),
{
    let u = c as u32;
    (0x9 <= u && u <= 0xd) || u == 0x20 || u == 0x85 || u == 0xa0 || u == 0x1680 || (0x2000 <= u
        && u <= 0x200a) || u == 0x2028 || u == 0x2029 || u == 0x202f || u == 0x205f || u == 0x3000
        || c == '<' || c == '>' || c == '"' || c == '{' || c == '}'
}

/// Checks that `value` is a non-empty absolute IRI without whitespace or
/// delimiter characters.
pub fn valid_absolute_iri(value: &str) -> (valid: bool)
    ensures
        valid == spec_valid_absolute_iri(value@),
{
    let len = value.unicode_len();
    if len == 0 {
        return false;
    }
    let mut has_colon = false;
    let mut i: usize = 0;
    while i < len
        invariant
            len == value@.len(),
            i <= len,
            has_colon == exists|k: int| 0 <= k < i && value@[k] == ':',
            forall|k: int| 0 <= k < i ==> !is_forbidden_iri_char(#[trigger] value@[k]),
        decreases len - i,
    {
        let c = value.get_char(i);
        if is_forbidden_char(c) {
            return false;
        }
        if c == ':' {
            has_colon = true;
        }
        i += 1;
    }
    has_colon
}

/// The namespace prefix block written before every export.
pub open spec fn prefix_block(base: Seq<char>) -> Seq<char> {
    "@prefix li: <"@ + base + "vocab/> .\n"@
        + "@prefix prov: <http://www.w3.org/ns/prov#> .\n"@
        + "@prefix rdf: <http://www.w3.org/1999/02/22-rdf-syntax-ns#> .\n"@
        + "@prefix sh: <http://www.w3.org/ns/shacl#> .\n"@
        + "@prefix np: <http://www.nanopub.org/nschema#> .\n"@
}

/// The baseline SHACL shapes for exported decision records.
pub open spec fn shacl_shapes() -> Seq<char> {
    "li:DecisionShape a sh:NodeShape ; sh:targetClass li:Decision ;\n  sh:property [ sh:path prov:used ; sh:minCount 1 ; sh:maxCount 1 ; sh:class li:Inference ] ;\n  sh:property [ sh:path li:policyVersion ; sh:minCount 1 ; sh:maxCount 1 ] ;\n  sh:property [ sh:path li:lossVersion ; sh:minCount 1 ; sh:maxCount 1 ] ;\n  sh:property [ sh:path li:action ; sh:minCount 1 ; sh:maxCount 1 ] .\n"@
        + "li:InferenceShape a sh:NodeShape ; sh:targetClass li:Inference ;\n  sh:property [ sh:path prov:used ; sh:minCount 1 ; sh:maxCount 1 ; sh:class li:Observation ] ;\n  sh:property [ sh:path li:usedProvider ; sh:minCount 1 ] ;\n  sh:property [ sh:path li:hostSnapshot ; sh:minCount 1 ; sh:maxCount 1 ] ;\n  sh:property [ sh:path li:candidateVersion ; sh:minCount 1 ; sh:maxCount 1 ] ;\n  sh:property [ sh:path li:solverVersion ; sh:minCount 1 ; sh:maxCount 1 ] ;\n  sh:property [ sh:path li:stoppingReason ; sh:minCount 1 ; sh:maxCount 1 ] .\n"@
        + "li:ProviderArtifactShape a sh:NodeShape ; sh:targetObjectsOf li:usedProvider ;\n  sh:property [ sh:path li:providerId ; sh:minCount 1 ; sh:maxCount 1 ] ;\n  sh:property [ sh:path li:schemaId ; sh:minCount 1 ; sh:maxCount 1 ] ;\n  sh:property [ sh:path li:modelVersion ; sh:minCount 1 ; sh:maxCount 1 ] ;\n  sh:property [ sh:path li:calibrationId ; sh:minCount 1 ; sh:maxCount 1 ] .\n"@
        + "li:ScoreContributionShape a sh:NodeShape ; sh:targetClass li:ScoreContribution ;\n  sh:property [ sh:path li:value ; sh:minCount 1 ; sh:maxCount 1 ] ;\n  sh:property [ sh:path li:scoreSemantics ; sh:minCount 1 ; sh:maxCount 1 ; sh:in ( \"LogLikelihood\" \"LogLikelihoodRatio\" \"LogPotential\" \"CalibratedPosterior\" ) ] ;\n  sh:property [ sh:path li:modelVersion ; sh:minCount 1 ; sh:maxCount 1 ] ;\n  sh:property [ sh:path li:calibrationId ; sh:minCount 1 ; sh:maxCount 1 ] .\n"@
        + "li:AlternativeShape a sh:NodeShape ; sh:targetClass li:Alternative ;\n  sh:property [ sh:path li:probability ; sh:minCount 1 ; sh:maxCount 1 ] ;\n  sh:property [ sh:path prov:wasGeneratedBy ; sh:minCount 1 ; sh:maxCount 1 ; sh:class li:Inference ] .\n"@
        + "li:PromotionShape a sh:NodeShape ; sh:targetClass li:Promotion ;\n  sh:property [ sh:path li:promotionTarget ; sh:minCount 1 ; sh:maxCount 1 ] ;\n  sh:property [ sh:path prov:wasGeneratedBy ; sh:minCount 1 ; sh:maxCount 1 ; sh:class li:Decision ] .\n"@
        + "li:RevisionShape a sh:NodeShape ; sh:targetClass li:Revision ;\n  sh:or ( [ sh:property [ sh:path prov:invalidated ; sh:minCount 1 ] ] [ sh:property [ sh:path li:revokes ; sh:minCount 1 ] ] ) .\n"@
        + "li:MaterializationShape a sh:NodeShape ; sh:targetClass li:Materialization ;\n  sh:property [ sh:path li:responsibleDecision ; sh:minCount 1 ; sh:maxCount 1 ; sh:class li:Decision ] ;\n  sh:property [ sh:path li:commitVersion ; sh:minCount 1 ; sh:maxCount 1 ] ;\n  sh:property [ sh:path li:hostPredicate ; sh:minCount 1 ; sh:maxCount 1 ] .\n"@
}

/// Deterministic standards projection configured for one deployment namespace.
#[derive(Debug, Clone, PartialEq, Eq)]
pub struct InteroperabilityProjector {
    base: String,
    profile: RdfProfile,
}

impl InteroperabilityProjector {
    /// The base IRI, for specifications.
    pub closed spec fn spec_base(&self) -> Seq<char> {
        self.base@
    }

    /// The RDF profile, for specifications.
    pub closed spec fn spec_profile(&self) -> RdfProfile {
        self.profile
    }

    /// Creates a projector for an absolute deployment-owned base IRI.
    pub fn new(base: &str, profile: RdfProfile) -> (projector: Result<Self, ProjectionError>)
        ensures
            !spec_valid_absolute_iri(base@) <==> projector == Err::<Self, ProjectionError>(
                ProjectionError::InvalidBaseIri,
            ),
            spec_valid_absolute_iri(base@) <==> projector is Ok,
            projector matches Ok(p) ==> p.spec_base() == base@ && p.spec_profile() == profile,
    {
        if !valid_absolute_iri(base) {
            return Err(ProjectionError::InvalidBaseIri);
        }
        Ok(InteroperabilityProjector { base: String::from_str(base), profile })
    }

    /// Returns the deployment base IRI.
    pub fn base(&self) -> (base: &str)
        ensures
            base@ == self.spec_base(),
    {
        self.base.as_str()
    }

    /// Returns the RDF profile.
    pub fn profile(&self) -> (profile: RdfProfile)
        ensures
            profile == self.spec_profile(),
    {
        self.profile
    }

    /// Appends the RDF term of an association outcome: a latent identity IRI,
    /// a host entity IRI with the hex-encoded key, or the `new` and `noise`
    /// vocabulary terms.
    pub fn write_outcome_term(&self, output: &mut String, outcome: &AssociationOutcome)
        ensures
            final(output)@ == old(output)@ + outcome_term(self.spec_base(), *outcome),
    {
        match outcome {
            AssociationOutcome::Identity(IdentityReference::Latent(identity)) => {
                output.append("<");
                output.append(self.base.as_str());
                output.append("identity/");
                write_decimal(output, identity.0);
                output.append(">");
            },
            AssociationOutcome::Identity(IdentityReference::Known(reference)) => {
                output.append("<");
                output.append(self.base.as_str());
                output.append("host/");
                write_decimal(output, reference.backend() as u64);
                output.append("/");
                write_hex(output, reference.key().as_bytes());
                output.append(">");
            },
            AssociationOutcome::New => output.append("li:newIdentity"),
            AssociationOutcome::Noise => output.append("li:noise"),
        }
    }

    /// Appends the nanopublication head, assertion, provenance and
    /// publication-info graphs of one decision about one observation.
    pub fn write_nanopublication_graphs(
        &self,
        output: &mut String,
        observation: ObservationId,
        decision: DecisionId,
        publisher_iri: &str,
    )
        ensures
            final(output)@ == old(output)@ + nanopublication_text(
                self.spec_base(),
                observation,
                decision,
                publisher_iri@,
            ),
    {
        let base = self.base.as_str();
        write_nanopub_head(output, base, decision.0);
        write_nanopub_assertion(output, base, decision.0, observation.0);
        write_nanopub_provenance(output, base, decision.0);
        write_nanopub_info(output, base, decision.0, publisher_iri);
        proof {
            assert(output@ =~= old(output)@ + nanopublication_text(
                self.spec_base(),
                observation,
                decision,
                publisher_iri@,
            ));
        }
    }

    /// Appends the PROV entity line of an observation: its source, event
    /// and ingestion times in microseconds and its hex content hash.
    pub fn write_observation_entity(
        &self,
        output: &mut String,
        observation: ObservationId,
        source: SourceId,
        event_time: Timestamp,
        ingestion_time: Timestamp,
        content_hash: &ContentHash,
    )
        ensures
            final(output)@ == old(output)@ + observation_entity_text(
                self.spec_base(),
                observation,
                source,
                event_time,
                ingestion_time,
                *content_hash,
            ),
    {
        let base = self.base.as_str();
        output.append("<");
        write_iri(output, base, "observation/", observation.0);
        output.append("> a prov:Entity, li:Observation ; li:source ");
        write_decimal(output, source.0);
        output.append(" ; li:eventTime ");
        write_signed_decimal(output, event_time.as_micros());
        output.append(" ; li:ingestionTime ");
        write_signed_decimal(output, ingestion_time.as_micros());
        output.append(" ; li:contentHash \"");
        write_hex(output, content_hash.as_bytes());
        output.append("\" .\n");
        proof {
            assert(output@ =~= old(output)@ + observation_entity_text(
                self.spec_base(),
                observation,
                source,
                event_time,
                ingestion_time,
                *content_hash,
            ));
        }
    }

    /// Appends the PROV activity line of an inference over an observation.
    pub fn write_inference_activity(
        &self,
        output: &mut String,
        inference: InferenceId,
        observation: ObservationId,
        host_snapshot: CommitVersion,
        candidate_version: u64,
        solver_version: u64,
        stopping_reason: SolverStoppingReason,
    )
        ensures
            final(output)@ == old(output)@ + inference_activity_text(
                self.spec_base(),
                inference,
                observation,
                host_snapshot,
                candidate_version,
                solver_version,
                stopping_reason,
            ),
    {
        let base = self.base.as_str();
        output.append("<");
        write_iri(output, base, "inference/", inference.0);
        output.append("> a prov:Activity, li:Inference ; prov:used <");
        write_iri(output, base, "observation/", observation.0);
        output.append("> ; li:hostSnapshot ");
        write_decimal(output, host_snapshot.get());
        output.append(" ; li:candidateVersion ");
        write_decimal(output, candidate_version);
        output.append(" ; li:solverVersion ");
        write_decimal(output, solver_version);
        output.append(" ; li:stoppingReason \"");
        output.append(stopping_reason_name(&stopping_reason));
        output.append("\" .\n");
        proof {
            assert(output@ =~= old(output)@ + inference_activity_text(
                self.spec_base(),
                inference,
                observation,
                host_snapshot,
                candidate_version,
                solver_version,
                stopping_reason,
            ));
        }
    }

    /// Appends the line recording that an inference used a provider
    /// artifact, at position `ordinal` of its provenance.
    pub fn write_provider_usage(
        &self,
        output: &mut String,
        inference: InferenceId,
        artifact: &ProviderArtifact,
        ordinal: usize,
    )
        ensures
            final(output)@ == old(output)@ + provider_usage_text(
                self.spec_base(),
                inference,
                *artifact,
                ordinal as nat,
            ),
    {
        let base = self.base.as_str();
        output.append("<");
        write_iri(output, base, "inference/", inference.0);
        output.append("> li:usedProvider [ a prov:Entity ; li:providerId ");
        write_decimal(output, artifact.provider.0);
        output.append(" ; li:schemaId ");
        write_decimal(output, artifact.schema.0);
        output.append(" ; li:modelVersion ");
        write_decimal(output, artifact.model_version);
        output.append(" ; li:calibrationId ");
        write_decimal(output, artifact.calibration_id);
        output.append(" ; li:ordinal ");
        write_decimal(output, ordinal as u64);
        output.append(" ] .\n");
        proof {
            assert(output@ =~= old(output)@ + provider_usage_text(
                self.spec_base(),
                inference,
                *artifact,
                ordinal as nat,
            ));
        }
    }

    /// Appends the line linking an inference to its score contribution
    /// number `index`.
    pub fn write_score_link(&self, output: &mut String, inference: InferenceId, index: usize)
        ensures
            final(output)@ == old(output)@ + score_link_text(self.spec_base(), inference, index as nat),
    {
        let base = self.base.as_str();
        output.append("<");
        write_iri(output, base, "inference/", inference.0);
        output.append("> li:hasScoreContribution _:score");
        write_decimal(output, index as u64);
        output.append(" .\n");
        proof {
            assert(output@ =~= old(output)@ + score_link_text(self.spec_base(), inference, index as nat));
        }
    }

    /// Appends the PROV activity line of a decision taken on `inference`.
    pub fn write_decision_activity(&self, output: &mut String, decision: &DecisionRecord, inference: InferenceId)
        ensures
            final(output)@ == old(output)@ + decision_activity_text(self.spec_base(), *decision, inference),
    {
        let base = self.base.as_str();
        output.append("<");
        write_iri(output, base, "decision/", decision.id.0);
        output.append("> a prov:Activity, li:Decision ; prov:used <");
        write_iri(output, base, "inference/", inference.0);
        output.append("> ; li:policyVersion ");
        write_decimal(output, decision.policy_version);
        output.append(" ; li:lossVersion ");
        write_decimal(output, decision.loss_version);
        output.append(" ; li:action \"");
        output.append(action_label(&decision.action));
        output.append("\" .\n");
        proof {
            assert(output@ =~= old(output)@ + decision_activity_text(self.spec_base(), *decision, inference));
        }
    }

    /// Appends the namespace prefix block.
    pub fn write_prefixes(&self, output: &mut String)
        ensures
            final(output)@ == old(output)@ + prefix_block(self.spec_base()),
    {
        output.append("@prefix li: <");
        output.append(self.base.as_str());
        output.append("vocab/> .\n");
        output.append("@prefix prov: <http://www.w3.org/ns/prov#> .\n");
        output.append("@prefix rdf: <http://www.w3.org/1999/02/22-rdf-syntax-ns#> .\n");
        output.append("@prefix sh: <http://www.w3.org/ns/shacl#> .\n");
        output.append("@prefix np: <http://www.nanopub.org/nschema#> .\n");
    }

    /// Writes baseline SHACL shapes for exported decision records, replacing
    /// the previous contents of `output`.
    pub fn write_shacl(&self, output: &mut String) -> (result: Result<(), ProjectionError>)
        ensures
            result is Ok,
            final(output)@ == prefix_block(self.spec_base()) + shacl_shapes(),
    {
        *output = String::new();
        self.write_prefixes(output);
        output.append("li:DecisionShape a sh:NodeShape ; sh:targetClass li:Decision ;\n  sh:property [ sh:path prov:used ; sh:minCount 1 ; sh:maxCount 1 ; sh:class li:Inference ] ;\n  sh:property [ sh:path li:policyVersion ; sh:minCount 1 ; sh:maxCount 1 ] ;\n  sh:property [ sh:path li:lossVersion ; sh:minCount 1 ; sh:maxCount 1 ] ;\n  sh:property [ sh:path li:action ; sh:minCount 1 ; sh:maxCount 1 ] .\n");
        output.append("li:InferenceShape a sh:NodeShape ; sh:targetClass li:Inference ;\n  sh:property [ sh:path prov:used ; sh:minCount 1 ; sh:maxCount 1 ; sh:class li:Observation ] ;\n  sh:property [ sh:path li:usedProvider ; sh:minCount 1 ] ;\n  sh:property [ sh:path li:hostSnapshot ; sh:minCount 1 ; sh:maxCount 1 ] ;\n  sh:property [ sh:path li:candidateVersion ; sh:minCount 1 ; sh:maxCount 1 ] ;\n  sh:property [ sh:path li:solverVersion ; sh:minCount 1 ; sh:maxCount 1 ] ;\n  sh:property [ sh:path li:stoppingReason ; sh:minCount 1 ; sh:maxCount 1 ] .\n");
        output.append("li:ProviderArtifactShape a sh:NodeShape ; sh:targetObjectsOf li:usedProvider ;\n  sh:property [ sh:path li:providerId ; sh:minCount 1 ; sh:maxCount 1 ] ;\n  sh:property [ sh:path li:schemaId ; sh:minCount 1 ; sh:maxCount 1 ] ;\n  sh:property [ sh:path li:modelVersion ; sh:minCount 1 ; sh:maxCount 1 ] ;\n  sh:property [ sh:path li:calibrationId ; sh:minCount 1 ; sh:maxCount 1 ] .\n");
        output.append("li:ScoreContributionShape a sh:NodeShape ; sh:targetClass li:ScoreContribution ;\n  sh:property [ sh:path li:value ; sh:minCount 1 ; sh:maxCount 1 ] ;\n  sh:property [ sh:path li:scoreSemantics ; sh:minCount 1 ; sh:maxCount 1 ; sh:in ( \"LogLikelihood\" \"LogLikelihoodRatio\" \"LogPotential\" \"CalibratedPosterior\" ) ] ;\n  sh:property [ sh:path li:modelVersion ; sh:minCount 1 ; sh:maxCount 1 ] ;\n  sh:property [ sh:path li:calibrationId ; sh:minCount 1 ; sh:maxCount 1 ] .\n");
        output.append("li:AlternativeShape a sh:NodeShape ; sh:targetClass li:Alternative ;\n  sh:property [ sh:path li:probability ; sh:minCount 1 ; sh:maxCount 1 ] ;\n  sh:property [ sh:path prov:wasGeneratedBy ; sh:minCount 1 ; sh:maxCount 1 ; sh:class li:Inference ] .\n");
        output.append("li:PromotionShape a sh:NodeShape ; sh:targetClass li:Promotion ;\n  sh:property [ sh:path li:promotionTarget ; sh:minCount 1 ; sh:maxCount 1 ] ;\n  sh:property [ sh:path prov:wasGeneratedBy ; sh:minCount 1 ; sh:maxCount 1 ; sh:class li:Decision ] .\n");
        output.append("li:RevisionShape a sh:NodeShape ; sh:targetClass li:Revision ;\n  sh:or ( [ sh:property [ sh:path prov:invalidated ; sh:minCount 1 ] ] [ sh:property [ sh:path li:revokes ; sh:minCount 1 ] ] ) .\n");
        output.append("li:MaterializationShape a sh:NodeShape ; sh:targetClass li:Materialization ;\n  sh:property [ sh:path li:responsibleDecision ; sh:minCount 1 ; sh:maxCount 1 ; sh:class li:Decision ] ;\n  sh:property [ sh:path li:commitVersion ; sh:minCount 1 ; sh:maxCount 1 ] ;\n  sh:property [ sh:path li:hostPredicate ; sh:minCount 1 ; sh:maxCount 1 ] .\n");
        Ok(())
    }
}

/// The characters of a decimal digit or lower-case hex digit value.
pub open spec fn digit_char(d: int) -> char {
    "0123456789abcdef"@[d]
}

/// Decimal representation of a natural number, most significant digit
/// first, without leading zeros.
pub open spec fn decimal_text(n: nat) -> Seq<char>
    decreases n,
{
    if n < 10 {
        seq![digit_char(n as int)]
    } else {
        decimal_text(n / 10) + seq![digit_char((n % 10) as int)]
    }
}

/// Two lower-case hex digits per byte, in order.
pub open spec fn hex_text(bytes: Seq<u8>) -> Seq<char>
    decreases bytes.len(),
{
    if bytes.len() == 0 {
        Seq::empty()
    } else {
        hex_text(bytes.drop_last()) + seq![digit_char((bytes.last() / 16) as int), digit_char((bytes.last() % 16) as int)]
    }
}

/// A character inside a quoted Turtle literal: backslash, quote and the
/// line-break and tab controls are escaped, others stand as they are.
pub open spec fn turtle_char(c: char) -> Seq<char> {
    if c == '\\' {
        seq!['\\', '\\']
    } else if c == '"' {
        seq!['\\', '"']
    } else if c == '\n' {
        seq!['\\', 'n']
    } else if c == '\r' {
        seq!['\\', 'r']
    } else if c == '\t' {
        seq!['\\', 't']
    } else {
        seq![c]
    }
}

/// The body of a quoted Turtle literal holding `text`.
pub open spec fn turtle_escape(text: Seq<char>) -> Seq<char>
    decreases text.len(),
{
    if text.len() == 0 {
        Seq::empty()
    } else {
        turtle_escape(text.drop_last()) + turtle_char(text.last())
    }
}

/// The label of a decision action.
pub open spec fn spec_action_label(action: DecisionAction) -> Seq<char> {
    match action {
        DecisionAction::Assign(_) => "assign"@,
        DecisionAction::CreateIdentity => "new"@,
        DecisionAction::RejectNoise => "noise"@,
        DecisionAction::Abstain => "abstain"@,
    }
}

/// The RDF term of an association outcome under base IRI `base`.
pub open spec fn outcome_term(base: Seq<char>, outcome: AssociationOutcome) -> Seq<char> {
    match outcome {
        AssociationOutcome::Identity(IdentityReference::Latent(identity)) => "<"@ + base + "identity/"@
            + decimal_text(identity.0 as nat) + ">"@,
        AssociationOutcome::Identity(IdentityReference::Known(reference)) => "<"@ + base + "host/"@
            + decimal_text(reference.spec_backend() as nat) + "/"@ + hex_text(
            vstd::utf8::encode_utf8(reference.spec_key()),
        ) + ">"@,
        AssociationOutcome::New => "li:newIdentity"@,
        AssociationOutcome::Noise => "li:noise"@,
    }
}

/// The IRI of record `id` under `base`, in the collection `segment`.
pub open spec fn iri_text(base: Seq<char>, segment: Seq<char>, id: u64) -> Seq<char> {
    base + segment + decimal_text(id as nat)
}

/// The head line of a nanopublication: its three named graphs.
pub open spec fn nanopub_head(base: Seq<char>, decision: u64) -> Seq<char> {
    let np = iri_text(base, "nanopub/"@, decision);
    "\n<"@ + np + "> a np:Nanopublication ; np:hasAssertion <"@ + np + "/assertion> ; np:hasProvenance <"@ + np
        + "/provenance> ; np:hasPublicationInfo <"@ + np + "/publicationInfo> .\n"@
}

/// The assertion graph: the observation has the decision.
pub open spec fn nanopub_assertion(base: Seq<char>, decision: u64, observation: u64) -> Seq<char> {
    "<"@ + iri_text(base, "nanopub/"@, decision) + "/assertion> { <"@ + iri_text(base, "observation/"@, observation)
        + "> li:hasDecision <"@ + iri_text(base, "decision/"@, decision) + "> . }\n"@
}

/// The provenance graph: the assertion was generated by the decision.
pub open spec fn nanopub_provenance(base: Seq<char>, decision: u64) -> Seq<char> {
    let np = iri_text(base, "nanopub/"@, decision);
    "<"@ + np + "/provenance> { <"@ + np + "/assertion> prov:wasGeneratedBy <"@ + iri_text(base, "decision/"@, decision)
        + "> . }\n"@
}

/// The publication-info graph: the nanopublication is attributed to the
/// publisher.
pub open spec fn nanopub_info(base: Seq<char>, decision: u64, publisher: Seq<char>) -> Seq<char> {
    let np = iri_text(base, "nanopub/"@, decision);
    "<"@ + np + "/publicationInfo> { <"@ + np + "> prov:wasAttributedTo <"@ + publisher + "> . }\n"@
}

/// The nanopublication graphs of decision `decision` about observation
/// `observation`, attributed to `publisher`.
pub open spec fn nanopublication_text(
    base: Seq<char>,
    observation: ObservationId,
    decision: DecisionId,
    publisher: Seq<char>,
) -> Seq<char> {
    nanopub_head(base, decision.0) + nanopub_assertion(base, decision.0, observation.0) + nanopub_provenance(
        base,
        decision.0,
    ) + nanopub_info(base, decision.0, publisher)
}

/// Decimal representation of a signed integer: a minus sign before the
/// magnitude of a negative value.
pub open spec fn signed_decimal_text(value: int) -> Seq<char> {
    if value < 0 {
        "-"@ + decimal_text((-value) as nat)
    } else {
        decimal_text(value as nat)
    }
}

/// The name of a solver stopping reason.
pub open spec fn spec_stopping_reason_name(reason: SolverStoppingReason) -> Seq<char> {
    match reason {
        SolverStoppingReason::Exact => "Exact"@,
        SolverStoppingReason::Converged => "Converged"@,
        SolverStoppingReason::IterationLimit => "IterationLimit"@,
        SolverStoppingReason::Oscillation => "Oscillation"@,
        SolverStoppingReason::NumericalFailure => "NumericalFailure"@,
    }
}

/// The PROV entity line of an observation: source, both clocks in
/// microseconds and the hex content hash.
pub open spec fn observation_entity_text(
    base: Seq<char>,
    observation: ObservationId,
    source: SourceId,
    event_time: Timestamp,
    ingestion_time: Timestamp,
    content_hash: ContentHash,
) -> Seq<char> {
    "<"@ + iri_text(base, "observation/"@, observation.0) + "> a prov:Entity, li:Observation ; li:source "@
        + decimal_text(source.0 as nat) + " ; li:eventTime "@ + signed_decimal_text(event_time.spec_micros() as int)
        + " ; li:ingestionTime "@ + signed_decimal_text(ingestion_time.spec_micros() as int) + " ; li:contentHash \""@
        + hex_text(content_hash.0@) + "\" .\n"@
}

/// The PROV activity line of an inference over an observation: the host
/// snapshot, candidate and solver versions and the stopping reason.
pub open spec fn inference_activity_text(
    base: Seq<char>,
    inference: InferenceId,
    observation: ObservationId,
    host_snapshot: CommitVersion,
    candidate_version: u64,
    solver_version: u64,
    stopping_reason: SolverStoppingReason,
) -> Seq<char> {
    "<"@ + iri_text(base, "inference/"@, inference.0) + "> a prov:Activity, li:Inference ; prov:used <"@ + iri_text(
        base,
        "observation/"@,
        observation.0,
    ) + "> ; li:hostSnapshot "@ + decimal_text(host_snapshot.value() as nat) + " ; li:candidateVersion "@
        + decimal_text(candidate_version as nat) + " ; li:solverVersion "@ + decimal_text(solver_version as nat)
        + " ; li:stoppingReason \""@ + spec_stopping_reason_name(stopping_reason) + "\" .\n"@
}

/// The line recording that an inference used a provider artifact, at
/// position `ordinal` of its provenance.
pub open spec fn provider_usage_text(
    base: Seq<char>,
    inference: InferenceId,
    artifact: ProviderArtifact,
    ordinal: nat,
) -> Seq<char> {
    "<"@ + iri_text(base, "inference/"@, inference.0) + "> li:usedProvider [ a prov:Entity ; li:providerId "@
        + decimal_text(artifact.provider.0 as nat) + " ; li:schemaId "@ + decimal_text(artifact.schema.0 as nat)
        + " ; li:modelVersion "@ + decimal_text(artifact.model_version as nat) + " ; li:calibrationId "@
        + decimal_text(artifact.calibration_id as nat) + " ; li:ordinal "@ + decimal_text(ordinal) + " ] .\n"@
}

/// The line linking an inference to its score contribution number `index`.
pub open spec fn score_link_text(base: Seq<char>, inference: InferenceId, index: nat) -> Seq<char> {
    "<"@ + iri_text(base, "inference/"@, inference.0) + "> li:hasScoreContribution _:score"@ + decimal_text(index)
        + " .\n"@
}

/// The PROV activity line of a decision taken on an inference: policy and
/// loss versions and the action label.
pub open spec fn decision_activity_text(base: Seq<char>, decision: DecisionRecord, inference: InferenceId) -> Seq<
    char,
> {
    "<"@ + iri_text(base, "decision/"@, decision.id.0) + "> a prov:Activity, li:Decision ; prov:used <"@ + iri_text(
        base,
        "inference/"@,
        inference.0,
    ) + "> ; li:policyVersion "@ + decimal_text(decision.policy_version as nat) + " ; li:lossVersion "@
        + decimal_text(decision.loss_version as nat) + " ; li:action \""@ + spec_action_label(decision.action)
        + "\" .\n"@
}

fn write_iri(output: &mut String, base: &str, segment: &str, id: u64)
    ensures
        final(output)@ == old(output)@ + iri_text(base@, segment@, id),
{
    output.append(base);
    output.append(segment);
    write_decimal(output, id);
    proof {
        assert(output@ =~= old(output)@ + iri_text(base@, segment@, id));
    }
}

fn write_nanopub_head(output: &mut String, base: &str, decision: u64)
    ensures
        final(output)@ == old(output)@ + nanopub_head(base@, decision),
{
    output.append("\n<");
    write_iri(output, base, "nanopub/", decision);
    output.append("> a np:Nanopublication ; np:hasAssertion <");
    write_iri(output, base, "nanopub/", decision);
    output.append("/assertion> ; np:hasProvenance <");
    write_iri(output, base, "nanopub/", decision);
    output.append("/provenance> ; np:hasPublicationInfo <");
    write_iri(output, base, "nanopub/", decision);
    output.append("/publicationInfo> .\n");
    proof {
        assert(output@ =~= old(output)@ + nanopub_head(base@, decision));
    }
}

fn write_nanopub_assertion(output: &mut String, base: &str, decision: u64, observation: u64)
    ensures
        final(output)@ == old(output)@ + nanopub_assertion(base@, decision, observation),
{
    output.append("<");
    write_iri(output, base, "nanopub/", decision);
    output.append("/assertion> { <");
    write_iri(output, base, "observation/", observation);
    output.append("> li:hasDecision <");
    write_iri(output, base, "decision/", decision);
    output.append("> . }\n");
    proof {
        assert(output@ =~= old(output)@ + nanopub_assertion(base@, decision, observation));
    }
}

fn write_nanopub_provenance(output: &mut String, base: &str, decision: u64)
    ensures
        final(output)@ == old(output)@ + nanopub_provenance(base@, decision),
{
    output.append("<");
    write_iri(output, base, "nanopub/", decision);
    output.append("/provenance> { <");
    write_iri(output, base, "nanopub/", decision);
    output.append("/assertion> prov:wasGeneratedBy <");
    write_iri(output, base, "decision/", decision);
    output.append("> . }\n");
    proof {
        assert(output@ =~= old(output)@ + nanopub_provenance(base@, decision));
    }
}

fn write_nanopub_info(output: &mut String, base: &str, decision: u64, publisher: &str)
    ensures
        final(output)@ == old(output)@ + nanopub_info(base@, decision, publisher@),
{
    output.append("<");
    write_iri(output, base, "nanopub/", decision);
    output.append("/publicationInfo> { <");
    write_iri(output, base, "nanopub/", decision);
    output.append("> prov:wasAttributedTo <");
    output.append(publisher);
    output.append("> . }\n");
    proof {
        assert(output@ =~= old(output)@ + nanopub_info(base@, decision, publisher@));
    }
}

/// `String::push`: the character is appended.
#[verifier::external_body]
fn push_char(output: &mut String, c: char)
    ensures
        final(output)@ == old(output)@.push(c),
{
    output.push(c);
}

/// Appends the digit of value `d`, below sixteen.
fn write_digit(output: &mut String, d: u8)
    requires
        d < 16,
    ensures
        final(output)@ == old(output)@ + seq![digit_char(d as int)],
{
    let digits = "0123456789abcdef";
    proof {
        reveal_strlit("0123456789abcdef");
    }
    let c = digits.get_char(d as usize);
    push_char(output, c);
    proof {
        assert(old(output)@.push(c) =~= old(output)@ + seq![digit_char(d as int)]);
    }
}

/// Appends the decimal representation of `value`.
pub fn write_decimal(output: &mut String, value: u64)
    ensures
        final(output)@ == old(output)@ + decimal_text(value as nat),
    decreases value,
{
    if value >= 10 {
        write_decimal(output, value / 10);
    }
    write_digit(output, (value % 10) as u8);
    proof {
        if value >= 10 {
            assert(decimal_text(value as nat) == decimal_text((value / 10) as nat) + seq![digit_char((value % 10) as int)]);
        } else {
            assert(value % 10 == value);
        }
        assert(final(output)@ =~= old(output)@ + decimal_text(value as nat));
    }
}

/// Appends two lower-case hex digits per byte.
pub fn write_hex(output: &mut String, bytes: &[u8])
    ensures
        final(output)@ == old(output)@ + hex_text(bytes@),
{
    let ghost start = output@;
    let mut i: usize = 0;
    while i < bytes.len()
        invariant
            i <= bytes@.len(),
            output@ == start + hex_text(bytes@.take(i as int)),
        decreases bytes@.len() - i,
    {
        let byte = bytes[i];
        write_digit(output, byte / 16);
        write_digit(output, byte % 16);
        proof {
            assert(bytes@.take(i + 1).drop_last() =~= bytes@.take(i as int));
            assert(output@ =~= start + hex_text(bytes@.take(i + 1)));
        }
        i += 1;
    }
    proof {
        assert(bytes@.take(bytes@.len() as int) =~= bytes@);
    }
}

/// Appends `value` escaped as the body of a quoted Turtle literal.
pub fn write_turtle_literal(output: &mut String, value: &str)
    ensures
        final(output)@ == old(output)@ + turtle_escape(value@),
{
    let ghost start = output@;
    let len = value.unicode_len();
    let mut i: usize = 0;
    while i < len
        invariant
            len == value@.len(),
            i <= len,
            output@ == start + turtle_escape(value@.take(i as int)),
        decreases len - i,
    {
        let c = value.get_char(i);
        if c == '\\' {
            push_char(output, '\\');
            push_char(output, '\\');
        } else if c == '"' {
            push_char(output, '\\');
            push_char(output, '"');
        } else if c == '\n' {
            push_char(output, '\\');
            push_char(output, 'n');
        } else if c == '\r' {
            push_char(output, '\\');
            push_char(output, 'r');
        } else if c == '\t' {
            push_char(output, '\\');
            push_char(output, 't');
        } else {
            push_char(output, c);
        }
        proof {
            assert(value@.take(i + 1).drop_last() =~= value@.take(i as int));
            assert(output@ =~= start + turtle_escape(value@.take(i + 1)));
        }
        i += 1;
    }
    proof {
        assert(value@.take(len as int) =~= value@);
    }
}

/// Appends the decimal representation of a signed value.
pub fn write_signed_decimal(output: &mut String, value: i64)
    ensures
        final(output)@ == old(output)@ + signed_decimal_text(value as int),
{
    if value < 0 {
        output.append("-");
        let magnitude: u64 = (0i128 - value as i128) as u64;
        write_decimal(output, magnitude);
        proof {
            assert(output@ =~= old(output)@ + signed_decimal_text(value as int));
        }
    } else {
        write_decimal(output, value as u64);
    }
}

/// Returns the name of a solver stopping reason.
pub fn stopping_reason_name(reason: &SolverStoppingReason) -> (name: &'static str)
    ensures
        name@ == spec_stopping_reason_name(*reason),
{
    match reason {
        SolverStoppingReason::Exact => "Exact",
        SolverStoppingReason::Converged => "Converged",
        SolverStoppingReason::IterationLimit => "IterationLimit",
        SolverStoppingReason::Oscillation => "Oscillation",
        SolverStoppingReason::NumericalFailure => "NumericalFailure",
    }
}

/// Returns the label of a decision action.
pub fn action_label(action: &DecisionAction) -> (label: &'static str)
    ensures
        label@ == spec_action_label(*action),
{
    match action {
        DecisionAction::Assign(_) => "assign",
        DecisionAction::CreateIdentity => "new",
        DecisionAction::RejectNoise => "noise",
        DecisionAction::Abstain => "abstain",
    }
}

/// Checks decision lineage: the inference must be about the observation and
/// the decision must rest on that inference.
pub fn check_lineage(
    observation: ObservationId,
    inference_observation: ObservationId,
    inference: InferenceId,
    decision_inference: InferenceId,
) -> (result: Result<(), ProjectionError>)
    ensures
        result is Ok <==> (inference_observation == observation && decision_inference == inference),
        result is Err ==> result == Err::<(), ProjectionError>(ProjectionError::InvalidLineage),
{
    if inference_observation != observation || decision_inference != inference {
        return Err(ProjectionError::InvalidLineage);
    }
    Ok(())
}

} // verus!
