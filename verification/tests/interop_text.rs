use li_eskg::decision::{DecisionAction, DecisionRecord};
use li_eskg::evidence::ContentHash;
use li_eskg::inference::{ProviderArtifact, SolverStoppingReason, VersionInterval};
use li_eskg::observation::Timestamp;
use li_eskg::host::HostEntityRef;
use li_eskg::ids::{CommitVersion, DecisionId, IdentityId, InferenceId, ObservationId, ProviderId, SchemaId, SourceId};
use li_eskg::inference::{AssociationOutcome, IdentityReference};
use li_eskg::interoperability::{
    action_label, check_lineage, valid_absolute_iri, write_decimal, write_hex, write_turtle_literal,
    InteroperabilityProjector, ProjectionError, RdfProfile,
};

fn projector() -> InteroperabilityProjector {
    InteroperabilityProjector::new("https://example.test/li/", RdfProfile::Rdf11).unwrap()
}

#[test]
fn projector_requires_an_absolute_base_without_whitespace() {
    assert_eq!(
        InteroperabilityProjector::new("relative/path", RdfProfile::Rdf11).err(),
        Some(ProjectionError::InvalidBaseIri)
    );
    assert_eq!(
        InteroperabilityProjector::new("https://example.test/a b", RdfProfile::Rdf12).err(),
        Some(ProjectionError::InvalidBaseIri)
    );
    assert!(valid_absolute_iri("urn:example"));
    assert!(!valid_absolute_iri(""));
    let projector = projector();
    assert_eq!(projector.base(), "https://example.test/li/");
    assert_eq!(projector.profile(), RdfProfile::Rdf11);
}

#[test]
fn decimal_and_hex_renderings_match_their_definitions() {
    let mut text = String::from("x=");
    write_decimal(&mut text, 0);
    text.push(',');
    write_decimal(&mut text, 1234);
    text.push(',');
    write_decimal(&mut text, u64::MAX);
    assert_eq!(text, "x=0,1234,18446744073709551615");
    let mut hex = String::new();
    write_hex(&mut hex, &[0x0f, 0xa0, 0x00, 0xff]);
    assert_eq!(hex, "0fa000ff");
}

#[test]
fn turtle_literal_escapes_quotes_backslashes_and_controls() {
    let mut text = String::from("\"");
    write_turtle_literal(&mut text, "quote \" slash \\ line\nreturn\rtab\tend é");
    text.push('"');
    assert_eq!(text, "\"quote \\\" slash \\\\ line\\nreturn\\rtab\\tend é\"");
    let mut domain = String::new();
    write_turtle_literal(&mut domain, "domain \"quoted\"\nnext");
    assert!(domain.contains("domain \\\"quoted\\\"\\nnext"));
}

#[test]
fn mismatched_lineage_is_refused() {
    assert_eq!(check_lineage(ObservationId(1), ObservationId(1), InferenceId(2), InferenceId(2)), Ok(()));
    assert_eq!(
        check_lineage(ObservationId(1), ObservationId(9), InferenceId(2), InferenceId(2)),
        Err(ProjectionError::InvalidLineage)
    );
    assert_eq!(
        check_lineage(ObservationId(1), ObservationId(1), InferenceId(2), InferenceId(3)),
        Err(ProjectionError::InvalidLineage)
    );
}

#[test]
fn action_labels_and_outcome_terms() {
    assert_eq!(action_label(&DecisionAction::Assign(IdentityReference::Latent(IdentityId(1)))), "assign");
    assert_eq!(action_label(&DecisionAction::CreateIdentity), "new");
    assert_eq!(action_label(&DecisionAction::RejectNoise), "noise");
    assert_eq!(action_label(&DecisionAction::Abstain), "abstain");

    let projector = projector();
    let mut term = String::new();
    projector.write_outcome_term(&mut term, &AssociationOutcome::Identity(IdentityReference::Latent(IdentityId(7))));
    assert_eq!(term, "<https://example.test/li/identity/7>");
    let host = HostEntityRef::new(3, "ab", CommitVersion::new(1)).unwrap();
    let mut known = String::new();
    projector.write_outcome_term(&mut known, &AssociationOutcome::Identity(IdentityReference::Known(host)));
    assert_eq!(known, "<https://example.test/li/host/3/6162>");
    let mut new = String::new();
    projector.write_outcome_term(&mut new, &AssociationOutcome::New);
    assert_eq!(new, "li:newIdentity");
    let mut noise = String::new();
    projector.write_outcome_term(&mut noise, &AssociationOutcome::Noise);
    assert_eq!(noise, "li:noise");
}

#[test]
fn nanopublication_graphs_name_the_decision_and_publisher() {
    let projector = projector();
    let mut text = String::new();
    projector.write_nanopublication_graphs(&mut text, ObservationId(2), DecisionId(5), "https://pub.example/");
    let base = "https://example.test/li/";
    let expected = format!(
        "\n<{b}nanopub/5> a np:Nanopublication ; np:hasAssertion <{b}nanopub/5/assertion> ; np:hasProvenance <{b}nanopub/5/provenance> ; np:hasPublicationInfo <{b}nanopub/5/publicationInfo> .\n\
<{b}nanopub/5/assertion> {{ <{b}observation/2> li:hasDecision <{b}decision/5> . }}\n\
<{b}nanopub/5/provenance> {{ <{b}nanopub/5/assertion> prov:wasGeneratedBy <{b}decision/5> . }}\n\
<{b}nanopub/5/publicationInfo> {{ <{b}nanopub/5> prov:wasAttributedTo <https://pub.example/> . }}\n",
        b = base
    );
    assert_eq!(text, expected);
}

#[test]
fn shacl_profile_starts_with_prefixes() {
    let projector = projector();
    let mut text = String::from("stale");
    assert_eq!(projector.write_shacl(&mut text), Ok(()));
    assert!(text.starts_with("@prefix li: <https://example.test/li/vocab/> .\n"));
    assert!(text.contains("li:DecisionShape a sh:NodeShape"));
    assert!(!text.contains("stale"));
}

#[test]
fn observation_and_inference_records_render_every_integer_field() {
    let projector = projector();
    let mut text = String::from("#");
    let mut hash = [0u8; 32];
    hash[0] = 0xab;
    hash[31] = 0x01;
    projector.write_observation_entity(
        &mut text,
        ObservationId(7),
        SourceId(3),
        Timestamp::from_micros(-5),
        Timestamp::from_micros(12),
        &ContentHash(hash),
    );
    let zeros = "00".repeat(30);
    assert_eq!(
        text,
        format!(
            "#<https://example.test/li/observation/7> a prov:Entity, li:Observation ; li:source 3 ; li:eventTime -5 ; li:ingestionTime 12 ; li:contentHash \"ab{}01\" .\n",
            zeros
        )
    );
    let mut inference = String::new();
    projector.write_inference_activity(
        &mut inference,
        InferenceId(4),
        ObservationId(7),
        CommitVersion::new(9),
        2,
        5,
        SolverStoppingReason::IterationLimit,
    );
    assert_eq!(
        inference,
        "<https://example.test/li/inference/4> a prov:Activity, li:Inference ; prov:used <https://example.test/li/observation/7> ; li:hostSnapshot 9 ; li:candidateVersion 2 ; li:solverVersion 5 ; li:stoppingReason \"IterationLimit\" .\n"
    );
    let mut provider = String::new();
    let artifact = ProviderArtifact { provider: ProviderId(11), schema: SchemaId(12), model_version: 13, calibration_id: 14 };
    projector.write_provider_usage(&mut provider, InferenceId(4), &artifact, 1);
    projector.write_score_link(&mut provider, InferenceId(4), 0);
    assert_eq!(
        provider,
        "<https://example.test/li/inference/4> li:usedProvider [ a prov:Entity ; li:providerId 11 ; li:schemaId 12 ; li:modelVersion 13 ; li:calibrationId 14 ; li:ordinal 1 ] .\n<https://example.test/li/inference/4> li:hasScoreContribution _:score0 .\n"
    );
}

#[test]
fn decision_record_renders_versions_and_action() {
    let projector = projector();
    let decision = DecisionRecord {
        id: DecisionId(21),
        inference: InferenceId(4),
        action: DecisionAction::RejectNoise,
        policy_version: 2,
        loss_version: 3,
        validity: VersionInterval::new(CommitVersion::new(1), None).unwrap(),
    };
    let mut text = String::new();
    projector.write_decision_activity(&mut text, &decision, InferenceId(4));
    assert_eq!(
        text,
        "<https://example.test/li/decision/21> a prov:Activity, li:Decision ; prov:used <https://example.test/li/inference/4> ; li:policyVersion 2 ; li:lossVersion 3 ; li:action \"noise\" .\n"
    );
}
