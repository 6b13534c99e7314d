use li_eskg::evidence::{check_payload_key, EvidenceError};
use li_eskg::protocol::{
    validate_design, Baseline, CalibrationMetric, EvaluationDesign, ProtocolError, RealDatasetProfile,
    ResearchQuestion, ResolutionMetric, SystemMetric,
};

fn complete_design() -> EvaluationDesign {
    EvaluationDesign {
        questions: ResearchQuestion::all().to_vec(),
        synthetic_controls_complete: true,
        real: RealDatasetProfile {
            timestamps: true,
            repeated_observations: true,
            modalities: 2,
            relational_contexts: 1,
        },
        ground_truth_blinded: true,
        baselines: Baseline::all().to_vec(),
        resolution_metrics: ResolutionMetric::all().to_vec(),
        calibration_metrics: CalibrationMetric::all().to_vec(),
        system_metrics: SystemMetric::all().to_vec(),
        ablate_each_provider_factor: true,
        boundary_ablations: true,
        architectural_ablations: true,
        ledger_fault_injection: true,
        host_fault_injection: true,
        reproducibility_metadata: true,
    }
}

#[test]
fn complete_design_validates() {
    assert_eq!(validate_design(&complete_design()), Ok(()));
}

#[test]
fn design_lists_may_be_unordered_and_repeated() {
    let mut design = complete_design();
    design.questions.reverse();
    design.questions.push(ResearchQuestion::Scale);
    design.baselines.rotate_left(3);
    assert_eq!(validate_design(&design), Ok(()));
}

#[test]
fn missing_question_is_reported_first() {
    let mut design = complete_design();
    design.questions.retain(|question| *question != ResearchQuestion::Recovery);
    design.ground_truth_blinded = false;
    assert_eq!(validate_design(&design), Err(ProtocolError::MissingResearchQuestion));
}

#[test]
fn incomplete_synthetic_controls_are_reported() {
    let mut design = complete_design();
    design.synthetic_controls_complete = false;
    assert_eq!(validate_design(&design), Err(ProtocolError::IncompleteSyntheticControls));
}

#[test]
fn real_dataset_needs_modalities_or_contexts() {
    let mut design = complete_design();
    design.real.modalities = 1;
    assert_eq!(validate_design(&design), Err(ProtocolError::InvalidRealDataset));
    design.real.relational_contexts = 2;
    assert_eq!(validate_design(&design), Ok(()));
    design.real.timestamps = false;
    assert_eq!(validate_design(&design), Err(ProtocolError::InvalidRealDataset));
}

#[test]
fn design_errors_follow_the_declared_order() {
    let mut design = complete_design();
    design.ground_truth_blinded = false;
    assert_eq!(validate_design(&design), Err(ProtocolError::GroundTruthLeakage));
    design.ground_truth_blinded = true;
    design.baselines.pop();
    assert_eq!(validate_design(&design), Err(ProtocolError::MissingBaseline));
    design.baselines = Baseline::all().to_vec();
    design.system_metrics.clear();
    assert_eq!(validate_design(&design), Err(ProtocolError::MissingMetric));
    design.system_metrics = SystemMetric::all().to_vec();
    design.boundary_ablations = false;
    assert_eq!(validate_design(&design), Err(ProtocolError::MissingAblation));
    design.boundary_ablations = true;
    design.host_fault_injection = false;
    assert_eq!(validate_design(&design), Err(ProtocolError::MissingFaultPoint));
    design.host_fault_injection = true;
    design.reproducibility_metadata = false;
    assert_eq!(validate_design(&design), Err(ProtocolError::MissingReproducibilityMetadata));
}

#[test]
fn payload_key_must_not_be_empty() {
    assert_eq!(check_payload_key(""), Err(EvidenceError::EmptyPayloadKey));
    assert_eq!(check_payload_key("blob/1"), Ok(()));
}
