//! Typed experimental design of the evaluation protocol.
use vstd::prelude::*;

verus! {

/// One falsifiable research question of the evaluation protocol.
#[derive(Debug, Clone, Copy, PartialEq, Eq, Structural, PartialOrd, Ord, Hash)]
pub enum ResearchQuestion {
    /// Collective resolution against independent pairwise matching.
    Resolution,
    /// Empirical calibration of reported probabilities.
    Calibration,
    /// Recovery from false assignments and merges without history loss.
    Revision,
    /// Accuracy and latency cost of local boundary approximations.
    Locality,
    /// Throughput, latency, memory and storage scaling.
    Scale,
    /// Exact reconstruction after injected crashes.
    Recovery,
    /// Decision equivalence and provenance distinction across providers.
    ProviderAgnosticism,
    /// Standards conformance and host-adapter round trips.
    Interoperability,
}

impl ResearchQuestion {
    /// The complete set of research questions, in declaration order.
    pub fn all() -> (all: [Self; 8])
        ensures
            all@[0] == ResearchQuestion::Resolution,
            all@[1] == ResearchQuestion::Calibration,
            all@[2] == ResearchQuestion::Revision,
            all@[3] == ResearchQuestion::Locality,
            all@[4] == ResearchQuestion::Scale,
            all@[5] == ResearchQuestion::Recovery,
            all@[6] == ResearchQuestion::ProviderAgnosticism,
            all@[7] == ResearchQuestion::Interoperability,
    {
        [
            ResearchQuestion::Resolution,
            ResearchQuestion::Calibration,
            ResearchQuestion::Revision,
            ResearchQuestion::Locality,
            ResearchQuestion::Scale,
            ResearchQuestion::Recovery,
            ResearchQuestion::ProviderAgnosticism,
            ResearchQuestion::Interoperability,
        ]
    }
}

/// Required comparison system.
#[derive(Debug, Clone, Copy, PartialEq, Eq, Structural, PartialOrd, Ord, Hash)]
pub enum Baseline {
    /// Independent pairwise matcher.
    IndependentPairwise,
    /// Calibrated Fellegi-Sunter model.
    FellegiSunter,
    /// Bayesian or graphical entity-resolution model.
    BayesianGraphical,
    /// Incremental linkage method.
    IncrementalLinkage,
    /// Tracking baseline for trajectory datasets.
    Tracking,
    /// Resolution with collective factors removed.
    WithoutCollectiveFactors,
    /// Oracle candidates measuring the upper bound of gating.
    OracleCandidates,
}

impl Baseline {
    /// The complete required baseline set, in declaration order.
    pub fn all() -> (all: [Self; 7])
        ensures
            all@[0] == Baseline::IndependentPairwise,
            all@[1] == Baseline::FellegiSunter,
            all@[2] == Baseline::BayesianGraphical,
            all@[3] == Baseline::IncrementalLinkage,
            all@[4] == Baseline::Tracking,
            all@[5] == Baseline::WithoutCollectiveFactors,
            all@[6] == Baseline::OracleCandidates,
    {
        [
            Baseline::IndependentPairwise,
            Baseline::FellegiSunter,
            Baseline::BayesianGraphical,
            Baseline::IncrementalLinkage,
            Baseline::Tracking,
            Baseline::WithoutCollectiveFactors,
            Baseline::OracleCandidates,
        ]
    }
}

/// Required resolution-quality metric.
#[derive(Debug, Clone, Copy, PartialEq, Eq, Structural, PartialOrd, Ord, Hash)]
pub enum ResolutionMetric {
    /// Pairwise precision.
    PairwisePrecision,
    /// Pairwise recall.
    PairwiseRecall,
    /// Pairwise harmonic mean.
    PairwiseF1,
    /// B-cubed cluster score.
    BCubed,
    /// Adjusted Rand index.
    AdjustedRand,
    /// Fraction of erroneous merges.
    FalseMergeRate,
    /// Fraction of erroneous splits.
    FalseSplitRate,
    /// Precision of new-identity decisions.
    NewIdentityPrecision,
}

impl ResolutionMetric {
    /// The complete required resolution metric set, in declaration order.
    pub fn all() -> (all: [Self; 8])
        ensures
            all@[0] == ResolutionMetric::PairwisePrecision,
            all@[1] == ResolutionMetric::PairwiseRecall,
            all@[2] == ResolutionMetric::PairwiseF1,
            all@[3] == ResolutionMetric::BCubed,
            all@[4] == ResolutionMetric::AdjustedRand,
            all@[5] == ResolutionMetric::FalseMergeRate,
            all@[6] == ResolutionMetric::FalseSplitRate,
            all@[7] == ResolutionMetric::NewIdentityPrecision,
    {
        [
            ResolutionMetric::PairwisePrecision,
            ResolutionMetric::PairwiseRecall,
            ResolutionMetric::PairwiseF1,
            ResolutionMetric::BCubed,
            ResolutionMetric::AdjustedRand,
            ResolutionMetric::FalseMergeRate,
            ResolutionMetric::FalseSplitRate,
            ResolutionMetric::NewIdentityPrecision,
        ]
    }
}

/// Required calibration and selective-prediction metric.
#[derive(Debug, Clone, Copy, PartialEq, Eq, Structural, PartialOrd, Ord, Hash)]
pub enum CalibrationMetric {
    /// Negative log likelihood.
    NegativeLogLikelihood,
    /// Brier score.
    Brier,
    /// Expected calibration error.
    ExpectedCalibrationError,
    /// Reliability diagram data.
    ReliabilityDiagram,
    /// Risk-coverage curve.
    RiskCoverage,
}

impl CalibrationMetric {
    /// The complete required calibration metric set, in declaration order.
    pub fn all() -> (all: [Self; 5])
        ensures
            all@[0] == CalibrationMetric::NegativeLogLikelihood,
            all@[1] == CalibrationMetric::Brier,
            all@[2] == CalibrationMetric::ExpectedCalibrationError,
            all@[3] == CalibrationMetric::ReliabilityDiagram,
            all@[4] == CalibrationMetric::RiskCoverage,
    {
        [
            CalibrationMetric::NegativeLogLikelihood,
            CalibrationMetric::Brier,
            CalibrationMetric::ExpectedCalibrationError,
            CalibrationMetric::ReliabilityDiagram,
            CalibrationMetric::RiskCoverage,
        ]
    }
}

/// Required runtime, memory and persistence metric.
#[derive(Debug, Clone, Copy, PartialEq, Eq, Structural, PartialOrd, Ord, Hash)]
pub enum SystemMetric {
    /// Observations processed per unit time.
    Throughput,
    /// Median latency.
    MedianLatency,
    /// 95th-percentile latency.
    P95Latency,
    /// 99th-percentile latency.
    P99Latency,
    /// Peak resident memory.
    PeakResidentMemory,
    /// Allocated bytes per observation.
    AllocatedBytesPerObservation,
    /// Bounded queue depth.
    QueueDepth,
    /// Checkpoint pause duration.
    CheckpointPause,
    /// Crash recovery duration.
    RecoveryTime,
    /// Durable write amplification.
    WriteAmplification,
    /// Durable storage growth.
    StorageGrowth,
}

impl SystemMetric {
    /// The complete required systems metric set, in declaration order.
    pub fn all() -> (all: [Self; 11])
        ensures
            all@[0] == SystemMetric::Throughput,
            all@[1] == SystemMetric::MedianLatency,
            all@[2] == SystemMetric::P95Latency,
            all@[3] == SystemMetric::P99Latency,
            all@[4] == SystemMetric::PeakResidentMemory,
            all@[5] == SystemMetric::AllocatedBytesPerObservation,
            all@[6] == SystemMetric::QueueDepth,
            all@[7] == SystemMetric::CheckpointPause,
            all@[8] == SystemMetric::RecoveryTime,
            all@[9] == SystemMetric::WriteAmplification,
            all@[10] == SystemMetric::StorageGrowth,
    {
        [
            SystemMetric::Throughput,
            SystemMetric::MedianLatency,
            SystemMetric::P95Latency,
            SystemMetric::P99Latency,
            SystemMetric::PeakResidentMemory,
            SystemMetric::AllocatedBytesPerObservation,
            SystemMetric::QueueDepth,
            SystemMetric::CheckpointPause,
            SystemMetric::RecoveryTime,
            SystemMetric::WriteAmplification,
            SystemMetric::StorageGrowth,
        ]
    }
}

/// Minimum structural properties of a real evaluation dataset.
#[derive(Debug, Clone, Copy, PartialEq, Eq, Structural)]
pub struct RealDatasetProfile {
    /// The dataset holds event timestamps.
    pub timestamps: bool,
    /// The dataset holds repeated observations per entity.
    pub repeated_observations: bool,
    /// Number of modalities.
    pub modalities: usize,
    /// Number of relational contexts when modalities are limited.
    pub relational_contexts: usize,
}

/// Binary pairwise confusion counts behind the resolution metrics.
#[derive(Debug, Clone, Copy, PartialEq, Eq, Structural)]
pub struct PairwiseCounts {
    /// Correctly predicted coreferent pairs.
    pub true_positive: u64,
    /// Incorrectly merged pairs.
    pub false_positive: u64,
    /// Missed coreferent pairs.
    pub false_negative: u64,
}

/// Invalid experimental design or metric input.
#[derive(Debug, Clone, Copy, PartialEq, Eq, Structural)]
pub enum ProtocolError {
    /// At least one research question was omitted.
    MissingResearchQuestion,
    /// Synthetic data does not control every mandated dimension.
    IncompleteSyntheticControls,
    /// The real dataset lacks time, repetition, or multimodal or relational
    /// context.
    InvalidRealDataset,
    /// Ground truth would be visible to gating or inference.
    GroundTruthLeakage,
    /// A required baseline is absent.
    MissingBaseline,
    /// A required quality, calibration or systems metric is absent.
    MissingMetric,
    /// A required ablation is absent.
    MissingAblation,
    /// A required crash-injection boundary is absent.
    MissingFaultPoint,
    /// Dependency, build, target or hardware metadata is absent.
    MissingReproducibilityMetadata,
    /// A forecast probability was outside `[0, 1]`.
    InvalidProbability,
    /// A metric computation received no samples.
    EmptySamples,
    /// Calibration error needs at least one bin.
    InvalidBinCount,
    /// Scale dimensions or measurements were invalid.
    InvalidScaleMeasurement,
}

/// Whether `items` lists every research question.
pub open spec fn covers_research_questions(items: Seq<ResearchQuestion>) -> bool {
    forall|x: ResearchQuestion| #[trigger] items.contains(x)
}

/// Whether `items` lists every research question.
pub fn lists_every_research_question(items: &[ResearchQuestion]) -> (complete: bool)
    ensures
        complete == covers_research_questions(items@),
{
    let all = ResearchQuestion::all();
    let mut i: usize = 0;
    while i < 8
        invariant
            i <= 8,
            all@.len() == 8,
            forall|k: int| 0 <= k < i ==> items@.contains(#[trigger] all@[k]),
        decreases 8 - i,
    {
        let wanted = all[i];
        let mut found = false;
        let mut j: usize = 0;
        while j < items.len() && !found
            invariant
                j <= items@.len(),
                found ==> items@.contains(wanted),
                !found ==> forall|m: int| 0 <= m < j ==> items@[m] != wanted,
            decreases items@.len() - j,
        {
            if items[j] == wanted {
                proof {
                    assert(items@[j as int] == wanted);
                }
                found = true;
            }
            j += 1;
        }
        if !found {
            proof {
                assert(!items@.contains(wanted));
            }
            return false;
        }
        proof {
            assert(items@.contains(all@[i as int]));
        }
        i += 1;
    }
    proof {
        assert forall|x: ResearchQuestion| #[trigger] items@.contains(x) by {
            match x {
                ResearchQuestion::Resolution => assert(all@[0] == x),
                ResearchQuestion::Calibration => assert(all@[1] == x),
                ResearchQuestion::Revision => assert(all@[2] == x),
                ResearchQuestion::Locality => assert(all@[3] == x),
                ResearchQuestion::Scale => assert(all@[4] == x),
                ResearchQuestion::Recovery => assert(all@[5] == x),
                ResearchQuestion::ProviderAgnosticism => assert(all@[6] == x),
                ResearchQuestion::Interoperability => assert(all@[7] == x),
            }
            assert(items@.contains(all@[0]));
        }
    }
    true
}

/// Whether `items` lists every baseline.
pub open spec fn covers_baselines(items: Seq<Baseline>) -> bool {
    forall|x: Baseline| #[trigger] items.contains(x)
}

/// Whether `items` lists every baseline.
pub fn lists_every_baseline(items: &[Baseline]) -> (complete: bool)
    ensures
        complete == covers_baselines(items@),
{
    let all = Baseline::all();
    let mut i: usize = 0;
    while i < 7
        invariant
            i <= 7,
            all@.len() == 7,
            forall|k: int| 0 <= k < i ==> items@.contains(#[trigger] all@[k]),
        decreases 7 - i,
    {
        let wanted = all[i];
        let mut found = false;
        let mut j: usize = 0;
        while j < items.len() && !found
            invariant
                j <= items@.len(),
                found ==> items@.contains(wanted),
                !found ==> forall|m: int| 0 <= m < j ==> items@[m] != wanted,
            decreases items@.len() - j,
        {
            if items[j] == wanted {
                proof {
                    assert(items@[j as int] == wanted);
                }
                found = true;
            }
            j += 1;
        }
        if !found {
            proof {
                assert(!items@.contains(wanted));
            }
            return false;
        }
        proof {
            assert(items@.contains(all@[i as int]));
        }
        i += 1;
    }
    proof {
        assert forall|x: Baseline| #[trigger] items@.contains(x) by {
            match x {
                Baseline::IndependentPairwise => assert(all@[0] == x),
                Baseline::FellegiSunter => assert(all@[1] == x),
                Baseline::BayesianGraphical => assert(all@[2] == x),
                Baseline::IncrementalLinkage => assert(all@[3] == x),
                Baseline::Tracking => assert(all@[4] == x),
                Baseline::WithoutCollectiveFactors => assert(all@[5] == x),
                Baseline::OracleCandidates => assert(all@[6] == x),
            }
            assert(items@.contains(all@[0]));
        }
    }
    true
}

/// Whether `items` lists every resolution metric.
pub open spec fn covers_resolution_metrics(items: Seq<ResolutionMetric>) -> bool {
    forall|x: ResolutionMetric| #[trigger] items.contains(x)
}

/// Whether `items` lists every resolution metric.
pub fn lists_every_resolution_metric(items: &[ResolutionMetric]) -> (complete: bool)
    ensures
        complete == covers_resolution_metrics(items@),
{
    let all = ResolutionMetric::all();
    let mut i: usize = 0;
    while i < 8
        invariant
            i <= 8,
            all@.len() == 8,
            forall|k: int| 0 <= k < i ==> items@.contains(#[trigger] all@[k]),
        decreases 8 - i,
    {
        let wanted = all[i];
        let mut found = false;
        let mut j: usize = 0;
        while j < items.len() && !found
            invariant
                j <= items@.len(),
                found ==> items@.contains(wanted),
                !found ==> forall|m: int| 0 <= m < j ==> items@[m] != wanted,
            decreases items@.len() - j,
        {
            if items[j] == wanted {
                proof {
                    assert(items@[j as int] == wanted);
                }
                found = true;
            }
            j += 1;
        }
        if !found {
            proof {
                assert(!items@.contains(wanted));
            }
            return false;
        }
        proof {
            assert(items@.contains(all@[i as int]));
        }
        i += 1;
    }
    proof {
        assert forall|x: ResolutionMetric| #[trigger] items@.contains(x) by {
            match x {
                ResolutionMetric::PairwisePrecision => assert(all@[0] == x),
                ResolutionMetric::PairwiseRecall => assert(all@[1] == x),
                ResolutionMetric::PairwiseF1 => assert(all@[2] == x),
                ResolutionMetric::BCubed => assert(all@[3] == x),
                ResolutionMetric::AdjustedRand => assert(all@[4] == x),
                ResolutionMetric::FalseMergeRate => assert(all@[5] == x),
                ResolutionMetric::FalseSplitRate => assert(all@[6] == x),
                ResolutionMetric::NewIdentityPrecision => assert(all@[7] == x),
            }
            assert(items@.contains(all@[0]));
        }
    }
    true
}

/// Whether `items` lists every calibration metric.
pub open spec fn covers_calibration_metrics(items: Seq<CalibrationMetric>) -> bool {
    forall|x: CalibrationMetric| #[trigger] items.contains(x)
}

/// Whether `items` lists every calibration metric.
pub fn lists_every_calibration_metric(items: &[CalibrationMetric]) -> (complete: bool)
    ensures
        complete == covers_calibration_metrics(items@),
{
    let all = CalibrationMetric::all();
    let mut i: usize = 0;
    while i < 5
        invariant
            i <= 5,
            all@.len() == 5,
            forall|k: int| 0 <= k < i ==> items@.contains(#[trigger] all@[k]),
        decreases 5 - i,
    {
        let wanted = all[i];
        let mut found = false;
        let mut j: usize = 0;
        while j < items.len() && !found
            invariant
                j <= items@.len(),
                found ==> items@.contains(wanted),
                !found ==> forall|m: int| 0 <= m < j ==> items@[m] != wanted,
            decreases items@.len() - j,
        {
            if items[j] == wanted {
                proof {
                    assert(items@[j as int] == wanted);
                }
                found = true;
            }
            j += 1;
        }
        if !found {
            proof {
                assert(!items@.contains(wanted));
            }
            return false;
        }
        proof {
            assert(items@.contains(all@[i as int]));
        }
        i += 1;
    }
    proof {
        assert forall|x: CalibrationMetric| #[trigger] items@.contains(x) by {
            match x {
                CalibrationMetric::NegativeLogLikelihood => assert(all@[0] == x),
                CalibrationMetric::Brier => assert(all@[1] == x),
                CalibrationMetric::ExpectedCalibrationError => assert(all@[2] == x),
                CalibrationMetric::ReliabilityDiagram => assert(all@[3] == x),
                CalibrationMetric::RiskCoverage => assert(all@[4] == x),
            }
            assert(items@.contains(all@[0]));
        }
    }
    true
}

/// Whether `items` lists every systems metric.
pub open spec fn covers_system_metrics(items: Seq<SystemMetric>) -> bool {
    forall|x: SystemMetric| #[trigger] items.contains(x)
}

/// Whether `items` lists every systems metric.
pub fn lists_every_systems_metric(items: &[SystemMetric]) -> (complete: bool)
    ensures
        complete == covers_system_metrics(items@),
{
    let all = SystemMetric::all();
    let mut i: usize = 0;
    while i < 11
        invariant
            i <= 11,
            all@.len() == 11,
            forall|k: int| 0 <= k < i ==> items@.contains(#[trigger] all@[k]),
        decreases 11 - i,
    {
        let wanted = all[i];
        let mut found = false;
        let mut j: usize = 0;
        while j < items.len() && !found
            invariant
                j <= items@.len(),
                found ==> items@.contains(wanted),
                !found ==> forall|m: int| 0 <= m < j ==> items@[m] != wanted,
            decreases items@.len() - j,
        {
            if items[j] == wanted {
                proof {
                    assert(items@[j as int] == wanted);
                }
                found = true;
            }
            j += 1;
        }
        if !found {
            proof {
                assert(!items@.contains(wanted));
            }
            return false;
        }
        proof {
            assert(items@.contains(all@[i as int]));
        }
        i += 1;
    }
    proof {
        assert forall|x: SystemMetric| #[trigger] items@.contains(x) by {
            match x {
                SystemMetric::Throughput => assert(all@[0] == x),
                SystemMetric::MedianLatency => assert(all@[1] == x),
                SystemMetric::P95Latency => assert(all@[2] == x),
                SystemMetric::P99Latency => assert(all@[3] == x),
                SystemMetric::PeakResidentMemory => assert(all@[4] == x),
                SystemMetric::AllocatedBytesPerObservation => assert(all@[5] == x),
                SystemMetric::QueueDepth => assert(all@[6] == x),
                SystemMetric::CheckpointPause => assert(all@[7] == x),
                SystemMetric::RecoveryTime => assert(all@[8] == x),
                SystemMetric::WriteAmplification => assert(all@[9] == x),
                SystemMetric::StorageGrowth => assert(all@[10] == x),
            }
            assert(items@.contains(all@[0]));
        }
    }
    true
}

/// The design of an evaluation plan as its validation reads it: the
/// declared research questions, whether the synthetic generator controls
/// every mandated dimension with usable rates and noise levels, the real
/// dataset's profile, ground-truth blinding, the required baselines and
/// metrics, and the ablation, fault-injection and reproducibility flags.
#[derive(Debug, Clone, PartialEq, Eq)]
pub struct EvaluationDesign {
    /// Research questions included.
    pub questions: Vec<ResearchQuestion>,
    /// The synthetic generator has entities, finite non-negative noise,
    /// rates in `[0, 1]`, variable arrival, dormancy and merge/split events.
    pub synthetic_controls_complete: bool,
    /// Real-data structural profile.
    pub real: RealDatasetProfile,
    /// Ground truth is hidden from gating and inference.
    pub ground_truth_blinded: bool,
    /// Comparison systems.
    pub baselines: Vec<Baseline>,
    /// Resolution metrics.
    pub resolution_metrics: Vec<ResolutionMetric>,
    /// Calibration metrics.
    pub calibration_metrics: Vec<CalibrationMetric>,
    /// Systems metrics.
    pub system_metrics: Vec<SystemMetric>,
    /// Every provider factor is removed in at least one ablation.
    pub ablate_each_provider_factor: bool,
    /// Boundary cached, truncated and omitted variants are evaluated.
    pub boundary_ablations: bool,
    /// Abstention, ANN, reversible merge and provenance are ablated.
    pub architectural_ablations: bool,
    /// Crashes are injected before and after ledger writes.
    pub ledger_fault_injection: bool,
    /// Crashes are injected before and after host materialization.
    pub host_fault_injection: bool,
    /// Dependency versions, compiler settings, target and hardware are fixed.
    pub reproducibility_metadata: bool,
}

/// The verdict on an evaluation design: the first missing dimension, in
/// the order questions, synthetic controls, real dataset, blinding,
/// baselines, metrics, ablations, fault points, reproducibility.
pub open spec fn design_verdict(d: EvaluationDesign) -> Result<(), ProtocolError> {
    if !covers_research_questions(d.questions@) {
        Err(ProtocolError::MissingResearchQuestion)
    } else if !d.synthetic_controls_complete {
        Err(ProtocolError::IncompleteSyntheticControls)
    } else if !d.real.timestamps || !d.real.repeated_observations || (d.real.modalities < 2
        && d.real.relational_contexts < 2) {
        Err(ProtocolError::InvalidRealDataset)
    } else if !d.ground_truth_blinded {
        Err(ProtocolError::GroundTruthLeakage)
    } else if !covers_baselines(d.baselines@) {
        Err(ProtocolError::MissingBaseline)
    } else if !covers_resolution_metrics(d.resolution_metrics@) || !covers_calibration_metrics(
        d.calibration_metrics@,
    ) || !covers_system_metrics(d.system_metrics@) {
        Err(ProtocolError::MissingMetric)
    } else if !d.ablate_each_provider_factor || !d.boundary_ablations || !d.architectural_ablations {
        Err(ProtocolError::MissingAblation)
    } else if !d.ledger_fault_injection || !d.host_fault_injection {
        Err(ProtocolError::MissingFaultPoint)
    } else if !d.reproducibility_metadata {
        Err(ProtocolError::MissingReproducibilityMetadata)
    } else {
        Ok(())
    }
}

/// Validates an evaluation design, reporting the first missing dimension.
pub fn validate_design(design: &EvaluationDesign) -> (verdict: Result<(), ProtocolError>)
    ensures
        verdict == design_verdict(*design),
{
    if !lists_every_research_question(design.questions.as_slice()) {
        return Err(ProtocolError::MissingResearchQuestion);
    }
    if !design.synthetic_controls_complete {
        return Err(ProtocolError::IncompleteSyntheticControls);
    }
    if !design.real.timestamps || !design.real.repeated_observations || (design.real.modalities < 2
        && design.real.relational_contexts < 2) {
        return Err(ProtocolError::InvalidRealDataset);
    }
    if !design.ground_truth_blinded {
        return Err(ProtocolError::GroundTruthLeakage);
    }
    if !lists_every_baseline(design.baselines.as_slice()) {
        return Err(ProtocolError::MissingBaseline);
    }
    if !lists_every_resolution_metric(design.resolution_metrics.as_slice()) || !lists_every_calibration_metric(
        design.calibration_metrics.as_slice(),
    ) || !lists_every_systems_metric(design.system_metrics.as_slice()) {
        return Err(ProtocolError::MissingMetric);
    }
    if !design.ablate_each_provider_factor || !design.boundary_ablations || !design.architectural_ablations {
        return Err(ProtocolError::MissingAblation);
    }
    if !design.ledger_fault_injection || !design.host_fault_injection {
        return Err(ProtocolError::MissingFaultPoint);
    }
    if !design.reproducibility_metadata {
        return Err(ProtocolError::MissingReproducibilityMetadata);
    }
    Ok(())
}

} // verus!
