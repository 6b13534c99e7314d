//! Validation errors of probability and confidence scalars.
use vstd::prelude::*;

verus! {

/// Validation error returned when constructing a probability.
#[derive(Debug, Clone, Copy, PartialEq, Eq, Structural)]
pub enum ProbabilityError {
    /// The value is NaN or infinite.
    NonFinite,
    /// The value lies outside the inclusive probability interval.
    OutOfRange,
}

/// Validation error returned when constructing a confidence score.
#[derive(Debug, Clone, Copy, PartialEq, Eq, Structural)]
pub enum ConfidenceError {
    /// The value is NaN or infinite.
    NonFinite,
    /// The value is negative.
    Negative,
}

/// The human-readable message of a probability error.
pub open spec fn probability_error_text(error: ProbabilityError) -> Seq<char> {
    match error {
        ProbabilityError::NonFinite => "probability must be finite"@,
        ProbabilityError::OutOfRange => "probability must be within [0.0, 1.0]"@,
    }
}

/// The human-readable message of a confidence error.
pub open spec fn confidence_error_text(error: ConfidenceError) -> Seq<char> {
    match error {
        ConfidenceError::NonFinite => "confidence must be finite"@,
        ConfidenceError::Negative => "confidence must be non-negative"@,
    }
}

impl ProbabilityError {
    /// Returns the human-readable error message.
    pub fn message(&self) -> (text: &'static str)
        ensures
            text@ == probability_error_text(*self),
    {
        match self {
            ProbabilityError::NonFinite => "probability must be finite",
            ProbabilityError::OutOfRange => "probability must be within [0.0, 1.0]",
        }
    }
}

impl ConfidenceError {
    /// Returns the human-readable error message.
    pub fn message(&self) -> (text: &'static str)
        ensures
            text@ == confidence_error_text(*self),
    {
        match self {
            ConfidenceError::NonFinite => "confidence must be finite",
            ConfidenceError::Negative => "confidence must be non-negative",
        }
    }
}

} // verus!
