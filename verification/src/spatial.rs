//! Validation errors of spatial coordinates and Gaussian components.
use vstd::prelude::*;

verus! {

/// Error raised when spatial input is not finite or out of range.
#[derive(Debug, Clone, Copy, PartialEq, Eq, Structural)]
pub enum SpatialError {
    /// Latitude is NaN or infinite.
    NonFiniteLatitude,
    /// Latitude is outside `[-90, 90]` degrees.
    LatitudeOutOfRange,
    /// Longitude is NaN or infinite.
    NonFiniteLongitude,
    /// Longitude is outside `[-180, 180]` degrees.
    LongitudeOutOfRange,
    /// Altitude is NaN or infinite.
    NonFiniteAltitude,
    /// Positional accuracy is NaN or infinite.
    NonFiniteAccuracy,
    /// Positional accuracy is negative.
    NegativeAccuracy,
    /// A Cartesian mean holds a NaN or infinite coordinate.
    NonFiniteMean,
    /// A covariance entry is NaN or infinite.
    NonFiniteCovariance,
    /// A covariance matrix is not positive semidefinite.
    InvalidCovariance,
}

} // verus!
