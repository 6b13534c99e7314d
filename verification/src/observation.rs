//! Time and modality primitives shared by immutable evidence envelopes.
use chrono::TimeDelta;
use core::ops::{Add, Sub};
use vstd::prelude::*;

verus! {

/// Signed timestamp measured in microseconds since the UNIX epoch.
#[derive(Debug, Clone, Copy, PartialEq, Eq, Structural, PartialOrd, Ord, Hash)]
pub struct Timestamp(i64);

/// Error returned when a timestamp cannot be represented as a calendar
/// datetime.
#[derive(Debug, Clone, Copy, PartialEq, Eq, Structural)]
pub struct TimestampRangeError {
    micros: i64,
}

/// Saturates an integer into the `i64` range.
pub open spec fn saturate_i64(value: int) -> i64 {
    if value > i64::MAX {
        i64::MAX
    } else if value < i64::MIN {
        i64::MIN
    } else {
        value as i64
    }
}

impl TimestampRangeError {
    /// The rejected value, for specifications.
    pub closed spec fn spec_micros(self) -> i64 {
        self.micros
    }

    /// Creates the error for a rejected UNIX timestamp in microseconds.
    pub fn new(micros: i64) -> (error: Self)
        ensures
            error.spec_micros() == micros,
    {
        Self { micros }
    }

    /// Returns the rejected UNIX timestamp in microseconds.
    pub fn micros(self) -> (micros: i64)
        ensures
            micros == self.spec_micros(),
    {
        self.micros
    }
}

impl Timestamp {
    /// Microseconds since the UNIX epoch, for specifications.
    pub closed spec fn spec_micros(self) -> i64 {
        self.0
    }

    /// A timestamp is determined by its microsecond count.
    pub broadcast proof fn lemma_micros_determine_timestamp(a: Self, b: Self)
        ensures
            #[trigger] a.spec_micros() == #[trigger] b.spec_micros() ==> a == b,
    {
    }

    /// Largest representable timestamp.
    pub fn max_value() -> (timestamp: Self)
        ensures
            timestamp.spec_micros() == i64::MAX,
    {
        Self(i64::MAX)
    }

    /// Smallest representable timestamp.
    pub fn min_value() -> (timestamp: Self)
        ensures
            timestamp.spec_micros() == i64::MIN,
    {
        Self(i64::MIN)
    }

    /// UNIX epoch timestamp.
    pub fn unix_epoch() -> (timestamp: Self)
        ensures
            timestamp.spec_micros() == 0,
    {
        Self(0)
    }

    /// Constructs a timestamp from microseconds since the UNIX epoch.
    pub fn from_micros(micros: i64) -> (timestamp: Self)
        ensures
            timestamp.spec_micros() == micros,
    {
        Self(micros)
    }

    /// Constructs a timestamp from milliseconds with saturating conversion.
    pub fn from_millis(millis: i64) -> (timestamp: Self)
        ensures
            timestamp.spec_micros() == saturate_i64(millis * 1000),
    {
        match millis.checked_mul(1000) {
            Some(micros) => Self(micros),
            None => {
                if millis < 0 {
                    Self(i64::MIN)
                } else {
                    Self(i64::MAX)
                }
            },
        }
    }

    /// Constructs a timestamp from seconds with saturating conversion.
    pub fn from_secs(seconds: i64) -> (timestamp: Self)
        ensures
            timestamp.spec_micros() == saturate_i64(seconds * 1000000),
    {
        match seconds.checked_mul(1000000) {
            Some(micros) => Self(micros),
            None => {
                if seconds < 0 {
                    Self(i64::MIN)
                } else {
                    Self(i64::MAX)
                }
            },
        }
    }

    /// Returns microseconds since the UNIX epoch.
    pub fn as_micros(self) -> (micros: i64)
        ensures
            micros == self.spec_micros(),
    {
        self.0
    }

    /// Returns floor milliseconds since the UNIX epoch.
    pub fn as_millis(self) -> (millis: i64)
        ensures
            millis == self.spec_micros() as int / 1000,
    {
        match self.0.checked_div_euclid(1000) {
            Some(millis) => millis,
            None => 0,
        }
    }

    /// Returns floor seconds since the UNIX epoch.
    pub fn as_secs(self) -> (seconds: i64)
        ensures
            seconds == self.spec_micros() as int / 1000000,
    {
        match self.0.checked_div_euclid(1000000) {
            Some(seconds) => seconds,
            None => 0,
        }
    }

    /// Returns the later of two timestamps.
    pub fn latest(self, other: Self) -> (later: Self)
        ensures
            later.spec_micros() == if self.spec_micros() >= other.spec_micros() {
                self.spec_micros()
            } else {
                other.spec_micros()
            },
    {
        if self.0 >= other.0 {
            self
        } else {
            other
        }
    }

    /// Returns the non-negative elapsed microseconds since `earlier`,
    /// saturating at `i64::MAX`.
    pub fn elapsed_micros_since(self, earlier: Self) -> (elapsed: i64)
        ensures
            self.spec_micros() >= earlier.spec_micros() ==> elapsed == saturate_i64(
                self.spec_micros() - earlier.spec_micros(),
            ),
            self.spec_micros() < earlier.spec_micros() ==> elapsed == 0,
    {
        if self.0 >= earlier.0 {
            match self.0.checked_sub(earlier.0) {
                Some(difference) => difference,
                None => i64::MAX,
            }
        } else {
            0
        }
    }

    /// Adds a signed number of microseconds, saturating at the numeric
    /// extremes.
    pub fn saturating_add_micros(self, micros: i64) -> (timestamp: Self)
        ensures
            timestamp.spec_micros() == saturate_i64(self.spec_micros() + micros),
    {
        match self.0.checked_add(micros) {
            Some(value) => Self(value),
            None => {
                if micros < 0 {
                    Self(i64::MIN)
                } else {
                    Self(i64::MAX)
                }
            },
        }
    }

    /// Subtracts a signed number of microseconds, saturating at the numeric
    /// extremes.
    pub fn saturating_sub_micros(self, micros: i64) -> (timestamp: Self)
        ensures
            timestamp.spec_micros() == saturate_i64(self.spec_micros() - micros),
    {
        match self.0.checked_sub(micros) {
            Some(value) => Self(value),
            None => {
                if micros < 0 {
                    Self(i64::MAX)
                } else {
                    Self(i64::MIN)
                }
            },
        }
    }
}

/// The signed time span type of `chrono`.
#[verifier::external_type_specification]
#[verifier::external_body]
pub struct ExTimeDelta(TimeDelta);

/// Exact length of a `chrono` time span in nanoseconds.
pub uninterp spec fn delta_nanos(delta: TimeDelta) -> int;

/// Integer division rounding toward zero.
pub open spec fn div_toward_zero(a: int, b: int) -> int {
    if a >= 0 {
        a / b
    } else {
        -((-a) / b)
    }
}

/// `TimeDelta::microseconds`: a span of exactly that many microseconds.
#[verifier::external_body]
fn delta_from_micros(micros: i64) -> (delta: TimeDelta)
    ensures
        delta_nanos(delta) == micros * 1000,
{
    TimeDelta::microseconds(micros)
}

/// `TimeDelta::zero`: the empty span.
#[verifier::external_body]
fn delta_zero() -> (delta: TimeDelta)
    ensures
        delta_nanos(delta) == 0,
{
    TimeDelta::zero()
}

/// `TimeDelta::num_microseconds`: whole microseconds, rounded toward zero,
/// or `None` when they leave the `i64` range.
#[verifier::external_body]
fn delta_whole_micros(delta: &TimeDelta) -> (micros: Option<i64>)
    ensures
        i64::MIN <= div_toward_zero(delta_nanos(*delta), 1000) <= i64::MAX ==> micros == Some(
            div_toward_zero(delta_nanos(*delta), 1000) as i64,
        ),
        !(i64::MIN <= div_toward_zero(delta_nanos(*delta), 1000) <= i64::MAX) ==> micros is None,
{
    delta.num_microseconds()
}

/// `TimeDelta < TimeDelta::zero()`: whether the span is negative.
#[verifier::external_body]
fn delta_is_negative(delta: &TimeDelta) -> (negative: bool)
    ensures
        negative == (delta_nanos(*delta) < 0),
{
    *delta < TimeDelta::zero()
}

impl Timestamp {
    /// Returns the non-negative elapsed time since `earlier`, saturating at
    /// `i64::MAX` microseconds.
    pub fn duration_since(self, earlier: Self) -> (elapsed: TimeDelta)
        ensures
            delta_nanos(elapsed) == 1000 * (if self.spec_micros() >= earlier.spec_micros() {
                saturate_i64(self.spec_micros() - earlier.spec_micros()) as int
            } else {
                0
            }),
    {
        if self.0 >= earlier.0 {
            delta_from_micros(self.elapsed_micros_since(earlier))
        } else {
            delta_zero()
        }
    }
}

impl Sub<Timestamp> for Timestamp {
    type Output = TimeDelta;

    /// Signed time from `other` to `self`, saturating at the `i64`
    /// microsecond range.
    fn sub(self, other: Timestamp) -> (elapsed: TimeDelta)
        ensures
            delta_nanos(elapsed) == 1000 * saturate_i64(self.spec_micros() - other.spec_micros()),
    {
        let micros = match self.0.checked_sub(other.0) {
            Some(difference) => difference,
            None => if other.0 > 0 {
                i64::MIN
            } else {
                i64::MAX
            },
        };
        delta_from_micros(micros)
    }
}

impl Add<TimeDelta> for Timestamp {
    type Output = Timestamp;

    /// Shifts by a span, saturating at the numeric extremes; a span beyond
    /// the `i64` microsecond range saturates by its sign.
    fn add(self, duration: TimeDelta) -> (shifted: Timestamp)
        ensures
            shifted.spec_micros() == if i64::MIN <= div_toward_zero(delta_nanos(duration), 1000) <= i64::MAX {
                saturate_i64(self.spec_micros() + div_toward_zero(delta_nanos(duration), 1000))
            } else if delta_nanos(duration) < 0 {
                i64::MIN
            } else {
                i64::MAX
            },
    {
        match delta_whole_micros(&duration) {
            Some(micros) => self.saturating_add_micros(micros),
            None => if delta_is_negative(&duration) {
                Timestamp(i64::MIN)
            } else {
                Timestamp(i64::MAX)
            },
        }
    }
}

impl Sub<TimeDelta> for Timestamp {
    type Output = Timestamp;

    /// Shifts back by a span, saturating at the numeric extremes; a span
    /// beyond the `i64` microsecond range saturates by its sign.
    fn sub(self, duration: TimeDelta) -> (shifted: Timestamp)
        ensures
            shifted.spec_micros() == if i64::MIN <= div_toward_zero(delta_nanos(duration), 1000) <= i64::MAX {
                saturate_i64(self.spec_micros() - div_toward_zero(delta_nanos(duration), 1000))
            } else if delta_nanos(duration) < 0 {
                i64::MAX
            } else {
                i64::MIN
            },
    {
        match delta_whole_micros(&duration) {
            Some(micros) => self.saturating_sub_micros(micros),
            None => if delta_is_negative(&duration) {
                Timestamp(i64::MAX)
            } else {
                Timestamp(i64::MIN)
            },
        }
    }
}

impl vstd::std_specs::ops::SubSpecImpl<Timestamp> for Timestamp {
    open spec fn obeys_sub_spec() -> bool {
        false
    }

    open spec fn sub_req(self, rhs: Timestamp) -> bool {
        true
    }

    open spec fn sub_spec(self, rhs: Timestamp) -> TimeDelta {
        arbitrary()
    }
}

impl vstd::std_specs::ops::AddSpecImpl<TimeDelta> for Timestamp {
    open spec fn obeys_add_spec() -> bool {
        false
    }

    open spec fn add_req(self, rhs: TimeDelta) -> bool {
        true
    }

    open spec fn add_spec(self, rhs: TimeDelta) -> Timestamp {
        self
    }
}

impl vstd::std_specs::ops::SubSpecImpl<TimeDelta> for Timestamp {
    open spec fn obeys_sub_spec() -> bool {
        false
    }

    open spec fn sub_req(self, rhs: TimeDelta) -> bool {
        true
    }

    open spec fn sub_spec(self, rhs: TimeDelta) -> Timestamp {
        self
    }
}

impl Default for Timestamp {
    fn default() -> (timestamp: Self)
        ensures
            timestamp.spec_micros() == 0,
    {
        Self(0)
    }
}

/// Stable identifier for an observation modality or channel.
#[derive(Debug, Clone, Copy, PartialEq, Eq, Structural, PartialOrd, Ord, Hash)]
pub struct Modality(pub u32);

/// Immutable empirical observation node committed to the knowledge graph.
///
/// Sensor confidence and other statistical annotations belong to the
/// modality payload `P`.
#[derive(Debug, PartialEq)]
pub struct Observation<P> {
    /// Stable observation identifier.
    pub id: crate::ids::ObservationId,
    /// Observation channel.
    pub modality: Modality,
    /// Event time of the observation.
    pub timestamp: Timestamp,
    /// Modality-specific payload.
    pub payload: P,
}

impl<P: Clone> Clone for Observation<P> {
    fn clone(&self) -> (copy: Self)
        ensures
            copy.id == self.id,
            copy.modality == self.modality,
            copy.timestamp == self.timestamp,
            cloned(self.payload, copy.payload),
    {
        Observation {
            id: self.id,
            modality: self.modality,
            timestamp: self.timestamp,
            payload: self.payload.clone(),
        }
    }
}

impl<P> Observation<P> {
    /// Creates an observation node.
    pub fn new(
        id: crate::ids::ObservationId,
        modality: Modality,
        timestamp: Timestamp,
        payload: P,
    ) -> (observation: Self)
        ensures
            observation == (Observation { id, modality, timestamp, payload }),
    {
        Observation { id, modality, timestamp, payload }
    }
}

} // verus!
