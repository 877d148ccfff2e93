//! Metadata attached to sensor samples.

use vstd::prelude::*;

verus! {

/// Metadata of a sample: its accuracy, or why it is missing.
#[derive(Debug, Clone, Copy, PartialEq, Eq, Structural)]
pub enum SampleMetadata {
    /// The sample is within `±deviation` (scaled by `10^scaling`) of the measured value, after
    /// `bias`.
    SymmetricalError { deviation: u8, bias: i8, scaling: i8 },
    /// The accuracy is unknown.
    UnknownAccuracy,
    /// The channel has no value for now.
    ChannelTemporarilyUnavailable,
}

/// A sample: an integer value (to be scaled by its channel's scaling) with its metadata.
#[derive(Debug, Clone, Copy, PartialEq, Eq, Structural)]
pub struct Sample {
    /// The value.
    pub value: i32,
    /// Its metadata.
    pub metadata: SampleMetadata,
}

/// Error of a reading.
#[derive(Debug, Clone, Copy, PartialEq, Eq, Structural)]
pub enum ReadingError {
    /// The sensor is not enabled.
    NonEnabled,
    /// No measurement was triggered.
    NotMeasuring,
    /// The sensor could not be accessed.
    SensorAccess,
}

/// Error when triggering a measurement.
#[derive(Debug, Clone, Copy, PartialEq, Eq, Structural)]
pub enum TriggerMeasurementError {
    /// The sensor is not enabled.
    NonEnabled,
}

/// State of a sensor driver.
#[derive(Debug, Clone, Copy, PartialEq, Eq, Structural)]
pub enum SensorState {
    /// Not initialized yet.
    Uninitialized,
    /// Disabled.
    Disabled,
    /// Enabled and idle.
    Enabled,
    /// A measurement was triggered.
    Measuring,
    /// Sleeping.
    Sleeping,
}

/// What a reading channel measures.
#[derive(Debug, Clone, Copy, PartialEq, Eq, Structural)]
pub enum Label {
    /// Opaque time stamp of a GNSS fix.
    OpaqueGnssTime,
    /// Opaque value, to be interpreted together with another channel.
    Opaque,
    /// Latitude.
    Latitude,
    /// Longitude.
    Longitude,
    /// Altitude.
    Altitude,
    /// Ground speed.
    GroundSpeed,
    /// Vertical speed.
    VerticalSpeed,
    /// Heading.
    Heading,
}

/// Unit of the values of a reading channel.
#[derive(Debug, Clone, Copy, PartialEq, Eq, Structural)]
pub enum MeasurementUnit {
    /// Second.
    Second,
    /// Decimal degree (of latitude or longitude).
    DecimalDegree,
    /// Meter.
    Meter,
    /// Meter per second.
    MeterPerSecond,
    /// Degree (of angle).
    Degree,
}

/// A channel of a sensor's readings: what it measures, the power of ten by which its integer
/// samples are scaled, and their unit.
#[derive(Debug, Clone, Copy, PartialEq, Eq, Structural)]
pub struct ReadingChannel {
    /// What the channel measures.
    pub label: Label,
    /// Power of ten by which samples are scaled.
    pub scaling: i8,
    /// Unit of the scaled samples.
    pub unit: MeasurementUnit,
}

} // verus!
