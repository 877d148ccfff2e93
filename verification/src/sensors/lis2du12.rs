//! STMicroelectronics LIS2DU12 3-axis accelerometer.

use vstd::prelude::*;
use crate::sensors::metadata::SampleMetadata;

verus! {

/// Full-scale range of the accelerometer.
#[derive(Debug, Clone, Copy, PartialEq, Eq, Structural)]
pub enum AccelFullScale {
    /// ±2 g.
    G2,
    /// ±4 g.
    G4,
    /// ±8 g.
    G8,
    /// ±16 g.
    G16,
}

impl AccelFullScale {
    /// The default range, ±2 g.
    pub fn default() -> (r: Self)
        ensures
            r == AccelFullScale::G2,
    {
        AccelFullScale::G2
    }

    /// Sensitivity in µg per least significant bit of the 12-bit output.
    pub open spec fn sensitivity(self) -> int {
        match self {
            AccelFullScale::G2 => 976,
            AccelFullScale::G4 => 1952,
            AccelFullScale::G8 => 3904,
            AccelFullScale::G16 => 7808,
        }
    }

    /// Converts a raw output register value (left-justified 12-bit) to µg: the value shifted
    /// right by 4 bits, times the sensitivity of the range.
    pub fn to_microg_from_lsb(self, lsb: i16) -> (r: i32)
        ensures
            r == (lsb >> 4u32) as int * self.sensitivity(),
    {
        let sensitivity: i32 = match self {
            AccelFullScale::G2 => 976,
            AccelFullScale::G4 => 1952,
            AccelFullScale::G8 => 3904,
            AccelFullScale::G16 => 7808,
        };
        let shifted: i16 = lsb >> 4u32;
        assert(-2048 <= shifted <= 2047) by (bit_vector)
            requires
                shifted == lsb >> 4u32,
        ;
        (shifted as i32) * sensitivity
    }
}

/// Accuracy of an acceleration reading: ±11 mg.
pub fn accel_accuracy() -> (r: SampleMetadata)
    ensures
        r == (SampleMetadata::SymmetricalError { deviation: 11, bias: 0, scaling: -3i8 }),
{
    SampleMetadata::SymmetricalError { deviation: 11, bias: 0, scaling: -3i8 }
}

} // verus!
