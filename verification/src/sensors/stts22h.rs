//! STMicroelectronics STTS22H temperature sensor.

use vstd::prelude::*;
use crate::sensors::metadata::SampleMetadata;

verus! {

/// Accuracy of a temperature reading (in hundredths of °C): ±0.5 °C strictly between -10 °C and
/// +60 °C, ±1.0 °C otherwise.
pub fn accuracy(temp: i32) -> (r: SampleMetadata)
    ensures
        r == (if -1000 < temp && temp < 6000 {
            SampleMetadata::SymmetricalError { deviation: 50, bias: 0, scaling: -2i8 }
        } else {
            SampleMetadata::SymmetricalError { deviation: 100, bias: 0, scaling: -2i8 }
        }),
{
    if -1000 < temp && temp < 6000 {
        return SampleMetadata::SymmetricalError { deviation: 50, bias: 0, scaling: -2i8 };
    }
    SampleMetadata::SymmetricalError { deviation: 100, bias: 0, scaling: -2i8 }
}

} // verus!
