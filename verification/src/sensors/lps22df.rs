//! STMicroelectronics LPS22DF pressure sensor.

use vstd::prelude::*;
use crate::sensors::metadata::SampleMetadata;

verus! {

/// The value of a 24-bit two's complement number given as its three big-endian bytes.
pub open spec fn i24_value(b0: u8, b1: u8, b2: u8) -> int {
    let raw = b0 * 65536 + b1 * 256 + b2;
    if b0 >= 0x80 { raw - 0x100_0000 } else { raw }
}

/// Converts a 24-bit big-endian two's complement value into an `i32`, extending its sign.
pub fn i32_from_i24_be_bytes(bytes: [u8; 3]) -> (r: i32)
    ensures
        r == i24_value(bytes[0], bytes[1], bytes[2]),
{
    let m: i32 = 1 << (24 - 1);
    let b0 = bytes[0];
    let b1 = bytes[1];
    let b2 = bytes[2];
    let raw: i32 = (b0 as i32) * 65536 + (b1 as i32) * 256 + (b2 as i32);
    assert(m == 0x80_0000i32) by (bit_vector)
        requires m == 1i32 << 23i32;
    assert(b0 >= 0x80 <==> raw >= 0x80_0000);
    let x: i32 = raw ^ m;
    assert(0 <= raw < 0x100_0000);
    assert(raw ^ 0x80_0000i32 == if raw >= 0x80_0000 { raw - 0x80_0000 } else { raw + 0x80_0000 })
        by (bit_vector)
        requires 0 <= raw < 0x100_0000;
    x.wrapping_sub(m)
}

/// The three big-endian bytes of the 24-bit two's complement encoding of `v`.
pub open spec fn i24_bytes(v: int) -> (u8, u8, u8) {
    let u = if v < 0 { v + 0x100_0000 } else { v };
    ((u / 65536) as u8, ((u / 256) % 256) as u8, (u % 256) as u8)
}

/// Every byte triple decodes to a value in the 24-bit range, and every value of the range is
/// decoded from its encoding: the conversion is the inverse of 24-bit encoding.
pub proof fn lemma_i24_roundtrip(v: int, b0: u8, b1: u8, b2: u8)
    ensures
        -0x80_0000 <= i24_value(b0, b1, b2) < 0x80_0000,
        -0x80_0000 <= v < 0x80_0000 ==> ({
            let (c0, c1, c2) = i24_bytes(v);
            i24_value(c0, c1, c2) == v
        }),
{
    if -0x80_0000 <= v < 0x80_0000 {
        let u = if v < 0 { v + 0x100_0000 } else { v };
        assert(0 <= u < 0x100_0000);
        let c0 = u / 65536;
        let c1 = (u / 256) % 256;
        let c2 = u % 256;
        assert(u == c0 * 65536 + c1 * 256 + c2) by (nonlinear_arith)
            requires
                0 <= u,
                c0 == u / 65536,
                c1 == (u / 256) % 256,
                c2 == u % 256,
        ;
        assert(0 <= c0 < 256) by (nonlinear_arith)
            requires
                0 <= u < 0x100_0000,
                c0 == u / 65536,
        ;
        assert(c0 >= 0x80 <==> u >= 0x80_0000) by (nonlinear_arith)
            requires
                0 <= u < 0x100_0000,
                c0 == u / 65536,
        ;
    }
}

/// Accuracy of a pressure reading (in Pa): ±150 Pa whatever the pressure.
pub fn pressure_accuracy(pressure: i32) -> (r: SampleMetadata)
    ensures
        r == (SampleMetadata::SymmetricalError { deviation: 150, bias: 0, scaling: 0 }),
{
    SampleMetadata::SymmetricalError { deviation: 150, bias: 0, scaling: 0 }
}

/// Accuracy of a temperature reading (in hundredths of °C): ±1.5 °C whatever the temperature.
pub fn temp_accuracy(temp: i32) -> (r: SampleMetadata)
    ensures
        r == (SampleMetadata::SymmetricalError { deviation: 150, bias: 0, scaling: -2i8 }),
{
    SampleMetadata::SymmetricalError { deviation: 150, bias: 0, scaling: -2i8 }
}

} // verus!
