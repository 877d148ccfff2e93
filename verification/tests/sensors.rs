use ariel_os::sensors::lps22df::i32_from_i24_be_bytes;

#[test]
fn test_i32_from_i24_be_bytes() {
    assert_eq!(i32_from_i24_be_bytes([0x00, 0x00, 0x01]), 1);
    assert_eq!(i32_from_i24_be_bytes([0x7f, 0xff, 0xff]), 0x7f_ff_ff);
    assert_eq!(i32_from_i24_be_bytes([0x80, 0x00, 0x00]), !0x80_00_00 + 1);
    assert_eq!(i32_from_i24_be_bytes([0xff, 0xff, 0xff]), -1);
}

use ariel_os::sensors::lis2du12::{accel_accuracy, AccelFullScale};
use ariel_os::sensors::lps22df::{pressure_accuracy, temp_accuracy};
use ariel_os::sensors::metadata::SampleMetadata;
use ariel_os::sensors::stts22h::accuracy;

#[test]
fn i24_sign_extension_bounds() {
    assert_eq!(i32_from_i24_be_bytes([0x00, 0x00, 0x00]), 0);
    assert_eq!(i32_from_i24_be_bytes([0x80, 0x00, 0x01]), -0x7f_ff_ff);
    assert_eq!(i32_from_i24_be_bytes([0x12, 0x34, 0x56]), 0x12_34_56);
    assert_eq!(i32_from_i24_be_bytes([0xfe, 0xdc, 0xba]), 0xfe_dc_ba - 0x100_0000);
}

#[test]
fn i24_roundtrip_on_samples() {
    for v in [-0x80_0000i32, -1, 0, 1, 4242, 0x7f_ff_ff] {
        let u = (v as u32) & 0xff_ff_ff;
        let bytes = [(u >> 16) as u8, (u >> 8) as u8, u as u8];
        assert_eq!(i32_from_i24_be_bytes(bytes), v);
    }
}

#[test]
fn accelerometer_scaling() {
    assert_eq!(AccelFullScale::default(), AccelFullScale::G2);
    // 0x7ff0 is the largest left-justified 12-bit value, 2047.
    assert_eq!(AccelFullScale::G2.to_microg_from_lsb(0x7ff0), 2047 * 976);
    assert_eq!(AccelFullScale::G4.to_microg_from_lsb(0x0010), 1952);
    assert_eq!(AccelFullScale::G8.to_microg_from_lsb(-16), -3904);
    assert_eq!(AccelFullScale::G16.to_microg_from_lsb(i16::MIN), -2048 * 7808);
    // The low 4 bits are discarded.
    assert_eq!(AccelFullScale::G2.to_microg_from_lsb(0x000f), 0);
    assert_eq!(AccelFullScale::G2.to_microg_from_lsb(-1), -976);
    assert_eq!(
        accel_accuracy(),
        SampleMetadata::SymmetricalError { deviation: 11, bias: 0, scaling: -3 }
    );
}

#[test]
fn temperature_accuracy_ranges() {
    let fine = SampleMetadata::SymmetricalError { deviation: 50, bias: 0, scaling: -2 };
    let coarse = SampleMetadata::SymmetricalError { deviation: 100, bias: 0, scaling: -2 };
    assert_eq!(accuracy(2500), fine);
    assert_eq!(accuracy(-999), fine);
    assert_eq!(accuracy(5999), fine);
    assert_eq!(accuracy(-1000), coarse);
    assert_eq!(accuracy(6000), coarse);
    assert_eq!(accuracy(i32::MIN), coarse);
}

#[test]
fn pressure_sensor_accuracy() {
    assert_eq!(
        pressure_accuracy(101_325),
        SampleMetadata::SymmetricalError { deviation: 150, bias: 0, scaling: 0 }
    );
    assert_eq!(
        temp_accuracy(2000),
        SampleMetadata::SymmetricalError { deviation: 150, bias: 0, scaling: -2 }
    );
}
