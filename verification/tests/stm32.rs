use ariel_os::stm32::{
    partition_bounds, Baudrate, CommonBaudrate, CommonDataBits, CommonParity, CommonSpeed,
    CommonStopBits, Config, DataBits, ExtIntRegistry, InterruptError, Parity, Speed, StopBits,
    FLASH_OFFSET,
};

#[test]
fn uart_settings_from_common() {
    assert_eq!(Baudrate::from_common(CommonBaudrate::_9600).to_u32(), 9600);
    assert_eq!(Baudrate::from_common(CommonBaudrate::_115200).baudrate, 115_200);
    assert_eq!(Baudrate::from_common(CommonBaudrate::Hal(Baudrate::from_u32(31_250))).baudrate, 31_250);
    assert_eq!(DataBits::from_common(CommonDataBits::Data8), DataBits::Data8);
    assert_eq!(DataBits::from_common(CommonDataBits::Hal(DataBits::Data7)), DataBits::Data7);
    assert_eq!(Parity::from_common(CommonParity::Even), Parity::Even);
    assert_eq!(Parity::from_common(CommonParity::NoParity), Parity::NoParity);
    assert_eq!(Parity::from_common(CommonParity::Hal(Parity::Odd)), Parity::Odd);
    assert_eq!(StopBits::from_common(CommonStopBits::Stop1), StopBits::Stop1);
    assert_eq!(StopBits::from_common(CommonStopBits::Hal(StopBits::Stop2)), StopBits::Stop2);
    let c = Config::default();
    assert_eq!(c.baudrate, CommonBaudrate::_115200);
    assert_eq!(c.data_bits, DataBits::Data8);
    assert_eq!(c.stop_bits, StopBits::Stop1);
    assert_eq!(c.parity, Parity::NoParity);
}

#[test]
fn gpio_speed_from_common() {
    assert_eq!(Speed::from_common(CommonSpeed::Low), Speed::Low);
    assert_eq!(Speed::from_common(CommonSpeed::VeryHigh), Speed::VeryHigh);
    assert_eq!(Speed::from_common(CommonSpeed::Hal(Speed::Medium)), Speed::Medium);
}

#[test]
fn bootloader_partition_offsets() {
    assert_eq!(partition_bounds(0x0800_8000, 0x0801_0000), (0x8000, 0x8000));
    assert_eq!(partition_bounds(FLASH_OFFSET, FLASH_OFFSET), (0, 0));
    assert_eq!(partition_bounds(0x0801_0000, 0x0800_8000), (0x1_0000, 0));
}

use ariel_os::stm32::{FlashConfig, HalBootLoaderBackend};

#[test]
fn bootloader_partitions_from_flash_config() {
    let cfg = FlashConfig {
        active: (0x0800_8000, 0x0804_0000),
        dfu: (0x0804_0000, 0x0807_8000),
        bootloader_state: (0x0800_6000, 0x0800_8000),
    };
    let p = HalBootLoaderBackend::partitions(&cfg);
    assert_eq!(p.active, (0x8000, 0x3_8000));
    assert_eq!(p.dfu, (0x4_0000, 0x3_8000));
    assert_eq!(p.bootloader_state, (0x6000, 0x2000));
}

#[test]
fn interrupt_channels_are_handed_out_once() {
    let mut registry = ExtIntRegistry::new();
    registry.init();
    assert_eq!(registry.get_interrupt_channel_for_pin(3), Ok(3));
    assert_eq!(registry.get_interrupt_channel_for_pin(3), Err(InterruptError::IntChannelAlreadyUsed));
    assert_eq!(registry.get_interrupt_channel_for_pin(15), Ok(15));
    assert_eq!(registry.get_interrupt_channel_for_pin(0), Ok(0));
    assert_eq!(registry.get_interrupt_channel_for_pin(15), Err(InterruptError::IntChannelAlreadyUsed));
}
