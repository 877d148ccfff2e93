//! STM32 peripheral configuration: UART settings, GPIO speeds and bootloader partitions.

use vstd::prelude::*;

verus! {

/// UART baud rate.
#[derive(Debug, Clone, Copy, PartialEq, Eq, Structural)]
pub struct Baudrate {
    /// The baud rate at which UART should operate.
    pub baudrate: u32,
}

impl Baudrate {
    /// The baud rate of a number of bits per second.
    pub fn from_u32(baudrate: u32) -> (r: Baudrate)
        ensures
            r.baudrate == baudrate,
    {
        Baudrate { baudrate }
    }

    /// The number of bits per second.
    pub fn to_u32(self) -> (r: u32)
        ensures
            r == self.baudrate,
    {
        self.baudrate
    }

    /// The baud rate of a portable baud rate setting: a hardware-specific one is taken as is,
    /// a common one is its number.
    pub fn from_common(baud: CommonBaudrate) -> (r: Baudrate)
        ensures
            r.baudrate == match baud {
                CommonBaudrate::Hal(b) => b.baudrate,
                CommonBaudrate::_2400 => 2400,
                CommonBaudrate::_4800 => 4800,
                CommonBaudrate::_9600 => 9600,
                CommonBaudrate::_19200 => 19_200,
                CommonBaudrate::_38400 => 38_400,
                CommonBaudrate::_57600 => 57_600,
                CommonBaudrate::_115200 => 115_200,
            },
    {
        match baud {
            CommonBaudrate::Hal(baudrate) => baudrate,
            CommonBaudrate::_2400 => Baudrate { baudrate: 2400 },
            CommonBaudrate::_4800 => Baudrate { baudrate: 4800 },
            CommonBaudrate::_9600 => Baudrate { baudrate: 9600 },
            CommonBaudrate::_19200 => Baudrate { baudrate: 19_200 },
            CommonBaudrate::_38400 => Baudrate { baudrate: 38_400 },
            CommonBaudrate::_57600 => Baudrate { baudrate: 57_600 },
            CommonBaudrate::_115200 => Baudrate { baudrate: 115_200 },
        }
    }
}

/// A portable baud rate setting: a common rate, or a hardware-specific one.
#[derive(Debug, Clone, Copy, PartialEq, Eq, Structural)]
pub enum CommonBaudrate {
    /// Hardware-specific rate.
    Hal(Baudrate),
    /// 2400 baud.
    _2400,
    /// 4800 baud.
    _4800,
    /// 9600 baud.
    _9600,
    /// 19200 baud.
    _19200,
    /// 38400 baud.
    _38400,
    /// 57600 baud.
    _57600,
    /// 115200 baud.
    _115200,
}

/// UART number of data bits.
#[derive(Debug, Clone, Copy, PartialEq, Eq, Structural)]
pub enum DataBits {
    /// 7 bits per character.
    Data7,
    /// 8 bits per character.
    Data8,
    /// 9 bits per character.
    Data9,
}

/// A portable data-bits setting.
#[derive(Debug, Clone, Copy, PartialEq, Eq, Structural)]
pub enum CommonDataBits {
    /// Hardware-specific setting.
    Hal(DataBits),
    /// 8 bits per character.
    Data8,
}

impl DataBits {
    /// The data bits of a portable setting.
    pub fn from_common(databits: CommonDataBits) -> (r: DataBits)
        ensures
            r == match databits {
                CommonDataBits::Hal(bits) => bits,
                CommonDataBits::Data8 => DataBits::Data8,
            },
    {
        match databits {
            CommonDataBits::Hal(bits) => bits,
            CommonDataBits::Data8 => DataBits::Data8,
        }
    }
}

/// Parity bit.
#[derive(Debug, Clone, Copy, PartialEq, Eq, Structural)]
pub enum Parity {
    /// No parity bit.
    NoParity,
    /// Even parity bit.
    Even,
    /// Odd parity bit.
    Odd,
}

/// A portable parity setting.
#[derive(Debug, Clone, Copy, PartialEq, Eq, Structural)]
pub enum CommonParity {
    /// Hardware-specific setting.
    Hal(Parity),
    /// No parity bit.
    NoParity,
    /// Even parity bit.
    Even,
}

impl Parity {
    /// The parity of a portable setting.
    pub fn from_common(parity: CommonParity) -> (r: Parity)
        ensures
            r == match parity {
                CommonParity::Hal(p) => p,
                CommonParity::NoParity => Parity::NoParity,
                CommonParity::Even => Parity::Even,
            },
    {
        match parity {
            CommonParity::Hal(p) => p,
            CommonParity::NoParity => Parity::NoParity,
            CommonParity::Even => Parity::Even,
        }
    }
}

/// UART number of stop bits.
#[derive(Debug, Clone, Copy, PartialEq, Eq, Structural)]
pub enum StopBits {
    /// One stop bit.
    Stop1,
    /// 0.5 stop bits.
    Stop0P5,
    /// Two stop bits.
    Stop2,
    /// 1.5 stop bits.
    Stop1P5,
}

/// A portable stop-bits setting.
#[derive(Debug, Clone, Copy, PartialEq, Eq, Structural)]
pub enum CommonStopBits {
    /// Hardware-specific setting.
    Hal(StopBits),
    /// One stop bit.
    Stop1,
}

impl StopBits {
    /// The stop bits of a portable setting.
    pub fn from_common(stopbits: CommonStopBits) -> (r: StopBits)
        ensures
            r == match stopbits {
                CommonStopBits::Hal(s) => s,
                CommonStopBits::Stop1 => StopBits::Stop1,
            },
    {
        match stopbits {
            CommonStopBits::Hal(s) => s,
            CommonStopBits::Stop1 => StopBits::Stop1,
        }
    }
}

/// UART interface configuration.
#[derive(Debug, Clone, Copy, PartialEq, Eq, Structural)]
pub struct Config {
    /// The baud rate at which UART should operate.
    pub baudrate: CommonBaudrate,
    /// Number of data bits.
    pub data_bits: DataBits,
    /// Number of stop bits.
    pub stop_bits: StopBits,
    /// Parity mode used for the interface.
    pub parity: Parity,
}

impl Config {
    /// 115200 baud, 8 data bits, one stop bit, no parity.
    pub fn default() -> (r: Config)
        ensures
            r == (Config {
                baudrate: CommonBaudrate::_115200,
                data_bits: DataBits::Data8,
                stop_bits: StopBits::Stop1,
                parity: Parity::NoParity,
            }),
    {
        Config {
            baudrate: CommonBaudrate::_115200,
            data_bits: DataBits::Data8,
            stop_bits: StopBits::Stop1,
            parity: Parity::NoParity,
        }
    }
}

/// Errors when applying a UART configuration.
#[derive(Debug, Clone, Copy, PartialEq, Eq, Structural)]
pub enum ConfigError {
    /// The baud rate cannot be applied.
    BaudrateNotSupported,
    /// The combination of data bits and parity cannot be applied.
    DataParityNotSupported,
    /// The configuration cannot be applied.
    ConfigurationNotSupported,
}

/// Available output speed/slew rate settings.
#[derive(Debug, Clone, Copy, PartialEq, Eq, Structural)]
pub enum Speed {
    /// Low.
    Low,
    /// Medium.
    Medium,
    /// High.
    High,
    /// Very high.
    VeryHigh,
}

/// A portable speed setting.
#[derive(Debug, Clone, Copy, PartialEq, Eq, Structural)]
pub enum CommonSpeed {
    /// Hardware-specific setting.
    Hal(Speed),
    /// Low.
    Low,
    /// Medium.
    Medium,
    /// High.
    High,
    /// Very high.
    VeryHigh,
}

impl Speed {
    /// The speed of a portable setting.
    pub fn from_common(speed: CommonSpeed) -> (r: Speed)
        ensures
            r == match speed {
                CommonSpeed::Hal(s) => s,
                CommonSpeed::Low => Speed::Low,
                CommonSpeed::Medium => Speed::Medium,
                CommonSpeed::High => Speed::High,
                CommonSpeed::VeryHigh => Speed::VeryHigh,
            },
    {
        match speed {
            CommonSpeed::Hal(s) => s,
            CommonSpeed::Low => Speed::Low,
            CommonSpeed::Medium => Speed::Medium,
            CommonSpeed::High => Speed::High,
            CommonSpeed::VeryHigh => Speed::VeryHigh,
        }
    }
}

/// Address at which the flash is mapped.
pub const FLASH_OFFSET: u32 = 0x0800_0000;

/// Offset in flash and length of a partition given by its address range `start..end`: the
/// offset is the start address minus the flash base address; an empty or reversed range has
/// length 0.
pub fn partition_bounds(start: u32, end: u32) -> (r: (u32, u32))
    requires
        start >= FLASH_OFFSET,
    ensures
        r.0 == start - FLASH_OFFSET,
        r.1 == (if end > start { end - start } else { 0 }),
{
    let len: u32 = if end > start { end - start } else { 0 };
    (start - FLASH_OFFSET, len)
}

/// Flash address ranges (`start..end`) of the bootloader's partitions.
#[derive(Debug, Clone, Copy)]
pub struct FlashConfig {
    /// The partition of the running image.
    pub active: (u32, u32),
    /// The partition that receives updates.
    pub dfu: (u32, u32),
    /// The partition of the bootloader's state.
    pub bootloader_state: (u32, u32),
}

/// The partitions as `(offset in flash, length)`.
#[derive(Debug, Clone, Copy)]
pub struct BootloaderPartitions {
    /// The partition of the running image.
    pub active: (u32, u32),
    /// The partition that receives updates.
    pub dfu: (u32, u32),
    /// The partition of the bootloader's state.
    pub bootloader_state: (u32, u32),
}

/// The bootloader backend of the STM32 flash.
#[derive(Debug, Clone, Copy)]
pub struct HalBootLoaderBackend;

/// The offset and length of the partition of address range `r`.
pub open spec fn partition_spec(r: (u32, u32)) -> (u32, u32) {
    ((r.0 - FLASH_OFFSET) as u32, if r.1 > r.0 { (r.1 - r.0) as u32 } else { 0 })
}

impl HalBootLoaderBackend {
    /// The partitions of a flash configuration, as offsets into the flash and lengths.
    pub fn partitions(flash_config: &FlashConfig) -> (r: BootloaderPartitions)
        requires
            flash_config.active.0 >= FLASH_OFFSET,
            flash_config.dfu.0 >= FLASH_OFFSET,
            flash_config.bootloader_state.0 >= FLASH_OFFSET,
        ensures
            r.active == partition_spec(flash_config.active),
            r.dfu == partition_spec(flash_config.dfu),
            r.bootloader_state == partition_spec(flash_config.bootloader_state),
    {
        BootloaderPartitions {
            active: partition_bounds(flash_config.active.0, flash_config.active.1),
            dfu: partition_bounds(flash_config.dfu.0, flash_config.dfu.1),
            bootloader_state: partition_bounds(flash_config.bootloader_state.0, flash_config.bootloader_state.1),
        }
    }
}

/// Errors of obtaining an external interrupt channel.
#[derive(Debug, Clone, Copy, PartialEq, Eq, Structural)]
pub enum InterruptError {
    /// The interrupt channel of this pin number is already in use.
    IntChannelAlreadyUsed,
}

/// The registry of the 16 external interrupt (EXTI) channels: each channel is handed out at most
/// once. Channel `i` serves pin `i` of every port, so channels are tracked by pin number.
pub struct ExtIntRegistry {
    initialized: bool,
    used_interrupt_channels: u16,
}

/// Whether channel `pin` is marked in the bit set `used`.
pub open spec fn channel_used(used: u16, pin: u8) -> bool {
    used & (1u16 << pin) != 0
}

impl ExtIntRegistry {
    /// Whether the channel peripherals have been collected.
    pub closed spec fn is_initialized(&self) -> bool {
        self.initialized
    }

    /// The bit set of the channels handed out.
    pub closed spec fn used(&self) -> u16 {
        self.used_interrupt_channels
    }

    /// A registry that has collected no channel and handed out none.
    pub fn new() -> (r: Self)
        ensures
            !r.is_initialized(),
            r.used() == 0,
    {
        ExtIntRegistry { initialized: false, used_interrupt_channels: 0 }
    }

    /// Records that all channel peripherals have been collected, so that the registry alone
    /// manages them.
    pub fn init(&mut self)
        ensures
            final(self).is_initialized(),
            final(self).used() == old(self).used(),
    {
        self.initialized = true;
    }

    /// Hands out the interrupt channel of pin number `pin_number` (channel `i` serves pin `i`),
    /// unless it is in use already.
    pub fn get_interrupt_channel_for_pin(&mut self, pin_number: u8) -> (r: Result<u8, InterruptError>)
        requires
            old(self).is_initialized(),
            pin_number < 16,
        ensures
            final(self).is_initialized(),
            channel_used(old(self).used(), pin_number) ==> r == Err::<u8, InterruptError>(
                InterruptError::IntChannelAlreadyUsed,
            ) && final(self).used() == old(self).used(),
            !channel_used(old(self).used(), pin_number) ==> r == Ok::<u8, InterruptError>(pin_number)
                && final(self).used() == old(self).used() | (1u16 << pin_number),
    {
        let bit: u16 = 1u16 << pin_number;
        let was_used = self.used_interrupt_channels & bit != 0;
        self.used_interrupt_channels = self.used_interrupt_channels | bit;
        if was_used {
            proof {
                let u = old(self).used_interrupt_channels;
                assert(u & bit != 0 ==> u | bit == u) by (bit_vector)
                    requires
                        bit == 1u16 << pin_number,
                        pin_number < 16,
                ;
            }
            return Err(InterruptError::IntChannelAlreadyUsed);
        }
        Ok(pin_number)
    }
}

/// A channel that has been handed out is never handed out again, and handing out one channel
/// leaves the others as they were.
pub proof fn lemma_channel_handed_out_once(used: u16, pin: u8, other: u8)
    requires
        pin < 16,
        other < 16,
        other != pin,
    ensures
        channel_used(used | (1u16 << pin), pin),
        channel_used(used | (1u16 << pin), other) == channel_used(used, other),
{
    assert(pin < 16 ==> (used | (1u16 << pin)) & (1u16 << pin) != 0) by (bit_vector);
    assert(pin < 16 && other < 16 && other != pin ==> (((used | (1u16 << pin)) & (1u16 << other) != 0) == (used
        & (1u16 << other) != 0))) by (bit_vector);
}

} // verus!
