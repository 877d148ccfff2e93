//! The nRF91 GNSS driver: its configuration, the modem configuration derived from it, the state
//! machine that turns modem stream events into readings, and the sensor-state decisions of
//! triggering a measurement and waiting for its reading.

use vstd::prelude::*;
use crate::sensors::metadata::{
    Label, MeasurementUnit, ReadingChannel, ReadingError, SensorState, TriggerMeasurementError,
};

verus! {

/// Operation modes for the GNSS module.
#[derive(Debug, Clone, Copy, PartialEq, Eq, Structural)]
pub enum GnssOperationMode {
    /// Always keep the GNSS module active.
    Continuous,
    /// Update the GNSS fix periodically; the period is in seconds.
    Periodic(u16),
    /// Try to get a GNSS fix only when requested; the timeout is in seconds.
    SingleShot(u16),
}

/// Power saving modes for the GNSS module.
#[derive(Debug, Clone, Copy, PartialEq, Eq, Structural)]
pub enum GnssPowerSavingMode {
    /// No duty cycling.
    Disabled,
    /// Duty cycling while preserving tracking performance.
    DutyCyclingPerformance,
    /// Duty cycling engaged more aggressively.
    DutyCyclingAggressive,
}

/// The modem library's power modes.
#[derive(Debug, Clone, Copy, PartialEq, Eq, Structural)]
pub enum ModemPowerSaveMode {
    /// No duty cycling.
    Disabled,
    /// Duty-cycling performance mode.
    DutyCyclingPerformance,
    /// Duty-cycling power mode.
    DutyCycling,
}

impl GnssPowerSavingMode {
    /// The corresponding power mode of the modem library.
    pub fn to_nrf_modem(self) -> (r: ModemPowerSaveMode)
        ensures
            r == match self {
                GnssPowerSavingMode::Disabled => ModemPowerSaveMode::Disabled,
                GnssPowerSavingMode::DutyCyclingPerformance => ModemPowerSaveMode::DutyCyclingPerformance,
                GnssPowerSavingMode::DutyCyclingAggressive => ModemPowerSaveMode::DutyCycling,
            },
    {
        match self {
            GnssPowerSavingMode::Disabled => ModemPowerSaveMode::Disabled,
            GnssPowerSavingMode::DutyCyclingPerformance => ModemPowerSaveMode::DutyCyclingPerformance,
            GnssPowerSavingMode::DutyCyclingAggressive => ModemPowerSaveMode::DutyCycling,
        }
    }
}

/// Configuration for the GNSS sensor.
#[derive(Debug, Clone, Copy, PartialEq, Eq, Structural)]
pub struct Config {
    /// The GNSS operating mode to use.
    pub operation_mode: GnssOperationMode,
    /// Whether NMEA messages should be logged.
    pub log_nmea: bool,
    /// GNSS power saving mode (duty cycling).
    pub power_saving_mode: GnssPowerSavingMode,
}

impl Config {
    /// Continuous operation, no NMEA logging, no power saving.
    pub fn default() -> (r: Self)
        ensures
            r == (Config {
                operation_mode: GnssOperationMode::Continuous,
                log_nmea: false,
                power_saving_mode: GnssPowerSavingMode::Disabled,
            }),
    {
        Config {
            operation_mode: GnssOperationMode::Continuous,
            log_nmea: false,
            power_saving_mode: GnssPowerSavingMode::Disabled,
        }
    }
}

/// Timing source of the modem.
#[derive(Debug, Clone, Copy, PartialEq, Eq, Structural)]
pub enum GnssTimingSource {
    /// Real-time clock.
    Rtc,
    /// Temperature-compensated crystal oscillator.
    Tcxo,
}

/// Configuration handed to the modem library.
#[derive(Debug, Clone, Copy, PartialEq, Eq, Structural)]
pub struct GnssModemConfig {
    /// Satellites below this elevation (degrees) are not used.
    pub elevation_threshold_angle: u8,
    /// Low-accuracy use case.
    pub low_accuracy: bool,
    /// Scheduled downloads disabled.
    pub scheduled_downloads_disable: bool,
    /// NMEA GGA messages.
    pub nmea_gga: bool,
    /// NMEA GLL messages.
    pub nmea_gll: bool,
    /// NMEA GSA messages.
    pub nmea_gsa: bool,
    /// NMEA GSV messages.
    pub nmea_gsv: bool,
    /// NMEA RMC messages.
    pub nmea_rmc: bool,
    /// Timing source.
    pub timing_source: GnssTimingSource,
    /// Power mode.
    pub power_mode: ModemPowerSaveMode,
}

/// The modem configuration for a driver configuration: 5° elevation threshold, normal use case,
/// NMEA messages exactly when logging is asked for, RTC timing, and the configured power mode.
pub fn convert_gnss_config(config: &Config) -> (r: GnssModemConfig)
    ensures
        r == (GnssModemConfig {
            elevation_threshold_angle: 5,
            low_accuracy: false,
            scheduled_downloads_disable: false,
            nmea_gga: config.log_nmea,
            nmea_gll: config.log_nmea,
            nmea_gsa: config.log_nmea,
            nmea_gsv: config.log_nmea,
            nmea_rmc: config.log_nmea,
            timing_source: GnssTimingSource::Rtc,
            power_mode: match config.power_saving_mode {
                GnssPowerSavingMode::Disabled => ModemPowerSaveMode::Disabled,
                GnssPowerSavingMode::DutyCyclingPerformance => ModemPowerSaveMode::DutyCyclingPerformance,
                GnssPowerSavingMode::DutyCyclingAggressive => ModemPowerSaveMode::DutyCycling,
            },
        }),
{
    GnssModemConfig {
        elevation_threshold_angle: 5,
        low_accuracy: false,
        scheduled_downloads_disable: false,
        nmea_gga: config.log_nmea,
        nmea_gll: config.log_nmea,
        nmea_gsa: config.log_nmea,
        nmea_gsv: config.log_nmea,
        nmea_rmc: config.log_nmea,
        timing_source: GnssTimingSource::Rtc,
        power_mode: config.power_saving_mode.to_nrf_modem(),
    }
}

/// The modem configuration of the first driver generation: 5° elevation threshold, normal use
/// case, no NMEA messages, TCXO timing, no power saving.
pub fn default_gnss_config() -> (r: GnssModemConfig)
    ensures
        r == (GnssModemConfig {
            elevation_threshold_angle: 5,
            low_accuracy: false,
            scheduled_downloads_disable: false,
            nmea_gga: false,
            nmea_gll: false,
            nmea_gsa: false,
            nmea_gsv: false,
            nmea_rmc: false,
            timing_source: GnssTimingSource::Tcxo,
            power_mode: ModemPowerSaveMode::Disabled,
        }),
{
    GnssModemConfig {
        elevation_threshold_angle: 5,
        low_accuracy: false,
        scheduled_downloads_disable: false,
        nmea_gga: false,
        nmea_gll: false,
        nmea_gsa: false,
        nmea_gsv: false,
        nmea_rmc: false,
        timing_source: GnssTimingSource::Tcxo,
        power_mode: ModemPowerSaveMode::Disabled,
    }
}

/// Control commands sent to the driver's processing loop.
#[derive(Debug, Clone, Copy, PartialEq, Eq, Structural)]
pub enum Command {
    /// Start the GNSS module.
    Start,
    /// Request a reading.
    Trigger,
    /// Stop the GNSS module.
    Stop,
}

/// An event of the modem's data stream; `P` is a position-velocity-time frame.
#[derive(Debug, Clone, Copy)]
pub enum StreamEvent<P> {
    /// The stream has been closed.
    Closed,
    /// The modem reported an error.
    Error,
    /// A position-velocity-time frame.
    PositionVelocityTime(P),
    /// An NMEA message.
    Nmea,
    /// Assistance data.
    Agps,
}

/// What the processing loop should do next.
#[derive(Debug, Clone, Copy)]
pub enum NextAction<P> {
    /// Do another iteration of the loop.
    Continue,
    /// Stop the processing loop.
    Break,
    /// Send data to the application.
    SendData(P),
    /// Send data and stop.
    SendFinalData(P),
    /// Send an error and stop.
    SendFinalError(ReadingError),
}

/// State of the processing loop while the modem streams data.
#[derive(Debug, Clone, Copy)]
pub struct StreamState<P> {
    /// Single-shot mode: data is only returned when the stream gets closed.
    pub single_shot: bool,
    /// Whether an update should be sent the next time data is received.
    pub send_update_on_next_data_received: bool,
    /// Latest frame received (kept for single-shot mode).
    pub latest_data: Option<P>,
}

impl<P: Copy> StreamState<P> {
    /// The initial state for an operation mode.
    pub fn new(operation_mode: GnssOperationMode) -> (r: Self)
        ensures
            r.single_shot == (operation_mode is SingleShot),
            !r.send_update_on_next_data_received,
            r.latest_data is None,
    {
        StreamState {
            single_shot: match operation_mode {
                GnssOperationMode::SingleShot(_) => true,
                _ => false,
            },
            send_update_on_next_data_received: false,
            latest_data: None,
        }
    }

    /// Handles a command: `Stop` ends the loop; `Trigger` asks for the next frame to be sent
    /// (unless one is already asked for, or in single-shot mode); `Start` is ignored.
    pub fn handle_command(&mut self, command: &Command) -> (r: NextAction<P>)
        ensures
            final(self).single_shot == old(self).single_shot,
            final(self).latest_data == old(self).latest_data,
            *command == Command::Stop ==> r is Break
                && final(self).send_update_on_next_data_received
                == old(self).send_update_on_next_data_received,
            *command == Command::Start ==> r is Continue
                && final(self).send_update_on_next_data_received
                == old(self).send_update_on_next_data_received,
            *command == Command::Trigger ==> r is Continue
                && final(self).send_update_on_next_data_received == (
            old(self).send_update_on_next_data_received || !old(self).single_shot),
    {
        match command {
            Command::Start => NextAction::Continue,
            Command::Stop => NextAction::Break,
            Command::Trigger => {
                if self.send_update_on_next_data_received || self.single_shot {
                } else {
                    self.send_update_on_next_data_received = true;
                }
                NextAction::Continue
            },
        }
    }

    /// Handles an event of the modem stream.
    ///
    /// When the stream closes, single-shot mode returns the latest frame (or a sensor-access
    /// error if none came) and other modes stop. A frame is sent if an update was asked for,
    /// and kept as the latest frame otherwise. Errors and other messages are skipped.
    pub fn handle_stream_data(&mut self, stream_data: StreamEvent<P>) -> (r: NextAction<P>)
        ensures
            final(self).single_shot == old(self).single_shot,
            match stream_data {
                StreamEvent::Closed => {
                    &&& *final(self) == *old(self)
                    &&& if old(self).single_shot {
                        match old(self).latest_data {
                            Some(d) => r == NextAction::SendFinalData(d),
                            None => r == NextAction::<P>::SendFinalError(ReadingError::SensorAccess),
                        }
                    } else {
                        r is Break
                    }
                },
                StreamEvent::PositionVelocityTime(pos) => if old(self).send_update_on_next_data_received {
                    &&& r == NextAction::SendData(pos)
                    &&& !final(self).send_update_on_next_data_received
                    &&& final(self).latest_data == old(self).latest_data
                } else {
                    &&& r is Continue
                    &&& final(self).latest_data == Some(pos)
                    &&& final(self).send_update_on_next_data_received
                        == old(self).send_update_on_next_data_received
                },
                _ => r is Continue && *final(self) == *old(self),
            },
    {
        match stream_data {
            StreamEvent::Closed => {
                if self.single_shot {
                    match self.latest_data {
                        Some(d) => NextAction::SendFinalData(d),
                        None => NextAction::SendFinalError(ReadingError::SensorAccess),
                    }
                } else {
                    NextAction::Break
                }
            },
            StreamEvent::Error => NextAction::Continue,
            StreamEvent::PositionVelocityTime(pos) => {
                if self.send_update_on_next_data_received {
                    self.send_update_on_next_data_received = false;
                    NextAction::SendData(pos)
                } else {
                    self.latest_data = Some(pos);
                    NextAction::Continue
                }
            },
            StreamEvent::Nmea => NextAction::Continue,
            StreamEvent::Agps => NextAction::Continue,
        }
    }
}

/// The outcome of triggering a measurement in `state`.
pub open spec fn trigger_spec(state: SensorState) -> (Result<(), TriggerMeasurementError>, SensorState, bool) {
    match state {
        SensorState::Measuring => (Ok(()), SensorState::Measuring, false),
        SensorState::Enabled => (Ok(()), SensorState::Measuring, true),
        _ => (Err(TriggerMeasurementError::NonEnabled), state, false),
    }
}

/// The outcome of waiting for a reading in `state`.
pub open spec fn wait_spec(state: SensorState) -> (Result<(), ReadingError>, SensorState) {
    match state {
        SensorState::Measuring => (Ok(()), SensorState::Enabled),
        SensorState::Enabled => (Err(ReadingError::NotMeasuring), SensorState::Enabled),
        _ => (Err(ReadingError::NonEnabled), state),
    }
}

/// Obtaining a reading: on an enabled sensor, triggering a measurement and then waiting for it
/// succeeds and leaves the sensor enabled; waiting again without a new trigger reports that no
/// measurement is going on. A sensor that is not enabled refuses both, and its state does not
/// change.
pub proof fn lemma_trigger_then_wait(state: SensorState)
    ensures
        state == SensorState::Enabled ==> {
            let after_trigger = trigger_spec(state).1;
            &&& trigger_spec(state).0 is Ok
            &&& wait_spec(after_trigger) == (Ok::<(), ReadingError>(()), SensorState::Enabled)
            &&& wait_spec(wait_spec(after_trigger).1).0 == Err::<(), ReadingError>(ReadingError::NotMeasuring)
        },
        state != SensorState::Enabled && state != SensorState::Measuring ==> {
            &&& trigger_spec(state) == (Err::<(), TriggerMeasurementError>(TriggerMeasurementError::NonEnabled), state, false)
            &&& wait_spec(state) == (Err::<(), ReadingError>(ReadingError::NonEnabled), state)
        },
{
}

/// Decision of triggering a measurement: the new sensor state, whether a trigger command is to
/// be sent to the processing loop, and the result.
///
/// An enabled sensor starts measuring and sends a trigger; a measuring one is left as is; any
/// other state is an error.
pub fn trigger_measurement(state: SensorState) -> (r: (Result<(), TriggerMeasurementError>, SensorState, bool))
    ensures
        r == trigger_spec(state),
{
    match state {
        SensorState::Measuring => (Ok(()), SensorState::Measuring, false),
        SensorState::Enabled => (Ok(()), SensorState::Measuring, true),
        _ => (Err(TriggerMeasurementError::NonEnabled), state, false),
    }
}

/// Decision of waiting for a reading: `Ok(())` means wait for the result signal.
///
/// A measuring sensor goes back to enabled and its reading is awaited; an enabled sensor that
/// was not triggered reports `NotMeasuring`; any other state reports `NonEnabled`.
pub fn wait_for_reading(state: SensorState) -> (r: (Result<(), ReadingError>, SensorState))
    ensures
        r == wait_spec(state),
{
    match state {
        SensorState::Measuring => (Ok(()), SensorState::Enabled),
        SensorState::Enabled => (Err(ReadingError::NotMeasuring), SensorState::Enabled),
        _ => (Err(ReadingError::NonEnabled), state),
    }
}

/// The reading channels of the GNSS sensor, in the order of its samples: the time of the fix
/// (seconds, then nanoseconds), latitude and longitude (10^-7 decimal degrees), altitude
/// (centimeters), ground and vertical speed (10^-6 m/s) and heading (10^-6 degrees).
pub open spec fn gnss_channels() -> Seq<ReadingChannel> {
    seq![
        ReadingChannel { label: Label::OpaqueGnssTime, scaling: 0i8, unit: MeasurementUnit::Second },
        ReadingChannel { label: Label::Opaque, scaling: 0i8, unit: MeasurementUnit::Second },
        ReadingChannel { label: Label::Latitude, scaling: -7i8, unit: MeasurementUnit::DecimalDegree },
        ReadingChannel { label: Label::Longitude, scaling: -7i8, unit: MeasurementUnit::DecimalDegree },
        ReadingChannel { label: Label::Altitude, scaling: -2i8, unit: MeasurementUnit::Meter },
        ReadingChannel { label: Label::GroundSpeed, scaling: -6i8, unit: MeasurementUnit::MeterPerSecond },
        ReadingChannel { label: Label::VerticalSpeed, scaling: -6i8, unit: MeasurementUnit::MeterPerSecond },
        ReadingChannel { label: Label::Heading, scaling: -6i8, unit: MeasurementUnit::Degree },
    ]
}

/// The reading channels of the GNSS sensor (see [`gnss_channels`]).
pub fn reading_channels() -> (r: Vec<ReadingChannel>)
    ensures
        r@ == gnss_channels(),
{
    let r = vec![
        ReadingChannel { label: Label::OpaqueGnssTime, scaling: 0, unit: MeasurementUnit::Second },
        ReadingChannel { label: Label::Opaque, scaling: 0, unit: MeasurementUnit::Second },
        ReadingChannel { label: Label::Latitude, scaling: -7, unit: MeasurementUnit::DecimalDegree },
        ReadingChannel { label: Label::Longitude, scaling: -7, unit: MeasurementUnit::DecimalDegree },
        ReadingChannel { label: Label::Altitude, scaling: -2, unit: MeasurementUnit::Meter },
        ReadingChannel { label: Label::GroundSpeed, scaling: -6, unit: MeasurementUnit::MeterPerSecond },
        ReadingChannel { label: Label::VerticalSpeed, scaling: -6, unit: MeasurementUnit::MeterPerSecond },
        ReadingChannel { label: Label::Heading, scaling: -6, unit: MeasurementUnit::Degree },
    ];
    assert(r@ =~= gnss_channels());
    r
}

/// What a step of the first driver generation's fix loop does next.
#[derive(Debug, Clone, Copy)]
pub enum FixStep<P> {
    /// Continue with the next stream event, having first signaled a reading if there is one.
    Continue(Option<P>),
    /// End the fix (the stream is then deactivated), having first signaled the final result if
    /// there is one.
    End(Option<Result<P, ReadingError>>),
}

/// State of the first driver generation's fix loop while a fix runs.
#[derive(Debug, Clone, Copy)]
pub struct FixLoop<P> {
    /// Single-shot mode: the result is signaled when the fix ends.
    pub single_shot: bool,
    /// Whether the next frame is to be signaled.
    pub triggered: bool,
    /// Latest frame received (kept in single-shot mode).
    pub latest_data: Option<P>,
}

/// The final result of a fix: in single-shot mode the latest frame, or a sensor-access error if
/// none came; nothing in other modes.
pub open spec fn fix_final<P>(single_shot: bool, latest_data: Option<P>) -> Option<Result<P, ReadingError>> {
    if single_shot {
        match latest_data {
            Some(d) => Some(Ok(d)),
            None => Some(Err(ReadingError::SensorAccess)),
        }
    } else {
        None
    }
}

impl<P: Copy> FixLoop<P> {
    /// Starts a fix on the command received while idle: a `Trigger` starts it (continuous and
    /// periodic modes signal the first frame; single-shot mode waits for the end of the fix),
    /// anything else leaves the module stopped (`None`).
    pub fn start(command: Command, operation_mode: GnssOperationMode) -> (r: Option<Self>)
        ensures
            command != Command::Trigger ==> r is None,
            command == Command::Trigger ==> (r matches Some(f) && f.single_shot == (operation_mode is SingleShot)
                && f.triggered == !(operation_mode is SingleShot) && f.latest_data is None),
    {
        if command != Command::Trigger {
            return None;
        }
        let single_shot = match operation_mode {
            GnssOperationMode::SingleShot(_) => true,
            _ => false,
        };
        Some(FixLoop { single_shot, triggered: !single_shot, latest_data: None })
    }

    /// The final result when the fix ends (see [`fix_final`]).
    pub fn finish(&self) -> (r: Option<Result<P, ReadingError>>)
        ensures
            r == fix_final(self.single_shot, self.latest_data),
    {
        if self.single_shot {
            match self.latest_data {
                Some(d) => Some(Ok(d)),
                None => Some(Err(ReadingError::SensorAccess)),
            }
        } else {
            None
        }
    }

    /// Handles the next event of the fix stream, along with the command received meanwhile (if
    /// any), which is looked at first.
    ///
    /// `Stop` ends the fix at once, and so does the end of the stream; either way single-shot
    /// mode signals the latest frame, or a sensor-access error if none came. `Trigger` asks for
    /// the next frame to be signaled, unless one is already asked for or in single-shot mode.
    /// A frame is signaled if asked for, and kept as the latest frame in single-shot mode;
    /// other events are skipped.
    pub fn step(&mut self, command: Option<Command>, event: StreamEvent<P>) -> (r: FixStep<P>)
        ensures
            final(self).single_shot == old(self).single_shot,
            if command == Some(Command::Stop) || event is Closed {
                &&& *final(self) == *old(self)
                &&& r == FixStep::End(fix_final(old(self).single_shot, old(self).latest_data))
            } else {
                let triggered = old(self).triggered || (command == Some(Command::Trigger) && !old(self).single_shot);
                match event {
                    StreamEvent::PositionVelocityTime(pos) => {
                        &&& r == FixStep::Continue(if triggered { Some(pos) } else { None })
                        &&& final(self).triggered == false
                        &&& final(self).latest_data == (if old(self).single_shot {
                            Some(pos)
                        } else {
                            old(self).latest_data
                        })
                    },
                    _ => {
                        &&& r == FixStep::<P>::Continue(None)
                        &&& final(self).triggered == triggered
                        &&& final(self).latest_data == old(self).latest_data
                    },
                }
            },
    {
        if command == Some(Command::Stop) {
            return FixStep::End(self.finish());
        }
        if let StreamEvent::Closed = event {
            return FixStep::End(self.finish());
        }
        if command == Some(Command::Trigger) && !self.triggered && !self.single_shot {
            self.triggered = true;
        }
        match event {
            StreamEvent::PositionVelocityTime(pos) => {
                let send = if self.triggered {
                    Some(pos)
                } else {
                    None
                };
                self.triggered = false;
                if self.single_shot {
                    self.latest_data = Some(pos);
                }
                FixStep::Continue(send)
            },
            _ => FixStep::Continue(None),
        }
    }
}

} // verus!
