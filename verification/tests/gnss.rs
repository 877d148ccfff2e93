use ariel_os::sensors::gnss::{FixLoop, FixStep};
use ariel_os::sensors::gnss::{
    convert_gnss_config, default_gnss_config, trigger_measurement, wait_for_reading, Command,
    Config, GnssModemConfig, GnssOperationMode, GnssPowerSavingMode, GnssTimingSource,
    ModemPowerSaveMode, NextAction, StreamEvent, StreamState, reading_channels,
};
use ariel_os::sensors::metadata::{
    Label, MeasurementUnit, ReadingChannel, ReadingError, SensorState, TriggerMeasurementError,
};

#[test]
fn modem_config_from_driver_config() {
    let c = convert_gnss_config(&Config::default());
    assert_eq!(
        c,
        GnssModemConfig {
            elevation_threshold_angle: 5,
            low_accuracy: false,
            scheduled_downloads_disable: false,
            nmea_gga: false,
            nmea_gll: false,
            nmea_gsa: false,
            nmea_gsv: false,
            nmea_rmc: false,
            timing_source: GnssTimingSource::Rtc,
            power_mode: ModemPowerSaveMode::Disabled,
        }
    );
    let c = convert_gnss_config(&Config {
        operation_mode: GnssOperationMode::Periodic(60),
        log_nmea: true,
        power_saving_mode: GnssPowerSavingMode::DutyCyclingAggressive,
    });
    assert!(c.nmea_gga && c.nmea_gll && c.nmea_gsa && c.nmea_gsv && c.nmea_rmc);
    assert_eq!(c.power_mode, ModemPowerSaveMode::DutyCycling);
    assert_eq!(
        GnssPowerSavingMode::DutyCyclingPerformance.to_nrf_modem(),
        ModemPowerSaveMode::DutyCyclingPerformance
    );
    let d = default_gnss_config();
    assert_eq!(d.timing_source, GnssTimingSource::Tcxo);
    assert_eq!(d.power_mode, ModemPowerSaveMode::Disabled);
    assert!(!d.nmea_gga);
}

#[test]
fn continuous_stream_sends_frame_after_trigger() {
    let mut s: StreamState<u32> = StreamState::new(GnssOperationMode::Continuous);
    assert!(!s.single_shot);
    assert!(matches!(s.handle_stream_data(StreamEvent::PositionVelocityTime(1)), NextAction::Continue));
    assert_eq!(s.latest_data, Some(1));
    assert!(matches!(s.handle_command(&Command::Trigger), NextAction::Continue));
    assert!(s.send_update_on_next_data_received);
    assert!(matches!(s.handle_stream_data(StreamEvent::Nmea), NextAction::Continue));
    assert!(matches!(s.handle_stream_data(StreamEvent::Agps), NextAction::Continue));
    assert!(matches!(s.handle_stream_data(StreamEvent::Error), NextAction::Continue));
    assert!(matches!(
        s.handle_stream_data(StreamEvent::PositionVelocityTime(2)),
        NextAction::SendData(2)
    ));
    assert!(!s.send_update_on_next_data_received);
    assert!(matches!(s.handle_command(&Command::Start), NextAction::Continue));
    assert!(matches!(s.handle_stream_data(StreamEvent::Closed), NextAction::Break));
    assert!(matches!(s.handle_command(&Command::Stop), NextAction::Break));
}

#[test]
fn single_shot_stream_returns_latest_on_close() {
    let mut s: StreamState<u32> = StreamState::new(GnssOperationMode::SingleShot(30));
    assert!(s.single_shot);
    assert!(matches!(
        s.handle_stream_data(StreamEvent::Closed),
        NextAction::SendFinalError(ReadingError::SensorAccess)
    ));
    // Triggers do not ask for intermediate frames.
    s.handle_command(&Command::Trigger);
    assert!(!s.send_update_on_next_data_received);
    s.handle_stream_data(StreamEvent::PositionVelocityTime(7));
    s.handle_stream_data(StreamEvent::PositionVelocityTime(8));
    assert!(matches!(s.handle_stream_data(StreamEvent::Closed), NextAction::SendFinalData(8)));
}

#[test]
fn trigger_then_wait() {
    assert_eq!(trigger_measurement(SensorState::Enabled), (Ok(()), SensorState::Measuring, true));
    assert_eq!(trigger_measurement(SensorState::Measuring), (Ok(()), SensorState::Measuring, false));
    assert_eq!(
        trigger_measurement(SensorState::Sleeping),
        (Err(TriggerMeasurementError::NonEnabled), SensorState::Sleeping, false)
    );
    assert_eq!(wait_for_reading(SensorState::Measuring), (Ok(()), SensorState::Enabled));
    assert_eq!(
        wait_for_reading(SensorState::Enabled),
        (Err(ReadingError::NotMeasuring), SensorState::Enabled)
    );
    assert_eq!(
        wait_for_reading(SensorState::Disabled),
        (Err(ReadingError::NonEnabled), SensorState::Disabled)
    );
    let (r, state, _) = trigger_measurement(SensorState::Enabled);
    assert!(r.is_ok());
    let (r, state) = wait_for_reading(state);
    assert!(r.is_ok());
    assert_eq!(wait_for_reading(state).0, Err(ReadingError::NotMeasuring));
}

#[test]
fn gnss_reading_channels() {
    let channels = reading_channels();
    assert_eq!(channels.len(), 8);
    assert_eq!(channels[0], ReadingChannel { label: Label::OpaqueGnssTime, scaling: 0, unit: MeasurementUnit::Second });
    assert_eq!(channels[2], ReadingChannel { label: Label::Latitude, scaling: -7, unit: MeasurementUnit::DecimalDegree });
    assert_eq!(channels[4].scaling, -2);
    assert_eq!(channels[7], ReadingChannel { label: Label::Heading, scaling: -6, unit: MeasurementUnit::Degree });
}

#[test]
fn first_generation_fix_loop() {
    // Only a trigger starts a fix.
    assert!(FixLoop::<u32>::start(Command::Stop, GnssOperationMode::Continuous).is_none());
    // Continuous mode signals the first frame, then only triggered ones.
    let mut f = FixLoop::<u32>::start(Command::Trigger, GnssOperationMode::Continuous).unwrap();
    assert!(matches!(f.step(None, StreamEvent::PositionVelocityTime(1)), FixStep::Continue(Some(1))));
    assert!(matches!(f.step(None, StreamEvent::PositionVelocityTime(2)), FixStep::Continue(None)));
    assert!(matches!(f.step(Some(Command::Trigger), StreamEvent::PositionVelocityTime(3)), FixStep::Continue(Some(3))));
    assert!(matches!(f.step(Some(Command::Stop), StreamEvent::PositionVelocityTime(4)), FixStep::End(None)));
}

#[test]
fn first_generation_single_shot_stop_signals_latest() {
    let mode = GnssOperationMode::SingleShot(60);
    let mut f = FixLoop::<u32>::start(Command::Trigger, mode).unwrap();
    // Triggers are ignored while the single fix runs.
    assert!(matches!(f.step(Some(Command::Trigger), StreamEvent::PositionVelocityTime(7)), FixStep::Continue(None)));
    assert!(matches!(f.step(None, StreamEvent::Nmea), FixStep::Continue(None)));
    // A stop still signals the latest frame.
    assert!(matches!(f.step(Some(Command::Stop), StreamEvent::PositionVelocityTime(8)), FixStep::End(Some(Ok(7)))));
    // Without any frame, the end of the stream signals an access error.
    let mut g = FixLoop::<u32>::start(Command::Trigger, mode).unwrap();
    assert!(matches!(g.step(None, StreamEvent::Closed), FixStep::End(Some(Err(ReadingError::SensorAccess)))));
}
