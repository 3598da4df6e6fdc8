//! End-to-end tests: file splitting, header parsing, and whole-log
//! decoding through `Config::parse` and `File`.

use blackbox_log::event::Event;
use blackbox_log::headers::{DataVersion, FirmwareKind};
use blackbox_log::parser::DataFrameKind;
use blackbox_log::units::{FailsafePhase, Flag, FlagSet, FlightMode, FlightModeSet, State, StateSet};
use blackbox_log::{Config, File, ParseError};

const MARKER: &[u8] = b"H Product:Blackbox flight data recorder by Nicholas Sherlock\n";

fn base_header() -> Vec<u8> {
    let mut v = MARKER.to_vec();
    v.extend_from_slice(b"H Data version:2\n");
    v.extend_from_slice(b"H Firmware revision:Betaflight 4.3.0 (abcdef) STM32F411\n");
    v.extend_from_slice(b"H minthrottle:1070\n");
    v.extend_from_slice(b"H motorOutput:48,2047\n");
    v.extend_from_slice(b"H vbatref:1680\n");
    v
}

fn one_field_header() -> Vec<u8> {
    let mut v = base_header();
    v.extend_from_slice(b"H Field I name:x\n");
    v.extend_from_slice(b"H Field I predictor:0\n");
    v.extend_from_slice(b"H Field I encoding:1\n");
    v.extend_from_slice(b"H Field I signed:0\n");
    v
}

#[test]
fn empty_input_has_no_logs() {
    let file = File::new(&[]);
    assert_eq!(0, file.log_count());
    let config = Config::default();
    assert!(file.parse_all(&config).is_empty());
}

#[test]
fn marker_only_is_one_corrupted_log() {
    let file = File::new(MARKER);
    assert_eq!(1, file.log_count());
    let config = Config::default();
    let result = file.parse_by_index(&config, 0);
    assert!(matches!(result, Err(ParseError::Corrupted)));
}

#[test]
fn split_finds_every_marker() {
    let mut buffer = b"junk".to_vec();
    buffer.extend_from_slice(MARKER);
    buffer.extend_from_slice(b"payload");
    buffer.extend_from_slice(MARKER);
    let file = File::new(&buffer);
    assert_eq!(2, file.log_count());
}

#[test]
fn intra_only_single_value() {
    let mut data = one_field_header();
    data.extend_from_slice(&[b'I', 0x05]);
    let config = Config::default();
    let log = config.parse(&data).expect("parse");
    assert_eq!(1, log.main_frames().len());
    assert_eq!(vec![5], log.main_frames()[0].values);
    assert_eq!(1, log.stats().main_frame_count);
}

#[test]
fn intra_then_inter_with_previous() {
    let mut data = one_field_header();
    data.extend_from_slice(b"H Field P name:x\n");
    data.extend_from_slice(b"H Field P predictor:1\n");
    data.extend_from_slice(b"H Field P encoding:1\n");
    data.extend_from_slice(b"H Field P signed:0\n");
    data.extend_from_slice(&[b'I', 0x05, b'P', 0x02]);
    let config = Config::default();
    let log = config.parse(&data).expect("parse");
    assert_eq!(2, log.main_frames().len());
    assert_eq!(vec![5], log.main_frames()[0].values);
    assert_eq!(vec![7], log.main_frames()[1].values);
}

#[test]
fn raw_config_skips_predictors() {
    let mut data = one_field_header();
    data.extend_from_slice(b"H Field P name:x\n");
    data.extend_from_slice(b"H Field P predictor:1\n");
    data.extend_from_slice(b"H Field P encoding:1\n");
    data.extend_from_slice(b"H Field P signed:0\n");
    data.extend_from_slice(&[b'I', 0x05, b'P', 0x02]);
    let config = Config { raw: true };
    let log = config.parse(&data).expect("parse");
    assert_eq!(vec![5], log.main_frames()[0].values);
    assert_eq!(vec![2], log.main_frames()[1].values);
}

#[test]
fn tagged_16_batch_consumes_one_byte() {
    let mut data = base_header();
    data.extend_from_slice(b"H Field I name:a,b,c,d\n");
    data.extend_from_slice(b"H Field I predictor:0,0,0,0\n");
    data.extend_from_slice(b"H Field I encoding:8,8,8,8\n");
    data.extend_from_slice(b"H Field I signed:0,0,0,0\n");
    let header_len = data.len();
    data.extend_from_slice(&[b'I', 0x00]);
    let config = Config::default();
    let log = config.parse(&data).expect("parse");
    assert_eq!(1, log.main_frames().len());
    assert_eq!(vec![0, 0, 0, 0], log.main_frames()[0].values);
    // The kind byte plus exactly one tag byte were consumed.
    assert_eq!(header_len + 2, log.stats().bytes);
}

#[test]
fn log_end_event_terminates() {
    let mut data = one_field_header();
    data.extend_from_slice(&[b'I', 0x05]);
    data.extend_from_slice(&[b'E', 0xFF]);
    data.extend_from_slice(b"End of log\0");
    data.extend_from_slice(&[0xAB, 0xCD, 0x00, b'Q']);
    let config = Config::default();
    let log = config.parse(&data).expect("parse");
    assert_eq!(1, log.main_frames().len());
    assert_eq!(vec![Event::End], *log.events());
    assert_eq!(1, log.stats().event_count);
}

#[test]
fn sync_beep_event_is_kept() {
    let mut data = one_field_header();
    data.extend_from_slice(&[b'E', 0x00, 0x85, 0x01]);
    data.extend_from_slice(&[b'I', 0x05]);
    let config = Config::default();
    let log = config.parse(&data).expect("parse");
    assert_eq!(vec![Event::SyncBeep(133)], *log.events());
    assert_eq!(1, log.main_frames().len());
}

#[test]
fn unknown_event_code_is_corrupt() {
    let mut data = one_field_header();
    data.extend_from_slice(&[b'E', 0x42]);
    let config = Config::default();
    assert!(matches!(config.parse(&data), Err(ParseError::Corrupted)));
}

#[test]
fn unknown_frame_byte_is_corrupt() {
    let mut data = one_field_header();
    data.extend_from_slice(&[b'Q']);
    let config = Config::default();
    assert!(matches!(config.parse(&data), Err(ParseError::Corrupted)));
}

#[test]
fn inter_before_intra_is_corrupt() {
    let mut data = one_field_header();
    data.extend_from_slice(b"H Field P name:x\n");
    data.extend_from_slice(b"H Field P predictor:1\n");
    data.extend_from_slice(b"H Field P encoding:1\n");
    data.extend_from_slice(b"H Field P signed:0\n");
    data.extend_from_slice(&[b'P', 0x02]);
    let config = Config::default();
    assert!(matches!(config.parse(&data), Err(ParseError::Corrupted)));
}

#[test]
fn truncated_frame_is_eof() {
    let mut data = one_field_header();
    data.extend_from_slice(&[b'I', 0x85]);
    let config = Config::default();
    assert!(matches!(config.parse(&data), Err(ParseError::UnexpectedEof)));
}

#[test]
fn unknown_firmware_is_reported() {
    let mut data = MARKER.to_vec();
    data.extend_from_slice(b"H Data version:2\n");
    data.extend_from_slice(b"H Firmware revision:Cleanflight 2.0\n");
    data.extend_from_slice(b"H minthrottle:1070\n");
    data.extend_from_slice(b"H motorOutput:48,2047\n");
    data.extend_from_slice(b"H vbatref:1680\n");
    let config = Config::default();
    assert!(matches!(config.parse(&data), Err(ParseError::UnknownFirmware(_))));
}

#[test]
fn unsupported_version_is_reported() {
    let mut data = MARKER.to_vec();
    data.extend_from_slice(b"H Data version:3\n");
    data.extend_from_slice(b"H Firmware revision:Betaflight 4.3.0\n");
    data.extend_from_slice(b"H minthrottle:1070\n");
    data.extend_from_slice(b"H motorOutput:48,2047\n");
    data.extend_from_slice(b"H vbatref:1680\n");
    let config = Config::default();
    assert!(matches!(config.parse(&data), Err(ParseError::UnsupportedVersion(_))));
}

#[test]
fn headers_carry_metadata() {
    let mut data = one_field_header();
    data.extend_from_slice(b"H Craft name: my quad \n");
    data.extend_from_slice(b"H acc_1G:2048\n");
    data.extend_from_slice(b"H gyro_scale:0x3089705f\n");
    data.extend_from_slice(b"H maxthrottle:2000\n");
    data.extend_from_slice(b"H some_future_key:kept\n");
    data.extend_from_slice(&[b'I', 0x05]);
    let config = Config::default();
    let log = config.parse(&data).expect("parse");
    let headers = log.headers();
    assert_eq!(FirmwareKind::Betaflight, headers.firmware_kind);
    assert_eq!(DataVersion::V2, headers.data_version);
    assert_eq!(1070, headers.min_throttle);
    assert_eq!(Some(2000), headers.max_throttle);
    assert_eq!(48, headers.motor_output_range.min());
    assert_eq!(2047, headers.motor_output_range.max);
    assert_eq!(1680, headers.vbat_reference);
    assert_eq!(Some(2048), headers.acceleration_1g);
    assert_eq!(Some(0x3089705f), headers.gyro_scale_bits);
    assert_eq!(Some(b"my quad".to_vec()), headers.craft_name);
    assert_eq!(1, headers.unknown.len());
    assert_eq!(b"some_future_key".to_vec(), headers.unknown[0].0);
    assert_eq!(b"kept".to_vec(), headers.unknown[0].1);
}

#[test]
fn inav_firmware_is_detected() {
    let mut data = MARKER.to_vec();
    data.extend_from_slice(b"H Data version:2\n");
    data.extend_from_slice(b"H Firmware revision:iNav 5.1.0\n");
    data.extend_from_slice(b"H minthrottle:1070\n");
    data.extend_from_slice(b"H motorOutput:48,2047\n");
    data.extend_from_slice(b"H vbatref:1680\n");
    data.extend_from_slice(b"H Field I name:x\n");
    data.extend_from_slice(b"H Field I predictor:0\n");
    data.extend_from_slice(b"H Field I encoding:1\n");
    data.extend_from_slice(b"H Field I signed:0\n");
    let config = Config::default();
    let log = config.parse(&data).expect("parse");
    assert_eq!(FirmwareKind::Inav, log.headers().firmware_kind);
}

#[test]
fn motor_0_predictor_reads_current_frame() {
    let mut data = base_header();
    data.extend_from_slice(b"H Field I name:motor[0],motor[1]\n");
    data.extend_from_slice(b"H Field I predictor:4,5\n");
    data.extend_from_slice(b"H Field I encoding:1,1\n");
    data.extend_from_slice(b"H Field I signed:0,0\n");
    // motor[0] = 1070 (minthrottle) + 10; motor[1] = motor[0] + 2.
    data.extend_from_slice(&[b'I', 0x0A, 0x02]);
    let config = Config::default();
    let log = config.parse(&data).expect("parse");
    assert_eq!(vec![1080, 1082], log.main_frames()[0].values);
}

#[test]
fn missing_field_line_is_corrupt() {
    let mut data = base_header();
    data.extend_from_slice(b"H Field I name:x\n");
    data.extend_from_slice(b"H Field I predictor:0\n");
    data.extend_from_slice(b"H Field I encoding:1\n");
    // The signed line is missing.
    let config = Config::default();
    assert!(matches!(config.parse(&data), Err(ParseError::Corrupted)));
}

#[test]
fn mismatched_list_lengths_are_corrupt() {
    let mut data = base_header();
    data.extend_from_slice(b"H Field I name:x,y\n");
    data.extend_from_slice(b"H Field I predictor:0\n");
    data.extend_from_slice(b"H Field I encoding:1,1\n");
    data.extend_from_slice(b"H Field I signed:0,0\n");
    let config = Config::default();
    assert!(matches!(config.parse(&data), Err(ParseError::Corrupted)));
}

#[test]
fn slow_frame_uses_its_own_history() {
    let mut data = one_field_header();
    data.extend_from_slice(b"H Field S name:s\n");
    data.extend_from_slice(b"H Field S predictor:1\n");
    data.extend_from_slice(b"H Field S encoding:1\n");
    data.extend_from_slice(b"H Field S signed:0\n");
    data.extend_from_slice(&[b'I', 0x05, b'S', 0x03, b'S', 0x04]);
    let config = Config::default();
    let log = config.parse(&data).expect("parse");
    assert_eq!(2, log.slow_frames().len());
    assert_eq!(vec![3], log.slow_frames()[0].values);
    assert_eq!(vec![7], log.slow_frames()[1].values);
}

#[test]
fn failsafe_phase_tables() {
    assert_eq!(FailsafePhase::Idle, FailsafePhase::new(0, FirmwareKind::Betaflight));
    assert_eq!(FailsafePhase::Landing, FailsafePhase::new(2, FirmwareKind::Betaflight));
    assert_eq!(FailsafePhase::GpsRescue, FailsafePhase::new(6, FirmwareKind::Betaflight));
    assert_eq!(FailsafePhase::Unknown, FailsafePhase::new(7, FirmwareKind::Betaflight));
    assert_eq!(FailsafePhase::RxLossIdle, FailsafePhase::new(2, FirmwareKind::Inav));
    assert_eq!(FailsafePhase::RxLossRecovered, FailsafePhase::new(7, FirmwareKind::Inav));
    assert_eq!(FailsafePhase::Unknown, FailsafePhase::new(8, FirmwareKind::Inav));
    assert_eq!(FailsafePhase::Landing, FailsafePhase::new(2, FirmwareKind::EmuFlight));
}

#[test]
fn flight_mode_set_bits() {
    // Bit 1 is Angle under Betaflight, Horizon under INAV.
    let set = FlightModeSet::new(0b10, FirmwareKind::Betaflight);
    assert!(set.is_set(FlightMode::Angle));
    assert!(!set.is_set(FlightMode::Horizon));
    assert_eq!(vec!["Angle"], set.as_names());

    let set = FlightModeSet::new(0b10, FirmwareKind::Inav);
    assert!(set.is_set(FlightMode::Horizon));
    assert!(!set.is_set(FlightMode::Angle));
    assert_eq!(vec!["Horizon"], set.as_names());

    // A flag the firmware has no bit for is never set.
    assert!(!FlightModeSet::new(u32::MAX, FirmwareKind::Betaflight).is_set(FlightMode::NavRth));
}

#[test]
fn state_set_bits() {
    let set = StateSet::new(0b101, FirmwareKind::Betaflight);
    assert!(set.is_set(State::GpsFixHome));
    assert!(!set.is_set(State::GpsFix));
    assert!(set.is_set(State::GpsFixEver));
    assert_eq!(vec!["GpsFixHome", "GpsFixEver"], set.as_names());

    let set = StateSet::new(0b100, FirmwareKind::Inav);
    assert!(set.is_set(State::CalibrateMag));
    assert_eq!(vec!["CalibrateMag"], set.as_names());
}

#[test]
fn frame_kind_letters_round_trip() {
    for kind in [
        DataFrameKind::Intra,
        DataFrameKind::Inter,
        DataFrameKind::Gps,
        DataFrameKind::GpsHome,
        DataFrameKind::Slow,
    ] {
        assert_eq!(Some(kind), DataFrameKind::from_byte(kind.to_letter()));
    }
    assert_eq!(b'I', DataFrameKind::Intra.to_letter());
    assert_eq!(b'P', DataFrameKind::Inter.to_letter());
}

#[test]
fn flag_names_are_the_variant_names() {
    assert_eq!("Idle", FailsafePhase::Idle.as_name());
    assert_eq!("GpsRescue", FailsafePhase::GpsRescue.as_name());
    assert_eq!("Unknown", FailsafePhase::Unknown.as_name());
    assert_eq!("Angle", FlightMode::Angle.as_name());
    assert_eq!("NavRth", FlightMode::NavRth.as_name());
    assert_eq!("GpsFixHome", State::GpsFixHome.as_name());
    assert_eq!("LandingDetected", State::LandingDetected.as_name());
}
