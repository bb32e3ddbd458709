use wpihal::can::StreamSession;
use wpihal::can_api::CANMessage;
use wpihal::datalog::{check_utf8, DataLogError};
use wpihal::dio::DigitalInputFilterIndex;
use wpihal::dma::{dma_read_result, DMAError, DMAReadStatus};
use wpihal::driver_station::ControlWord;
use wpihal::error::{hal_result, HALError};
use wpihal::serial_port::{FlowControl, WriteMode};
use wpihal::sim_device::SimValueDirection;
use wpihal::threads::ThreadPriority;
use wpihal::{get_fpga_duration, Duration, HALInitializationMode};

#[test]
fn hal_result_passes_value_on_zero_status() {
    assert_eq!(hal_result(0, 42i32), Ok(42));
    assert_eq!(hal_result(0, "x"), Ok("x"));
}

#[test]
fn hal_result_wraps_nonzero_status() {
    assert_eq!(hal_result(-1029, 42i32), Err(HALError(-1029)));
    assert_eq!(hal_result(7, ()), Err(HALError(7)));
}

#[test]
fn hal_error_from_code() {
    assert_eq!(HALError::from(-5), HALError(-5));
}

#[test]
fn control_word_decodes_each_flag() {
    let w = ControlWord(0b101011);
    assert!(w.enabled());
    assert!(w.autonomous());
    assert!(!w.test());
    assert!(w.estop());
    assert!(!w.fms_attached());
    assert!(w.ds_attached());
    assert_eq!(w.reserved(), 0);
}

#[test]
fn control_word_reserved_is_upper_bits() {
    let w = ControlWord(0xffff_ffc0);
    assert!(!w.enabled());
    assert_eq!(w.reserved(), 0x03ff_ffff);
}

#[test]
fn can_message_keeps_payload_and_ids() {
    let data = [1u8, 2, 3, 4, 5];
    let m = CANMessage::new(&data, 0x2a5, false, false);
    assert_eq!(m.data(), &data[..]);
    assert_eq!(m.length(), 5);
    assert_eq!(m.api_id(), 0x2a5);
    assert_eq!(m.timestamp(), None);
    assert!(!m.brs());
    assert!(!m.fd());
}

#[test]
fn can_message_truncates_at_sixty_four_bytes() {
    let data = [7u8; 80];
    let m = CANMessage::new(&data, 1, false, false);
    assert_eq!(m.length(), 64);
    assert_eq!(m.data(), &data[..64]);
}

#[test]
fn can_message_flag_bits() {
    let m = CANMessage::new(&[0u8], 1, true, false);
    assert!(m.brs());
    assert!(!m.fd());
    let m = CANMessage::new(&[0u8], 1, false, true);
    assert!(!m.brs());
    assert!(m.fd());
    let m = CANMessage::new(&[0u8], 1, true, true);
    assert!(m.brs());
    assert!(m.fd());
}

#[test]
fn stream_session_read_limit_clamps() {
    let s = StreamSession::new(17, 8);
    assert_eq!(s.handle(), 17);
    assert_eq!(s.capacity(), 8);
    assert_eq!(s.read_limit(3), 3);
    assert_eq!(s.read_limit(8), 8);
    assert_eq!(s.read_limit(100), 8);
}

#[test]
fn duration_splits_microseconds() {
    let d = Duration::from_micros(3_500_042);
    assert_eq!(d.secs, 3);
    assert_eq!(d.micros, 500_042);
}

#[test]
fn fpga_duration_keeps_errors() {
    assert_eq!(
        get_fpga_duration(Ok(1_000_001)),
        Ok(Duration { secs: 1, micros: 1 })
    );
    assert_eq!(get_fpga_duration(Err(HALError(-3))), Err(HALError(-3)));
}

#[test]
fn check_utf8_accepts_and_rejects() {
    assert_eq!(check_utf8(Some("log.wpilog")), Ok("log.wpilog"));
    assert_eq!(check_utf8(None), Err(DataLogError::NotUtf8));
}

#[test]
fn digital_input_filter_round_trip() {
    assert_eq!(DigitalInputFilterIndex::from(0), DigitalInputFilterIndex::Unfiltered);
    assert_eq!(DigitalInputFilterIndex::from(1), DigitalInputFilterIndex::Filter0);
    assert_eq!(DigitalInputFilterIndex::from(2), DigitalInputFilterIndex::Filter1);
    assert_eq!(DigitalInputFilterIndex::from(3), DigitalInputFilterIndex::Filter2);
    assert_eq!(DigitalInputFilterIndex::from(99), DigitalInputFilterIndex::Unfiltered);
    assert_eq!(DigitalInputFilterIndex::Filter2.value(), 3);
    assert_eq!(DigitalInputFilterIndex::Unfiltered.value(), 0);
}

#[test]
fn enum_values_match_native_layer() {
    assert_eq!(WriteMode::FlushOnAccess.value(), 1);
    assert_eq!(WriteMode::FlushWhenFull.value(), 2);
    assert_eq!(FlowControl::Disabled.value(), 0);
    assert_eq!(FlowControl::XonXoff.value(), 1);
    assert_eq!(FlowControl::RtsCts.value(), 2);
    assert_eq!(FlowControl::DtrDsr.value(), 3);
    assert_eq!(SimValueDirection::Input.value(), 0);
    assert_eq!(SimValueDirection::Output.value(), 1);
    assert_eq!(SimValueDirection::Bidir.value(), 2);
    assert_eq!(HALInitializationMode::TryKillExisting.value(), 0);
    assert_eq!(HALInitializationMode::ForceKillExisting.value(), 1);
    assert_eq!(HALInitializationMode::WarnIfExisting.value(), 2);
}

#[test]
fn thread_priority_from_raw() {
    let p = ThreadPriority::from_raw(15, 1);
    assert_eq!(p.priority, 15);
    assert!(p.real_time);
    let p = ThreadPriority::from_raw(0, 0);
    assert_eq!(p.priority, 0);
    assert!(!p.real_time);
}

#[test]
fn dma_read_result_maps_outcomes() {
    assert_eq!(dma_read_result(DMAReadStatus::Success, 4), Ok(4));
    assert_eq!(dma_read_result(DMAReadStatus::Timeout, 4), Err(DMAError::DMATimeout));
    assert_eq!(dma_read_result(DMAReadStatus::Failure, 4), Err(DMAError::DMAError));
}

#[test]
fn dma_error_from_hal_error_and_message() {
    let e = DMAError::from(HALError(-9));
    assert_eq!(e, DMAError::HALError(HALError(-9)));
    assert_eq!(DMAError::DMATimeout.message(), "DMAError::DMATimeout");
    assert_eq!(DMAError::DMAError.message(), "DMAError::DMAError");
    assert_eq!(e.message(), "DMAError::HALError");
}
