use efact_hardware_agent::config::ScaleConfig;
use efact_hardware_agent::scale::manager::{
    check_weight, plan_supervisor, reload_wait_over, serial_settings, supervisor_step,
    ReadingError, ReadingInfo, ScaleState, ScaleStatus, SerialDataBits, SerialFlowControl,
    SerialParity, SerialStopBits, StabilityTracker, SupervisorAction, SupervisorEvent,
    SupervisorPlan,
};
use efact_hardware_agent::scale::reader::sample_of;
use efact_hardware_agent::scale::protocols::{ScaleProtocol, WeightUnit};
use efact_hardware_agent::scale::reader::LineBuffer;

#[test]
fn weight_needs_enabled_scale_and_a_reading() {
    assert_eq!(check_weight(false, 123), Err(ReadingError::Disabled));
    assert_eq!(check_weight(true, 0), Err(ReadingError::NoReading));
    assert_eq!(check_weight(true, 1), Ok(()));
}

#[test]
fn supervisor_plans() {
    let mut c = ScaleConfig::default();
    assert!(matches!(plan_supervisor(&c), SupervisorPlan::Idle));
    c.enabled = true;
    match plan_supervisor(&c) {
        SupervisorPlan::Misconfigured(m) => assert_eq!(m, "scale.serial_port is not configured"),
        _ => panic!("expected a configuration error"),
    }
    c.serial_port = Some("COM3".to_string());
    c.protocol = "acme".to_string();
    match plan_supervisor(&c) {
        SupervisorPlan::Misconfigured(m) => assert_eq!(m, "Unknown protocol: acme"),
        _ => panic!("expected a configuration error"),
    }
    c.protocol = " CAS ".to_string();
    match plan_supervisor(&c) {
        SupervisorPlan::Run { port, protocol } => {
            assert_eq!(port, "COM3");
            assert_eq!(protocol, ScaleProtocol::Cas);
        }
        _ => panic!("expected a run"),
    }
}

#[test]
fn serial_settings_from_config() {
    let mut c = ScaleConfig::default();
    let s = serial_settings(&c);
    assert_eq!(s.baud_rate, 9600);
    assert_eq!(s.data_bits, SerialDataBits::Eight);
    assert_eq!(s.parity, SerialParity::Off);
    assert_eq!(s.stop_bits, SerialStopBits::One);
    assert_eq!(s.flow_control, SerialFlowControl::Off);
    assert_eq!(s.timeout_ms, 200);
    c.parity = "EVEN".to_string();
    c.data_bits = 7;
    c.stop_bits = 2;
    c.baud_rate = 4800;
    let s = serial_settings(&c);
    assert_eq!(s.baud_rate, 4800);
    assert_eq!(s.data_bits, SerialDataBits::Seven);
    assert_eq!(s.parity, SerialParity::Even);
    assert_eq!(s.stop_bits, SerialStopBits::Two);
    c.parity = "odd".to_string();
    c.data_bits = 9;
    c.stop_bits = 3;
    let s = serial_settings(&c);
    assert_eq!(s.parity, SerialParity::Odd);
    assert_eq!(s.data_bits, SerialDataBits::Eight);
    assert_eq!(s.stop_bits, SerialStopBits::One);
    c.parity = " odd".to_string();
    assert_eq!(serial_settings(&c).parity, SerialParity::Off);
}

#[test]
fn status_bookkeeping() {
    let mut c = ScaleConfig::default();
    c.enabled = true;
    c.serial_port = Some("COM4".to_string());
    let mut st = ScaleStatus::initial(&c);
    assert!(st.enabled && !st.connected && st.last_error.is_none());
    st.mark_connected();
    assert!(st.connected);
    st.set_error("boom".to_string());
    assert!(!st.connected);
    assert_eq!(st.last_error.as_deref(), Some("boom"));
    c.protocol = "dibal".to_string();
    c.serial_port = None;
    let cur = st.current(&c);
    assert_eq!(cur.protocol, "dibal");
    assert_eq!(cur.port, None);
    assert_eq!(cur.last_error.as_deref(), Some("boom"));
    st.sync_from_config(&c);
    assert_eq!(st.protocol, "dibal");
}

#[test]
fn stability_after_required_matching_reads() {
    let mut t = StabilityTracker::new(3, 200);
    assert!(!t.update(false, 0));
    assert!(!t.update(true, 100));
    assert!(!t.update(true, 250));
    assert!(t.update(true, 300));
    assert!(t.update(true, 400));
    assert!(!t.update(false, 500));
}

#[test]
fn stability_minimums() {
    let mut t = StabilityTracker::new(0, 0);
    assert!(t.update(false, 0));
    let mut t = StabilityTracker::new(2, 10);
    t.update(false, 0);
    assert!(!t.update(true, 49));
    assert!(t.update(true, 50));
}

#[test]
fn reader_frames_lines_across_chunks() {
    let mut buf = LineBuffer::new();
    let first = buf.feed(ScaleProtocol::Excell, b"  0.5");
    assert!(first.is_empty());
    let second = buf.feed(ScaleProtocol::Excell, b"25 kg\r\n\r\n1.000 kg\n2.0");
    assert_eq!(second.len(), 2);
    assert_eq!(second[0].raw, "0.525 kg");
    assert_eq!(second[0].weight.value, "0.525");
    assert_eq!(second[0].weight.unit, WeightUnit::Kg);
    assert_eq!(second[1].raw, "1.000 kg");
    let mut rest = LineBuffer::new();
    rest.extend(b"2.0");
    assert!(rest.next_line().is_none());
}

#[test]
fn reader_next_line_keeps_terminator() {
    let mut buf = LineBuffer::new();
    buf.extend(b"ab\rcd");
    assert_eq!(buf.next_line(), Some(b"ab\r".to_vec()));
    assert_eq!(buf.next_line(), None);
    assert_eq!(buf.take_overflow(), None);
}

#[test]
fn reader_flushes_overlong_input() {
    let mut buf = LineBuffer::new();
    let mut junk = vec![b'x'; 85];
    junk.extend_from_slice(b" 3.5 kg");
    let got = buf.feed(ScaleProtocol::Generic, &junk);
    assert_eq!(got.len(), 1);
    assert_eq!(got[0].weight.value, "3.5");
    assert_eq!(buf.take_overflow(), None);
    let none = buf.feed(ScaleProtocol::Generic, b"\n");
    assert!(none.is_empty());
}

#[test]
fn reader_decodes_invalid_utf8_lossily() {
    let mut buf = LineBuffer::new();
    let got = buf.feed(ScaleProtocol::Generic, b"\xff 4.25 kg\n");
    assert_eq!(got.len(), 1);
    assert_eq!(got[0].raw, "\u{fffd} 4.25 kg");
    assert_eq!(got[0].weight.value, "4.25");
}

#[test]
fn no_weight_before_first_reading() {
    let mut c = ScaleConfig::default();
    c.enabled = true;
    c.serial_port = Some("COM1".to_string());
    let mut info = ReadingInfo::initial(&c);
    assert_eq!(info.updated_at_ms, 0);
    assert!(!info.connected && !info.stable && info.raw.is_none());
    assert_eq!(info.port.as_deref(), Some("COM1"));
    assert_eq!(check_weight(true, info.updated_at_ms), Err(ReadingError::NoReading));
    info.publish(ScaleProtocol::ToledoStx, "COM1", "1.5 kg".to_string(), true, 1234);
    assert!(info.connected && info.stable);
    assert_eq!(info.protocol, "toledo_stx");
    assert_eq!(info.raw.as_deref(), Some("1.5 kg"));
    assert_eq!(check_weight(true, info.updated_at_ms), Ok(()));
    info.reset(&c);
    assert!(!info.connected && !info.stable);
    assert_eq!(info.raw.as_deref(), Some("1.5 kg"));
    assert_eq!(check_weight(true, info.updated_at_ms), Err(ReadingError::NoReading));
}

#[test]
fn supervisor_reacts_to_events() {
    assert_eq!(supervisor_step(SupervisorEvent::Reload, false), SupervisorAction::StopAndReplan);
    assert_eq!(supervisor_step(SupervisorEvent::Disconnected, true), SupervisorAction::StopAndExit);
    assert_eq!(supervisor_step(SupervisorEvent::Timeout, true), SupervisorAction::Replan);
    assert_eq!(supervisor_step(SupervisorEvent::Timeout, false), SupervisorAction::KeepWaiting);
    assert!(reload_wait_over(SupervisorEvent::Reload));
    assert!(reload_wait_over(SupervisorEvent::Disconnected));
    assert!(!reload_wait_over(SupervisorEvent::Timeout));
}

#[test]
fn failed_reader_is_reported() {
    let mut c = ScaleConfig::default();
    c.enabled = true;
    let mut st = ScaleStatus::initial(&c);
    st.mark_connected();
    st.reader_finished(None);
    assert!(st.connected);
    assert!(st.last_error.is_none());
    st.reader_finished(Some("No such file or directory".to_string()));
    assert!(!st.connected);
    assert_eq!(st.last_error.as_deref(), Some("No such file or directory"));
}

#[test]
fn new_scale_state_has_no_weight() {
    let mut c = ScaleConfig::default();
    c.enabled = true;
    c.serial_port = Some("COM2".to_string());
    let state = ScaleState::new(&c);
    assert!(!state.status.connected);
    assert!(state.status.last_error.is_none());
    assert_eq!(state.status.port.as_deref(), Some("COM2"));
    assert_eq!(state.reading.updated_at_ms, 0);
    assert_eq!(state.weight(true), Err(ReadingError::NoReading));
    assert_eq!(state.weight(false), Err(ReadingError::Disabled));
}

#[test]
fn sample_from_decoded_text() {
    let s = sample_of(ScaleProtocol::Toledo, "  S S   2.5 lb \r\n".to_string()).unwrap();
    assert_eq!(s.raw, "S S   2.5 lb");
    assert_eq!(s.weight.value, "2.5");
    assert_eq!(s.weight.unit, WeightUnit::Lb);
    assert!(sample_of(ScaleProtocol::Generic, "   ".to_string()).is_none());
}
