use audio_recorder::protocol::{decode_stream, encode_frame, encode_header};
use audio_recorder::session::{
    exit_code, select_device, select_output, CaptureSession, LoopAction, OutputMode,
    RecorderError,
};

#[test]
fn both_outputs_is_configuration_error() {
    assert_eq!(select_output(true, true), Err(RecorderError::Configuration));
    assert_eq!(select_output(false, false), Err(RecorderError::Configuration));
    assert_eq!(select_output(true, false), Ok(OutputMode::Stream));
    assert_eq!(select_output(false, true), Ok(OutputMode::File));
}

#[test]
fn device_index_checked() {
    assert_eq!(select_device(Some(5), 3), Err(RecorderError::Device));
    assert_eq!(select_device(Some(3), 3), Err(RecorderError::Device));
    assert_eq!(select_device(Some(-1), 3), Err(RecorderError::Device));
    assert_eq!(select_device(Some(0), 0), Err(RecorderError::Device));
    assert_eq!(select_device(Some(2), 3), Ok(Some(2)));
    assert_eq!(select_device(None, 0), Ok(None));
}

#[test]
fn exit_codes_distinct() {
    assert_eq!(exit_code(RecorderError::Environment), 1);
    assert_eq!(exit_code(RecorderError::Configuration), 2);
    assert_eq!(exit_code(RecorderError::Device), 3);
    assert_eq!(exit_code(RecorderError::Io), 4);
}

#[test]
fn zero_sample_rate_is_device_error() {
    assert!(matches!(
        CaptureSession::new(0, OutputMode::File, 0),
        Err(RecorderError::Device)
    ));
}

#[test]
fn stream_session_emits_header_and_records() {
    let mut s = CaptureSession::new(16000, OutputMode::Stream, 0).expect("session");
    let mut bytes = s.header().expect("stream mode has a header");
    assert_eq!(bytes, encode_header(16000));
    let loud = vec![1000i16; 512];
    let step = s.process_frame(&loud);
    assert!(!step.silent);
    assert!(!step.stop);
    let record = step.record.expect("stream mode has a record");
    assert_eq!(record, encode_frame(false, &loud));
    bytes.extend(record);
    let quiet = vec![0i16; 512];
    let step = s.process_frame(&quiet);
    assert!(step.silent);
    bytes.extend(step.record.expect("record"));
    let decoded = decode_stream(&bytes).expect("decodes");
    assert_eq!(decoded.sample_rate, 16000);
    assert_eq!(decoded.frames.len(), 2);
    assert!(!decoded.frames[0].silent);
    assert!(decoded.frames[1].silent);
    assert_eq!(decoded.frames[1].samples, quiet);
}

#[test]
fn file_session_has_no_records() {
    let mut s = CaptureSession::new(16000, OutputMode::File, 0).expect("session");
    assert!(s.header().is_none());
    let step = s.process_frame(&[1, 2, 3]);
    assert!(step.record.is_none());
}

#[test]
fn session_stops_after_silence_timeout() {
    let mut s = CaptureSession::new(16000, OutputMode::File, 3000).expect("session");
    let loud = vec![1000i16; 512];
    let quiet = vec![0i16; 512];
    for _ in 0..20 {
        assert!(!s.process_frame(&loud).stop);
    }
    let mut stopped_at = None;
    for k in 1..=100u32 {
        let step = s.process_frame(&quiet);
        assert!(step.silent);
        if step.stop {
            stopped_at = Some(k);
            break;
        }
    }
    assert_eq!(stopped_at, Some(94));
    assert!(s.stop_issued);
    assert_eq!(s.next_action(false, false), LoopAction::Finish);
}

#[test]
fn cancellation_stops_source_once() {
    let mut s = CaptureSession::new(16000, OutputMode::Stream, 0).expect("session");
    assert_eq!(s.next_action(true, false), LoopAction::ReadFrame);
    assert_eq!(s.next_action(true, true), LoopAction::StopSource);
    assert_eq!(s.next_action(true, true), LoopAction::Finish);
    assert_eq!(s.next_action(false, true), LoopAction::Finish);
}
