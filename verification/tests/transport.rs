use rustbox::agent::{exec_invocation, exit_code, AgentFailure};
use rustbox::transport::{encode_frame, frame_length, read_failure, TransportError, MAX_MESSAGE_SIZE};

#[test]
fn read_write_roundtrip() {
    let payload = br#"{"type":"ping"}"#;
    let frame = encode_frame(payload).unwrap();
    assert_eq!(&frame[..4], &(payload.len() as u32).to_be_bytes());
    let prefix: [u8; 4] = [frame[0], frame[1], frame[2], frame[3]];
    assert_eq!(frame_length(&prefix), Ok(payload.len() as u32));
    assert_eq!(&frame[4..], payload);
}

#[test]
fn oversized_message_error() {
    let bad_len: u32 = MAX_MESSAGE_SIZE + 1;
    let err = frame_length(&bad_len.to_be_bytes()).unwrap_err();
    assert!(matches!(err, TransportError::MessageTooLarge(n) if n == bad_len));
    assert_eq!(err.message(), "message too large: 16777217 bytes (max 16777216)");
    assert_eq!(frame_length(&MAX_MESSAGE_SIZE.to_be_bytes()), Ok(MAX_MESSAGE_SIZE));
}

#[test]
fn connection_closed_error() {
    let err = read_failure(true, true, "early eof".to_string());
    assert!(matches!(err, TransportError::ConnectionClosed));
    assert_eq!(read_failure(false, true, "eof".to_string()), TransportError::Io("eof".to_string()));
    assert_eq!(TransportError::ConnectionClosed.message(), "connection closed");
}

#[test]
fn sudo_invocation() {
    let (p, a) = exec_invocation("ls".to_string(), vec!["-l".to_string()], true);
    assert_eq!(p, "sudo");
    assert_eq!(a, vec!["ls", "-l"]);
    let (p, a) = exec_invocation("ls".to_string(), vec!["-l".to_string()], false);
    assert_eq!(p, "ls");
    assert_eq!(a, vec!["-l"]);
}

#[test]
fn exit_codes_and_failures() {
    assert_eq!(exit_code(Some(Some(3))), 3);
    assert_eq!(exit_code(Some(None)), -1);
    assert_eq!(exit_code(None), -1);
    assert_eq!(AgentFailure::Spawn("nope".to_string()).message(), "failed to spawn command: nope");
    assert_eq!(AgentFailure::InvalidSignal(-3, "bad".to_string()).message(), "invalid signal -3: bad");
    assert_eq!(AgentFailure::NoSuchCommand("c1".to_string()).message(), "no such command: c1");
}

#[test]
fn oversized_payload_refused_on_write() {
    let limit = MAX_MESSAGE_SIZE as usize;
    let at_limit = vec![b'x'; limit];
    let frame = encode_frame(&at_limit).unwrap();
    assert_eq!(frame.len(), limit + 4);
    assert_eq!(&frame[..4], &MAX_MESSAGE_SIZE.to_be_bytes());
    let over = vec![b'x'; limit + 1];
    assert_eq!(encode_frame(&over), Err(TransportError::MessageTooLarge(MAX_MESSAGE_SIZE + 1)));
}
