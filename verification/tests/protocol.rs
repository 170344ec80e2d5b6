use rx11::protocol::{
    decode_frame, encode_frame, frame_header_size, CompressedX11DataMessage, ErrorMessage, Frame,
    Message, MessageType, X11DataMessage, FRAME_HEADER_SIZE, MAGIC_BYTES,
};
use rx11::types::ConnectionId;

fn control(t: MessageType, json: &str) -> Frame {
    Frame::Control(t, json.as_bytes().to_vec())
}

fn roundtrip(frame: &Frame) -> Frame {
    let encoded = encode_frame(frame).unwrap();
    let (decoded, consumed) = decode_frame(&encoded).unwrap().unwrap();
    assert_eq!(consumed, encoded.len());
    decoded
}

fn expect_control(frame: Frame, t: MessageType, expected: &str) -> String {
    match frame {
        Frame::Control(got, payload) => {
            assert_eq!(got, t);
            String::from_utf8(payload).unwrap()
        }
        _ => panic!("Expected {} frame", expected),
    }
}

#[test]
fn test_encode_decode_hello() {
    let json = r#"{"version":1,"mode":"Client","resume_session_id":null,"compression_algos":[]}"#;
    let decoded = roundtrip(&control(MessageType::Hello, json));
    let payload = expect_control(decoded, MessageType::Hello, "Hello");
    assert!(payload.contains(r#""version":1"#));
    assert!(payload.contains(r#""mode":"Client""#));
    assert!(payload.contains(r#""resume_session_id":null"#));
}

#[test]
fn test_encode_decode_hello_ack() {
    let json = r#"{"version":1,"session_id":"test-session","success":true,"error_msg":null,"compression":null}"#;
    let decoded = roundtrip(&control(MessageType::HelloAck, json));
    let payload = expect_control(decoded, MessageType::HelloAck, "HelloAck");
    assert!(payload.contains(r#""session_id":"test-session""#));
    assert!(payload.contains(r#""success":true"#));
}

#[test]
fn test_encode_decode_auth_request() {
    let json = r#"{"token":"my-token"}"#;
    let decoded = roundtrip(&control(MessageType::AuthRequest, json));
    let payload = expect_control(decoded, MessageType::AuthRequest, "AuthRequest");
    assert!(payload.contains("my-token"));
}

#[test]
fn test_encode_decode_auth_response() {
    let json = r#"{"success":false,"error_msg":"bad token"}"#;
    let decoded = roundtrip(&control(MessageType::AuthResponse, json));
    let payload = expect_control(decoded, MessageType::AuthResponse, "AuthResponse");
    assert!(payload.contains(r#""success":false"#));
    assert!(payload.contains("bad token"));
}

#[test]
fn test_encode_decode_session_create() {
    let json = r#"{"display":0,"auth_name":"MIT-MAGIC-COOKIE-1","auth_data":[1,2,3,4]}"#;
    let decoded = roundtrip(&control(MessageType::SessionCreate, json));
    let payload = expect_control(decoded, MessageType::SessionCreate, "SessionCreate");
    assert!(payload.contains(r#""display":0"#));
    assert!(payload.contains("[1,2,3,4]"));
}

#[test]
fn test_encode_decode_data_x11() {
    let frame = Frame::DataX11(X11DataMessage {
        connection_id: ConnectionId::new(42),
        sequence_id: 7,
        data: vec![0xAA, 0xBB, 0xCC],
    });
    match roundtrip(&frame) {
        Frame::DataX11(m) => {
            assert_eq!(m.connection_id.get(), 42);
            assert_eq!(m.sequence_id, 7);
            assert_eq!(&m.data[..], &[0xAA, 0xBB, 0xCC]);
        }
        _ => panic!("Expected DataX11 frame"),
    }
}

#[test]
fn test_encode_decode_x11_connect() {
    let json = r#"{"display":5,"connection_id":100}"#;
    let decoded = roundtrip(&control(MessageType::X11Connect, json));
    let payload = expect_control(decoded, MessageType::X11Connect, "X11Connect");
    assert!(payload.contains(r#""display":5"#));
    assert!(payload.contains(r#""connection_id":100"#));
}

#[test]
fn test_encode_decode_heartbeat() {
    let frame = Frame::Heartbeat;
    let decoded = roundtrip(&frame);
    assert!(matches!(decoded, Frame::Heartbeat));
}

#[test]
fn test_encode_decode_error() {
    let json = r#"{"code":1,"message":"test error"}"#;
    let decoded = roundtrip(&control(MessageType::Error, json));
    let payload = expect_control(decoded, MessageType::Error, "Error");
    assert!(payload.contains(r#""code":1"#));
    assert!(payload.contains("test error"));
}

#[test]
fn test_encode_decode_flow_control() {
    let json = r#"{"action":"Pause","connection_id":42}"#;
    let decoded = roundtrip(&control(MessageType::FlowControl, json));
    let payload = expect_control(decoded, MessageType::FlowControl, "FlowControl");
    assert!(payload.contains("Pause"));
    assert!(payload.contains("42"));
}

#[test]
fn test_encode_decode_compressed_data_x11() {
    let frame = Frame::CompressedDataX11(CompressedX11DataMessage {
        connection_id: ConnectionId::new(42),
        sequence_id: 5,
        original_len: 1000,
        data: vec![0x01, 0x02, 0x03],
    });
    match roundtrip(&frame) {
        Frame::CompressedDataX11(m) => {
            assert_eq!(m.connection_id.get(), 42);
            assert_eq!(m.sequence_id, 5);
            assert_eq!(m.original_len, 1000);
            assert_eq!(&m.data[..], &[0x01, 0x02, 0x03]);
        }
        _ => panic!("Expected CompressedDataX11 frame"),
    }
}

#[test]
fn test_decode_incomplete_returns_none() {
    let data = [b'R', b'X', b'1', b'1', 0x01];
    let result = decode_frame(&data).unwrap();
    assert!(result.is_none());
}

#[test]
fn test_decode_invalid_magic() {
    let data = [b'X', b'X', b'X', b'X', 0x01, 0, 0, 0, 0];
    let result = decode_frame(&data);
    assert!(result.is_err());
}

#[test]
fn test_decode_unknown_type() {
    let mut data = Vec::new();
    data.extend_from_slice(&MAGIC_BYTES);
    data.push(0xFE);
    data.extend_from_slice(&0u32.to_be_bytes());
    let result = decode_frame(&data);
    assert!(result.is_err());
}

#[test]
fn test_frame_header_size() {
    assert_eq!(frame_header_size(), FRAME_HEADER_SIZE);
}

#[test]
fn test_data_x11_too_short_payload() {
    let mut data = Vec::new();
    data.extend_from_slice(&MAGIC_BYTES);
    data.push(0x20);
    data.extend_from_slice(&4u32.to_be_bytes());
    data.extend_from_slice(&[0, 1, 2, 3, 4]);
    let result = decode_frame(&data);
    assert!(result.is_err());
}

#[test]
fn test_msg_type_roundtrip() {
    let frame = control(MessageType::SessionDestroy, r#"{"display":3}"#);
    assert_eq!(frame.msg_type(), MessageType::SessionDestroy);

    let decoded = roundtrip(&frame);
    let payload = expect_control(decoded, MessageType::SessionDestroy, "SessionDestroy");
    assert!(payload.contains(r#""display":3"#));
}

#[test]
fn test_message_type_try_from_valid() {
    assert_eq!(MessageType::try_from(0x01).unwrap(), MessageType::Hello);
    assert_eq!(MessageType::try_from(0x02).unwrap(), MessageType::HelloAck);
    assert_eq!(MessageType::try_from(0x10).unwrap(), MessageType::SessionCreate);
    assert_eq!(MessageType::try_from(0x20).unwrap(), MessageType::DataX11);
    assert_eq!(MessageType::try_from(0xFF).unwrap(), MessageType::Error);
}

#[test]
fn test_message_type_try_from_unknown() {
    assert!(MessageType::try_from(0x00).is_err());
    assert!(MessageType::try_from(0xFE).is_err());
    assert!(MessageType::try_from(0x50).is_err());
}

#[test]
fn test_message_type_display() {
    assert_eq!(MessageType::Hello.to_string(), "Hello");
    assert_eq!(MessageType::DataX11.to_string(), "DataX11");
    assert_eq!(MessageType::Error.to_string(), "Error");
}

#[test]
fn test_message_type_roundtrip_u8() {
    for byte in [
        0x01u8, 0x02, 0x03, 0x04, 0x10, 0x11, 0x12, 0x13, 0x14, 0x20, 0x21, 0x22, 0x23, 0x30,
        0x31, 0x40, 0xFF,
    ] {
        let mt = MessageType::try_from(byte).unwrap();
        assert_eq!(mt.as_u8(), byte, "roundtrip failed for 0x{:02x}", byte);
    }
}

#[test]
fn test_from_payload_to_frame() {
    let msg = ErrorMessage { code: 42, message: "test".into() };
    let frame: Message = msg.into();
    assert_eq!(frame.msg_type(), MessageType::Error);
}

#[test]
fn test_from_binary_payload_to_frame() {
    let msg = X11DataMessage { connection_id: ConnectionId::new(1), sequence_id: 0, data: Vec::new() };
    let frame: Message = msg.into();
    assert_eq!(frame.msg_type(), MessageType::DataX11);
}

#[test]
fn encoded_frame_layout() {
    let frame = Frame::DataX11(X11DataMessage {
        connection_id: ConnectionId::new(0x01020304),
        sequence_id: 9,
        data: vec![0xEE],
    });
    let bytes = encode_frame(&frame).unwrap();
    assert_eq!(&bytes[0..4], b"RX11");
    assert_eq!(bytes[4], 0x20);
    let len = u32::from_be_bytes([bytes[5], bytes[6], bytes[7], bytes[8]]) as usize;
    assert_eq!(len, bytes.len() - 9);
    assert_eq!(&bytes[9..13], &[1, 2, 3, 4]);
    assert_eq!(*bytes.last().unwrap(), 0xEE);
}

#[test]
fn decode_takes_one_frame_and_leaves_the_rest() {
    let mut bytes = encode_frame(&Frame::Heartbeat).unwrap();
    let first_len = bytes.len();
    bytes.extend(encode_frame(&Frame::HeartbeatAck).unwrap());
    let (f, n) = decode_frame(&bytes).unwrap().unwrap();
    assert!(matches!(f, Frame::Heartbeat));
    assert_eq!(n, first_len);
    let (g, _) = decode_frame(&bytes[n..]).unwrap().unwrap();
    assert!(matches!(g, Frame::HeartbeatAck));
}

#[test]
fn heartbeat_with_payload_is_invalid() {
    let mut data = Vec::new();
    data.extend_from_slice(&MAGIC_BYTES);
    data.push(0x30);
    data.extend_from_slice(&1u32.to_be_bytes());
    data.push(0);
    assert!(decode_frame(&data).is_err());
}

#[test]
fn oversized_length_is_invalid() {
    let mut data = Vec::new();
    data.extend_from_slice(&MAGIC_BYTES);
    data.push(0x01);
    data.extend_from_slice(&(16 * 1024 * 1024 + 1u32).to_be_bytes());
    assert!(decode_frame(&data).is_err());
}

#[test]
fn message_and_frame_conversions() {
    let m = Message::from_frame(Frame::Heartbeat).unwrap();
    assert!(matches!(m, Message::Heartbeat));
    let (t, p) = Message::from_frame(control(MessageType::Error, "{}")).unwrap_err();
    assert_eq!(t, MessageType::Error);
    assert_eq!(p, b"{}".to_vec());
    assert!(matches!(Message::HeartbeatAck.into_frame(), Ok(Frame::HeartbeatAck)));
    let back = Message::Error(ErrorMessage { code: 1, message: "m".into() }).into_frame();
    assert!(matches!(back, Err(Message::Error(_))));
}

fn protocol_message(r: Result<Option<(Frame, usize)>, rx11::error::Rx11Error>) -> String {
    match r {
        Err(rx11::error::Rx11Error::Protocol(m)) => m,
        other => panic!("expected a protocol error, got {:?}", other.map(|o| o.map(|(_, n)| n))),
    }
}

#[test]
fn decode_errors_name_the_sizes() {
    let mut short = MAGIC_BYTES.to_vec();
    short.push(0x20);
    short.extend_from_slice(&3u32.to_be_bytes());
    short.extend_from_slice(&[1, 2, 3]);
    assert_eq!(protocol_message(decode_frame(&short)), "DataX11 payload too short: 3 bytes (min 8)");

    let mut compressed = MAGIC_BYTES.to_vec();
    compressed.push(0x21);
    compressed.extend_from_slice(&5u32.to_be_bytes());
    compressed.extend_from_slice(&[0; 5]);
    assert_eq!(
        protocol_message(decode_frame(&compressed)),
        "CompressedDataX11 payload too short: 5 bytes (min 12)"
    );

    let mut large = MAGIC_BYTES.to_vec();
    large.push(0x20);
    large.extend_from_slice(&(16 * 1024 * 1024 + 1u32).to_be_bytes());
    assert_eq!(
        protocol_message(decode_frame(&large)),
        "Frame payload too large: 16777217 bytes (max 16777216)"
    );

    let mut unknown = MAGIC_BYTES.to_vec();
    unknown.push(0x7a);
    unknown.extend_from_slice(&0u32.to_be_bytes());
    assert_eq!(protocol_message(decode_frame(&unknown)), "Unknown message type: 0x7a");

    let mut chunk = MAGIC_BYTES.to_vec();
    chunk.push(0x24);
    chunk.extend_from_slice(&18u32.to_be_bytes());
    chunk.extend_from_slice(&[0; 16]);
    chunk.extend_from_slice(&1u16.to_be_bytes());
    assert_eq!(protocol_message(decode_frame(&chunk)), "Invalid IncrementalDataX11 chunk header");
}

#[test]
fn encode_error_names_the_size() {
    let msg = X11DataMessage {
        connection_id: ConnectionId::new(1),
        sequence_id: 1,
        data: vec![0; 16 * 1024 * 1024 + 1],
    };
    match encode_frame(&Frame::DataX11(msg)) {
        Err(rx11::error::Rx11Error::Protocol(m)) => {
            assert_eq!(m, "DataX11 payload too large: 16777217 bytes (max 16777216)")
        }
        _ => panic!("expected a protocol error"),
    }
}
