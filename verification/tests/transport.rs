use rx11::protocol::{encode_frame, Frame, X11DataMessage};
use rx11::transport::{scan_for_magic, FrameReader, ReadStep, MAX_READ_BUF};
use rx11::types::ConnectionId;

fn data_frame(cid: u32, bytes: &[u8]) -> Vec<u8> {
    encode_frame(&Frame::DataX11(X11DataMessage {
        connection_id: ConnectionId::new(cid),
        sequence_id: 0,
        data: bytes.to_vec(),
    }))
    .unwrap()
}

#[test]
fn scan_finds_the_next_magic() {
    assert_eq!(scan_for_magic(b"RX11"), 0);
    assert_eq!(scan_for_magic(b"xxRX11yy"), 2);
    assert_eq!(scan_for_magic(b"RX11RX11"), 4);
    assert_eq!(scan_for_magic(b"abcdefg"), 0);
    assert_eq!(scan_for_magic(b"aRX1"), 0);
    assert_eq!(scan_for_magic(b"aRX11"), 1);
}

#[test]
fn reader_waits_for_a_whole_frame() {
    let bytes = data_frame(3, &[1, 2, 3]);
    let mut r = FrameReader::new();
    r.push(&bytes[..5]);
    assert!(matches!(r.poll(), ReadStep::NeedMore));
    r.push(&bytes[5..]);
    match r.poll() {
        ReadStep::Frame(Frame::DataX11(m), n) => {
            assert_eq!(n, bytes.len());
            assert_eq!(m.connection_id.get(), 3);
            assert_eq!(m.data, vec![1, 2, 3]);
            r.accept(n);
        }
        _ => panic!("expected a data frame"),
    }
    assert_eq!(r.len(), 0);
    assert!(matches!(r.poll(), ReadStep::NeedMore));
}

#[test]
fn reader_resyncs_after_garbage() {
    let mut bytes = b"garbage!!".to_vec();
    let frame = data_frame(9, &[7]);
    bytes.extend_from_slice(&frame);
    let mut r = FrameReader::new();
    r.push(&bytes);
    match r.poll() {
        ReadStep::Frame(Frame::DataX11(m), n) => {
            assert_eq!(m.connection_id.get(), 9);
            assert_eq!(n, frame.len());
            assert_eq!(r.len(), frame.len());
        }
        _ => panic!("expected the frame after the garbage"),
    }
}

#[test]
fn reader_fails_on_garbage_without_magic() {
    let mut r = FrameReader::new();
    r.push(b"this is not a frame at all");
    match r.poll() {
        ReadStep::Failed(e) => assert_eq!(e.to_string(), "Protocol error: Invalid frame and no recovery possible"),
        _ => panic!("expected a failure"),
    }
}

#[test]
fn rejected_frame_is_skipped() {
    let mut bytes = encode_frame(&Frame::Control(rx11::protocol::MessageType::Hello, b"not json".to_vec())).unwrap();
    let next = encode_frame(&Frame::Heartbeat).unwrap();
    bytes.extend_from_slice(&next);
    let mut r = FrameReader::new();
    r.push(&bytes);
    assert!(matches!(r.poll(), ReadStep::Frame(Frame::Control(_, _), _)));
    r.reject().unwrap();
    assert_eq!(r.len(), next.len());
    assert!(matches!(r.poll(), ReadStep::Frame(Frame::Heartbeat, _)));
}

#[test]
fn largest_frame_is_read_within_the_limit() {
    let payload = vec![0u8; 16 * 1024 * 1024];
    let mut bytes = b"RX11".to_vec();
    bytes.push(0x20);
    bytes.extend_from_slice(&(payload.len() as u32).to_be_bytes());
    let mut r = FrameReader::new();
    r.push(&bytes);
    r.push(&payload[..payload.len() - 1]);
    assert!(matches!(r.poll(), ReadStep::NeedMore));
    assert!(r.len() <= MAX_READ_BUF);
    r.push(&payload[payload.len() - 1..]);
    match r.poll() {
        ReadStep::Frame(Frame::DataX11(m), n) => {
            assert_eq!(n, 9 + payload.len());
            assert_eq!(m.data.len(), payload.len() - 8);
        }
        _ => panic!("expected the largest frame"),
    }
}
