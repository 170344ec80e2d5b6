use rx11::compress::CompressionAlgo;
use rx11::error::Rx11Error;
use rx11::incremental::ConnectionDataCache;
use rx11::protocol::{
    CompressedX11DataMessage, Message, SessionDestroyMessage, X11DataMessage,
};
use rx11::relay::{
    accepts_connection, server_on_message, server_on_x11_event, session_ack, HeartbeatDeadline, LivenessAction,
    ServerAction, X11ConnToRelay,
};
use rx11::session::SessionTable;
use rx11::types::{ConnectionId, DisplayNumber};

fn table_with_connection() -> SessionTable {
    let mut t = SessionTable::new();
    t.create_session(DisplayNumber::new(1).unwrap(), "a".into(), vec![], "owner".into()).unwrap();
    t.register_x11_connection(ConnectionId::new(5), DisplayNumber::new(1).unwrap()).unwrap();
    t
}

fn data(cid: u32, bytes: Vec<u8>) -> Message {
    Message::DataX11(X11DataMessage { connection_id: ConnectionId::new(cid), sequence_id: 0, data: bytes })
}

#[test]
fn data_reaches_only_owned_connections() {
    let t = table_with_connection();
    match server_on_message(&t, "owner", None, data(5, vec![1, 2])) {
        ServerAction::Deliver(c, d) => {
            assert_eq!(c.get(), 5);
            assert_eq!(d, vec![1, 2]);
        }
        _ => panic!("expected delivery"),
    }
    assert!(matches!(server_on_message(&t, "intruder", None, data(5, vec![1])), ServerAction::Ignore));
    assert!(matches!(server_on_message(&t, "owner", None, data(6, vec![1])), ServerAction::Ignore));
}

#[test]
fn compressed_data_is_decompressed() {
    let t = table_with_connection();
    let raw = vec![3u8; 3000];
    let c = CompressionAlgo::Zstd.compress(&raw).unwrap();
    let msg = |len: usize| {
        Message::CompressedDataX11(CompressedX11DataMessage {
            connection_id: ConnectionId::new(5),
            sequence_id: 1,
            original_len: len,
            data: c.clone(),
        })
    };
    match server_on_message(&t, "owner", Some(CompressionAlgo::Zstd), msg(3000)) {
        ServerAction::Deliver(_, d) => assert_eq!(d, raw),
        _ => panic!("expected delivery"),
    }
    assert!(matches!(server_on_message(&t, "owner", None, msg(3000)), ServerAction::Ignore));
    assert!(matches!(server_on_message(&t, "owner", Some(CompressionAlgo::Zstd), msg(10)), ServerAction::Ignore));
}

#[test]
fn destroy_only_owned_sessions() {
    let t = table_with_connection();
    let destroy = |d: u16| Message::SessionDestroy(SessionDestroyMessage { display: DisplayNumber::new(d).unwrap() });
    assert!(matches!(server_on_message(&t, "owner", None, destroy(1)), ServerAction::DestroySession(_)));
    assert!(matches!(server_on_message(&t, "someone", None, destroy(1)), ServerAction::Ignore));
    assert!(matches!(server_on_message(&t, "owner", None, destroy(2)), ServerAction::Ignore));
    assert!(matches!(server_on_message(&t, "owner", None, Message::HeartbeatAck), ServerAction::ResetHeartbeat));
    assert!(matches!(server_on_message(&t, "owner", None, Message::Heartbeat), ServerAction::Ignore));
}

#[test]
fn session_acks() {
    let mut t = SessionTable::new();
    let s = t.create_session(DisplayNumber::new(4).unwrap(), "a".into(), vec![], "c".into());
    let (ack, route) = session_ack(&s);
    assert!(ack.success);
    assert_eq!(ack.display.get(), 4);
    assert_eq!(ack.session_id.unwrap().as_str(), s.as_ref().unwrap().id.as_str());
    assert_eq!(route.unwrap().get(), 4);
    let (ack, route) = session_ack(&Err(Rx11Error::Protocol("Display :4 already in use".into())));
    assert!(!ack.success);
    assert_eq!(ack.error_msg.as_deref(), Some("Protocol error: Display :4 already in use"));
    assert!(ack.session_id.is_none());
    assert!(route.is_none());
}

#[test]
fn x11_events_become_messages() {
    let mut t = table_with_connection();
    let mut cache = ConnectionDataCache::new();
    let d = DisplayNumber::new(1).unwrap();
    let c = ConnectionId::new(5);
    match server_on_x11_event(&mut t, &mut cache, None, Some(X11ConnToRelay::Connected { display: d, connection_id: c })) {
        Some(Message::X11Connect(m)) => assert_eq!(m.connection_id.get(), 5),
        _ => panic!("expected X11Connect"),
    }
    match server_on_x11_event(&mut t, &mut cache, None, Some(X11ConnToRelay::Data { display: d, connection_id: c, data: vec![1, 2, 3] })) {
        Some(Message::DataX11(m)) => {
            assert_eq!(m.data, vec![1, 2, 3]);
            assert_eq!(m.sequence_id, 0);
        }
        _ => panic!("expected DataX11"),
    }
    assert!(cache.get_cached(c).is_some());
    match server_on_x11_event(&mut t, &mut cache, None, Some(X11ConnToRelay::Disconnected { display: d, connection_id: c })) {
        Some(Message::X11Disconnect(m)) => assert_eq!(m.display.get(), 1),
        _ => panic!("expected X11Disconnect"),
    }
    assert!(cache.get_cached(c).is_none());
    assert!(!t.owns_connection(c, "owner"));
    assert!(server_on_x11_event(&mut t, &mut cache, None, None).is_none());
}

#[test]
fn large_data_is_compressed_for_the_client() {
    let mut t = table_with_connection();
    let mut cache = ConnectionDataCache::new();
    let ev = X11ConnToRelay::Data { display: DisplayNumber::new(1).unwrap(), connection_id: ConnectionId::new(5), data: vec![0u8; 5000] };
    match server_on_x11_event(&mut t, &mut cache, Some(CompressionAlgo::Lz4), Some(ev)) {
        Some(Message::CompressedDataX11(m)) => assert_eq!(m.original_len, 5000),
        _ => panic!("expected compressed data"),
    }
}

#[test]
fn connection_limit() {
    assert!(accepts_connection(1));
    assert!(accepts_connection(256));
    assert!(!accepts_connection(257));
}

#[test]
fn heartbeat_deadline_is_ninety_seconds_after_the_last_answer() {
    let mut h = HeartbeatDeadline::new(0);
    assert_eq!(h.deadline_ms(), 90_000);
    assert_eq!(h.on_timer(89_999), LivenessAction::KeepWaiting);
    assert_eq!(h.on_timer(90_000), LivenessAction::Disconnect);
    h.on_answer(60_000);
    assert_eq!(h.deadline_ms(), 150_000);
    assert_eq!(h.on_timer(90_000), LivenessAction::KeepWaiting);
    assert_eq!(h.on_timer(150_000), LivenessAction::Disconnect);
    h.on_answer(u64::MAX - 10);
    assert_eq!(h.deadline_ms(), u64::MAX);
}
