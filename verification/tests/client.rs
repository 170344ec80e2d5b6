use rx11::client::{
    auto_display, client_data_message, client_on_message, next_read_buf_size, resume_outcome,
    session_ack_outcome, shutdown_message, ClientAction, LocalConnector, ResumeOutcome, TunnelHealth,
};
use rx11::compress::CompressionAlgo;
use rx11::error::{IoError, IoErrorKind, Rx11Error};
use rx11::protocol::{
    CompressedX11DataMessage, ErrorMessage, Message, MessageType, SessionAckMessage, X11ConnectMessage,
    X11DataMessage, X11DisconnectMessage,
};
use rx11::incremental::ConnectionDataCache;
use rx11::relay::{server_on_x11_event, X11ConnToRelay};
use rx11::session::SessionTable;
use rx11::stats::ConnectionStats;
use rx11::types::{ConnectionId, DisplayNumber, SessionId};

fn connector(display: Option<u16>, auto: bool) -> LocalConnector {
    LocalConnector::new("relay:7000".into(), "tok".into(), "127.0.0.1:6000".into(), display, auto)
}

#[test]
fn new_connector_keeps_its_settings() {
    let c = connector(Some(3), false);
    assert_eq!(c.relay_addr(), "relay:7000");
    assert_eq!(c.auth_token(), "tok");
    assert_eq!(c.local_x11_addr(), "127.0.0.1:6000");
    assert_eq!(c.display(), Some(3));
}

#[test]
fn backoff_doubles_up_to_thirty_seconds() {
    let c = connector(None, true);
    assert_eq!(c.backoff_cap_ms(0), 1000);
    assert_eq!(c.backoff_cap_ms(1), 1000);
    assert_eq!(c.backoff_cap_ms(2), 2000);
    assert_eq!(c.backoff_cap_ms(5), 16000);
    assert_eq!(c.backoff_cap_ms(6), 30000);
    assert_eq!(c.backoff_cap_ms(60), 30000);
    assert_eq!(c.backoff_delay_ms(1, 250), 1250);
    assert_eq!(c.backoff_delay_ms(2, 500), 2500);
    assert_eq!(c.backoff_delay_ms(6, 7500), 30000);
    for attempt in 0..20 {
        let d = c.calculate_backoff(attempt);
        let cap = c.backoff_cap_ms(attempt);
        assert!(d >= cap && d <= cap + cap / 4 && d <= 30000, "attempt {} delay {}", attempt, d);
    }
}

#[test]
fn first_reconnect_waits_one_second_plus_jitter() {
    let c = connector(None, true);
    for _ in 0..50 {
        let d = c.calculate_backoff(1);
        assert!((1000..=1250).contains(&d), "first delay {}", d);
    }
}

#[test]
fn retries_only_transient_errors_ten_times() {
    let c = connector(None, true);
    let transient = Rx11Error::Io(IoError::new(IoErrorKind::ConnectionReset, "reset".into()));
    assert_eq!(c.next_attempt(&transient, 0), Some(1));
    assert_eq!(c.next_attempt(&transient, 9), Some(10));
    assert_eq!(c.next_attempt(&transient, 10), None);
    assert_eq!(c.next_attempt(&Rx11Error::Auth("Auth failed: Invalid token".into()), 0), None);
    assert_eq!(c.next_attempt(&Rx11Error::Timeout, 3), Some(4));
}

#[test]
fn session_requests() {
    match connector(None, true).session_request_with_cookie(vec![9; 16]).unwrap() {
        Message::SessionAutoCreate(m) => {
            assert_eq!(m.auth_name, "MIT-MAGIC-COOKIE-1");
            assert_eq!(m.auth_data, vec![9; 16]);
        }
        _ => panic!("expected an auto-create request"),
    }
    match connector(Some(7), false).session_request_with_cookie(vec![1]).unwrap() {
        Message::SessionCreate(m) => assert_eq!(m.display.get(), 7),
        _ => panic!("expected a create request"),
    }
    match connector(None, false).session_request_with_cookie(vec![1]).unwrap() {
        Message::SessionCreate(m) => assert_eq!(m.display.get(), 0),
        _ => panic!("expected a create request"),
    }
    let e = connector(Some(300), false).session_request_with_cookie(vec![1]).unwrap_err();
    assert_eq!(e.to_string(), "Protocol error: Display number must be 0-255, got 300");
    match connector(None, true).session_request().unwrap() {
        Message::SessionAutoCreate(m) => assert_eq!(m.auth_data.len(), 16),
        _ => panic!("expected an auto-create request"),
    }
}

fn ack(success: bool, sid: Option<&str>, err: Option<&str>) -> SessionAckMessage {
    SessionAckMessage {
        display: DisplayNumber::new(2).unwrap(),
        success,
        error_msg: err.map(|s| s.to_string()),
        session_id: sid.map(|s| SessionId::new(s.into()).unwrap()),
    }
}

#[test]
fn session_ack_outcomes() {
    let (d, id) = session_ack_outcome(&ack(true, Some("sid"), None)).unwrap();
    assert_eq!(d.get(), 2);
    assert_eq!(id.as_str(), "sid");
    assert_eq!(
        session_ack_outcome(&ack(true, None, None)).unwrap_err().to_string(),
        "Protocol error: Missing session_id"
    );
    assert_eq!(
        session_ack_outcome(&ack(false, None, Some("busy"))).unwrap_err().to_string(),
        "Protocol error: Session create failed: busy"
    );
    match resume_outcome(&ack(true, Some("sid"), None)) {
        ResumeOutcome::Resumed(d, Some(id)) => {
            assert_eq!(d.get(), 2);
            assert_eq!(id.as_str(), "sid");
        }
        _ => panic!("expected a resumed session"),
    }
    assert!(matches!(resume_outcome(&ack(false, None, None)), ResumeOutcome::CreateNew));
    assert!(matches!(shutdown_message(DisplayNumber::new(2).unwrap()), Message::SessionDestroy(m) if m.display.get() == 2));
}

#[test]
fn client_handles_relay_messages() {
    let mut stats = ConnectionStats::new();
    let mut cache = ConnectionDataCache::new();
    let d = DisplayNumber::new(1).unwrap();
    let c = ConnectionId::new(8);
    let a = client_on_message(None, &mut stats, &mut cache, Message::X11Connect(X11ConnectMessage { display: d, connection_id: c }));
    assert!(matches!(a, ClientAction::OpenLocal(_, id) if id.get() == 8));
    assert_eq!(stats.x11_connections_active, 1);
    let a = client_on_message(None, &mut stats, &mut cache, Message::DataX11(X11DataMessage { connection_id: c, sequence_id: 0, data: vec![1, 2, 3] }));
    assert!(matches!(a, ClientAction::Deliver(_, ref v) if v == &vec![1, 2, 3]));
    assert_eq!(stats.total_bytes_received, 3);
    assert!(matches!(client_on_message(None, &mut stats, &mut cache, Message::Heartbeat), ClientAction::Reply(Message::HeartbeatAck)));
    assert!(matches!(
        client_on_message(None, &mut stats, &mut cache, Message::X11Disconnect(X11DisconnectMessage { display: d, connection_id: c })),
        ClientAction::CloseLocal(_)
    ));
    assert!(matches!(
        client_on_message(None, &mut stats, &mut cache, Message::Error(ErrorMessage { code: 1, message: "x".into() })),
        ClientAction::Stop
    ));
    assert!(matches!(client_on_message(None, &mut stats, &mut cache, Message::HeartbeatAck), ClientAction::Ignore));
}

#[test]
fn client_decompresses_and_counts() {
    let mut stats = ConnectionStats::new();
    let mut cache = ConnectionDataCache::new();
    let raw = vec![4u8; 1000];
    let data = CompressionAlgo::Lz4.compress(&raw).unwrap();
    let msg = Message::CompressedDataX11(CompressedX11DataMessage {
        connection_id: ConnectionId::new(1),
        sequence_id: 0,
        original_len: 1000,
        data,
    });
    assert!(matches!(client_on_message(None, &mut stats, &mut cache, msg.clone()), ClientAction::Ignore));
    assert_eq!(stats.total_bytes_received, 0);
    match client_on_message(Some(CompressionAlgo::Lz4), &mut stats, &mut cache, msg) {
        ClientAction::Deliver(_, v) => assert_eq!(v, raw),
        _ => panic!("expected delivery"),
    }
    assert_eq!(stats.total_bytes_received, 1000);
}

#[test]
fn client_compresses_outgoing_data_when_it_pays() {
    let mut stats = ConnectionStats::new();
    let m = client_data_message(ConnectionId::new(3), 11, vec![0u8; 4000], Some(CompressionAlgo::Zstd), &mut stats);
    match m {
        Message::CompressedDataX11(c) => {
            assert_eq!(c.sequence_id, 11);
            assert_eq!(c.original_len, 4000);
            assert_eq!(stats.total_compression_frames, 1);
            assert_eq!(stats.total_compression_saved, (4000 - c.data.len()) as u64);
        }
        _ => panic!("expected compressed data"),
    }
    let m = client_data_message(ConnectionId::new(3), 12, vec![1, 2], Some(CompressionAlgo::Zstd), &mut stats);
    assert!(matches!(m, Message::DataX11(_)));
    assert_eq!(stats.total_compression_frames, 1);
}

#[test]
fn read_buffer_growth() {
    assert_eq!(next_read_buf_size(65536, 262144), 131072);
    assert_eq!(next_read_buf_size(131072, 262144), 262144);
    assert_eq!(next_read_buf_size(200000, 262144), 262144);
    assert_eq!(next_read_buf_size(262144, 262144), 262144);
}

#[test]
fn tunnel_health_gives_up_after_three_failures() {
    let mut h = TunnelHealth::new();
    assert!(!h.record(false));
    assert!(!h.record(false));
    assert!(!h.record(true));
    assert!(!h.record(false));
    assert!(!h.record(false));
    assert!(h.record(false));
}

#[test]
fn auto_display_choice() {
    assert!(auto_display(None, None, None));
    assert!(!auto_display(Some(false), None, None));
    assert!(!auto_display(None, Some(1), None));
    assert!(!auto_display(Some(true), None, Some(2)));
}

#[test]
fn client_applies_the_relays_incremental_updates() {
    let mut table = SessionTable::new();
    let d = DisplayNumber::new(1).unwrap();
    table
        .create_session(d, "MIT-MAGIC-COOKIE-1".into(), vec![1], "c".into())
        .unwrap();
    let c = ConnectionId::new(5);
    table.register_x11_connection(c, d).unwrap();
    let mut sent = ConnectionDataCache::new();
    let mut received = ConnectionDataCache::new();
    let mut stats = ConnectionStats::new();

    let first: Vec<u8> = (0..16384u32).map(|i| (i % 251) as u8).collect();
    let mut second = first.clone();
    second[100] ^= 0xff;
    second[9000] ^= 0xff;

    let mut kinds = Vec::new();
    for data in [first, second] {
        let msg = server_on_x11_event(
            &mut table,
            &mut sent,
            None,
            Some(X11ConnToRelay::Data { display: d, connection_id: c, data: data.clone() }),
        )
        .unwrap();
        kinds.push(msg.msg_type());
        match client_on_message(None, &mut stats, &mut received, msg) {
            ClientAction::Deliver(id, v) => {
                assert_eq!(id.get(), 5);
                assert_eq!(v, data);
            }
            _ => panic!("expected delivery"),
        }
    }
    assert_eq!(kinds, vec![MessageType::DataX11, MessageType::IncrementalDataX11]);
}

#[test]
fn client_drops_an_update_without_a_base() {
    let mut stats = ConnectionStats::new();
    let mut received = ConnectionDataCache::new();
    let update = rx11::protocol::IncrementalX11DataMessage {
        connection_id: ConnectionId::new(2),
        sequence_id: 0,
        base_sequence_id: 0,
        total_len: 4,
        chunks: vec![rx11::protocol::IncrementalChunk { offset: 0, length: 4, data: vec![1, 2, 3, 4] }],
    };
    assert!(matches!(
        client_on_message(None, &mut stats, &mut received, Message::IncrementalDataX11(update)),
        ClientAction::Ignore
    ));
    assert_eq!(stats.total_bytes_received, 0);
}
