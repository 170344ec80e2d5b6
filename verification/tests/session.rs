use rx11::session::{next_connection_id, x11_port, SessionTable, MAX_X11_CONNECTIONS_PER_DISPLAY};
use rx11::types::{ConnectionId, DisplayNumber, SessionId};

fn create(t: &mut SessionTable, d: u16, client: &str) -> rx11::session::Session {
    t.create_session(DisplayNumber::new(d).unwrap(), "MIT-MAGIC-COOKIE-1".into(), vec![1, 2, 3, 4], client.into())
        .unwrap()
}

#[test]
fn test_create_and_destroy_session() {
    let mut mgr = SessionTable::new();
    let session = create(&mut mgr, 10, "client-1");

    assert_eq!(session.display.get(), 10);
    assert!(mgr.owns_session(DisplayNumber::new(10).unwrap(), "client-1"));
    assert!(!mgr.owns_session(DisplayNumber::new(10).unwrap(), "client-2"));

    mgr.destroy_session(session.display);
    assert!(!mgr.owns_session(DisplayNumber::new(10).unwrap(), "client-1"));
}

#[test]
fn test_create_auto_session() {
    let mut mgr = SessionTable::new();
    let disp = mgr.choose_free_display().unwrap();
    let session = mgr
        .create_session(disp, "MIT-MAGIC-COOKIE-1".into(), vec![1, 2, 3], "client-1".into())
        .unwrap();
    assert_eq!(session.display.get(), 0);
}

#[test]
fn test_duplicate_display_rejected() {
    let mut mgr = SessionTable::new();
    mgr.create_session(DisplayNumber::new(5).unwrap(), "auth".into(), vec![1], "client-1".into()).unwrap();
    let result = mgr.create_session(DisplayNumber::new(5).unwrap(), "auth".into(), vec![1], "client-2".into());
    assert!(result.is_err());
    assert_eq!(result.unwrap_err().to_string(), "Protocol error: Display :5 already in use");
    assert!(mgr.owns_session(DisplayNumber::new(5).unwrap(), "client-1"));
}

#[test]
fn test_resume_session() {
    let mut mgr = SessionTable::new();
    let session = mgr
        .create_session(DisplayNumber::new(20).unwrap(), "auth".into(), vec![1], "client-1".into())
        .unwrap();
    let resumed = mgr.try_resume_session(&session.id, "client-2".into()).unwrap();
    assert_eq!(resumed.display.get(), 20);
    assert_eq!(resumed.client_id, "client-2");
    assert_eq!(resumed.id.as_str(), session.id.as_str());
    assert!(mgr.owns_session(DisplayNumber::new(20).unwrap(), "client-2"));
    assert!(!mgr.owns_session(DisplayNumber::new(20).unwrap(), "client-1"));
}

#[test]
fn test_resume_nonexistent_session() {
    let mut mgr = SessionTable::new();
    let fake_id = SessionId::new("nonexistent".into()).unwrap();
    let result = mgr.try_resume_session(&fake_id, "client-2".into());
    assert!(result.is_err());
    assert_eq!(result.unwrap_err().to_string(), "Protocol error: Session nonexistent not found or expired");
}

#[test]
fn test_register_unregister_x11_connection() {
    let mut mgr = SessionTable::new();
    let conn_id = ConnectionId::new(42);
    let disp = DisplayNumber::new(1).unwrap();
    create(&mut mgr, 1, "c");

    mgr.register_x11_connection(conn_id, disp).unwrap();
    assert!(mgr.owns_connection(conn_id, "c"));

    mgr.unregister_x11_connection(conn_id);
    assert!(!mgr.owns_connection(conn_id, "c"));
}

#[test]
fn test_max_x11_connections_per_display() {
    let mut mgr = SessionTable::new();
    let disp = DisplayNumber::new(1).unwrap();
    for i in 0..MAX_X11_CONNECTIONS_PER_DISPLAY {
        mgr.register_x11_connection(ConnectionId::new(i as u32 + 1), disp).unwrap();
    }
    let result = mgr.register_x11_connection(ConnectionId::new(MAX_X11_CONNECTIONS_PER_DISPLAY as u32 + 1), disp);
    assert!(result.is_err());
    assert_eq!(
        result.unwrap_err().to_string(),
        "Protocol error: Too many X11 connections for display :1 (max 64)"
    );
    mgr.unregister_x11_connection(ConnectionId::new(1));
    assert!(mgr.register_x11_connection(ConnectionId::new(1000), disp).is_ok());
}

#[test]
fn test_destroy_all_sessions() {
    let mut mgr = SessionTable::new();
    for i in 0..3 {
        mgr.create_session(DisplayNumber::new(i).unwrap(), "auth".into(), vec![1], format!("client-{}", i))
            .unwrap();
    }
    let destroyed = mgr.destroy_all_sessions();
    assert_eq!(destroyed.len(), 3);
    for i in 0..3 {
        assert!(!mgr.owns_session(DisplayNumber::new(i).unwrap(), &format!("client-{}", i)));
    }
}

#[test]
fn session_ids_are_fresh_uuids() {
    let mut mgr = SessionTable::new();
    let a = create(&mut mgr, 1, "c");
    let b = create(&mut mgr, 2, "c");
    assert_eq!(a.id.as_str().len(), 36);
    assert_ne!(a.id.as_str(), b.id.as_str());
    assert!(a.id.as_str().chars().all(|c| c == '-' || c.is_ascii_hexdigit()));
}

#[test]
fn auto_display_is_the_lowest_free_one() {
    let mut mgr = SessionTable::new();
    create(&mut mgr, 0, "a");
    create(&mut mgr, 1, "a");
    create(&mut mgr, 3, "a");
    assert_eq!(mgr.choose_free_display().unwrap().get(), 2);
    for d in 0..=255u16 {
        if d != 0 && d != 1 && d != 3 {
            create(&mut mgr, d, "a");
        }
    }
    let err = mgr.choose_free_display().unwrap_err();
    assert_eq!(err.to_string(), "Protocol error: No available display number");
}

#[test]
fn destroy_closes_the_display_connections() {
    let mut mgr = SessionTable::new();
    let d = DisplayNumber::new(4).unwrap();
    create(&mut mgr, 4, "c");
    mgr.register_x11_connection(ConnectionId::new(7), d).unwrap();
    mgr.register_x11_connection(ConnectionId::new(8), d).unwrap();
    mgr.register_x11_connection(ConnectionId::new(9), DisplayNumber::new(5).unwrap()).unwrap();
    let mut closed = mgr.destroy_session(d);
    closed.sort();
    assert_eq!(closed, vec![7, 8]);
    assert!(!mgr.owns_connection(ConnectionId::new(7), "c"));
    mgr.unregister_x11_connection(ConnectionId::new(9));
}

#[test]
fn grace_period_runs_out_and_destroys_the_sessions() {
    let mut mgr = SessionTable::new();
    create(&mut mgr, 1, "gone");
    create(&mut mgr, 2, "gone");
    create(&mut mgr, 3, "other");
    let release = mgr.release_session("gone");
    let mut displays: Vec<u16> = release.sessions.iter().map(|(d, _)| *d).collect();
    displays.sort();
    assert_eq!(displays, vec![1, 2]);
    let mut targets = mgr.grace_expired(release.ticket, "gone");
    targets.sort();
    assert_eq!(targets, vec![1, 2]);
    for d in &targets {
        mgr.destroy_session(DisplayNumber::new(*d).unwrap());
    }
    mgr.finish_grace(release.ticket, &targets);
    assert!(!mgr.owns_session(DisplayNumber::new(1).unwrap(), "gone"));
    assert!(mgr.owns_session(DisplayNumber::new(3).unwrap(), "other"));
}

#[test]
fn resumed_session_survives_its_grace_period() {
    let mut mgr = SessionTable::new();
    let s = create(&mut mgr, 6, "old-client");
    mgr.register_x11_connection(ConnectionId::new(77), DisplayNumber::new(6).unwrap()).unwrap();
    let release = mgr.release_session("old-client");
    assert_eq!(release.sessions.len(), 1);
    mgr.try_resume_session(&s.id, "new-client".into()).unwrap();
    let targets = mgr.grace_expired(release.ticket, "old-client");
    assert!(targets.is_empty());
    assert!(mgr.owns_session(DisplayNumber::new(6).unwrap(), "new-client"));
    assert!(mgr.owns_connection(ConnectionId::new(77), "new-client"));
}

#[test]
fn a_second_release_cancels_the_first_grace_period() {
    let mut mgr = SessionTable::new();
    create(&mut mgr, 1, "c");
    let first = mgr.release_session("c");
    let second = mgr.release_session("c");
    assert_ne!(first.ticket, second.ticket);
    assert!(mgr.grace_expired(first.ticket, "c").is_empty());
    assert_eq!(mgr.grace_expired(second.ticket, "c"), vec![1]);
}

#[test]
fn connection_ids_skip_zero() {
    let mut counter: u64 = 1;
    assert_eq!(next_connection_id(&mut counter).get(), 1);
    assert_eq!(next_connection_id(&mut counter).get(), 2);
    let mut counter: u64 = 0x1_0000_0000;
    assert_eq!(next_connection_id(&mut counter).get(), 1);
    assert_eq!(counter, 0x1_0000_0002);
    let mut counter: u64 = 0xFFFF_FFFF;
    assert_eq!(next_connection_id(&mut counter).get(), 0xFFFF_FFFF);
}

#[test]
fn x11_ports() {
    assert_eq!(x11_port(6000, 3), Ok(6003));
    assert_eq!(x11_port(65535, 1).unwrap_err(), "X11 port overflow: base 65535 + display 1");
}

#[test]
fn session_error_messages() {
    let d = DisplayNumber::new(7).unwrap();
    assert_eq!(
        rx11::session::bind_failed_error(d, "in use").to_string(),
        "Protocol error: Failed to bind X11 port for display :7: in use"
    );
    assert_eq!(
        rx11::session::xauth_failed_error(d, "no xauth").to_string(),
        "Protocol error: xauth setup failed for display :7: no xauth"
    );
    assert_eq!(
        rx11::session::listener_missing_error().to_string(),
        "Protocol error: X11Listener not initialized"
    );
}

#[test]
fn grace_periods_of_different_clients_stay_apart() {
    let mut mgr = SessionTable::new();
    create(&mut mgr, 1, "b");
    let a = create(&mut mgr, 2, "a");
    let release_b = mgr.release_session("b");
    let release_a = mgr.release_session("a");
    assert_ne!(release_a.ticket, release_b.ticket);
    mgr.try_resume_session(&a.id, "a-again".into()).unwrap();
    assert!(mgr.grace_expired(release_a.ticket, "a").is_empty());
    assert_eq!(mgr.grace_expired(release_b.ticket, "b"), vec![1]);
}
