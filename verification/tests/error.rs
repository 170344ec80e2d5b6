use rx11::error::{IoError, IoErrorKind, Rx11Error};

fn io(kind: IoErrorKind, msg: &str) -> Rx11Error {
    Rx11Error::Io(IoError::new(kind, msg.to_string()))
}

#[test]
fn test_connection_refused_is_retriable() {
    let err = io(IoErrorKind::ConnectionRefused, "refused");
    assert!(err.is_retriable());
}

#[test]
fn test_connection_reset_is_retriable() {
    let err = io(IoErrorKind::ConnectionReset, "reset");
    assert!(err.is_retriable());
}

#[test]
fn test_broken_pipe_is_retriable() {
    let err = io(IoErrorKind::BrokenPipe, "broken pipe");
    assert!(err.is_retriable());
}

#[test]
fn test_timed_out_is_retriable() {
    let err = io(IoErrorKind::TimedOut, "timed out");
    assert!(err.is_retriable());
}

#[test]
fn test_timeout_is_retriable() {
    assert!(Rx11Error::Timeout.is_retriable());
}

#[test]
fn test_connection_closed_is_retriable() {
    assert!(Rx11Error::ConnectionClosed.is_retriable());
}

#[test]
fn test_permission_denied_is_not_retriable() {
    let err = io(IoErrorKind::PermissionDenied, "denied");
    assert!(!err.is_retriable());
}

#[test]
fn test_protocol_is_not_retriable() {
    assert!(!Rx11Error::Protocol("bad".into()).is_retriable());
}

#[test]
fn test_auth_is_not_retriable() {
    assert!(!Rx11Error::Auth("bad".into()).is_retriable());
}

#[test]
fn other_transient_io_errors_are_retriable() {
    for kind in [IoErrorKind::ConnectionAborted, IoErrorKind::Interrupted, IoErrorKind::UnexpectedEof] {
        assert!(io(kind, "x").is_retriable(), "{:?}", kind);
    }
    for kind in [IoErrorKind::NotFound, IoErrorKind::AddrInUse, IoErrorKind::InvalidData, IoErrorKind::Other] {
        assert!(!io(kind, "x").is_retriable(), "{:?}", kind);
    }
}

#[test]
fn error_texts() {
    assert_eq!(io(IoErrorKind::Other, "boom").to_string(), "IO error: boom");
    assert_eq!(Rx11Error::Protocol("bad".into()).to_string(), "Protocol error: bad");
    assert_eq!(Rx11Error::Auth("no".into()).to_string(), "Authentication error: no");
    assert_eq!(Rx11Error::ConnectionClosed.to_string(), "Connection closed");
    assert_eq!(Rx11Error::Timeout.to_string(), "Timeout");
}
