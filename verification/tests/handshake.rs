use rx11::compress::CompressionAlgo;
use rx11::protocol::handshake::{
    client_auth_request, client_handshake_result, client_hello, client_on_auth_response,
    client_on_hello_ack, handshake_wait_error, server_handshake_result, server_on_auth,
    server_on_hello, unexpected_frame,
};
use rx11::protocol::{
    AuthRequestMessage, AuthResponseMessage, ConnectionMode, HelloAckMessage, HelloMessage,
    MessageType, PROTOCOL_VERSION,
};
use rx11::types::{SessionId, Token};

#[test]
fn server_accepts_a_client_hello() {
    let hello = client_hello(None);
    assert_eq!(hello.version, PROTOCOL_VERSION);
    assert_eq!(hello.mode, ConnectionMode::Client);
    let (ack, outcome) = server_on_hello(&hello);
    assert!(outcome.is_ok());
    assert!(ack.success);
    assert_eq!(ack.version, PROTOCOL_VERSION);
    assert_eq!(ack.compression, Some(CompressionAlgo::Zstd));
    assert_eq!(ack.session_id.as_str().len(), 36);
    assert!(client_on_hello_ack(&ack).is_ok());
}

#[test]
fn server_negotiates_what_the_client_offers() {
    let mut hello = client_hello(None);
    hello.compression_algos = vec![CompressionAlgo::Zlib];
    assert_eq!(server_on_hello(&hello).0.compression, Some(CompressionAlgo::Zlib));
    hello.compression_algos = vec![];
    assert_eq!(server_on_hello(&hello).0.compression, None);
}

#[test]
fn server_refuses_other_versions_and_modes() {
    let mut hello = client_hello(None);
    hello.version = 2;
    let (ack, outcome) = server_on_hello(&hello);
    assert!(!ack.success);
    assert_eq!(ack.version, PROTOCOL_VERSION);
    assert_eq!(ack.error_msg.as_deref(), Some("Version mismatch: got 2 expected 3"));
    assert_eq!(ack.compression, None);
    assert_eq!(outcome.unwrap_err().to_string(), "Protocol error: Version mismatch: got 2 expected 3");
    assert_eq!(
        client_on_hello_ack(&ack).unwrap_err().to_string(),
        "Protocol error: Handshake failed: Version mismatch: got 2 expected 3"
    );
    let hello = HelloMessage {
        version: PROTOCOL_VERSION,
        mode: ConnectionMode::Server,
        resume_session_id: None,
        compression_algos: vec![],
    };
    let (ack, outcome) = server_on_hello(&hello);
    assert!(!ack.success);
    assert_eq!(ack.error_msg.as_deref(), Some("Expected Client mode"));
    assert_eq!(outcome.unwrap_err().to_string(), "Protocol error: Expected Client mode");
}

#[test]
fn server_checks_the_token() {
    let good = AuthRequestMessage { token: Token::new("secret".into()).unwrap() };
    let (resp, r) = server_on_auth(&good, "secret");
    assert!(resp.success && resp.error_msg.is_none() && r.is_ok());

    let (resp, r) = server_on_auth(&good, "other");
    assert!(!resp.success);
    assert_eq!(resp.error_msg.as_deref(), Some("Invalid token"));
    assert_eq!(r.unwrap_err().to_string(), "Authentication error: Token mismatch");

    let empty = AuthRequestMessage { token: Token(String::new()) };
    let (resp, r) = server_on_auth(&empty, "secret");
    assert!(!resp.success);
    assert_eq!(
        resp.error_msg.as_deref(),
        Some("Invalid token: Protocol error: Token length must be 1-256 bytes, got 0")
    );
    assert_eq!(r.unwrap_err().to_string(), "Authentication error: Invalid token format");
}

#[test]
fn client_checks_the_answers() {
    let refused = HelloAckMessage {
        version: PROTOCOL_VERSION,
        session_id: SessionId::new("s".into()).unwrap(),
        success: false,
        error_msg: None,
        compression: None,
    };
    assert_eq!(
        client_on_hello_ack(&refused).unwrap_err().to_string(),
        "Protocol error: Handshake failed: unknown error"
    );
    let old = HelloAckMessage { success: true, version: 2, ..refused.clone() };
    assert_eq!(
        client_on_hello_ack(&old).unwrap_err().to_string(),
        "Protocol error: Protocol version mismatch: server 2 client 3"
    );
    let denied = AuthResponseMessage { success: false, error_msg: Some("Invalid token".into()) };
    let e = client_on_auth_response(&denied).unwrap_err();
    assert_eq!(e.to_string(), "Authentication error: Auth failed: Invalid token");
    assert!(!e.is_retriable());
    assert!(client_on_auth_response(&AuthResponseMessage { success: true, error_msg: None }).is_ok());
}

#[test]
fn a_full_handshake() {
    let token = Token::new("tok".into()).unwrap();
    let resume = Some(SessionId::new("prev".into()).unwrap());
    let hello = client_hello(resume.clone());
    let (ack, outcome) = server_on_hello(&hello);
    assert!(outcome.is_ok());
    client_on_hello_ack(&ack).unwrap();
    let req = client_auth_request(&token);
    assert_eq!(req.token.as_str(), "tok");
    let (resp, ok) = server_on_auth(&req, "tok");
    ok.unwrap();
    client_on_auth_response(&resp).unwrap();
    let server_side = server_handshake_result(ack.clone(), hello);
    let client_side = client_handshake_result(ack, resume);
    assert_eq!(server_side.session_id.as_str(), client_side.session_id.as_str());
    assert_eq!(server_side.compression, client_side.compression);
    assert_eq!(server_side.resume_session_id.unwrap().as_str(), "prev");
}

#[test]
fn handshake_errors() {
    assert_eq!(unexpected_frame(MessageType::Hello).to_string(), "Protocol error: Expected Hello frame");
    assert!(matches!(handshake_wait_error(MessageType::AuthRequest, true), rx11::error::Rx11Error::Timeout));
    assert_eq!(
        handshake_wait_error(MessageType::AuthRequest, false).to_string(),
        "Protocol error: Handshake timed out waiting for AuthRequest"
    );
}
