//! The handshake: the client says hello and offers its compression algorithms, the
//! server answers with the session id and the algorithm agreed, then the client proves
//! it holds the token.
//!
//! Each side's steps are functions from what was received to what is sent back and
//! whether the handshake goes on; the caller does the sending and receiving.

use vstd::prelude::*;

use crate::auth::{spec_verify_token, verify_token};
use crate::compress::{all_algos, spec_negotiate, CompressionAlgo};
use crate::error::{error_text, Rx11Error};
use crate::protocol::{
    message_type_name, AuthRequestMessage, AuthResponseMessage, ConnectionMode, HandshakeResult,
    HelloAckMessage, HelloMessage, MessageType, PROTOCOL_VERSION,
};
use crate::session::new_session_id;
use crate::text::spec_decimal;
use crate::types::{valid_bounded_text, SessionId, Token, MAX_SESSION_ID_LEN, MAX_TOKEN_LEN};

verus! {

/// The error for a frame of another type than the one the handshake waits for.
pub fn unexpected_frame(expected: MessageType) -> (e: Rx11Error)
    ensures
        e matches Rx11Error::Protocol(m) && m@ == "Expected "@ + message_type_name(expected) + " frame"@,
{
    let mut m = "Expected ".to_owned();
    m.append(expected.name());
    m.append(" frame");
    Rx11Error::Protocol(m)
}

/// The error for a handshake step that received nothing: `Timeout` where the time ran
/// out, else a protocol error naming the message waited for.
pub fn handshake_wait_error(waiting_for: MessageType, timed_out: bool) -> (e: Rx11Error)
    ensures
        timed_out ==> e is Timeout,
        !timed_out ==> (e matches Rx11Error::Protocol(m) && m@ == "Handshake timed out waiting for "@
            + message_type_name(waiting_for)),
{
    if timed_out {
        return Rx11Error::Timeout;
    }
    let mut m = "Handshake timed out waiting for ".to_owned();
    m.append(waiting_for.name());
    Rx11Error::Protocol(m)
}

/// The reason a hello of version `version` is refused.
pub open spec fn version_mismatch_message(version: u32) -> Seq<char> {
    "Version mismatch: got "@ + spec_decimal(version as nat) + " expected 3"@
}

/// The server's answer to a client's hello, and whether the handshake goes on.
///
/// A hello of the right version from a client is accepted: the answer carries a fresh
/// session id and the first algorithm, in order of preference, that the client offers.
/// A hello of another version, or from a peer that is not a client, is refused: the
/// answer says why, carries no session id, and the handshake ends with the same reason.
pub fn server_on_hello(hello: &HelloMessage) -> (r: (HelloAckMessage, Result<(), Rx11Error>))
    ensures
        hello.version != PROTOCOL_VERSION ==> {
            &&& r.0.version == PROTOCOL_VERSION
            &&& !r.0.success
            &&& r.0.session_id@ == Seq::<char>::empty()
            &&& r.0.error_msg matches Some(m) && m@ == version_mismatch_message(hello.version)
            &&& r.0.compression is None
            &&& r.1 matches Err(e) && e matches Rx11Error::Protocol(m) && m@ == version_mismatch_message(
                hello.version,
            )
        },
        hello.version == PROTOCOL_VERSION && hello.mode != ConnectionMode::Client ==> {
            &&& r.0.version == PROTOCOL_VERSION
            &&& !r.0.success
            &&& r.0.session_id@ == Seq::<char>::empty()
            &&& r.0.error_msg matches Some(m) && m@ == "Expected Client mode"@
            &&& r.0.compression is None
            &&& r.1 matches Err(e) && e matches Rx11Error::Protocol(m) && m@ == "Expected Client mode"@
        },
        hello.version == PROTOCOL_VERSION && hello.mode == ConnectionMode::Client ==> {
            &&& r.0.version == PROTOCOL_VERSION
            &&& r.0.success
            &&& r.0.error_msg is None
            &&& r.0.compression == spec_negotiate(hello.compression_algos@, all_algos())
            &&& r.0.session_id@.len() == 36
            &&& valid_bounded_text(r.0.session_id@, MAX_SESSION_ID_LEN as nat)
            &&& r.1 is Ok
        },
{
    if hello.version != PROTOCOL_VERSION {
        let mut m = crate::text::prefixed_decimal("Version mismatch: got ", hello.version as u64);
        m.append(" expected 3");
        return (refusal(m.clone()), Err(Rx11Error::Protocol(m)));
    }
    if hello.mode != ConnectionMode::Client {
        let m = "Expected Client mode".to_owned();
        return (refusal(m.clone()), Err(Rx11Error::Protocol(m)));
    }
    let all = CompressionAlgo::all();
    let compression = CompressionAlgo::negotiate(hello.compression_algos.as_slice(), all.as_slice());
    let session_id = new_session_id();
    (
        HelloAckMessage { version: PROTOCOL_VERSION, session_id, success: true, error_msg: None, compression },
        Ok(()),
    )
}

/// The answer that refuses a hello for `reason`.
fn refusal(reason: String) -> (ack: HelloAckMessage)
    ensures
        ack.version == PROTOCOL_VERSION,
        !ack.success,
        ack.session_id@ == Seq::<char>::empty(),
        ack.error_msg matches Some(m) && m@ == reason@,
        ack.compression is None,
{
    HelloAckMessage {
        version: PROTOCOL_VERSION,
        session_id: SessionId(String::new()),
        success: false,
        error_msg: Some(reason),
        compression: None,
    }
}

/// The server's answer to a client's proof of the token, and whether the handshake goes
/// on: a token of a length that no token has is refused, as is one that differs from
/// the server's.
pub fn server_on_auth(req: &AuthRequestMessage, auth_token: &str) -> (r: (
    AuthResponseMessage,
    Result<(), Rx11Error>,
))
    ensures
        !valid_bounded_text(req.token@, MAX_TOKEN_LEN as nat) ==> {
            &&& !r.0.success
            &&& r.0.error_msg matches Some(m) && m@ == "Invalid token: "@ + "Protocol error: "@
                + crate::types::length_error_message("Token"@, crate::types::utf8_len(req.token@))
            &&& r.1 matches Err(e) && e matches Rx11Error::Auth(m) && m@ == "Invalid token format"@
        },
        valid_bounded_text(req.token@, MAX_TOKEN_LEN as nat) && !spec_verify_token(req.token@, auth_token@)
            ==> {
            &&& !r.0.success
            &&& r.0.error_msg matches Some(m) && m@ == "Invalid token"@
            &&& r.1 matches Err(e) && e matches Rx11Error::Auth(m) && m@ == "Token mismatch"@
        },
        valid_bounded_text(req.token@, MAX_TOKEN_LEN as nat) && spec_verify_token(req.token@, auth_token@)
            ==> {
            &&& r.0.success
            &&& r.0.error_msg is None
            &&& r.1 is Ok
        },
{
    match Token::new(req.token.0.clone()) {
        Err(e) => {
            let mut m = "Invalid token: ".to_owned();
            m.append(e.to_string().as_str());
            return (
                AuthResponseMessage { success: false, error_msg: Some(m) },
                Err(Rx11Error::Auth("Invalid token format".to_owned())),
            );
        },
        Ok(_) => {},
    }
    if !verify_token(req.token.as_str(), auth_token) {
        return (
            AuthResponseMessage { success: false, error_msg: Some("Invalid token".to_owned()) },
            Err(Rx11Error::Auth("Token mismatch".to_owned())),
        );
    }
    (AuthResponseMessage { success: true, error_msg: None }, Ok(()))
}

/// What the server's handshake established: the session id it gave, the algorithm
/// agreed, and the session the client asked to resume.
pub fn server_handshake_result(ack: HelloAckMessage, hello: HelloMessage) -> (r: HandshakeResult)
    ensures
        r.session_id == ack.session_id,
        r.compression == ack.compression,
        r.resume_session_id == hello.resume_session_id,
{
    HandshakeResult {
        session_id: ack.session_id,
        compression: ack.compression,
        resume_session_id: hello.resume_session_id,
    }
}

/// The client's hello: this protocol version, client mode, the session to resume if
/// any, and every compression algorithm.
pub fn client_hello(resume_session_id: Option<SessionId>) -> (h: HelloMessage)
    ensures
        h.version == PROTOCOL_VERSION,
        h.mode == ConnectionMode::Client,
        h.resume_session_id == resume_session_id,
        h.compression_algos@ == all_algos(),
{
    HelloMessage {
        version: PROTOCOL_VERSION,
        mode: ConnectionMode::Client,
        resume_session_id,
        compression_algos: CompressionAlgo::all(),
    }
}

/// The reason that a refusal gives, or "unknown error" where it gives none.
pub open spec fn reason_text(msg: Option<String>) -> Seq<char> {
    match msg {
        Some(m) => m@,
        None => "unknown error"@,
    }
}

fn reason(msg: &Option<String>) -> (s: &str)
    ensures
        s@ == reason_text(*msg),
{
    match msg {
        Some(m) => m.as_str(),
        None => "unknown error",
    }
}

/// Whether the client goes on after the server's answer to its hello: a refusal, or an
/// answer of another protocol version, ends the handshake.
pub fn client_on_hello_ack(ack: &HelloAckMessage) -> (r: Result<(), Rx11Error>)
    ensures
        !ack.success ==> (r matches Err(e) && e matches Rx11Error::Protocol(m) && m@ == "Handshake failed: "@
            + reason_text(ack.error_msg)),
        ack.success && ack.version != PROTOCOL_VERSION ==> (r matches Err(e) && e matches Rx11Error::Protocol(
            m,
        ) && m@ == "Protocol version mismatch: server "@ + spec_decimal(ack.version as nat)
            + " client 3"@),
        ack.success && ack.version == PROTOCOL_VERSION ==> r is Ok,
{
    if !ack.success {
        let mut m = "Handshake failed: ".to_owned();
        m.append(reason(&ack.error_msg));
        return Err(Rx11Error::Protocol(m));
    }
    if ack.version != PROTOCOL_VERSION {
        let mut m = crate::text::prefixed_decimal("Protocol version mismatch: server ", ack.version as u64);
        m.append(" client 3");
        return Err(Rx11Error::Protocol(m));
    }
    Ok(())
}

/// The client's proof of the token.
pub fn client_auth_request(token: &Token) -> (m: AuthRequestMessage)
    ensures
        m.token@ == token@,
{
    AuthRequestMessage { token: Token(token.to_string()) }
}

/// Whether the client goes on after the server's answer to its token.
pub fn client_on_auth_response(resp: &AuthResponseMessage) -> (r: Result<(), Rx11Error>)
    ensures
        !resp.success ==> (r matches Err(e) && e matches Rx11Error::Auth(m) && m@ == "Auth failed: "@
            + reason_text(resp.error_msg)),
        resp.success ==> r is Ok,
{
    if !resp.success {
        let mut m = "Auth failed: ".to_owned();
        m.append(reason(&resp.error_msg));
        return Err(Rx11Error::Auth(m));
    }
    Ok(())
}

/// What the client's handshake established: the session id and algorithm the server
/// gave, and the session it asked to resume.
pub fn client_handshake_result(ack: HelloAckMessage, resume_session_id: Option<SessionId>) -> (r:
    HandshakeResult)
    ensures
        r.session_id == ack.session_id,
        r.compression == ack.compression,
        r.resume_session_id == resume_session_id,
{
    HandshakeResult { session_id: ack.session_id, compression: ack.compression, resume_session_id }
}

} // verus!
