use vstd::prelude::*;

verus! {

/// The kinds of I/O failure that the relay distinguishes.
#[derive(Debug, Clone, Copy, PartialEq, Eq, Structural)]
pub enum IoErrorKind {
    NotFound,
    PermissionDenied,
    ConnectionRefused,
    ConnectionReset,
    ConnectionAborted,
    NotConnected,
    AddrInUse,
    AddrNotAvailable,
    BrokenPipe,
    AlreadyExists,
    WouldBlock,
    InvalidInput,
    InvalidData,
    TimedOut,
    WriteZero,
    Interrupted,
    Unsupported,
    UnexpectedEof,
    OutOfMemory,
    Other,
}

/// An I/O failure: its kind and the message that describes it.
#[derive(Debug, Clone)]
pub struct IoError {
    pub kind: IoErrorKind,
    pub message: String,
}

impl IoError {
    pub fn new(kind: IoErrorKind, message: String) -> (e: IoError)
        ensures
            e.kind == kind,
            e.message@ == message@,
    {
        IoError { kind, message }
    }
}

/// Errors of the relay protocol and its transport.
#[derive(Debug, Clone)]
pub enum Rx11Error {
    Io(IoError),
    Protocol(String),
    Auth(String),
    ConnectionClosed,
    Timeout,
}

/// The I/O failures after which a reconnect may succeed.
pub open spec fn io_kind_is_retriable(kind: IoErrorKind) -> bool {
    match kind {
        IoErrorKind::ConnectionRefused
        | IoErrorKind::ConnectionReset
        | IoErrorKind::ConnectionAborted
        | IoErrorKind::BrokenPipe
        | IoErrorKind::TimedOut
        | IoErrorKind::Interrupted
        | IoErrorKind::UnexpectedEof => true,
        _ => false,
    }
}

/// Whether an error is transient: worth a reconnect attempt.
pub open spec fn spec_is_retriable(e: Rx11Error) -> bool {
    match e {
        Rx11Error::Io(io) => io_kind_is_retriable(io.kind),
        Rx11Error::Timeout | Rx11Error::ConnectionClosed => true,
        _ => false,
    }
}

/// A refused authentication, and any other protocol error, is final: only failures of
/// the network or of time are worth another attempt.
pub proof fn lemma_only_transport_errors_are_retriable(e: Rx11Error)
    ensures
        spec_is_retriable(e) ==> (e is Io || e is Timeout || e is ConnectionClosed),
        e is Auth ==> !spec_is_retriable(e),
        e is Protocol ==> !spec_is_retriable(e),
{
}

/// The text that describes an error.
pub open spec fn error_text(e: Rx11Error) -> Seq<char> {
    match e {
        Rx11Error::Io(io) => "IO error: "@ + io.message@,
        Rx11Error::Protocol(m) => "Protocol error: "@ + m@,
        Rx11Error::Auth(m) => "Authentication error: "@ + m@,
        Rx11Error::ConnectionClosed => "Connection closed"@,
        Rx11Error::Timeout => "Timeout"@,
    }
}

fn prefixed(prefix: &str, text: &String) -> (s: String)
    ensures
        s@ == prefix@ + text@,
{
    let mut s = prefix.to_owned();
    s.append(text.as_str());
    s
}

impl Rx11Error {
    /// The text that describes the error.
    pub fn to_string(&self) -> (s: String)
        ensures
            s@ == error_text(*self),
    {
        match self {
            Rx11Error::Io(io) => prefixed("IO error: ", &io.message),
            Rx11Error::Protocol(m) => prefixed("Protocol error: ", m),
            Rx11Error::Auth(m) => prefixed("Authentication error: ", m),
            Rx11Error::ConnectionClosed => "Connection closed".to_owned(),
            Rx11Error::Timeout => "Timeout".to_owned(),
        }
    }

    pub fn is_retriable(&self) -> (r: bool)
        ensures
            r == spec_is_retriable(*self),
    {
        match self {
            Rx11Error::Io(e) => match e.kind {
                IoErrorKind::ConnectionRefused
                | IoErrorKind::ConnectionReset
                | IoErrorKind::ConnectionAborted
                | IoErrorKind::BrokenPipe
                | IoErrorKind::TimedOut
                | IoErrorKind::Interrupted
                | IoErrorKind::UnexpectedEof => true,
                _ => false,
            },
            Rx11Error::Timeout | Rx11Error::ConnectionClosed => true,
            _ => false,
        }
    }
}

} // verus!
