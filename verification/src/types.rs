use vstd::prelude::*;

use crate::error::Rx11Error;
use crate::text::{prefixed_decimal, spec_decimal, spec_hex_byte};

verus! {

pub const MAX_DISPLAY_NUMBER: u16 = 255;
pub const MAX_TOKEN_LEN: usize = 256;
pub const MAX_SESSION_ID_LEN: usize = 256;
pub const MAX_AUTH_NAME_LEN: usize = 256;
pub const MAX_AUTH_DATA_LEN: usize = 4096;

/// The number of bytes in the UTF-8 encoding of a string.
pub open spec fn utf8_len(s: Seq<char>) -> nat {
    vstd::utf8::encode_utf8(s).len()
}

/// Whether every character of a string is ASCII.
pub open spec fn ascii_text(s: Seq<char>) -> bool {
    forall|i: int| 0 <= i < s.len() ==> (#[trigger] s[i] as u32) < 128
}

/// ASCII text takes one byte per character in UTF-8.
pub proof fn lemma_ascii_utf8_len(s: Seq<char>)
    requires
        ascii_text(s),
    ensures
        utf8_len(s) == s.len(),
    decreases s.len(),
{
    if s.len() > 0 {
        assert(ascii_text(s.drop_first())) by {
            assert forall|i: int| 0 <= i < s.drop_first().len() implies (#[trigger] s.drop_first()[i] as u32) < 128 by {
                assert(s.drop_first()[i] == s[i + 1]);
            }
        }
        lemma_ascii_utf8_len(s.drop_first());
        assert((s[0] as u32) < 128);
    }
}

/// Whether a string is acceptable as an identifier of at most `max` bytes.
pub open spec fn valid_bounded_text(s: Seq<char>, max: nat) -> bool {
    s.len() > 0 && utf8_len(s) <= max
}

/// The message of the error for an identifier of `len` bytes, outside 1 to 256.
pub open spec fn length_error_message(what: Seq<char>, len: nat) -> Seq<char> {
    what + " length must be 1-256 bytes, got "@ + spec_decimal(len)
}

/// The error for an identifier of `len` bytes, outside 1 to 256.
fn length_error(what: &str, len: usize) -> (e: Rx11Error)
    ensures
        e matches Rx11Error::Protocol(m) && m@ == length_error_message(what@, len as nat),
{
    let mut m = what.to_owned();
    m.append(" length must be 1-256 bytes, got ");
    m.append(crate::text::decimal_string(len as u64).as_str());
    Rx11Error::Protocol(m)
}

pub fn protocol_error(msg: &str) -> (e: Rx11Error)
    ensures
        e matches Rx11Error::Protocol(m) && m@ == msg@,
{
    Rx11Error::Protocol(msg.to_owned())
}

/// An X11 display number, `:N`.
#[derive(Debug, Clone, Copy, PartialEq, Eq, Hash, Structural)]
pub struct DisplayNumber(pub u16);

impl DisplayNumber {
    pub fn new(disp: u16) -> (r: Result<DisplayNumber, Rx11Error>)
        ensures
            r is Ok <==> disp <= MAX_DISPLAY_NUMBER,
            r matches Ok(d) ==> d.0 == disp,
            r matches Err(e) ==> (e matches Rx11Error::Protocol(m) && m@
                == "Display number must be 0-255, got "@ + spec_decimal(disp as nat)),
    {
        if disp > MAX_DISPLAY_NUMBER {
            return Err(Rx11Error::Protocol(prefixed_decimal("Display number must be 0-255, got ", disp as u64)));
        }
        Ok(DisplayNumber(disp))
    }

    pub fn get(self) -> (r: u16)
        ensures
            r == self.0,
    {
        self.0
    }

    /// The display named where none is: a number outside 0 to 255.
    pub open spec fn unspecified_spec() -> DisplayNumber {
        DisplayNumber(0xFFFF)
    }

    /// The display named where none is: a number outside 0 to 255.
    pub fn unspecified() -> (d: DisplayNumber)
        ensures
            d == Self::unspecified_spec(),
    {
        DisplayNumber(0xFFFF)
    }

    /// The display's name as X11 writes it, `:N`.
    pub fn to_string(&self) -> (s: String)
        ensures
            s@ == ":"@ + spec_decimal(self.0 as nat),
    {
        prefixed_decimal(":", self.0 as u64)
    }
}

/// Identifies one X11 application connection multiplexed over a relay session.
#[derive(Debug, Clone, Copy, PartialEq, Eq, Hash, Structural)]
pub struct ConnectionId(pub u32);

impl ConnectionId {
    pub fn new(id: u32) -> (r: ConnectionId)
        ensures
            r.0 == id,
    {
        ConnectionId(id)
    }

    pub fn get(self) -> (r: u32)
        ensures
            r == self.0,
    {
        self.0
    }

    /// The connection's name in logs, `conn#N`.
    pub fn to_string(&self) -> (s: String)
        ensures
            s@ == "conn#"@ + spec_decimal(self.0 as nat),
    {
        prefixed_decimal("conn#", self.0 as u64)
    }
}

/// Identifies a relay session: 1 to 256 bytes of text.
#[derive(Debug, Clone)]
pub struct SessionId(pub String);

impl View for SessionId {
    type V = Seq<char>;

    open spec fn view(&self) -> Seq<char> {
        self.0@
    }
}

impl SessionId {
    pub fn new(value: String) -> (r: Result<SessionId, Rx11Error>)
        ensures
            r is Ok <==> valid_bounded_text(value@, MAX_SESSION_ID_LEN as nat),
            r matches Ok(id) ==> id@ == value@,
            r matches Err(e) ==> (e matches Rx11Error::Protocol(m) && m@ == length_error_message(
                "Session ID"@,
                utf8_len(value@),
            )),
    {
        let s: &str = value.as_str();
        if s.is_empty() || s.as_bytes().len() > MAX_SESSION_ID_LEN {
            return Err(length_error("Session ID", s.as_bytes().len()));
        }
        Ok(SessionId(value))
    }

    pub fn into_inner(self) -> (s: String)
        ensures
            s@ == self@,
    {
        self.0
    }

    pub fn as_str(&self) -> (s: &str)
        ensures
            s@ == self@,
    {
        self.0.as_str()
    }

    pub fn to_string(&self) -> (s: String)
        ensures
            s@ == self@,
    {
        self.0.clone()
    }
}

/// An authentication token: 1 to 256 bytes of text.
#[derive(Debug, Clone)]
pub struct Token(pub String);

impl View for Token {
    type V = Seq<char>;

    open spec fn view(&self) -> Seq<char> {
        self.0@
    }
}

impl Token {
    pub fn new(value: String) -> (r: Result<Token, Rx11Error>)
        ensures
            r is Ok <==> valid_bounded_text(value@, MAX_TOKEN_LEN as nat),
            r matches Ok(t) ==> t@ == value@,
            r matches Err(e) ==> (e matches Rx11Error::Protocol(m) && m@ == length_error_message(
                "Token"@,
                utf8_len(value@),
            )),
    {
        let s: &str = value.as_str();
        if s.is_empty() || s.as_bytes().len() > MAX_TOKEN_LEN {
            return Err(length_error("Token", s.as_bytes().len()));
        }
        Ok(Token(value))
    }

    pub fn into_inner(self) -> (s: String)
        ensures
            s@ == self@,
    {
        self.0
    }

    pub fn as_str(&self) -> (s: &str)
        ensures
            s@ == self@,
    {
        self.0.as_str()
    }

    pub fn to_string(&self) -> (s: String)
        ensures
            s@ == self@,
    {
        self.0.clone()
    }
}

/// Whether X11 authorization fields are within the sizes the relay accepts.
pub open spec fn auth_fields_valid(auth_name: Seq<char>, auth_data: Seq<u8>) -> bool {
    utf8_len(auth_name) <= MAX_AUTH_NAME_LEN && auth_data.len() <= MAX_AUTH_DATA_LEN
}

pub fn validate_auth_fields(auth_name: &str, auth_data: &[u8]) -> (r: Result<(), Rx11Error>)
    ensures
        r is Ok <==> auth_fields_valid(auth_name@, auth_data@),
        utf8_len(auth_name@) > MAX_AUTH_NAME_LEN ==> (r matches Err(e) && e matches Rx11Error::Protocol(m)
            && m@ == "auth_name too long: "@ + spec_decimal(utf8_len(auth_name@)) + " bytes (max 256)"@),
        utf8_len(auth_name@) <= MAX_AUTH_NAME_LEN && auth_data@.len() > MAX_AUTH_DATA_LEN ==> (r matches Err(e)
            && e matches Rx11Error::Protocol(m) && m@ == "auth_data too long: "@ + spec_decimal(
            auth_data@.len(),
        ) + " bytes (max 4096)"@),
{
    if auth_name.as_bytes().len() > MAX_AUTH_NAME_LEN {
        let mut m = prefixed_decimal("auth_name too long: ", auth_name.as_bytes().len() as u64);
        m.append(" bytes (max 256)");
        return Err(Rx11Error::Protocol(m));
    }
    if auth_data.len() > MAX_AUTH_DATA_LEN {
        let mut m = prefixed_decimal("auth_data too long: ", auth_data.len() as u64);
        m.append(" bytes (max 4096)");
        return Err(Rx11Error::Protocol(m));
    }
    Ok(())
}

} // verus!

verus! {

/// A protocol error whose message ends in the hexadecimal digits of a byte.
pub fn error_with_hex(prefix: &str, b: u8) -> (e: Rx11Error)
    ensures
        e matches Rx11Error::Protocol(m) && m@ == prefix@ + spec_hex_byte(b),
{
    Rx11Error::Protocol(crate::text::prefixed_hex_byte(prefix, b))
}

} // verus!

verus! {

/// Whether a character is an ASCII decimal digit.
pub open spec fn is_ascii_digit(c: char) -> bool {
    48 <= (c as u32) && (c as u32) <= 57
}

/// The number that a string of decimal digits writes.
pub open spec fn digits_value(s: Seq<char>) -> nat
    decreases s.len(),
{
    if s.len() == 0 {
        0
    } else {
        digits_value(s.drop_last()) * 10 + ((s.last() as u32) - 48) as nat
    }
}

/// The digits of a number written with an optional leading `+`.
pub open spec fn unsigned_digits(s: Seq<char>) -> Seq<char> {
    if s.len() > 0 && s[0] == '+' {
        s.drop_first()
    } else {
        s
    }
}

/// The 16-bit number a string writes, as Rust's `u16::from_str` reads it: an optional
/// `+`, then one or more decimal digits, of a value that fits in 16 bits.
pub open spec fn spec_parse_u16(s: Seq<char>) -> Option<u16> {
    let d = unsigned_digits(s);
    if d.len() > 0 && (forall|i: int| 0 <= i < d.len() ==> is_ascii_digit(#[trigger] d[i]))
        && digits_value(d) <= u16::MAX {
        Some(digits_value(d) as u16)
    } else {
        None
    }
}

proof fn lemma_digits_value_grows(d: Seq<char>, k: int)
    requires
        0 <= k <= d.len(),
        forall|i: int| 0 <= i < d.len() ==> is_ascii_digit(#[trigger] d[i]),
    ensures
        digits_value(d) >= digits_value(d.take(k)),
    decreases d.len(),
{
    if k < d.len() {
        let p = d.drop_last();
        assert forall|i: int| 0 <= i < p.len() implies is_ascii_digit(#[trigger] p[i]) by {
            assert(p[i] == d[i]);
        }
        lemma_digits_value_grows(p, k);
        assert(p.take(k) =~= d.take(k));
    } else {
        assert(d.take(k) =~= d);
    }
}

/// Reads a 16-bit number written in decimal, as `u16::from_str` does.
pub fn parse_u16(s: &str) -> (r: Option<u16>)
    ensures
        r == spec_parse_u16(s@),
{
    let n = s.unicode_len();
    let mut i: usize = 0;
    if n > 0 && s.get_char(0) == '+' {
        i = 1;
    }
    let start = i;
    let ghost d = unsigned_digits(s@);
    proof {
        if start == 1 {
            assert(d =~= s@.subrange(1, s@.len() as int));
        } else {
            assert(d =~= s@.subrange(0, s@.len() as int));
        }
    }
    if i >= n {
        return None;
    }
    let mut acc: u32 = 0;
    while i < n
        invariant
            start <= i <= n,
            n == s@.len(),
            start <= 1,
            d == s@.subrange(start as int, n as int),
            d == unsigned_digits(s@),
            d.len() > 0,
            forall|j: int| 0 <= j < i - start ==> is_ascii_digit(#[trigger] d[j]),
            acc == digits_value(d.take(i - start)),
            acc <= u16::MAX,
        decreases n - i,
    {
        let c = s.get_char(i);
        let ghost k = i - start;
        assert(d[k] == c);
        if !((c as u32) >= 48 && (c as u32) <= 57) {
            proof {
                assert(!is_ascii_digit(d[k]));
                assert(!(forall|j: int| 0 <= j < d.len() ==> is_ascii_digit(#[trigger] d[j])));
                assert(spec_parse_u16(s@) is None);
            }
            return None;
        }
        proof {
            assert(d.take(k + 1).drop_last() =~= d.take(k));
            assert(d.take(k + 1).last() == c);
            assert(digits_value(d.take(k + 1)) == digits_value(d.take(k)) * 10 + ((c as u32) - 48) as nat);
        }
        acc = acc * 10 + ((c as u32) - 48);
        if acc > 0xFFFF {
            proof {
                assert(digits_value(d.take(k + 1)) == acc);
                if forall|j: int| 0 <= j < d.len() ==> is_ascii_digit(#[trigger] d[j]) {
                    lemma_digits_value_grows(d, k + 1);
                    assert(digits_value(d) > u16::MAX);
                }
                assert(spec_parse_u16(s@) is None);
            }
            return None;
        }
        i = i + 1;
    }
    proof {
        assert(d.take(n - start) =~= d);
    }
    Some(acc as u16)
}

impl DisplayNumber {
    /// The display a string names by its number, as `from_str` reads it.
    pub fn parse(s: &str) -> (r: Result<DisplayNumber, Rx11Error>)
        ensures
            spec_parse_u16(s@) is None ==> (r matches Err(e) && e matches Rx11Error::Protocol(m) && m@
                == "Invalid display number: "@ + s@),
            spec_parse_u16(s@) matches Some(d) ==> (d <= MAX_DISPLAY_NUMBER ==> r == Ok::<
                DisplayNumber,
                Rx11Error,
            >(DisplayNumber(d))) && (d > MAX_DISPLAY_NUMBER ==> (r matches Err(e) && e matches Rx11Error::Protocol(m)
                && m@ == "Display number must be 0-255, got "@ + spec_decimal(d as nat))),
    {
        match parse_u16(s) {
            None => {
                let mut m = "Invalid display number: ".to_owned();
                m.append(s);
                Err(Rx11Error::Protocol(m))
            },
            Some(d) => DisplayNumber::new(d),
        }
    }
}

impl std::str::FromStr for DisplayNumber {
    type Err = Rx11Error;

    fn from_str(s: &str) -> (r: Result<DisplayNumber, Rx11Error>)
        ensures
            spec_parse_u16(s@) is None ==> (r matches Err(e) && e matches Rx11Error::Protocol(m) && m@
                == "Invalid display number: "@ + s@),
            spec_parse_u16(s@) matches Some(d) ==> (d <= MAX_DISPLAY_NUMBER ==> r == Ok::<
                DisplayNumber,
                Rx11Error,
            >(DisplayNumber(d))) && (d > MAX_DISPLAY_NUMBER ==> (r matches Err(e) && e matches Rx11Error::Protocol(m)
                && m@ == "Display number must be 0-255, got "@ + spec_decimal(d as nat))),
    {
        DisplayNumber::parse(s)
    }
}

impl std::str::FromStr for SessionId {
    type Err = Rx11Error;

    fn from_str(s: &str) -> (r: Result<SessionId, Rx11Error>)
        ensures
            r is Ok <==> valid_bounded_text(s@, MAX_SESSION_ID_LEN as nat),
            r matches Ok(v) ==> v@ == s@,
            r matches Err(e) ==> (e matches Rx11Error::Protocol(m) && m@ == length_error_message(
                "Session ID"@,
                utf8_len(s@),
            )),
    {
        SessionId::new(s.to_owned())
    }
}

impl std::str::FromStr for Token {
    type Err = Rx11Error;

    fn from_str(s: &str) -> (r: Result<Token, Rx11Error>)
        ensures
            r is Ok <==> valid_bounded_text(s@, MAX_TOKEN_LEN as nat),
            r matches Ok(v) ==> v@ == s@,
            r matches Err(e) ==> (e matches Rx11Error::Protocol(m) && m@ == length_error_message(
                "Token"@,
                utf8_len(s@),
            )),
    {
        Token::new(s.to_owned())
    }
}

} // verus!
