use vstd::prelude::*;

verus! {

/// The ASCII character of a decimal digit.
pub open spec fn digit_char(d: nat) -> char {
    (48 + d) as char
}

/// The decimal representation of `n`, without leading zeros.
pub open spec fn spec_decimal(n: nat) -> Seq<char>
    decreases n,
{
    if n < 10 {
        seq![digit_char(n)]
    } else {
        spec_decimal(n / 10).push(digit_char(n % 10))
    }
}

/// The characters that the bytes of an ASCII string stand for.
pub open spec fn ascii_chars(bytes: Seq<u8>) -> Seq<char> {
    bytes.map_values(|b: u8| b as char)
}

pub open spec fn all_ascii(bytes: Seq<u8>) -> bool {
    forall|i: int| 0 <= i < bytes.len() ==> #[trigger] bytes[i] < 128
}

/// Builds a string from ASCII bytes, by `String::from_utf8`.
///
/// Trusted: for bytes that are all below 128 (ASCII, hence valid UTF-8), `from_utf8`
/// succeeds and the string holds one character per byte, that byte's character.
#[verifier::external_body]
pub(crate) fn string_from_ascii(bytes: Vec<u8>) -> (s: String)
    requires
        all_ascii(bytes@),
    ensures
        s@ == ascii_chars(bytes@),
{
    match String::from_utf8(bytes) {
        Ok(s) => s,
        Err(_) => String::new(),
    }
}

/// Appends the ASCII decimal digits of `n`.
pub fn push_decimal(buf: &mut Vec<u8>, n: u64)
    requires
        all_ascii(old(buf)@),
    ensures
        all_ascii(final(buf)@),
        ascii_chars(final(buf)@) == ascii_chars(old(buf)@) + spec_decimal(n as nat),
    decreases n,
{
    if n >= 10 {
        push_decimal(buf, n / 10);
    }
    let ghost mid = buf@;
    let d: u8 = (n % 10) as u8;
    buf.push(48u8 + d);
    proof {
        assert(ascii_chars(buf@) =~= ascii_chars(mid).push(digit_char(d as nat)));
        if n >= 10 {
            assert(spec_decimal(n as nat) == spec_decimal((n / 10) as nat).push(digit_char((n % 10) as nat)));
        }
    }
}

/// The decimal representation of `n`.
pub fn decimal_string(n: u64) -> (s: String)
    ensures
        s@ == spec_decimal(n as nat),
{
    let mut buf: Vec<u8> = Vec::new();
    assert(ascii_chars(buf@) =~= Seq::<char>::empty());
    push_decimal(&mut buf, n);
    assert(Seq::<char>::empty() + spec_decimal(n as nat) =~= spec_decimal(n as nat));
    string_from_ascii(buf)
}

/// `prefix` followed by the decimal representation of `n`.
pub fn prefixed_decimal(prefix: &str, n: u64) -> (s: String)
    ensures
        s@ == prefix@ + spec_decimal(n as nat),
{
    let mut s = prefix.to_owned();
    let d = decimal_string(n);
    s.append(d.as_str());
    s
}

} // verus!

verus! {

/// The lowercase hexadecimal digit of `d`, for `d < 16`.
pub open spec fn hex_digit(d: nat) -> char {
    if d < 10 {
        (48 + d) as char
    } else {
        (87 + d) as char
    }
}

/// The two lowercase hexadecimal digits of a byte.
pub open spec fn spec_hex_byte(b: u8) -> Seq<char> {
    seq![hex_digit((b / 16) as nat), hex_digit((b % 16) as nat)]
}

fn hex_digit_byte(d: u8) -> (r: u8)
    requires
        d < 16,
    ensures
        r < 128,
        r as char == hex_digit(d as nat),
{
    if d < 10 {
        48 + d
    } else {
        87 + d
    }
}

/// `prefix` followed by the two lowercase hexadecimal digits of `b`.
pub fn prefixed_hex_byte(prefix: &str, b: u8) -> (s: String)
    ensures
        s@ == prefix@ + spec_hex_byte(b),
{
    let mut buf: Vec<u8> = Vec::new();
    buf.push(hex_digit_byte(b / 16));
    buf.push(hex_digit_byte(b % 16));
    assert(ascii_chars(buf@) =~= spec_hex_byte(b));
    let h = string_from_ascii(buf);
    let mut s = prefix.to_owned();
    s.append(h.as_str());
    s
}

} // verus!
