//! Authentication tokens and X11 display cookies.

use vstd::prelude::*;

use vstd::utf8::encode_utf8;

use crate::text::{prefixed_decimal, spec_decimal, spec_hex_byte, string_from_ascii, ascii_chars, all_ascii};

verus! {

/// Whether a provided token matches the expected one: both non-empty, with the same bytes.
pub open spec fn spec_verify_token(provided: Seq<char>, expected: Seq<char>) -> bool {
    provided.len() > 0 && expected.len() > 0 && encode_utf8(provided) == encode_utf8(expected)
}

/// A non-empty token matches itself, and the empty token matches nothing.
pub proof fn lemma_verify_token_reflexive(t: Seq<char>)
    ensures
        spec_verify_token(t, t) <==> t.len() > 0,
{
}

/// Two tokens match exactly when they are the same non-empty text.
pub proof fn lemma_verify_token_is_equality(a: Seq<char>, b: Seq<char>)
    ensures
        spec_verify_token(a, b) <==> (a.len() > 0 && a == b),
{
    if spec_verify_token(a, b) {
        vstd::utf8::encode_utf8_decode_utf8(a);
        vstd::utf8::encode_utf8_decode_utf8(b);
    }
}

/// Whether two tokens match does not depend on which one is provided.
pub proof fn lemma_verify_token_symmetric(a: Seq<char>, b: Seq<char>)
    ensures
        spec_verify_token(a, b) == spec_verify_token(b, a),
{
}

/// Compares a provided token with the expected one, in time that depends only on the
/// provided token's length.
pub fn verify_token(provided: &str, expected: &str) -> (r: bool)
    ensures
        r == spec_verify_token(provided@, expected@),
{
    if provided.is_empty() || expected.is_empty() {
        return false;
    }
    let p = provided.as_bytes();
    let e = expected.as_bytes();
    if p.len() != e.len() {
        let mut dummy: u8 = 0;
        let mut k: usize = 0;
        while k < p.len()
            invariant
                k <= p@.len(),
            decreases p@.len() - k,
        {
            dummy = dummy.wrapping_add(p[k]);
            k = k + 1;
        }
        return false;
    }
    let mut mismatch: u8 = 0;
    let mut i: usize = 0;
    while i < p.len()
        invariant
            p@.len() == e@.len(),
            i <= p@.len(),
            (mismatch == 0) <==> (forall|j: int| 0 <= j < i ==> p@[j] == e@[j]),
        decreases p@.len() - i,
    {
        let a = p[i];
        let b = e[i];
        let acc = mismatch;
        assert(((acc | (a ^ b)) == 0) <==> (acc == 0 && a == b)) by (bit_vector);
        mismatch = acc | (a ^ b);
        i = i + 1;
    }
    proof {
        if mismatch == 0 {
            assert(p@ =~= e@);
        }
    }
    mismatch == 0
}

/// The lowercase hexadecimal digits of the bytes, two per byte.
pub open spec fn spec_hex(bytes: Seq<u8>) -> Seq<char>
    decreases bytes.len(),
{
    if bytes.len() == 0 {
        Seq::empty()
    } else {
        spec_hex(bytes.drop_last()) + spec_hex_byte(bytes.last())
    }
}

/// Encodes bytes as lowercase hexadecimal with `hex::encode`.
///
/// Trusted: `hex::encode` writes each byte as two lowercase hexadecimal digits, in order.
#[verifier::external_body]
fn hex_encode(bytes: &[u8]) -> (s: String)
    ensures
        s@ == spec_hex(bytes@),
{
    hex::encode(bytes)
}

/// Thirty-two random bytes, from `rand::random`.
///
/// Trusted for nothing: the bytes are whatever the thread-local generator produced.
#[verifier::external_body]
fn random_bytes_32() -> [u8; 32] {
    rand::random::<[u8; 32]>()
}

/// Sixteen random bytes, from `rand::random`.
///
/// Trusted for nothing: the bytes are whatever the thread-local generator produced.
#[verifier::external_body]
fn random_bytes_16() -> [u8; 16] {
    rand::random::<[u8; 16]>()
}

pub open spec fn is_lower_hex_char(c: char) -> bool {
    ('0' <= c && c <= '9') || ('a' <= c && c <= 'f')
}

proof fn lemma_hex_chars(bytes: Seq<u8>)
    ensures
        spec_hex(bytes).len() == 2 * bytes.len(),
        forall|i: int| 0 <= i < spec_hex(bytes).len() ==> is_lower_hex_char(#[trigger] spec_hex(bytes)[i]),
    decreases bytes.len(),
{
    if bytes.len() > 0 {
        lemma_hex_chars(bytes.drop_last());
        let h = spec_hex(bytes.drop_last());
        let b = bytes.last();
        assert(spec_hex(bytes) == h + spec_hex_byte(b));
        assert forall|i: int| 0 <= i < spec_hex(bytes).len() implies is_lower_hex_char(#[trigger] spec_hex(bytes)[i]) by {
            if i >= h.len() {
                assert(spec_hex(bytes)[i] == spec_hex_byte(b)[i - h.len()]);
            } else {
                assert(spec_hex(bytes)[i] == h[i]);
            }
        }
    }
}

/// The token that stands for these random bytes: their lowercase hexadecimal digits.
pub fn token_from_bytes(bytes: &[u8; 32]) -> (s: String)
    ensures
        s@ == spec_hex(bytes@),
        s@.len() == 64,
        forall|i: int| 0 <= i < s@.len() ==> is_lower_hex_char(#[trigger] s@[i]),
{
    proof {
        lemma_hex_chars(bytes@);
    }
    hex_encode(bytes.as_slice())
}

/// A fresh random token: 32 random bytes as 64 lowercase hexadecimal digits.
pub fn generate_token() -> (s: String)
    ensures
        s@.len() == 64,
        forall|i: int| 0 <= i < s@.len() ==> is_lower_hex_char(#[trigger] s@[i]),
{
    let bytes = random_bytes_32();
    token_from_bytes(&bytes)
}

/// An X11 authorization cookie as `xauth` takes it: its lowercase hexadecimal digits.
pub fn cookie_hex(data: &[u8]) -> (s: String)
    ensures
        s@ == spec_hex(data@),
{
    hex_encode(data)
}

/// The arguments of `xauth` that add the cookie `auth_data` of protocol `auth_name` for
/// display `disp`: `add :N <name> <hex cookie>`.
pub fn xauth_add_args(disp: u16, auth_name: &str, auth_data: &[u8]) -> (args: Vec<String>)
    ensures
        args@.len() == 4,
        args@[0]@ == "add"@,
        args@[1]@ == ":"@ + spec_decimal(disp as nat),
        args@[2]@ == auth_name@,
        args@[3]@ == spec_hex(auth_data@),
{
    let mut args: Vec<String> = Vec::new();
    args.push("add".to_owned());
    args.push(prefixed_decimal(":", disp as u64));
    args.push(auth_name.to_owned());
    args.push(cookie_hex(auth_data));
    args
}

/// The arguments of `xauth` that remove the entry of display `disp`: `remove :N`.
pub fn xauth_remove_args(disp: u16) -> (args: Vec<String>)
    ensures
        args@.len() == 2,
        args@[0]@ == "remove"@,
        args@[1]@ == ":"@ + spec_decimal(disp as nat),
{
    let mut args: Vec<String> = Vec::new();
    args.push("remove".to_owned());
    args.push(prefixed_decimal(":", disp as u64));
    args
}

/// A fresh random X11 authorization cookie of 16 bytes.
pub fn generate_display_cookie() -> (v: Vec<u8>)
    ensures
        v@.len() == 16,
{
    let cookie = random_bytes_16();
    let mut v: Vec<u8> = Vec::new();
    let mut i: usize = 0;
    while i < 16
        invariant
            i <= 16,
            v@.len() == i,
        decreases 16 - i,
    {
        v.push(cookie[i]);
        i = i + 1;
    }
    v
}

} // verus!
