use rx11::auth::{generate_display_cookie, generate_token, token_from_bytes, verify_token};

#[test]
fn test_generate_token_length() {
    let token = generate_token();
    assert_eq!(token.len(), 64);
}

#[test]
fn test_generate_token_is_hex() {
    let token = generate_token();
    assert!(token.chars().all(|c| c.is_ascii_hexdigit()));
}

#[test]
fn test_generate_tokens_are_unique() {
    let t1 = generate_token();
    let t2 = generate_token();
    assert_ne!(t1, t2);
}

#[test]
fn test_verify_token_match() {
    let token = generate_token();
    assert!(verify_token(&token, &token));
}

#[test]
fn test_verify_token_mismatch() {
    assert!(!verify_token("abcdef1234567890", "abcdef1234567891"));
}

#[test]
fn test_verify_token_different_length() {
    assert!(!verify_token("short", "muchlongerstring"));
}

#[test]
fn test_verify_token_empty() {
    assert!(!verify_token("", ""));
    assert!(!verify_token("", "a"));
    assert!(!verify_token("a", ""));
}

#[test]
fn test_verify_token_timing_safe() {
    assert!(verify_token("aabbccdd", "aabbccdd"));
    assert!(!verify_token("aabbccdd", "aabbccde"));
}

#[test]
fn test_generate_display_cookie_length() {
    let cookie = generate_display_cookie();
    assert_eq!(cookie.len(), 16);
}

#[test]
fn test_generate_display_cookies_are_unique() {
    let c1 = generate_display_cookie();
    let c2 = generate_display_cookie();
    assert_ne!(c1, c2);
}

#[test]
fn token_of_bytes_is_their_lowercase_hex() {
    let mut bytes = [0u8; 32];
    bytes[0] = 0xAB;
    bytes[1] = 0x01;
    bytes[31] = 0xFF;
    let t = token_from_bytes(&bytes);
    assert_eq!(t.len(), 64);
    assert!(t.starts_with("ab01"));
    assert!(t.ends_with("ff"));
    assert_eq!(&t[4..62], "0".repeat(58));
}

#[test]
fn verify_token_is_symmetric_and_reflexive_on_nonempty() {
    for (a, b) in [("x", "x"), ("x", "y"), ("token-1", "token-2"), ("é", "é")] {
        assert_eq!(verify_token(a, b), verify_token(b, a));
        assert!(verify_token(a, a));
    }
}

#[test]
fn xauth_arguments_carry_the_hex_cookie() {
    assert_eq!(rx11::auth::cookie_hex(&[0x00, 0xab, 0x7f]), "00ab7f");
    assert_eq!(
        rx11::auth::xauth_add_args(3, "MIT-MAGIC-COOKIE-1", &[0xde, 0xad]),
        vec!["add", ":3", "MIT-MAGIC-COOKIE-1", "dead"]
    );
    assert_eq!(rx11::auth::xauth_remove_args(12), vec!["remove", ":12"]);
}
