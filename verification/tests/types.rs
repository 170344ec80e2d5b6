use rx11::types::{validate_auth_fields, ConnectionId, DisplayNumber, SessionId, Token};

#[test]
fn test_display_number_valid() {
    assert_eq!(DisplayNumber::new(0).unwrap().get(), 0);
    assert_eq!(DisplayNumber::new(255).unwrap().get(), 255);
}

#[test]
fn test_display_number_invalid() {
    assert!(DisplayNumber::new(256).is_err());
}

#[test]
fn test_display_number_display() {
    assert_eq!(DisplayNumber::new(5).unwrap().to_string(), ":5");
}

#[test]
fn test_connection_id() {
    let id = ConnectionId::new(42);
    assert_eq!(id.get(), 42);
    assert_eq!(id.to_string(), "conn#42");
}

#[test]
fn test_session_id_valid() {
    let sid = SessionId::new("abc".to_string()).unwrap();
    assert_eq!(sid.as_str(), "abc");
}

#[test]
fn test_session_id_empty() {
    assert!(SessionId::new(String::new()).is_err());
}

#[test]
fn test_session_id_too_long() {
    assert!(SessionId::new("a".repeat(257)).is_err());
}

#[test]
fn test_token_valid() {
    let t = Token::new("my-token".to_string()).unwrap();
    assert_eq!(t.as_str(), "my-token");
}

#[test]
fn test_validate_auth_fields_ok() {
    assert!(validate_auth_fields("MIT-MAGIC-COOKIE-1", &[1, 2, 3]).is_ok());
}

#[test]
fn test_validate_auth_fields_name_too_long() {
    assert!(validate_auth_fields(&"x".repeat(257), &[1]).is_err());
}

#[test]
fn test_validate_auth_fields_data_too_long() {
    assert!(validate_auth_fields("name", &[0u8; 4097]).is_err());
}

#[test]
fn error_messages_of_the_constructors() {
    assert_eq!(
        DisplayNumber::new(300).unwrap_err().to_string(),
        "Protocol error: Display number must be 0-255, got 300"
    );
    assert_eq!(
        SessionId::new(String::new()).unwrap_err().to_string(),
        "Protocol error: Session ID length must be 1-256 bytes, got 0"
    );
    assert_eq!(
        Token::new("é".repeat(129)).unwrap_err().to_string(),
        "Protocol error: Token length must be 1-256 bytes, got 258"
    );
    assert_eq!(
        validate_auth_fields(&"x".repeat(257), &[1]).unwrap_err().to_string(),
        "Protocol error: auth_name too long: 257 bytes (max 256)"
    );
    assert_eq!(
        validate_auth_fields("n", &[0u8; 4097]).unwrap_err().to_string(),
        "Protocol error: auth_data too long: 4097 bytes (max 4096)"
    );
}

#[test]
fn lengths_count_bytes_not_characters() {
    assert!(Token::new("é".repeat(128)).is_ok());
    assert!(SessionId::new("a".repeat(256)).is_ok());
    assert!(validate_auth_fields(&"é".repeat(128), &[0u8; 4096]).is_ok());
    assert!(validate_auth_fields(&"é".repeat(129), &[]).is_err());
}

#[test]
fn unspecified_display_is_out_of_range() {
    assert!(DisplayNumber::unspecified().get() > 255);
}

#[test]
fn display_numbers_parse_like_u16() {
    assert_eq!("12".parse::<DisplayNumber>().unwrap().get(), 12);
    assert_eq!("+7".parse::<DisplayNumber>().unwrap().get(), 7);
    assert_eq!("007".parse::<DisplayNumber>().unwrap().get(), 7);
    assert_eq!(
        "256".parse::<DisplayNumber>().unwrap_err().to_string(),
        "Protocol error: Display number must be 0-255, got 256"
    );
    for bad in ["", "+", "-1", "abc", "1 ", "65536", "99999999999", "１"] {
        assert_eq!(
            DisplayNumber::parse(bad).unwrap_err().to_string(),
            format!("Protocol error: Invalid display number: {}", bad),
            "{:?}",
            bad
        );
    }
}

#[test]
fn parse_u16_agrees_with_std() {
    let samples = [
        "0", "1", "65535", "65536", "+0", "++1", "+", "", "0065535", "00000000000000000001",
        "12a", "a12", " 1", "1\n", "-0", "70000", "99999", "6553", "+65535",
    ];
    for s in samples {
        assert_eq!(rx11::types::parse_u16(s), s.parse::<u16>().ok(), "{:?}", s);
    }
    for n in (0u32..70000).step_by(997) {
        let s = n.to_string();
        assert_eq!(rx11::types::parse_u16(&s), s.parse::<u16>().ok());
    }
}

#[test]
fn ids_and_tokens_parse_through_their_checks() {
    assert_eq!("abc".parse::<SessionId>().unwrap().as_str(), "abc");
    assert!("".parse::<Token>().is_err());
}
