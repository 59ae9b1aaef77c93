use foggychat::crypt::keys::Key;
use foggychat::crypt::symmetric;
use foggychat::protocol_utils::fctp::{
    decapsulate_fctp_message, encapsulate_to_fctp, encapsulate_with_nonce, format_fctp_message,
    parse_fctp_message, parse_header_field, validate_nickname, FctpCode, FctpError, FctpMessage,
    PROTOCOL_VERSION,
};

#[test]
fn test_fctp_code_conversion() {
    assert_eq!(FctpCode::from_i32(200), Some(FctpCode::Message));
    assert_eq!(FctpCode::from_i32(999), None);
}

#[test]
fn test_message_creation() {
    let msg = FctpMessage::new(FctpCode::Message, "alice", "hello", "bob");
    assert_eq!(msg.code, FctpCode::Message);
    assert_eq!(msg.from, "alice");
    assert_eq!(msg.body, "hello");
    assert_eq!(msg.to, "bob");
}

#[test]
fn test_nickname_validation() {
    assert!(validate_nickname("alice").is_ok());
    assert!(validate_nickname("alice_123").is_ok());
    assert!(validate_nickname("ab").is_err()); // short
    assert!(validate_nickname("a".repeat(25).as_str()).is_err()); // long
    assert!(validate_nickname("alice@bob").is_err()); //illegal characters
}

#[test]
fn test_fctp_encapsulation_and_decapsulation() {
    let msg = FctpMessage::new(FctpCode::Message, "alice", "hello world", "bob");
    let key = symmetric::keygen();

    let encrypted = encapsulate_to_fctp(&msg, &key).expect("Should encrypt");
    assert!(!encrypted.is_empty());

    let decrypted = decapsulate_fctp_message(&encrypted, &key).expect("Should decrypt");
    assert_eq!(decrypted, msg);
}

#[test]
fn test_parse_fctp_message() {
    let message_str = format!(
        "{}\r\n{}\r\nFrom: {}\r\nBody: {}\r\nTo: {}\r\n\r\n",
        PROTOCOL_VERSION, 200, "alice", "hello", "bob"
    );

    let parsed = parse_fctp_message(&message_str).expect("Should parse");
    assert_eq!(parsed.code, FctpCode::Message);
    assert_eq!(parsed.from, "alice");
    assert_eq!(parsed.body, "hello");
    assert_eq!(parsed.to, "bob");
}

#[test]
fn test_invalid_protocol_version() {
    let invalid_message =
        "Invalid Protocol 1.0\r\n200\r\nFrom: alice\r\nBody: hello\r\nTo: bob\r\n\r\n";
    assert!(parse_fctp_message(invalid_message).is_err());
}

const CODES: [(FctpCode, i32); 11] = [
    (FctpCode::Ping, 10),
    (FctpCode::Pong, 11),
    (FctpCode::Message, 200),
    (FctpCode::Command, 201),
    (FctpCode::BadRequest, 400),
    (FctpCode::MethodNotAllowed, 405),
    (FctpCode::InternalServerError, 500),
    (FctpCode::ServiceUnavailable, 505),
    (FctpCode::Hello, 900),
    (FctpCode::PublicKeyExchange, 901),
    (FctpCode::KeyRequest, 902),
];

#[test]
fn codes_and_numbers() {
    for (code, number) in CODES {
        assert_eq!(code.to_i32(), number);
        assert_eq!(FctpCode::from_i32(number), Some(code));
    }
    let known = (-2000..2000).filter(|n| FctpCode::from_i32(*n).is_some()).count();
    assert_eq!(known, CODES.len());
}

#[test]
fn messages_of_the_server() {
    let ping = FctpMessage::ping("srv", "bob");
    assert_eq!(ping, FctpMessage::new(FctpCode::Ping, "srv", "ping", "bob"));
    let pong = FctpMessage::pong("srv", "bob");
    assert_eq!(pong, FctpMessage::new(FctpCode::Pong, "srv", "pong", "bob"));
    let error = FctpMessage::error("srv", FctpCode::BadRequest, "no", "bob");
    assert_eq!(error, FctpMessage::new(FctpCode::BadRequest, "srv", "no", "bob"));
    assert_eq!(error.clone(), error);
}

#[test]
fn written_message() {
    let msg = FctpMessage::new(FctpCode::Hello, "a", "b c", "d");
    assert_eq!(
        format_fctp_message(&msg),
        "FoggyChat Transfer Protocol 0.1\r\n900\r\nFrom: a\r\nBody: b c\r\nTo: d\r\n\r\n"
    );
}

fn round_trips(field: &str) -> bool {
    let msg = FctpMessage::new(FctpCode::Message, field, field, field);
    match parse_fctp_message(&format_fctp_message(&msg)) {
        Ok(m) => m == msg,
        Err(_) => false,
    }
}

#[test]
fn round_trip_of_canonical_fields_only() {
    assert!(round_trips(""));
    assert!(round_trips("zażółć gęślą: jaźń"));
    assert!(round_trips("a\rb"));
    assert!(!round_trips(" a"));
    assert!(!round_trips("a\r"));
    assert!(!round_trips("a\nb"));
    assert!(!round_trips("a\u{a0}"));
}

#[test]
fn what_was_read_can_be_written() {
    let text = format!(
        "{}\n +201 \nFrom:   a  \nBody: \t\nTo: b\nignored\n",
        PROTOCOL_VERSION
    );
    let read = parse_fctp_message(&text).unwrap();
    assert_eq!(read, FctpMessage::new(FctpCode::Command, "a", "", "b"));
    assert_eq!(parse_fctp_message(&format_fctp_message(&read)).unwrap(), read);
}

fn refusal(text: &str) -> String {
    parse_fctp_message(text).unwrap_err().message()
}

#[test]
fn parse_errors() {
    let v = PROTOCOL_VERSION;
    assert_eq!(refusal(""), "Malformed message: Missing protocol line");
    assert_eq!(refusal("\n"), "Invalid protocol version: ");
    assert_eq!(refusal("HTTP/1.1\r\n200"), "Invalid protocol version: HTTP/1.1");
    assert_eq!(refusal(v), "Malformed message: Missing code line");
    assert_eq!(refusal(&format!("{v}\nabc ")), "Malformed message: Invalid code: abc");
    assert_eq!(refusal(&format!("{v}\n")), "Malformed message: Missing code line");
    assert_eq!(refusal(&format!("{v}\n\n")), "Malformed message: Invalid code: ");
    assert_eq!(refusal(&format!("{v}\n-5")), "Malformed message: Unknown code: -5");
    assert_eq!(refusal(&format!("{v}\n+999")), "Malformed message: Unknown code: 999");
    assert_eq!(refusal(&format!("{v}\n10")), "Malformed message: Missing From line");
    assert_eq!(
        refusal(&format!("{v}\n10\nfrom: a")),
        "Malformed message: Invalid From format: from: a"
    );
    assert_eq!(
        refusal(&format!("{v}\n10\nFrom: a\nTo: b")),
        "Malformed message: Invalid Body format: To: b"
    );
    assert_eq!(
        refusal(&format!("{v}\n10\nFrom: a\nBody: b")),
        "Malformed message: Missing To line"
    );
}

#[test]
fn header_fields() {
    assert_eq!(parse_header_field(Some("To:  x "), "To").unwrap(), "x");
    assert_eq!(
        parse_header_field(None, "To").unwrap_err().message(),
        "Malformed message: Missing To line"
    );
}

#[test]
fn error_texts() {
    let s = || "x".to_string();
    assert_eq!(FctpError::EncryptionFailed(s()).message(), "Encryption failed: x");
    assert_eq!(FctpError::DecryptionFailed(s()).message(), "Decryption failed: x");
    assert_eq!(FctpError::MalformedMessage(s()).message(), "Malformed message: x");
    assert_eq!(FctpError::InvalidProtocolVersion(s()).message(), "Invalid protocol version: x");
    assert_eq!(FctpError::NetworkError(s()).message(), "Network error: x");
    assert_eq!(FctpError::InvalidNickname(s()).message(), "Invalid nickname: x");
}

#[test]
fn nicknames() {
    let length = "Invalid nickname: Nickname must be between 3 and 20 characters";
    let letters =
        "Invalid nickname: Nickname can only contain letters, numbers, underscores and hyphens";
    assert!(validate_nickname("abc").is_ok());
    assert!(validate_nickname("a".repeat(20).as_str()).is_ok());
    assert!(validate_nickname("zażółć-64_").is_ok());
    assert_eq!(validate_nickname("").unwrap_err().message(), length);
    assert_eq!(validate_nickname("a".repeat(21).as_str()).unwrap_err().message(), length);
    // eleven letters, but more than twenty bytes
    assert_eq!(validate_nickname("ąąąąąąąąąąą").unwrap_err().message(), length);
    // one letter, but three bytes
    assert!(validate_nickname("語").is_ok());
    assert_eq!(validate_nickname("a b").unwrap_err().message(), letters);
    for n in 0..=0x3000u32 {
        let c = char::from_u32(n).unwrap();
        if c.is_whitespace() {
            assert!(validate_nickname(&format!("abc{}", c)).is_err());
        }
    }
    for n in 0..128u8 {
        let c = n as char;
        let nick = format!("ab{}", c);
        let allowed = c.is_ascii_alphanumeric() || c == '_' || c == '-';
        assert_eq!(validate_nickname(&nick).is_ok(), allowed);
    }
}

#[test]
fn frames() {
    let msg = FctpMessage::new(FctpCode::Ping, "a", "b", "c");
    let key = Key { bytes: [1u8; 32] };
    let frame = encapsulate_with_nonce(&msg, &key, &[2u8; 12]).unwrap();
    assert_eq!(frame.len(), format_fctp_message(&msg).len() + 28);
    assert_eq!(&frame[..12], &[2u8; 12]);
    assert_eq!(decapsulate_fctp_message(&frame, &key).unwrap(), msg);

    let stranger = Key { bytes: [9u8; 32] };
    assert_eq!(
        decapsulate_fctp_message(&frame, &stranger).unwrap_err().message(),
        "Decryption failed: \"Decrypt error: Error\""
    );
    assert_eq!(
        decapsulate_fctp_message(&frame[..5], &key).unwrap_err().message(),
        "Decryption failed: \"Message too short\""
    );
}

#[test]
fn frames_without_a_session_key() {
    let msg = FctpMessage::new(FctpCode::Ping, "a", "b", "c");
    let plain = format_fctp_message(&msg);
    assert_eq!(decapsulate_fctp_message(plain.as_bytes(), &Key::default()).unwrap(), msg);
    // what is encrypted under the default key opens under it, but is not read under it
    let frame = encapsulate_to_fctp(&msg, &Key::default()).unwrap();
    assert_eq!(symmetric::decrypt_binary(&frame, &Key::default()), Ok(plain.clone().into_bytes()));
    assert!(decapsulate_fctp_message(&frame, &Key::default()).is_err());
    assert_eq!(
        decapsulate_fctp_message(&[b'a', 0xff], &Key::default()).unwrap_err().message(),
        "Decryption failed: UTF-8 decode error: invalid utf-8 sequence of 1 bytes from index 1"
    );
}
