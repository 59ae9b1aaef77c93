use foggychat::crypt::asymmetric;
use foggychat::crypt::error::CryptError;
use foggychat::crypt::keys::{Key, PublicKey, StaticSecret};
use foggychat::crypt::symmetric;
use foggychat::crypt::utils::{base64_decode, base64_encode, blake3_hash, DecodeError};

fn hex(text: &str) -> [u8; 32] {
    let mut out = [0u8; 32];
    for i in 0..32 {
        out[i] = u8::from_str_radix(&text[2 * i..2 * i + 2], 16).unwrap();
    }
    out
}

#[test]
fn keypair_and_crypto_roundtrip() {
    let (rec_sec_bytes, rec_pub_bytes) = asymmetric::keypairgen();
    let rec_sec = StaticSecret::from(rec_sec_bytes);
    let rec_pub = PublicKey::from(rec_pub_bytes);

    let msg = "TEST TEST TEST 123 ąęðąśðąśðąś".as_bytes();

    let encrypted = asymmetric::encrypt(&rec_pub, msg).expect("Encryption failed");
    let decrypted = asymmetric::decrypt(&rec_sec, &encrypted).expect("Decryption failed");

    let base64_encoded = base64_encode(&encrypted);

    println!("Public key: {}", base64_encode(rec_pub.as_bytes()));
    println!("Private key: {}", base64_encode(rec_sec.as_bytes()));
    println!("Encrypted message: {}", base64_encoded);
    println!("Decrypted message: {:?}", String::from_utf8_lossy(&decrypted));

    assert_eq!(&decrypted, msg);
}

#[test]
fn test_symmetric_encryption() {
    let key = symmetric::keygen();

    match symmetric::encrypt_binary("test", &key) {
        Ok(encrypted) => match symmetric::decrypt_binary(&encrypted, &key) {
            Ok(decrypted) => {
                assert_eq!(String::from_utf8_lossy(&decrypted), "test");
            }
            Err(e) => panic!("Decryption error: {}", e.message()),
        },
        Err(e) => panic!("Encryption error: {}", e.message()),
    }
}

#[test]
fn asymmetric() {
    let (rec_sec_bytes, rec_pub_bytes) = asymmetric::keypairgen();
    let rec_sec = StaticSecret::from(rec_sec_bytes);
    let rec_pub = PublicKey::from(rec_pub_bytes);

    match asymmetric::encrypt(&rec_pub, "test".as_bytes()) {
        Ok(encrypted) => match asymmetric::decrypt(&rec_sec, &encrypted) {
            Ok(decrypted) => {
                println!("Decrypted: {}", String::from_utf8_lossy(&decrypted));
                assert_eq!(decrypted, b"test");
            }
            Err(e) => panic!("Decryption error: {}", e.message()),
        },
        Err(e) => panic!("Encryption error: {}", e.message()),
    }
}

#[test]
fn keypair_is_a_pair() {
    let (secret, public) = asymmetric::keypairgen();
    let outside = x25519_dalek::PublicKey::from(&x25519_dalek::StaticSecret::from(secret));
    assert_eq!(&public, outside.as_bytes());
    assert_ne!(secret, public);
}

#[test]
fn sealed_message_layout() {
    let ephemeral = StaticSecret::from(hex(
        "77076d0a7318a57d3c16c17251b26645df4c4fd41d9ee5e1e3a3d1e1d9b9e1f0",
    ));
    let receiver = hex("5dab087e624a8a4b79e17f8b83800ee66f3bb1292618b6fd1c2f8b27ff88e0eb");
    let receiver_public = PublicKey::from(hex(
        "de9edb7d7b7dc1b4d35b61c2ece435373f8343c85b78674dadfc7e146f882b4f",
    ));
    let salt = [7u8; 16];
    let nonce = [9u8; 24];
    let message =
        asymmetric::seal(&receiver_public, b"payload", &ephemeral, &salt, &nonce).unwrap();

    let eph_pub = x25519_dalek::PublicKey::from(&x25519_dalek::StaticSecret::from(
        ephemeral.to_bytes(),
    ));
    assert_eq!(message.len(), 7 + 89);
    assert_eq!(message[0], 1);
    assert_eq!(&message[1..33], eph_pub.as_bytes());
    assert_eq!(&message[33..57], &nonce);
    assert_eq!(&message[57..73], &salt);
    assert_ne!(&message[73..80], b"payload");

    let shared = x25519_dalek::x25519(receiver, *eph_pub.as_bytes());
    let mut key = [0u8; 32];
    hkdf::Hkdf::<sha2::Sha256>::new(Some(&salt), &shared)
        .expand(b"chacha20poly1305 key", &mut key)
        .unwrap();
    assert_eq!(asymmetric::derive_key(&shared, &salt), key);

    let opened = asymmetric::decrypt(&StaticSecret::from(receiver), &message).unwrap();
    assert_eq!(opened, b"payload");
}

#[test]
fn known_public_key() {
    let bob = hex("5dab087e624a8a4b79e17f8b83800ee66f3bb1292618b6fd1c2f8b27ff88e0eb");
    let message = asymmetric::seal(
        &PublicKey::from([9u8; 32]),
        b"",
        &StaticSecret::from(bob),
        &[0u8; 16],
        &[0u8; 24],
    )
    .unwrap();
    assert_eq!(
        &message[1..33],
        &hex("de9edb7d7b7dc1b4d35b61c2ece435373f8343c85b78674dadfc7e146f882b4f")
    );
}

#[test]
fn asymmetric_errors() {
    let (secret, public) = asymmetric::keypairgen();
    let secret = StaticSecret::from(secret);
    let good = asymmetric::encrypt(&PublicKey::from(public), b"x").unwrap();

    assert_eq!(asymmetric::decrypt(&secret, &[]), Err(CryptError::MessageTooShort));
    assert_eq!(asymmetric::decrypt(&secret, &good[..73]), Err(CryptError::MessageTooShort));

    let mut other_version = good.clone();
    other_version[0] = 2;
    assert_eq!(
        asymmetric::decrypt(&secret, &other_version),
        Err(CryptError::UnsupportedVersion(2))
    );

    for i in 1..good.len() {
        let mut bad = good.clone();
        bad[i] ^= 1;
        assert_eq!(asymmetric::decrypt(&secret, &bad), Err(CryptError::DecryptFailed));
    }
    let stranger = StaticSecret::from(asymmetric::keypairgen().0);
    assert_eq!(asymmetric::decrypt(&stranger, &good), Err(CryptError::DecryptFailed));
    assert_eq!(asymmetric::decrypt(&secret, &good), Ok(b"x".to_vec()));
}

#[test]
fn crypt_error_texts() {
    assert_eq!(CryptError::MessageTooShort.message(), "Message too short");
    assert_eq!(CryptError::UnsupportedVersion(255).message(), "Unsupported version: 255");
    assert_eq!(CryptError::EncryptFailed.message(), "Encrypt error: Error");
    assert_eq!(CryptError::DecryptFailed.message(), "Decrypt error: Error");
    assert_eq!(CryptError::DecryptFailed.quoted(), "\"Decrypt error: Error\"");
}

#[test]
fn symmetric_layout_and_errors() {
    let key = Key { bytes: [3u8; 32] };
    let nonce = [5u8; 12];
    let sealed = symmetric::seal_binary("hello", &key, &nonce).unwrap();
    assert_eq!(sealed.len(), 5 + 28);
    assert_eq!(&sealed[..12], &nonce);
    assert_ne!(&sealed[12..17], b"hello");
    assert_eq!(symmetric::decrypt_binary(&sealed, &key), Ok(b"hello".to_vec()));

    assert_eq!(symmetric::decrypt_binary(&sealed[..11], &key), Err(CryptError::MessageTooShort));
    assert_eq!(symmetric::decrypt_binary(&sealed[..20], &key), Err(CryptError::DecryptFailed));
    let other = Key { bytes: [4u8; 32] };
    assert_eq!(symmetric::decrypt_binary(&sealed, &other), Err(CryptError::DecryptFailed));
    for i in 0..sealed.len() {
        let mut bad = sealed.clone();
        bad[i] ^= 0x80;
        assert_eq!(symmetric::decrypt_binary(&bad, &key), Err(CryptError::DecryptFailed));
    }
}

#[test]
fn random_nonces_differ() {
    let key = symmetric::keygen();
    let a = symmetric::encrypt_binary("same", &key).unwrap();
    let b = symmetric::encrypt_binary("same", &key).unwrap();
    assert_ne!(a, b);
    assert_ne!(symmetric::keygen().bytes, key.bytes);
}

#[test]
fn default_key_is_zero() {
    assert!(Key::default().is_default());
    assert_eq!(Key::default().bytes, [0u8; 32]);
    let mut bytes = [0u8; 32];
    bytes[31] = 1;
    assert!(!Key { bytes }.is_default());
}

#[test]
fn blake3_known_digest() {
    assert_eq!(
        blake3_hash(b""),
        "af1349b9f5f9a1a6a0404dea36dcc9499bcb25c9adc112b7cc9a93cae41f3262"
    );
    assert_ne!(blake3_hash(b"a"), blake3_hash(b"b"));
}

#[test]
fn base64_known_texts() {
    assert_eq!(base64_encode(b""), "");
    assert_eq!(base64_encode(b"hello"), "aGVsbG8=");
    assert_eq!(base64_encode(b"hell"), "aGVsbA==");
    assert_eq!(base64_encode(&[0xfb, 0xff, 0xfe]), "+//+");
    assert_eq!(base64_decode("aGVsbG8="), Ok(b"hello".to_vec()));
    for len in 0..40usize {
        let bytes: Vec<u8> = (0..len).map(|i| (i * 37 + len) as u8).collect();
        let text = base64_encode(&bytes);
        assert_eq!(text.len(), (len + 2) / 3 * 4);
        let padding = text.chars().filter(|c| *c == '=').count();
        assert_eq!(padding, (3 - len % 3) % 3);
        assert!(text.ends_with(&"=".repeat(padding)));
        for cut in 1..=padding {
            assert!(base64_decode(&text[..text.len() - cut]).is_err());
        }
        assert_eq!(base64_decode(&text), Ok(bytes));
    }
}

#[test]
fn base64_errors() {
    let cases = [
        ("aGVs*G8=", DecodeError::InvalidByte(4, b'*'), "InvalidByte(4, 42)",
            "Invalid symbol 42, offset 4."),
        ("aGVsb", DecodeError::InvalidLength(5), "InvalidLength(5)", "Invalid input length: 5"),
        ("aGVsbG9=", DecodeError::InvalidLastSymbol(6, b'9'), "InvalidLastSymbol(6, 57)",
            "Invalid last symbol 57, offset 6."),
        ("aGVsbG8", DecodeError::InvalidPadding, "InvalidPadding", "Invalid padding"),
    ];
    for (text, error, name, message) in cases {
        assert_eq!(base64_decode(text), Err(error));
        assert_eq!(error.name(), name);
        assert_eq!(error.message(), message);
        let outside = base64::Engine::decode(&base64::engine::general_purpose::STANDARD, text)
            .unwrap_err();
        assert_eq!(format!("{:?}", outside), name);
        assert_eq!(format!("{}", outside), message);
    }
}
