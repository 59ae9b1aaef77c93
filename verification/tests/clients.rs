use foggychat::crypt::asymmetric;
use foggychat::crypt::keys::{Key, PublicKey, StaticSecret};
use foggychat::crypt::utils::{base64_decode, base64_encode, blake3_hash};
use foggychat::identity::{generate_id, ServerIdentity, Uuid};
use foggychat::protocol_utils::fctp::{
    decapsulate_fctp_message, encapsulate_to_fctp, format_fctp_message, parse_fctp_message, FctpCode,
    FctpMessage,
};
use foggychat::protocol_utils::fctp_client::{ClientInfo, Clients};
use foggychat::protocol_utils::fctp_handlers::{
    dispatch_fctp_message, handle_fctp_message, send_failure, send_fctp_message, Delivery,
};
use foggychat::protocol_utils::fctp_operations::{kick_client, send_broadcast};
use foggychat::protocol_utils::fctp_secure::{
    exchange_keys_with, fingerprint, greeting, handle_key_exchange, open_exchange_key, Certificate,
    KeyExchangeError,
};
use foggychat::server::{
    accept_client, banner, handle_packet, next_step, ConnectionEvent, ConnectionStep,
    PacketDecision, BUFFER_SIZE,
};

const SERVER: &str = "00000000-0000-0000-0000-000000000000";
const SECOND: u128 = 1_000_000_000;

#[test]
fn test_generate_id() {
    let id = generate_id();
    assert!(!id.is_nil(), "Generated ID should not be nil");
    println!("Generated ID: {}", id.to_text());
}

#[test]
fn identifiers() {
    let id = generate_id();
    assert_eq!(id.bytes[6] >> 4, 4);
    assert_eq!(id.bytes[8] >> 6, 2);
    assert_ne!(id.bytes, generate_id().bytes);
    assert!(Uuid { bytes: [0u8; 16] }.is_nil());
    assert_eq!(Uuid { bytes: [0u8; 16] }.to_text(), SERVER);
    let bytes = [
        0xa1, 0xa2, 0xa3, 0xa4, 0xb1, 0xb2, 0xc1, 0xc2, 0xd1, 0xd2, 0xd3, 0xd4, 0xd5, 0xd6, 0xd7,
        0xd8,
    ];
    assert_eq!(Uuid { bytes }.to_text(), "a1a2a3a4-b1b2-c1c2-d1d2-d3d4d5d6d7d8");
    assert_eq!(id.to_text(), uuid::Uuid::from_bytes(id.bytes).to_string());
}

#[test]
fn server_is_registered_once() {
    let mut identity = ServerIdentity::new();
    assert_eq!(identity.get_id(), None);
    assert!(identity.set_id(SERVER));
    assert!(!identity.set_id("other"));
    assert_eq!(identity.get_id(), Some(SERVER));
}

fn id(n: u8) -> Uuid {
    Uuid { bytes: [n; 16] }
}

fn setup(n: u8) -> (Clients, Vec<String>) {
    let mut clients = Clients::new();
    let mut names = Vec::new();
    for i in 1..=n {
        names.push(clients.connect(&id(i), 0));
    }
    (clients, names)
}

fn message(code: FctpCode, body: &str, to: &str) -> FctpMessage {
    FctpMessage::new(code, "ignored", body, to)
}

fn sent(clients: &mut Clients, from: &str, m: &FctpMessage) -> Vec<(String, FctpCode, String, String)> {
    flat(dispatch_fctp_message(SERVER, m, from, clients, 90 * SECOND).unwrap())
}

fn flat(v: Vec<Delivery>) -> Vec<(String, FctpCode, String, String)> {
    v.into_iter()
        .map(|d| {
            assert_eq!(d.client_id, d.message.to);
            (d.client_id, d.message.code, d.message.from, d.message.body)
        })
        .collect()
}

fn command(clients: &mut Clients, from: &str, body: &str) -> (FctpCode, String) {
    let v = sent(clients, from, &message(FctpCode::Command, body, ""));
    assert_eq!(v.len(), 1);
    assert_eq!(v[0].0, from);
    assert_eq!(v[0].2, SERVER);
    (v[0].1, v[0].3.clone())
}

#[test]
fn new_client() {
    let (clients, names) = setup(1);
    let c = clients.get(&names[0]).unwrap();
    assert!(c.conn_session_key.is_default());
    assert_eq!(c.conn_e2ee_public.bytes, [0u8; 32]);
    assert_eq!(c.ext_session_username, names[0]);
    assert_eq!(c.ext_rate_limit_ignore_packet_count, 5);
    assert_eq!(c.ext_rate_limit_burst_count, 2);
    assert!(clients.get("nobody").is_none());
    assert!(clients.session_key("nobody").is_default());
}

#[test]
fn ping_and_hello() {
    let (mut clients, names) = setup(2);
    let a = names[0].clone();
    assert_eq!(
        sent(&mut clients, &a, &message(FctpCode::Ping, "", "")),
        vec![(a.clone(), FctpCode::Pong, SERVER.to_string(), "pong".to_string())]
    );
    assert_eq!(
        sent(&mut clients, &a, &message(FctpCode::Hello, "", "")),
        vec![
            (a.clone(), FctpCode::Hello, SERVER.to_string(), "id".to_string()),
            (
                a.clone(),
                FctpCode::Command,
                SERVER.to_string(),
                "Welcome to Loop64.com FoggyChat server!".to_string()
            ),
        ]
    );
    assert!(sent(&mut clients, "nobody", &message(FctpCode::Ping, "", "")).is_empty());
    assert!(sent(&mut clients, "nobody", &message(FctpCode::Hello, "", "")).is_empty());
}

#[test]
fn unsupported_codes() {
    let (mut clients, names) = setup(1);
    for code in [
        FctpCode::Pong,
        FctpCode::BadRequest,
        FctpCode::MethodNotAllowed,
        FctpCode::InternalServerError,
        FctpCode::ServiceUnavailable,
    ] {
        let v = sent(&mut clients, &names[0], &message(code, "x", "y"));
        assert_eq!(v.len(), 1);
        assert_eq!(v[0].1, FctpCode::MethodNotAllowed);
        assert_eq!(v[0].3, "Unsupported message code");
    }
}

#[test]
fn routing() {
    let (mut clients, names) = setup(3);
    let (a, b) = (names[0].clone(), names[1].clone());
    command(&mut clients, &b, "setnick bob");
    // by nickname, with white space around it
    assert_eq!(
        sent(&mut clients, &a, &message(FctpCode::Message, "hi", " bob ")),
        vec![(b.clone(), FctpCode::Message, a.clone(), "hi".to_string())]
    );
    // by identifier
    assert_eq!(
        sent(&mut clients, &a, &message(FctpCode::Message, "hi", &b)),
        vec![(b.clone(), FctpCode::Message, a.clone(), "hi".to_string())]
    );
    // under the nickname of the sender
    assert_eq!(
        sent(&mut clients, &b, &message(FctpCode::Message, "ho", &a)),
        vec![(a.clone(), FctpCode::Message, "bob".to_string(), "ho".to_string())]
    );
    // to nobody
    assert_eq!(
        sent(&mut clients, &a, &message(FctpCode::Message, "hi", "carol")),
        vec![(
            a.clone(),
            FctpCode::MethodNotAllowed,
            SERVER.to_string(),
            "Recipient not found".to_string()
        )]
    );
    assert!(sent(&mut clients, "nobody", &message(FctpCode::Message, "hi", "carol")).is_empty());
    // from a stranger
    assert_eq!(
        sent(&mut clients, "nobody", &message(FctpCode::Message, "hi", "bob")),
        vec![(b, FctpCode::Message, "nobody".to_string(), "hi".to_string())]
    );
}

#[test]
fn nicknames_are_unique() {
    let (mut clients, names) = setup(2);
    assert_eq!(
        command(&mut clients, &names[0], "setnick alice"),
        (
            FctpCode::Command,
            format!("Nick changed to: alice / ServerID: {}", SERVER)
        )
    );
    assert_eq!(
        command(&mut clients, &names[1], "setnick alice"),
        (
            FctpCode::MethodNotAllowed,
            "Nick 'alice' is already taken. Choose a different one.".to_string()
        )
    );
    assert_eq!(clients.get(&names[1]).unwrap().ext_session_username, names[1]);
    // one's own nickname may be set again
    assert_eq!(command(&mut clients, &names[0], "setnick alice").0, FctpCode::Command);
    assert!(clients.is_nick_taken("alice", &names[1]));
    assert!(!clients.is_nick_taken("alice", &names[0]));
    let (found, _) = clients.find_client_by_nick("alice").unwrap();
    assert_eq!(found, names[0]);
    assert!(clients.find_client_by_nick("bob").is_none());
    // a nickname is free again when its client has left
    assert!(kick_client(&mut clients, &names[0]));
    assert!(!kick_client(&mut clients, &names[0]));
    assert_eq!(command(&mut clients, &names[1], "setnick alice").0, FctpCode::Command);
}

#[test]
fn refused_nicknames() {
    let (mut clients, names) = setup(1);
    assert_eq!(
        command(&mut clients, &names[0], "setnick"),
        (FctpCode::BadRequest, "Usage: setnick <new_name>".to_string())
    );
    assert_eq!(
        command(&mut clients, &names[0], "setnick ab"),
        (
            FctpCode::MethodNotAllowed,
            "Invalid nickname: Nickname must be between 3 and 20 characters".to_string()
        )
    );
    assert_eq!(
        command(&mut clients, &names[0], "setnick a@b"),
        (
            FctpCode::MethodNotAllowed,
            "Invalid nickname: Nickname can only contain letters, numbers, underscores and hyphens"
                .to_string()
        )
    );
    assert_eq!(clients.get(&names[0]).unwrap().ext_session_username, names[0]);
    let refused = message(FctpCode::Command, "setnick valid", "");
    assert!(sent(&mut clients, "nobody", &refused).is_empty());
}

#[test]
fn other_commands() {
    let (mut clients, names) = setup(1);
    assert_eq!(
        command(&mut clients, &names[0], " help me "),
        (
            FctpCode::Command,
            format!(
                "Welcome to server! ServerID: {} / Available commands: help, whoami, setnick <name>",
                SERVER
            )
        )
    );
    assert_eq!(
        command(&mut clients, &names[0], "whoami"),
        (
            FctpCode::Command,
            format!(
                "You are connected as: {} / Your session nick: {} / ServerID: {} / Connected for: \
                 90 seconds / Your E2EE public key (base64): {}",
                names[0],
                names[0],
                SERVER,
                base64_encode(&[0u8; 32])
            )
        )
    );
    assert_eq!(
        command(&mut clients, &names[0], "Help"),
        (
            FctpCode::MethodNotAllowed,
            "Unknown command: Help. Type 'help' for available commands.".to_string()
        )
    );
    assert_eq!(
        command(&mut clients, &names[0], "  "),
        (
            FctpCode::MethodNotAllowed,
            "Unknown command: . Type 'help' for available commands.".to_string()
        )
    );
    assert!(sent(&mut clients, "nobody", &message(FctpCode::Command, "whoami", "")).is_empty());
}

#[test]
fn public_keys() {
    let (mut clients, names) = setup(2);
    let (a, b) = (names[0].clone(), names[1].clone());
    let text = base64_encode(&[0xabu8; 32]);
    let announce = message(FctpCode::PublicKeyExchange, &format!(" {} ", text), "");
    assert!(sent(&mut clients, &a, &announce).is_empty());
    assert_eq!(clients.get(&a).unwrap().conn_e2ee_public.bytes, [0xabu8; 32]);
    assert_eq!(clients.get(&b).unwrap().conn_e2ee_public.bytes, [0u8; 32]);
    assert_eq!(
        sent(&mut clients, &b, &message(FctpCode::KeyRequest, &a, "")),
        vec![(b.clone(), FctpCode::KeyRequest, SERVER.to_string(), text)]
    );
    assert_eq!(
        sent(&mut clients, &b, &message(FctpCode::KeyRequest, "carol", "")),
        vec![(
            b.clone(),
            FctpCode::ServiceUnavailable,
            SERVER.to_string(),
            "User key not found".to_string()
        )]
    );

    let refuse = |clients: &mut Clients, who: &str, body: &str| {
        dispatch_fctp_message(SERVER, &message(FctpCode::PublicKeyExchange, body, ""), who, clients, 0)
    };
    assert_eq!(
        refuse(&mut clients, &a, "!!!!").err().unwrap().message(),
        "Malformed message: Base64 decode error: InvalidByte(0, 33)"
    );
    assert_eq!(
        refuse(&mut clients, &a, "aGVsbG8=").err().unwrap().message(),
        "Malformed message: Invalid public key length"
    );
    assert!(refuse(&mut clients, "nobody", "!!!!").is_ok());
    assert_eq!(clients.get(&a).unwrap().conn_e2ee_public.bytes, [0xabu8; 32]);
}

#[test]
fn frames_are_handled() {
    let (mut clients, names) = setup(1);
    let key = Key { bytes: [8u8; 32] };
    clients.set_session_key(&names[0], key);
    let frame = encapsulate_to_fctp(&message(FctpCode::Ping, "p", "q"), &key).unwrap();
    let handled = handle_fctp_message(SERVER, &frame, &names[0], &key, &mut clients, 0).unwrap();
    assert_eq!(handled.received, message(FctpCode::Ping, "p", "q"));
    let v = flat(handled.outcome.unwrap());
    assert_eq!(v[0].1, FctpCode::Pong);
    assert!(handle_fctp_message(SERVER, b"junk", &names[0], &key, &mut clients, 0).is_err());
}

#[test]
fn broadcast() {
    let (clients, names) = setup(4);
    let v = flat(send_broadcast(SERVER, &clients, &names[2], "news"));
    let mut to: Vec<String> = v.iter().map(|d| d.0.clone()).collect();
    to.sort();
    assert_eq!(to, vec![names[0].clone(), names[1].clone(), names[3].clone()]);
    for d in v {
        assert_eq!((d.1, d.2.as_str(), d.3.as_str()), (FctpCode::Command, SERVER, "news"));
    }
    assert_eq!(send_broadcast(SERVER, &clients, "nobody", "news").len(), 4);
}

fn certificate() -> Certificate {
    let (secret, public) = asymmetric::keypairgen();
    let mut cert = Certificate::new();
    assert_eq!(cert.get_cert_pub().bytes, [0u8; 32]);
    assert_eq!(cert.get_cert_sec().bytes, [0u8; 32]);
    cert.set_cert(PublicKey::from(public), StaticSecret::from(secret));
    assert_eq!(cert.get_cert_pub().bytes, public);
    assert_eq!(cert.get_cert_sec().bytes, secret);
    cert
}

#[test]
fn key_exchange() {
    let cert = certificate();
    let mut clients = Clients::new();
    let (name, hello) = accept_client(&id(1), &cert, &mut clients, 0);
    assert_eq!(hello, greeting(&cert));

    // what the client does
    let text = String::from_utf8(hello).unwrap();
    assert!(text.ends_with("=\r\n\r\n"));
    let server_key: [u8; 32] = base64_decode(text.trim()).unwrap().try_into().unwrap();
    let (secret, public) = asymmetric::keypairgen();
    let sealed = asymmetric::encrypt(&PublicKey::from(server_key), &public).unwrap();
    let packet = base64_encode(&sealed);

    assert!(matches!(
        handle_packet(SERVER, packet.as_bytes(), &name, &mut clients, 0),
        PacketDecision::ExchangeKeys
    ));
    let answer = handle_key_exchange(packet.as_bytes(), &name, &cert, &mut clients)
        .ok()
        .unwrap()
        .unwrap();
    let session = open_exchange_key(&answer, &StaticSecret::from(secret)).ok().unwrap();
    assert_eq!(session.bytes, clients.session_key(&name).bytes);
    assert!(!clients.session_key(&name).is_default());

    // and from then on
    let key = Key { bytes: session.bytes };
    let frame = encapsulate_to_fctp(&message(FctpCode::Hello, "", ""), &key).unwrap();
    let decision = handle_packet(SERVER, &frame, &name, &mut clients, 0);
    let granted = match decision {
        PacketDecision::Handle(k) => k,
        _ => panic!("not handled"),
    };
    let handled = handle_fctp_message(SERVER, &frame, &name, &granted, &mut clients, 0).unwrap();
    for d in handled.outcome.ok().unwrap() {
        let bytes = send_fctp_message(clients.get(&d.client_id).unwrap(), &d.message).unwrap();
        assert_eq!(decapsulate_fctp_message(&bytes, &key).unwrap(), d.message);
    }

    // a client that is not connected is sent nothing
    assert!(handle_key_exchange(packet.as_bytes(), "nobody", &cert, &mut clients)
        .ok()
        .unwrap()
        .is_none());
}

#[test]
fn key_exchange_errors() {
    let cert = certificate();
    let mut clients = Clients::new();
    let (name, _) = accept_client(&id(1), &cert, &mut clients, 0);
    let mut refuse = |packet: &[u8]| {
        let e = handle_key_exchange(packet, &name, &cert, &mut clients).err().unwrap();
        assert!(clients.session_key(&name).is_default());
        e
    };
    let e = refuse(&[0xff]);
    assert!(matches!(e, KeyExchangeError::NotText(_)));
    assert_eq!(e.message(), "invalid utf-8 sequence of 1 bytes from index 0");
    let e = refuse(b"abc");
    assert!(matches!(e, KeyExchangeError::NotBase64(_)));
    assert_eq!(e.message(), "Invalid padding");
    let e = refuse(b"aGVsbG8=");
    assert!(matches!(e, KeyExchangeError::DecryptionFailed(_)));
    assert_eq!(e.message(), "Decryption failed: \"Message too short\"");
    let short = asymmetric::encrypt(&cert.get_cert_pub(), b"no key").unwrap();
    let e = refuse(base64_encode(&short).as_bytes());
    assert!(matches!(e, KeyExchangeError::InvalidKeyLength));
    assert_eq!(e.message(), "Invalid exchange key length");
    let e = KeyExchangeError::EncryptionFailed(foggychat::crypt::error::CryptError::EncryptFailed);
    assert_eq!(e.message(), "Encryption failed: \"Encrypt error: Error\"");
}

#[test]
fn start_of_the_server() {
    let cert = certificate();
    let print = blake3_hash(cert.get_cert_pub().as_bytes());
    assert_eq!(fingerprint(&cert), print);
    assert_eq!(
        banner(SERVER, &cert),
        format!(
            "© Loop64 / FOG64 | Launching FoggyChat™ FCTP protocol server | SERVER_ID: {} | FINGERPRINT: {}",
            SERVER, print
        )
    );
}

#[test]
fn rate_limit() {
    let mut c = ClientInfo::new("c", 0);
    for _ in 0..7 {
        assert!(c.admit_packet(0));
    }
    assert!(!c.admit_packet(0));
    assert!(!c.admit_packet(499_999_999));
    assert!(c.admit_packet(500_000_000));
    assert!(c.admit_packet(500_000_000));
    assert!(!c.admit_packet(500_000_000));
    assert!(!c.admit_packet(999_999_999));
    assert!(c.admit_packet(SECOND));
    // a clock that goes back does not help
    assert!(c.admit_packet(0));
    assert!(!c.admit_packet(0));
}

#[test]
fn rate_limit_bound() {
    let mut c = ClientInfo::new("c", 0);
    let step = 10_000_000u128;
    let mut admitted = 0u128;
    for i in 0..1000u128 {
        if c.admit_packet(i * step) {
            admitted += 1;
        }
        assert!(admitted <= 5 + 2 + 2 * (i * step / 500_000_000));
    }
    assert_eq!(admitted, 5 + 2 + 2 * 19);
}

#[test]
fn packets() {
    let (mut clients, names) = setup(1);
    let big = vec![0u8; BUFFER_SIZE];
    assert!(matches!(
        handle_packet(SERVER, &big, &names[0], &mut clients, 0),
        PacketDecision::Close
    ));
    assert!(matches!(
        handle_packet(SERVER, &big[1..], &names[0], &mut clients, 0),
        PacketDecision::ExchangeKeys
    ));
    assert!(matches!(
        handle_packet(SERVER, b"x", "nobody", &mut clients, 0),
        PacketDecision::ExchangeKeys
    ));
    let key = Key { bytes: [1u8; 32] };
    clients.set_session_key(&names[0], key);
    for _ in 0..7 {
        match handle_packet(SERVER, &big[1..], &names[0], &mut clients, 0) {
            PacketDecision::Handle(k) => assert_eq!(k.bytes, key.bytes),
            _ => panic!("not handled"),
        }
    }
    match handle_packet(SERVER, b"x", &names[0], &mut clients, 0) {
        PacketDecision::RateLimited(d) => {
            let v = flat(vec![d]);
            assert_eq!(v[0].0, names[0]);
            assert_eq!(v[0].1, FctpCode::MethodNotAllowed);
            assert_eq!(v[0].2, SERVER);
            assert_eq!(
                v[0].3,
                "You are being rate limited, slow down! Your message has been dropped."
            );
        }
        _ => panic!("not limited"),
    }
    assert!(matches!(
        handle_packet(SERVER, b"x", &names[0], &mut clients, SECOND),
        PacketDecision::Handle(_)
    ));
}

#[test]
fn connect_and_leave() {
    let (mut clients, names) = setup(2);
    let name = clients.connect(&id(9), 5);
    assert_eq!(clients.ids().len(), 3);
    // the same identifier again replaces the client
    clients.set_session_key(&name, Key { bytes: [1u8; 32] });
    assert_eq!(clients.connect(&id(9), 6), name);
    assert_eq!(clients.ids().len(), 3);
    assert!(clients.session_key(&name).is_default());
    assert!(clients.remove(&name));
    let mut ids = clients.ids();
    ids.sort();
    assert_eq!(ids, names);
}

#[test]
fn course_of_a_connection() {
    let steps = [
        (ConnectionEvent::Greeted, ConnectionStep::ReadNext),
        (ConnectionEvent::GreetingFailed, ConnectionStep::Abort),
        (ConnectionEvent::Disconnected, ConnectionStep::CleanUp),
        (ConnectionEvent::ReadFailed, ConnectionStep::CleanUp),
        (ConnectionEvent::BufferFilled, ConnectionStep::CleanUp),
        (ConnectionEvent::KeysExchanged, ConnectionStep::ReadNext),
        (ConnectionEvent::KeyExchangeFailed, ConnectionStep::CleanUp),
        (ConnectionEvent::MessageHandled, ConnectionStep::ReadNext),
        (ConnectionEvent::MessageFailed, ConnectionStep::ReadNext),
        (ConnectionEvent::Warned, ConnectionStep::ReadNext),
        (ConnectionEvent::WarningFailed, ConnectionStep::Abort),
    ];
    for (event, step) in steps {
        assert_eq!(next_step(event), step);
    }
}

#[test]
fn key_exchange_with_given_values() {
    let cert = certificate();
    let mut clients = Clients::new();
    let (name, _) = accept_client(&id(1), &cert, &mut clients, 0);
    let (secret, public) = asymmetric::keypairgen();
    let sealed = asymmetric::encrypt(&cert.get_cert_pub(), &public).unwrap();
    let packet = format!(" {}\r\n", base64_encode(&sealed));

    let key = Key { bytes: [6u8; 32] };
    let ephemeral = StaticSecret::from([7u8; 32]);
    let (salt, nonce) = ([8u8; 16], [9u8; 24]);
    let answer = exchange_keys_with(
        packet.as_bytes(),
        &name,
        &cert,
        &mut clients,
        &key,
        &ephemeral,
        &salt,
        &nonce,
    )
    .ok()
    .unwrap()
    .unwrap();
    let expected =
        asymmetric::seal(&PublicKey::from(public), &key.bytes, &ephemeral, &salt, &nonce).unwrap();
    assert_eq!(answer, format!("{}\r\n\r\n", base64_encode(&expected)).into_bytes());
    assert_eq!(clients.session_key(&name).bytes, key.bytes);
    let read = open_exchange_key(&answer, &StaticSecret::from(secret)).ok().unwrap();
    assert_eq!(read.bytes, key.bytes);
}

#[test]
fn chat_arrives_as_it_was_sent() {
    let (mut clients, names) = setup(2);
    let (a, b) = (names[0].clone(), names[1].clone());
    command(&mut clients, &a, "setnick ala-ma_kota7");
    let text = format!(
        "FoggyChat Transfer Protocol 0.1\n200\nFrom: x\nBody:  zażółć: \r gęślą  \nTo: {} \n",
        b
    );
    let chat = parse_fctp_message(&text).unwrap();
    let sent = dispatch_fctp_message(SERVER, &chat, &a, &mut clients, 0).unwrap();
    assert_eq!(sent.len(), 1);
    let expected = FctpMessage::new(FctpCode::Message, "ala-ma_kota7", "zażółć: \r gęślą", &b);
    assert_eq!(sent[0].message, expected);
    assert_eq!(parse_fctp_message(&format_fctp_message(&expected)).unwrap(), expected);
}

#[test]
fn first_packet_of_a_session_is_heard() {
    let (mut clients, names) = setup(2);
    let key = Key { bytes: [1u8; 32] };
    assert!(clients.set_session_key(&names[0], key));
    assert!(!clients.set_session_key("nobody", key));
    assert!(matches!(
        handle_packet(SERVER, b"x", &names[0], &mut clients, 0),
        PacketDecision::Handle(_)
    ));
    assert!(matches!(
        handle_packet(SERVER, b"x", &names[1], &mut clients, 0),
        PacketDecision::ExchangeKeys
    ));
}

#[test]
fn failed_write() {
    assert_eq!(
        send_failure("broken pipe").message(),
        "Network error: Failed to send message: broken pipe"
    );
}
