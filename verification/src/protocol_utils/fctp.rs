//! Messages of the protocol: their codes, their wire format and their encryption.

use vstd::prelude::*;
use vstd::string::StringExecFns;
use vstd::utf8::{
    decode_utf8, encode_utf8, encode_utf8_decode_utf8, encode_utf8_valid_utf8, valid_utf8,
};
use crate::crypt::error::{crypt_error_quoted, CryptError};
use crate::crypt::keys::{zero_key, Key};
use crate::crypt::random::random_bytes;
use crate::crypt::symmetric;
use crate::number::{
    law_number_round_trip, lemma_decimal_trimmed, parse_i32, parsed_i32,
    signed_decimal, signed_text,
};
use crate::text::{
    after_prefix, is_letter_or_number, is_trimmed, is_white_space, law_lines, lemma_first_line,
    lemma_trimmed, lemma_trimmed_fixed, letter_or_number, lines, split_lines, strip_prefix, text_of_utf8, texts, trim, trimmed,
    utf8_failure,
};

verus! {

/// The first line of every message.
pub const PROTOCOL_VERSION: &'static str = "FoggyChat Transfer Protocol 0.1";

/// The smallest length of a nickname, in bytes.
pub const MIN_NICK_LENGTH: usize = 3;

/// The largest length of a nickname, in bytes.
pub const MAX_NICK_LENGTH: usize = 20;

/// What can go wrong with a message.
#[derive(Debug)]
pub enum FctpError {
    EncryptionFailed(String),
    DecryptionFailed(String),
    MalformedMessage(String),
    InvalidProtocolVersion(String),
    NetworkError(String),
    InvalidNickname(String),
}

/// What can go wrong with a message, with the details as plain text.
pub enum FctpErrorView {
    EncryptionFailed(Seq<char>),
    DecryptionFailed(Seq<char>),
    MalformedMessage(Seq<char>),
    InvalidProtocolVersion(Seq<char>),
    NetworkError(Seq<char>),
    InvalidNickname(Seq<char>),
}

impl View for FctpError {
    type V = FctpErrorView;

    open spec fn view(&self) -> FctpErrorView {
        match self {
            FctpError::EncryptionFailed(s) => FctpErrorView::EncryptionFailed(s@),
            FctpError::DecryptionFailed(s) => FctpErrorView::DecryptionFailed(s@),
            FctpError::MalformedMessage(s) => FctpErrorView::MalformedMessage(s@),
            FctpError::InvalidProtocolVersion(s) => FctpErrorView::InvalidProtocolVersion(s@),
            FctpError::NetworkError(s) => FctpErrorView::NetworkError(s@),
            FctpError::InvalidNickname(s) => FctpErrorView::InvalidNickname(s@),
        }
    }
}

/// What an error says to a reader.
pub open spec fn fctp_error_text(e: FctpErrorView) -> Seq<char> {
    match e {
        FctpErrorView::EncryptionFailed(s) => "Encryption failed: "@ + s,
        FctpErrorView::DecryptionFailed(s) => "Decryption failed: "@ + s,
        FctpErrorView::MalformedMessage(s) => "Malformed message: "@ + s,
        FctpErrorView::InvalidProtocolVersion(s) => "Invalid protocol version: "@ + s,
        FctpErrorView::NetworkError(s) => "Network error: "@ + s,
        FctpErrorView::InvalidNickname(s) => "Invalid nickname: "@ + s,
    }
}

/// `first` followed by `second`.
pub(crate) fn joined(first: &str, second: &str) -> (r: String)
    ensures
        r@ == first@ + second@,
{
    let mut r = first.to_owned();
    r.append(second);
    r
}

/// `first`, `second` and `third`, one after the other.
pub(crate) fn joined3(first: &str, second: &str, third: &str) -> (r: String)
    ensures
        r@ == first@ + second@ + third@,
{
    let mut r = first.to_owned();
    r.append(second);
    r.append(third);
    r
}

impl FctpError {
    /// The text of the error.
    pub fn message(&self) -> (r: String)
        ensures
            r@ == fctp_error_text(self@),
    {
        match self {
            FctpError::EncryptionFailed(s) => joined("Encryption failed: ", s.as_str()),
            FctpError::DecryptionFailed(s) => joined("Decryption failed: ", s.as_str()),
            FctpError::MalformedMessage(s) => joined("Malformed message: ", s.as_str()),
            FctpError::InvalidProtocolVersion(s) => joined("Invalid protocol version: ", s.as_str()),
            FctpError::NetworkError(s) => joined("Network error: ", s.as_str()),
            FctpError::InvalidNickname(s) => joined("Invalid nickname: ", s.as_str()),
        }
    }
}

/// A result, with what it carries taken by its view.
pub open spec fn viewed<T: View, E: View>(r: Result<T, E>) -> Result<T::V, E::V> {
    match r {
        Ok(t) => Ok(t@),
        Err(e) => Err(e@),
    }
}

/// The kinds of messages.
#[derive(Debug, Clone, Copy, PartialEq, Eq, Structural)]
pub enum FctpCode {
    Ping,
    Pong,
    Message,
    Command,
    BadRequest,
    MethodNotAllowed,
    InternalServerError,
    ServiceUnavailable,
    Hello,
    PublicKeyExchange,
    KeyRequest,
}

/// The number that stands for a kind of message.
pub open spec fn code_number(code: FctpCode) -> i32 {
    match code {
        FctpCode::Ping => 10,
        FctpCode::Pong => 11,
        FctpCode::Message => 200,
        FctpCode::Command => 201,
        FctpCode::BadRequest => 400,
        FctpCode::MethodNotAllowed => 405,
        FctpCode::InternalServerError => 500,
        FctpCode::ServiceUnavailable => 505,
        FctpCode::Hello => 900,
        FctpCode::PublicKeyExchange => 901,
        FctpCode::KeyRequest => 902,
    }
}

/// The kind of message that a number stands for, if it stands for one.
pub open spec fn numbered_code(n: i32) -> Option<FctpCode> {
    match n {
        10 => Some(FctpCode::Ping),
        11 => Some(FctpCode::Pong),
        200 => Some(FctpCode::Message),
        201 => Some(FctpCode::Command),
        400 => Some(FctpCode::BadRequest),
        405 => Some(FctpCode::MethodNotAllowed),
        500 => Some(FctpCode::InternalServerError),
        505 => Some(FctpCode::ServiceUnavailable),
        900 => Some(FctpCode::Hello),
        901 => Some(FctpCode::PublicKeyExchange),
        902 => Some(FctpCode::KeyRequest),
        _ => None,
    }
}

impl FctpCode {
    /// The kind of message that a number stands for, or nothing if it stands for none.
    pub fn from_i32(code: i32) -> (r: Option<FctpCode>)
        ensures
            r == numbered_code(code),
            r matches Some(c) ==> code_number(c) == code,
    {
        match code {
            10 => Some(FctpCode::Ping),
            11 => Some(FctpCode::Pong),
            200 => Some(FctpCode::Message),
            201 => Some(FctpCode::Command),
            400 => Some(FctpCode::BadRequest),
            405 => Some(FctpCode::MethodNotAllowed),
            500 => Some(FctpCode::InternalServerError),
            505 => Some(FctpCode::ServiceUnavailable),
            900 => Some(FctpCode::Hello),
            901 => Some(FctpCode::PublicKeyExchange),
            902 => Some(FctpCode::KeyRequest),
            _ => None,
        }
    }

    /// The number that stands for this kind of message.
    pub fn to_i32(self) -> (r: i32)
        ensures
            r == code_number(self),
    {
        match self {
            FctpCode::Ping => 10,
            FctpCode::Pong => 11,
            FctpCode::Message => 200,
            FctpCode::Command => 201,
            FctpCode::BadRequest => 400,
            FctpCode::MethodNotAllowed => 405,
            FctpCode::InternalServerError => 500,
            FctpCode::ServiceUnavailable => 505,
            FctpCode::Hello => 900,
            FctpCode::PublicKeyExchange => 901,
            FctpCode::KeyRequest => 902,
        }
    }
}

/// A number stands for a kind of message exactly where it is the number of that kind.
pub proof fn law_code_numbers(n: i32, code: FctpCode)
    ensures
        numbered_code(n) == Some(code) <==> code_number(code) == n,
{
}

/// A message.
#[derive(Debug, PartialEq)]
pub struct FctpMessage {
    pub code: FctpCode,
    pub from: String,
    pub body: String,
    pub to: String,
}

/// A message, with its fields as plain text.
#[verifier::ext_equal]
pub struct FctpMessageView {
    pub code: FctpCode,
    pub from: Seq<char>,
    pub body: Seq<char>,
    pub to: Seq<char>,
}

impl View for FctpMessage {
    type V = FctpMessageView;

    open spec fn view(&self) -> FctpMessageView {
        FctpMessageView { code: self.code, from: self.from@, body: self.body@, to: self.to@ }
    }
}

impl Clone for FctpMessage {
    fn clone(&self) -> (r: FctpMessage)
        ensures
            r@ == self@,
    {
        FctpMessage {
            code: self.code,
            from: self.from.clone(),
            body: self.body.clone(),
            to: self.to.clone(),
        }
    }
}

/// A message made of its parts.
pub open spec fn message_of(
    code: FctpCode,
    from: Seq<char>,
    body: Seq<char>,
    to: Seq<char>,
) -> FctpMessageView {
    FctpMessageView { code, from, body, to }
}

impl FctpMessage {
    /// Makes a message of its parts.
    pub fn new(code: FctpCode, from: &str, body: &str, to: &str) -> (r: FctpMessage)
        ensures
            r@ == message_of(code, from@, body@, to@),
    {
        FctpMessage { code, from: from.to_owned(), body: body.to_owned(), to: to.to_owned() }
    }

    /// A ping from the server.
    pub fn ping(server_id: &str, to: &str) -> (r: FctpMessage)
        ensures
            r@ == message_of(FctpCode::Ping, server_id@, "ping"@, to@),
    {
        FctpMessage::new(FctpCode::Ping, server_id, "ping", to)
    }

    /// The server's answer to a ping.
    pub fn pong(server_id: &str, to: &str) -> (r: FctpMessage)
        ensures
            r@ == message_of(FctpCode::Pong, server_id@, "pong"@, to@),
    {
        FctpMessage::new(FctpCode::Pong, server_id, "pong", to)
    }

    /// An error that the server reports.
    pub fn error(server_id: &str, code: FctpCode, message: &str, to: &str) -> (r: FctpMessage)
        ensures
            r@ == message_of(code, server_id@, message@, to@),
    {
        FctpMessage::new(code, server_id, message, to)
    }
}

/// A message as it is written: the version, the number of its code and its three fields, each on a
/// line of its own, then an empty line.
pub open spec fn frame_text(m: FctpMessageView) -> Seq<char> {
    PROTOCOL_VERSION@ + "\r\n"@ + signed_decimal(code_number(m.code) as int) + "\r\nFrom: "@ + m.from
        + "\r\nBody: "@ + m.body + "\r\nTo: "@ + m.to + "\r\n\r\n"@
}

/// Writes a message.
pub fn format_fctp_message(message: &FctpMessage) -> (r: String)
    ensures
        r@ == frame_text(message@),
{
    let mut r = PROTOCOL_VERSION.to_owned();
    r.append("\r\n");
    let number = signed_text(message.code.to_i32());
    r.append(number.as_str());
    r.append("\r\nFrom: ");
    r.append(message.from.as_str());
    r.append("\r\nBody: ");
    r.append(message.body.as_str());
    r.append("\r\nTo: ");
    r.append(message.to.as_str());
    r.append("\r\n\r\n");
    r
}

/// The line at an index, if there is one.
pub open spec fn line_at(ls: Seq<Seq<char>>, i: int) -> Option<Seq<char>> {
    if 0 <= i < ls.len() {
        Some(ls[i])
    } else {
        None
    }
}

/// The value of a field: what stands on its line behind the name, a colon and a space, trimmed.
pub open spec fn header_field(line: Option<Seq<char>>, name: Seq<char>) -> Result<
    Seq<char>,
    FctpErrorView,
> {
    match line {
        None => Err(FctpErrorView::MalformedMessage("Missing "@ + name + " line"@)),
        Some(l) => match after_prefix(l, name + ": "@) {
            Some(value) => Ok(trimmed(value)),
            None => Err(
                FctpErrorView::MalformedMessage("Invalid "@ + name + " format: "@ + l),
            ),
        },
    }
}

/// The three fields on the lines behind the code.
pub open spec fn parsed_fields(code: FctpCode, ls: Seq<Seq<char>>) -> Result<
    FctpMessageView,
    FctpErrorView,
> {
    match header_field(line_at(ls, 2), "From"@) {
        Err(e) => Err(e),
        Ok(from) => match header_field(line_at(ls, 3), "Body"@) {
            Err(e) => Err(e),
            Ok(body) => match header_field(line_at(ls, 4), "To"@) {
                Err(e) => Err(e),
                Ok(to) => Ok(message_of(code, from, body, to)),
            },
        },
    }
}

/// The message that a text stands for, or what is wrong with the text. What comes first is
/// reported.
pub open spec fn parsed_message(s: Seq<char>) -> Result<FctpMessageView, FctpErrorView> {
    let ls = lines(s);
    if ls.len() == 0 {
        Err(FctpErrorView::MalformedMessage("Missing protocol line"@))
    } else if ls[0] != PROTOCOL_VERSION@ {
        Err(FctpErrorView::InvalidProtocolVersion(ls[0]))
    } else if ls.len() == 1 {
        Err(FctpErrorView::MalformedMessage("Missing code line"@))
    } else {
        match parsed_i32(trimmed(ls[1])) {
            None => Err(FctpErrorView::MalformedMessage("Invalid code: "@ + trimmed(ls[1]))),
            Some(n) => match numbered_code(n) {
                None => Err(
                    FctpErrorView::MalformedMessage("Unknown code: "@ + signed_decimal(n as int)),
                ),
                Some(code) => parsed_fields(code, ls),
            },
        }
    }
}

/// Reads the value of a field from its line.
pub fn parse_header_field(line: Option<&str>, field_name: &str) -> (r: Result<String, FctpError>)
    ensures
        viewed(r) == header_field(
            match line {
                Some(l) => Some(l@),
                None => None,
            },
            field_name@,
        ),
{
    match line {
        None => Err(FctpError::MalformedMessage(joined3("Missing ", field_name, " line"))),
        Some(l) => {
            let prefix = joined(field_name, ": ");
            match strip_prefix(l, prefix.as_str()) {
                Some(value) => Ok(trim(value.as_str())),
                None => {
                    let mut text = joined3("Invalid ", field_name, " format: ");
                    text.append(l);
                    Err(FctpError::MalformedMessage(text))
                },
            }
        },
    }
}

/// The line at an index, if there is one.
fn get_line(ls: &Vec<String>, i: usize) -> (r: Option<&str>)
    ensures
        match r {
            Some(l) => line_at(texts(ls@), i as int) == Some(l@),
            None => line_at(texts(ls@), i as int) is None,
        },
{
    if i < ls.len() {
        Some(ls[i].as_str())
    } else {
        None
    }
}

/// Reads a message.
pub fn parse_fctp_message(message: &str) -> (r: Result<FctpMessage, FctpError>)
    ensures
        viewed(r) == parsed_message(message@),
{
    let ls = split_lines(message);
    let protocol_line = match get_line(&ls, 0) {
        Some(l) => l,
        None => {
            return Err(FctpError::MalformedMessage("Missing protocol line".to_owned()));
        },
    };
    let version = PROTOCOL_VERSION.to_owned();
    if protocol_line.to_owned() != version {
        return Err(FctpError::InvalidProtocolVersion(protocol_line.to_owned()));
    }
    let code_str = match get_line(&ls, 1) {
        Some(l) => trim(l),
        None => {
            return Err(FctpError::MalformedMessage("Missing code line".to_owned()));
        },
    };
    let code_int = match parse_i32(code_str.as_str()) {
        Some(n) => n,
        None => {
            return Err(FctpError::MalformedMessage(joined("Invalid code: ", code_str.as_str())));
        },
    };
    let code = match FctpCode::from_i32(code_int) {
        Some(c) => c,
        None => {
            let number = signed_text(code_int);
            return Err(FctpError::MalformedMessage(joined("Unknown code: ", number.as_str())));
        },
    };
    let from = match parse_header_field(get_line(&ls, 2), "From") {
        Ok(s) => s,
        Err(e) => {
            return Err(e);
        },
    };
    let body = match parse_header_field(get_line(&ls, 3), "Body") {
        Ok(s) => s,
        Err(e) => {
            return Err(e);
        },
    };
    let to = match parse_header_field(get_line(&ls, 4), "To") {
        Ok(s) => s,
        Err(e) => {
            return Err(e);
        },
    };
    Ok(FctpMessage { code, from, body, to })
}

/// What a decrypted frame stands for: the message on it, if its bytes are UTF-8.
pub open spec fn parsed_bytes(bytes: Seq<u8>) -> Result<FctpMessageView, FctpErrorView> {
    if valid_utf8(bytes) {
        parsed_message(decode_utf8(bytes))
    } else {
        Err(FctpErrorView::DecryptionFailed("UTF-8 decode error: "@ + utf8_failure(bytes)))
    }
}

/// What a frame stands for under a session key. Under the default key a frame is not encrypted.
pub open spec fn decapsulated(frame: Seq<u8>, key: Seq<u8>) -> Result<
    FctpMessageView,
    FctpErrorView,
> {
    if key == zero_key() {
        parsed_bytes(frame)
    } else {
        match symmetric::opened(key, frame) {
            Ok(bytes) => parsed_bytes(bytes),
            Err(e) => Err(FctpErrorView::DecryptionFailed(crypt_error_quoted(e))),
        }
    }
}

/// Whether a message is short enough for the cipher.
pub open spec fn fits_cipher(m: FctpMessageView) -> bool {
    encode_utf8(frame_text(m)).len() <= symmetric::MAX_PLAINTEXT
}

/// Writes a message and encrypts it under a session key with a given nonce. Opening the frame under
/// the same key gives the written message.
pub fn encapsulate_with_nonce(message: &FctpMessage, session_key: &Key, nonce: &[u8; 12]) -> (r:
    Result<Vec<u8>, FctpError>)
    ensures
        match r {
            Ok(frame) => fits_cipher(message@) && frame@ == symmetric::sealed(
                session_key@,
                nonce@,
                encode_utf8(frame_text(message@)),
            ),
            Err(e) => !fits_cipher(message@) && e@ == FctpErrorView::EncryptionFailed(
                crypt_error_quoted(CryptError::EncryptFailed),
            ),
        },
        r matches Ok(frame) ==> symmetric::opened(session_key@, frame@) == Ok::<Seq<u8>, CryptError>(
            encode_utf8(frame_text(message@)),
        ),
        r matches Ok(frame) ==> frame@.len() == encode_utf8(frame_text(message@)).len() + 28,
        r matches Ok(frame) ==> session_key@ != zero_key() ==> decapsulated(frame@, session_key@)
            == parsed_message(frame_text(message@)),
{
    let text = format_fctp_message(message);
    proof {
        encode_utf8_decode_utf8(text@);
        encode_utf8_valid_utf8(text@);
    }
    match symmetric::seal_binary(text.as_str(), session_key, nonce) {
        Ok(frame) => Ok(frame),
        Err(e) => Err(FctpError::EncryptionFailed(e.quoted())),
    }
}

/// Writes a message and encrypts it under a session key with a random nonce. Opening the frame under
/// the same key gives the written message; reading the frame under it, unless it is the default key,
/// gives what reading the written message gives.
pub fn encapsulate_to_fctp(message: &FctpMessage, session_key: &Key) -> (r: Result<
    Vec<u8>,
    FctpError,
>)
    ensures
        match r {
            Ok(frame) => fits_cipher(message@) && exists|nonce: Seq<u8>|
                nonce.len() == symmetric::NONCE_SIZE && frame@ == #[trigger] symmetric::sealed(
                    session_key@,
                    nonce,
                    encode_utf8(frame_text(message@)),
                ),
            Err(e) => !fits_cipher(message@) && e@ == FctpErrorView::EncryptionFailed(
                crypt_error_quoted(CryptError::EncryptFailed),
            ),
        },
        r matches Ok(frame) ==> symmetric::opened(session_key@, frame@) == Ok::<Seq<u8>, CryptError>(
            encode_utf8(frame_text(message@)),
        ),
        r matches Ok(frame) ==> frame@.len() == encode_utf8(frame_text(message@)).len() + 28,
        r matches Ok(frame) ==> session_key@ != zero_key() ==> decapsulated(frame@, session_key@)
            == parsed_message(frame_text(message@)),
        r matches Ok(frame) ==> session_key@ != zero_key() && canonical(message@) ==> decapsulated(
            frame@,
            session_key@,
        ) == Ok::<FctpMessageView, FctpErrorView>(message@),
{
    let nonce: [u8; 12] = random_bytes();
    proof {
        law_message_round_trip(message@);
    }
    encapsulate_with_nonce(message, session_key, &nonce)
}

/// Reads the message on decrypted bytes.
fn parse_bytes(bytes: Vec<u8>) -> (r: Result<FctpMessage, FctpError>)
    ensures
        viewed(r) == parsed_bytes(bytes@),
{
    match text_of_utf8(bytes) {
        Ok(text) => parse_fctp_message(text.as_str()),
        Err(failure) => Err(
            FctpError::DecryptionFailed(joined("UTF-8 decode error: ", failure.as_str())),
        ),
    }
}

/// Decrypts a frame under a session key and reads the message on it. Under the default key the
/// frame is read as it is. Under any other key a frame is read only if it was sealed under that key.
pub fn decapsulate_fctp_message(msg: &[u8], session_key: &Key) -> (r: Result<
    FctpMessage,
    FctpError,
>)
    ensures
        viewed(r) == decapsulated(msg@, session_key@),
        r is Ok && session_key@ != zero_key() && msg@.len() <= symmetric::MAX_PLAINTEXT + 28
            ==> exists|bytes: Seq<u8>|
            msg@ == #[trigger] symmetric::sealed(
                session_key@,
                msg@.take(symmetric::NONCE_SIZE as int),
                bytes,
            ) && parsed_bytes(bytes) == viewed(r),
{
    if session_key.is_default() {
        parse_bytes(vstd::slice::slice_to_vec(msg))
    } else {
        match symmetric::decrypt_binary(msg, session_key) {
            Ok(bytes) => parse_bytes(bytes),
            Err(e) => Err(FctpError::DecryptionFailed(e.quoted())),
        }
    }
}

/// Whether a text comes back unchanged as the value of a field: it has no line feed, and no white
/// space at either end.
pub open spec fn canonical_field(f: Seq<char>) -> bool {
    is_trimmed(f) && !f.contains('\n')
}

/// Whether all three fields of a message are canonical.
pub open spec fn canonical(m: FctpMessageView) -> bool {
    canonical_field(m.from) && canonical_field(m.body) && canonical_field(m.to)
}

/// Two texts without line feeds make one without line feeds.
proof fn lemma_no_line_feed(first: Seq<char>, second: Seq<char>)
    requires
        !first.contains('\n'),
        !second.contains('\n'),
    ensures
        !(first + second).contains('\n'),
{
    let s = first + second;
    assert forall|i: int| 0 <= i < s.len() implies s[i] != '\n' by {
        if i < first.len() {
            assert(first[i] == s[i]);
        } else {
            assert(second[i - first.len()] == s[i]);
        }
    }
}

/// The line of a field.
spec fn field_line(name: Seq<char>, value: Seq<char>) -> Seq<char> {
    name + ": "@ + value
}

/// Lines, each with its line end behind it.
spec fn with_ends(ls: Seq<Seq<char>>) -> Seq<char>
    decreases ls.len(),
{
    if ls.len() == 0 {
        Seq::empty()
    } else {
        ls.first() + seq!['\r', '\n'] + with_ends(ls.drop_first())
    }
}

/// Lines without line feeds that are written with their ends are the lines of what is written.
proof fn lemma_lines_with_ends(ls: Seq<Seq<char>>)
    requires
        forall|i: int| 0 <= i < ls.len() ==> !(#[trigger] ls[i]).contains('\n'),
    ensures
        lines(with_ends(ls)) == ls,
    decreases ls.len(),
{
    if ls.len() > 0 {
        let rest = ls.drop_first();
        assert forall|i: int| 0 <= i < rest.len() implies !(#[trigger] rest[i]).contains('\n') by {
            assert(rest[i] == ls[i + 1]);
        }
        lemma_lines_with_ends(rest);
        assert(!ls[0].contains('\n'));
        lemma_first_line(ls.first(), with_ends(rest));
        assert(seq![ls.first()] + rest == ls);
    }
}

/// The six lines of a written message.
spec fn frame_lines(m: FctpMessageView) -> Seq<Seq<char>> {
    seq![
        PROTOCOL_VERSION@,
        signed_decimal(code_number(m.code) as int),
        field_line("From"@, m.from),
        field_line("Body"@, m.body),
        field_line("To"@, m.to),
        Seq::<char>::empty(),
    ]
}

/// A written message is its six lines with their ends.
proof fn lemma_frame_text(m: FctpMessageView)
    ensures
        frame_text(m) == with_ends(frame_lines(m)),
{
    reveal_strlit("\r\n");
    reveal_strlit("\r\nFrom: ");
    reveal_strlit("\r\nBody: ");
    reveal_strlit("\r\nTo: ");
    reveal_strlit("\r\n\r\n");
    reveal_strlit("From");
    reveal_strlit("Body");
    reveal_strlit("To");
    reveal_strlit(": ");
    let eol = seq!['\r', '\n'];
    let ls = frame_lines(m);
    assert(with_ends(ls) == ls[0] + eol + (ls[1] + eol + (ls[2] + eol + (ls[3] + eol + (ls[4] + eol
        + (ls[5] + eol)))))) by {
        reveal_with_fuel(with_ends, 7);
        let t1 = ls.drop_first();
        let t2 = t1.drop_first();
        let t3 = t2.drop_first();
        let t4 = t3.drop_first();
        let t5 = t4.drop_first();
        assert(t5.drop_first().len() == 0);
        assert(with_ends(t5) == ls[5] + eol);
    }
    assert("\r\nFrom: "@ == eol + "From"@ + ": "@);
    assert("\r\nBody: "@ == eol + "Body"@ + ": "@);
    assert("\r\nTo: "@ == eol + "To"@ + ": "@);
    assert("\r\n\r\n"@ == eol + eol);
    assert("\r\n"@ == eol);
    assert(frame_text(m) == with_ends(ls));
}

/// The lines of a written message whose fields have no line feed.
proof fn lemma_frame_lines(m: FctpMessageView)
    requires
        canonical(m),
    ensures
        lines(frame_text(m)) == frame_lines(m),
{
    reveal_strlit("From");
    reveal_strlit("Body");
    reveal_strlit("To");
    reveal_strlit(": ");
    reveal_strlit("FoggyChat Transfer Protocol 0.1");
    lemma_no_line_feed("From"@, ": "@);
    lemma_no_line_feed("From"@ + ": "@, m.from);
    lemma_no_line_feed("Body"@, ": "@);
    lemma_no_line_feed("Body"@ + ": "@, m.body);
    lemma_no_line_feed("To"@, ": "@);
    lemma_no_line_feed("To"@ + ": "@, m.to);
    lemma_decimal_trimmed(code_number(m.code) as nat);
    lemma_frame_text(m);
    lemma_lines_with_ends(frame_lines(m));
}

/// A field that was written comes back trimmed.
proof fn lemma_field(name: Seq<char>, value: Seq<char>)
    requires
        is_trimmed(value),
    ensures
        header_field(Some(field_line(name, value)), name) == Ok::<Seq<char>, FctpErrorView>(value),
{
    let l = field_line(name, value);
    let prefix = name + ": "@;
    assert(l.take(prefix.len() as int) == prefix);
    assert(l.skip(prefix.len() as int) == value);
    lemma_trimmed_fixed(value);
}

/// The fields of a message that was read are canonical.
pub proof fn law_parsed_is_canonical(s: Seq<char>)
    ensures
        parsed_message(s) matches Ok(m) ==> canonical(m),
{
    if let Ok(m) = parsed_message(s) {
        let ls = lines(s);
        law_lines(s);
        lemma_read_field(ls[2], "From"@);
        lemma_read_field(ls[3], "Body"@);
        lemma_read_field(ls[4], "To"@);
    }
}

/// The value of a field on a line without line feeds is canonical.
proof fn lemma_read_field(line: Seq<char>, name: Seq<char>)
    requires
        !line.contains('\n'),
    ensures
        header_field(Some(line), name) matches Ok(value) ==> canonical_field(value),
{
    let prefix = name + ": "@;
    if let Some(rest) = after_prefix(line, prefix) {
        lemma_trimmed(rest);
        let value = trimmed(rest);
        assert forall|i: int| 0 <= i < value.len() implies value[i] != '\n' by {
            let j = choose|j: int| 0 <= j < rest.len() && rest[j] == value[i];
            assert(rest.contains(value[i]));
            assert(line[j + prefix.len()] == rest[j]);
        }
    }
}

/// Reading what was written gives back the message exactly where its fields are canonical.
pub proof fn law_message_round_trip(m: FctpMessageView)
    ensures
        parsed_message(frame_text(m)) == Ok::<FctpMessageView, FctpErrorView>(m) <==> canonical(m),
{
    law_parsed_is_canonical(frame_text(m));
    if canonical(m) {
        lemma_frame_lines(m);
        let n = code_number(m.code);
        law_number_round_trip(n);
        lemma_decimal_trimmed(n as nat);
        lemma_trimmed_fixed(signed_decimal(n as int));
        law_code_numbers(n, m.code);
        lemma_field("From"@, m.from);
        lemma_field("Body"@, m.body);
        lemma_field("To"@, m.to);
    }
}

/// Writing and reading again changes nothing about a message that was read.
pub proof fn law_read_write_read(s: Seq<char>)
    ensures
        parsed_message(s) matches Ok(m) ==> parsed_message(frame_text(m)) == parsed_message(s),
{
    if let Ok(m) = parsed_message(s) {
        law_parsed_is_canonical(s);
        law_message_round_trip(m);
    }
}

/// Whether a character may stand in a nickname.
pub open spec fn is_nick_char(c: char) -> bool {
    is_letter_or_number(c) || c == '_' || c == '-'
}

/// What is wrong with a nickname, if anything. The length counts bytes.
pub open spec fn nickname_result(nick: Seq<char>) -> Result<(), FctpErrorView> {
    let len = encode_utf8(nick).len();
    if len < MIN_NICK_LENGTH || len > MAX_NICK_LENGTH {
        Err(FctpErrorView::InvalidNickname("Nickname must be between 3 and 20 characters"@))
    } else if exists|i: int| 0 <= i < nick.len() && !is_nick_char(#[trigger] nick[i]) {
        Err(
            FctpErrorView::InvalidNickname(
                "Nickname can only contain letters, numbers, underscores and hyphens"@,
            ),
        )
    } else {
        Ok(())
    }
}

/// Whether a text is a nickname.
pub open spec fn is_nickname(nick: Seq<char>) -> bool {
    nickname_result(nick) is Ok
}

/// Checks the length and the characters of a nickname.
pub fn validate_nickname(nick: &str) -> (r: Result<(), FctpError>)
    ensures
        viewed(r) == nickname_result(nick@),
{
    let len = nick.as_bytes().len();
    if len < MIN_NICK_LENGTH || len > MAX_NICK_LENGTH {
        return Err(
            FctpError::InvalidNickname("Nickname must be between 3 and 20 characters".to_owned()),
        );
    }
    let chars = crate::text::chars_of(nick);
    for i in 0..chars.len()
        invariant
            chars@ == nick@,
            forall|j: int| 0 <= j < i ==> is_nick_char(#[trigger] nick@[j]),
            MIN_NICK_LENGTH <= encode_utf8(nick@).len() <= MAX_NICK_LENGTH,
    {
        let c = chars[i];
        if !(c.is_alphanumeric() || c == '_' || c == '-') {
            assert(!is_nick_char(nick@[i as int]));
            return Err(
                FctpError::InvalidNickname(
                    "Nickname can only contain letters, numbers, underscores and hyphens".to_owned(),
                ),
            );
        }
    }
    Ok(())
}

/// Each error says in front of its details what kind of error it is.
pub proof fn law_fctp_error_texts(s: Seq<char>)
    ensures
        fctp_error_text(FctpErrorView::EncryptionFailed(s)) == "Encryption failed: "@ + s,
        fctp_error_text(FctpErrorView::DecryptionFailed(s)) == "Decryption failed: "@ + s,
        fctp_error_text(FctpErrorView::MalformedMessage(s)) == "Malformed message: "@ + s,
        fctp_error_text(FctpErrorView::InvalidProtocolVersion(s)) == "Invalid protocol version: "@
            + s,
        fctp_error_text(FctpErrorView::NetworkError(s)) == "Network error: "@ + s,
        fctp_error_text(FctpErrorView::InvalidNickname(s)) == "Invalid nickname: "@ + s,
{
}

/// A message holds what it was made of, and its view holds the texts of its fields.
pub proof fn law_message_fields(
    m: FctpMessage,
    code: FctpCode,
    from: Seq<char>,
    body: Seq<char>,
    to: Seq<char>,
)
    ensures
        m@.code == m.code && m@.from == m.from@ && m@.body == m.body@ && m@.to == m.to@,
        message_of(code, from, body, to).code == code,
        message_of(code, from, body, to).from == from,
        message_of(code, from, body, to).body == body,
        message_of(code, from, body, to).to == to,
{
}

/// The view of an error or of a result keeps its variant and the text it carries.
pub proof fn law_error_views(s: String, r: Result<FctpMessage, FctpError>)
    ensures
        FctpError::EncryptionFailed(s)@ == FctpErrorView::EncryptionFailed(s@),
        FctpError::DecryptionFailed(s)@ == FctpErrorView::DecryptionFailed(s@),
        FctpError::MalformedMessage(s)@ == FctpErrorView::MalformedMessage(s@),
        FctpError::InvalidProtocolVersion(s)@ == FctpErrorView::InvalidProtocolVersion(s@),
        FctpError::NetworkError(s)@ == FctpErrorView::NetworkError(s@),
        FctpError::InvalidNickname(s)@ == FctpErrorView::InvalidNickname(s@),
        r matches Ok(m) ==> viewed(r) == Ok::<FctpMessageView, FctpErrorView>(m@),
        r matches Err(e) ==> viewed(r) == Err::<FctpMessageView, FctpErrorView>(e@),
{
}

/// Whatever its code and its fields, a message is written with the version, the number of its code,
/// and each field behind its own name, in this order.
pub proof fn law_written_text(m: FctpMessageView)
    ensures
        frame_text(m) == "FoggyChat Transfer Protocol 0.1"@ + "\r\n"@ + signed_decimal(
            code_number(m.code) as int,
        ) + "\r\nFrom: "@ + m.from + "\r\nBody: "@ + m.body + "\r\nTo: "@ + m.to + "\r\n\r\n"@,
{
}

/// The lines of a written message: the version, the number of its code, the sender on the line that
/// names the sender, the body on the line that names the body, the receiver on the line that names the
/// receiver, and an empty line.
pub proof fn law_written_lines(m: FctpMessageView)
    requires
        canonical(m),
    ensures
        lines(frame_text(m)).len() == 6,
        lines(frame_text(m))[0] == "FoggyChat Transfer Protocol 0.1"@,
        lines(frame_text(m))[1] == signed_decimal(code_number(m.code) as int),
        lines(frame_text(m))[2] == "From: "@ + m.from,
        lines(frame_text(m))[3] == "Body: "@ + m.body,
        lines(frame_text(m))[4] == "To: "@ + m.to,
        lines(frame_text(m))[5].len() == 0,
{
    reveal_strlit("From");
    reveal_strlit("Body");
    reveal_strlit("To");
    reveal_strlit(": ");
    reveal_strlit("From: ");
    reveal_strlit("Body: ");
    reveal_strlit("To: ");
    assert("From"@ + ": "@ == "From: "@);
    assert("Body"@ + ": "@ == "Body: "@);
    assert("To"@ + ": "@ == "To: "@);
    lemma_frame_lines(m);
}

/// A field is canonical exactly where it has no line feed and neither begins nor ends with white
/// space.
pub proof fn law_canonical(m: FctpMessageView, f: Seq<char>)
    ensures
        canonical_field(f) <==> (forall|i: int| 0 <= i < f.len() ==> #[trigger] f[i] != '\n') && (
        f.len() > 0 ==> !is_white_space(f[0]) && !is_white_space(
            f[f.len() - 1],
        )),
        canonical(m) <==> canonical_field(m.from) && canonical_field(m.body) && canonical_field(m.to),
{
}

/// What a field is read as: behind its name, a colon and a space stands its value, without outer
/// white space. A line that is missing and a line that begins otherwise are reported by that name.
proof fn lemma_header_field(line: Seq<char>, name: Seq<char>, prefix: Seq<char>)
    requires
        prefix == name + ": "@,
    ensures
        header_field(None, name) == Err::<Seq<char>, FctpErrorView>(
            FctpErrorView::MalformedMessage("Missing "@ + name + " line"@),
        ),
        prefix.is_prefix_of(line) ==> header_field(Some(line), name) == Ok::<
            Seq<char>,
            FctpErrorView,
        >(trimmed(line.skip(prefix.len() as int))),
        !prefix.is_prefix_of(line) ==> header_field(Some(line), name) == Err::<
            Seq<char>,
            FctpErrorView,
        >(FctpErrorView::MalformedMessage("Invalid "@ + name + " format: "@ + line)),
{
}

/// A text is read as a message exactly where it begins with the version, the number of the code of the
/// message, and the three fields of the message, each on the line that carries its name, with or
/// without outer white space.
pub proof fn law_parsed_message(s: Seq<char>, m: FctpMessageView)
    ensures
        parsed_message(s) == Ok::<FctpMessageView, FctpErrorView>(m) <==> {
            let ls = lines(s);
            &&& ls.len() >= 5
            &&& ls[0] == "FoggyChat Transfer Protocol 0.1"@
            &&& parsed_i32(trimmed(ls[1])) == Some(code_number(m.code))
            &&& "From: "@.is_prefix_of(ls[2]) && m.from == trimmed(ls[2].skip(6))
            &&& "Body: "@.is_prefix_of(ls[3]) && m.body == trimmed(ls[3].skip(6))
            &&& "To: "@.is_prefix_of(ls[4]) && m.to == trimmed(ls[4].skip(4))
        },
{
    lemma_prefixes();
    let ls = lines(s);
    lemma_header_field(ls[2], "From"@, "From: "@);
    lemma_header_field(ls[3], "Body"@, "Body: "@);
    lemma_header_field(ls[4], "To"@, "To: "@);
    law_code_numbers(code_number(m.code), m.code);
}

/// The names of the fields with what separates them from their values.
proof fn lemma_prefixes()
    ensures
        "From: "@ == "From"@ + ": "@ && "From: "@.len() == 6,
        "Body: "@ == "Body"@ + ": "@ && "Body: "@.len() == 6,
        "To: "@ == "To"@ + ": "@ && "To: "@.len() == 4,
{
    reveal_strlit("From");
    reveal_strlit("Body");
    reveal_strlit("To");
    reveal_strlit(": ");
    reveal_strlit("From: ");
    reveal_strlit("Body: ");
    reveal_strlit("To: ");
}

/// Of a text that is no message the first fault of its first two lines is reported: a missing version,
/// another version, a missing code, a code that is no number, and a number that stands for no code.
pub proof fn law_refused_heads(s: Seq<char>)
    ensures
        ({
            let ls = lines(s);
            let refusal = parsed_message(s);
            let version = "FoggyChat Transfer Protocol 0.1"@;
            &&& ls.len() == 0 ==> refusal == Err::<FctpMessageView, FctpErrorView>(
                FctpErrorView::MalformedMessage("Missing protocol line"@),
            )
            &&& ls.len() > 0 && ls[0] != version ==> refusal == Err::<FctpMessageView, FctpErrorView>(
                FctpErrorView::InvalidProtocolVersion(ls[0]),
            )
            &&& ls.len() == 1 && ls[0] == version ==> refusal == Err::<
                FctpMessageView,
                FctpErrorView,
            >(FctpErrorView::MalformedMessage("Missing code line"@))
            &&& ls.len() > 1 && ls[0] == version && parsed_i32(trimmed(ls[1])) is None ==> refusal
                == Err::<FctpMessageView, FctpErrorView>(
                FctpErrorView::MalformedMessage("Invalid code: "@ + trimmed(ls[1])),
            )
            &&& ls.len() > 1 && ls[0] == version && parsed_i32(trimmed(ls[1])) is Some && (forall|
                c: FctpCode,
            | #[trigger]
                code_number(c) != parsed_i32(trimmed(ls[1]))->Some_0) ==> refusal == Err::<
                FctpMessageView,
                FctpErrorView,
            >(
                FctpErrorView::MalformedMessage(
                    "Unknown code: "@ + signed_decimal(parsed_i32(trimmed(ls[1]))->Some_0 as int),
                ),
            )
        }),
{
    if let Some(n) = parsed_i32(trimmed(lines(s)[1])) {
        if let Some(c) = numbered_code(n) {
            law_code_numbers(n, c);
        }
    }
}

/// Of a text with the version and a code the first line is reported that is missing or does not carry
/// the name of its field.
pub proof fn law_refused_fields(s: Seq<char>, code: FctpCode)
    requires
        lines(s).len() > 1,
        lines(s)[0] == "FoggyChat Transfer Protocol 0.1"@,
        parsed_i32(trimmed(lines(s)[1])) == Some(code_number(code)),
    ensures
        ({
            let ls = lines(s);
            let refusal = parsed_message(s);
            let from = ls.len() > 2 && "From: "@.is_prefix_of(ls[2]);
            let body = ls.len() > 3 && "Body: "@.is_prefix_of(ls[3]);
            let to = ls.len() > 4 && "To: "@.is_prefix_of(ls[4]);
            &&& from && body && to <==> refusal is Ok
            &&& ls.len() == 2 ==> refusal == Err::<FctpMessageView, FctpErrorView>(
                FctpErrorView::MalformedMessage("Missing "@ + "From"@ + " line"@),
            )
            &&& ls.len() > 2 && !from ==> refusal == Err::<FctpMessageView, FctpErrorView>(
                FctpErrorView::MalformedMessage("Invalid "@ + "From"@ + " format: "@ + ls[2]),
            )
            &&& from && ls.len() == 3 ==> refusal == Err::<FctpMessageView, FctpErrorView>(
                FctpErrorView::MalformedMessage("Missing "@ + "Body"@ + " line"@),
            )
            &&& from && ls.len() > 3 && !body ==> refusal == Err::<FctpMessageView, FctpErrorView>(
                FctpErrorView::MalformedMessage("Invalid "@ + "Body"@ + " format: "@ + ls[3]),
            )
            &&& from && body && ls.len() == 4 ==> refusal == Err::<FctpMessageView, FctpErrorView>(
                FctpErrorView::MalformedMessage("Missing "@ + "To"@ + " line"@),
            )
            &&& from && body && ls.len() > 4 && !to ==> refusal == Err::<
                FctpMessageView,
                FctpErrorView,
            >(FctpErrorView::MalformedMessage("Invalid "@ + "To"@ + " format: "@ + ls[4]))
        }),
{
    lemma_prefixes();
    let ls = lines(s);
    law_code_numbers(code_number(code), code);
    lemma_header_field(ls[2], "From"@, "From: "@);
    lemma_header_field(ls[3], "Body"@, "Body: "@);
    lemma_header_field(ls[4], "To"@, "To: "@);
}

/// The value of a field is read from a line whatever the name of the field: it is what stands behind
/// the name, a colon and a space, without outer white space, and nothing else is a value.
pub proof fn law_header_field(line: Seq<char>, name: Seq<char>)
    ensures
        header_field(None, name) == Err::<Seq<char>, FctpErrorView>(
            FctpErrorView::MalformedMessage("Missing "@ + name + " line"@),
        ),
        (name + ": "@).is_prefix_of(line) ==> header_field(Some(line), name) == Ok::<
            Seq<char>,
            FctpErrorView,
        >(trimmed(line.skip((name + ": "@).len() as int))),
        !(name + ": "@).is_prefix_of(line) ==> header_field(Some(line), name) == Err::<
            Seq<char>,
            FctpErrorView,
        >(FctpErrorView::MalformedMessage("Invalid "@ + name + " format: "@ + line)),
{
    lemma_header_field(line, name, name + ": "@);
}

/// A frame is read as UTF-8 text: as it is under the key that is all zero, and otherwise after it was
/// opened under its key. What is no UTF-8 and what does not open is reported as a failed decryption.
pub proof fn law_decapsulated(frame: Seq<u8>, key: Seq<u8>, bytes: Seq<u8>)
    requires
        key.len() == 32,
    ensures
        ({
            let unset = forall|i: int| 0 <= i < 32 ==> #[trigger] key[i] == 0;
            let readable = unset && bytes == frame || !unset && symmetric::opened(key, frame) == Ok::<
                Seq<u8>,
                CryptError,
            >(bytes);
            &&& readable && valid_utf8(bytes) ==> decapsulated(frame, key) == parsed_message(
                decode_utf8(bytes),
            )
            &&& readable && !valid_utf8(bytes) ==> decapsulated(frame, key) == Err::<
                FctpMessageView,
                FctpErrorView,
            >(
                FctpErrorView::DecryptionFailed("UTF-8 decode error: "@ + utf8_failure(bytes)),
            )
            &&& !unset && symmetric::opened(key, frame) is Err ==> decapsulated(frame, key) == Err::<
                FctpMessageView,
                FctpErrorView,
            >(
                FctpErrorView::DecryptionFailed(
                    crypt_error_quoted(symmetric::opened(key, frame)->Err_0),
                ),
            )
        }),
{
    if forall|i: int| 0 <= i < 32 ==> #[trigger] key[i] == 0 {
        assert(key == zero_key());
    } else {
        let i = choose|i: int| 0 <= i < 32 && #[trigger] key[i] != 0;
        assert(zero_key()[i] == 0);
    }
}

/// A message fits the cipher exactly where its written text has at most 2^36 bytes.
pub proof fn law_fits_cipher(m: FctpMessageView)
    ensures
        fits_cipher(m) <==> encode_utf8(frame_text(m)).len() <= 0x10_0000_0000,
{
}

/// A text is a nickname exactly where it has 3 to 20 bytes and each of its characters, at whatever
/// place, is a letter, a number, an underscore or a hyphen. A wrong length is reported before a wrong
/// character.
pub proof fn law_nickname(nick: Seq<char>)
    ensures
        ({
            let fits = 3 <= encode_utf8(nick).len() <= 20;
            let clean = forall|i: int|
                0 <= i < nick.len() ==> {
                    ||| 'a' <= #[trigger] nick[i] <= 'z'
                    ||| 'A' <= nick[i] <= 'Z'
                    ||| '0' <= nick[i] <= '9'
                    ||| nick[i] == '_'
                    ||| nick[i] == '-'
                    ||| nick[i] > '\u{7f}' && letter_or_number(nick[i])
                        && !is_white_space(nick[i])
                };
            &&& nickname_result(nick) is Ok <==> fits && clean
            &&& is_nickname(nick) <==> fits && clean
            &&& !fits ==> nickname_result(nick) == Err::<(), FctpErrorView>(
                FctpErrorView::InvalidNickname("Nickname must be between 3 and 20 characters"@),
            )
            &&& fits && !clean ==> nickname_result(nick) == Err::<(), FctpErrorView>(
                FctpErrorView::InvalidNickname(
                    "Nickname can only contain letters, numbers, underscores and hyphens"@,
                ),
            )
        }),
{
    assert forall|i: int| 0 <= i < nick.len() implies (#[trigger] is_nick_char(nick[i]) <==> {
        ||| 'a' <= nick[i] <= 'z'
        ||| 'A' <= nick[i] <= 'Z'
        ||| '0' <= nick[i] <= '9'
        ||| nick[i] == '_'
        ||| nick[i] == '-'
        ||| nick[i] > '\u{7f}' && letter_or_number(nick[i])
            && !is_white_space(nick[i])
    }) by {}
    if exists|i: int| 0 <= i < nick.len() && !is_nick_char(#[trigger] nick[i]) {
        let i = choose|i: int| 0 <= i < nick.len() && !is_nick_char(#[trigger] nick[i]);
        assert(!is_nick_char(nick[i]));
    } else {
        assert forall|i: int| 0 <= i < nick.len() implies #[trigger] is_nick_char(nick[i]) by {
            let c = nick[i];
        }
    }
}

} // verus!
