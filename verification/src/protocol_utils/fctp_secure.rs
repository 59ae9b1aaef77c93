//! The keys of the server and of its clients.

use vstd::prelude::*;
use vstd::string::StringExecFns;
use vstd::utf8::{
    decode_utf8, decode_utf8_encode_utf8, encode_utf8, encode_utf8_decode_utf8,
    encode_utf8_valid_utf8, valid_utf8,
};
use crate::crypt::asymmetric;
use crate::crypt::error::{crypt_error_quoted, CryptError};
use crate::crypt::keys::{array_of, zero_key, Key, PublicKey, StaticSecret};
use crate::crypt::random::random_bytes;
use crate::crypt::symmetric;
use crate::crypt::utils::{
    base64_decode, base64_decoded, base64_encode, base64_text, blake3_hash, blake3_hex,
    decode_error_name, decode_error_text, is_base64_char, DecodeError,
};
use crate::protocol_utils::fctp::{joined, viewed, FctpError, FctpErrorView, FctpMessage};
use crate::protocol_utils::fctp_client::{lemma_utf8_len, ClientView, Clients, Registry};
use crate::text::{lemma_trim_behind, lemma_trimmed, text_of_utf8, trim, trimmed, utf8_failure};

verus! {

/// The key pair with which the server answers new clients.
pub struct Certificate {
    public: PublicKey,
    secret: StaticSecret,
}

impl Certificate {
    /// The bytes of the public key.
    pub closed spec fn public_view(&self) -> Seq<u8> {
        self.public@
    }

    /// The bytes of the secret key.
    pub closed spec fn secret_view(&self) -> Seq<u8> {
        self.secret@
    }

    /// A certificate that nobody has set: both keys are all zero.
    pub fn new() -> (r: Certificate)
        ensures
            r.public_view() == zero_key(),
            r.secret_view() == zero_key(),
    {
        let r = Certificate {
            public: PublicKey { bytes: [0u8;32] },
            secret: StaticSecret { bytes: [0u8;32] },
        };
        assert(r.public@ == zero_key());
        assert(r.secret@ == zero_key());
        r
    }

    /// Sets the key pair.
    pub fn set_cert(&mut self, new_pubkey: PublicKey, new_sec: StaticSecret)
        ensures
            final(self).public_view() == new_pubkey@,
            final(self).secret_view() == new_sec@,
    {
        self.public = new_pubkey;
        self.secret = new_sec;
    }

    /// The public key.
    pub fn get_cert_pub(&self) -> (r: PublicKey)
        ensures
            r@ == self.public_view(),
    {
        self.public
    }

    /// The secret key.
    pub fn get_cert_sec(&self) -> (r: StaticSecret)
        ensures
            r@ == self.secret_view(),
    {
        self.secret.clone()
    }
}

/// The fingerprint of a certificate: the digest of its public key.
pub fn fingerprint(cert: &Certificate) -> (r: String)
    ensures
        r@ == blake3_hex(cert.public_view()),
{
    blake3_hash(cert.public.bytes.as_slice())
}

/// The public key that a client announces in a message, or what is wrong with it.
pub open spec fn announced_key(body: Seq<char>) -> Result<Seq<u8>, FctpErrorView> {
    match base64_decoded(trimmed(body)) {
        Err(e) => Err(
            FctpErrorView::MalformedMessage("Base64 decode error: "@ + decode_error_name(e)),
        ),
        Ok(bytes) => if bytes.len() != 32 {
            Err(FctpErrorView::MalformedMessage("Invalid public key length"@))
        } else {
            Ok(bytes)
        },
    }
}

/// The clients after one of them has announced its public key.
pub open spec fn key_announced(m: Registry, body: Seq<char>, id: Seq<char>) -> Registry {
    if m.dom().contains(id) && announced_key(body) is Ok {
        m.insert(id, ClientView { e2ee_public: announced_key(body)->Ok_0, ..m[id] })
    } else {
        m
    }
}

/// What is wrong with an announcement, if anything. Nothing is said to a client that is not
/// connected.
pub open spec fn key_announcement_result(m: Registry, body: Seq<char>, id: Seq<char>) -> Result<
    (),
    FctpErrorView,
> {
    if m.dom().contains(id) && announced_key(body) is Err {
        Err(announced_key(body)->Err_0)
    } else {
        Ok(())
    }
}

/// Stores the public key that a client announces.
pub fn handle_public_key_exchange(
    fctp_message: &FctpMessage,
    client_id: &str,
    clients: &mut Clients,
) -> (r: Result<(), FctpError>)
    requires
        old(clients).wf(),
    ensures
        final(clients).wf(),
        viewed(r) == key_announcement_result(old(clients)@, fctp_message@.body, client_id@),
        final(clients)@ == key_announced(old(clients)@, fctp_message@.body, client_id@),
        old(clients)@.dom().contains(client_id@) && base64_decoded(trimmed(fctp_message@.body)) is Ok
            && base64_decoded(trimmed(fctp_message@.body))->Ok_0.len() == 32 ==> r is Ok
            && final(clients)@[client_id@].e2ee_public == base64_decoded(
            trimmed(fctp_message@.body),
        )->Ok_0,
        r is Ok && old(clients)@.dom().contains(client_id@) ==> base64_text(
            final(clients)@[client_id@].e2ee_public,
        ) == trimmed(fctp_message@.body),
{
    if clients.contains(client_id) {
        let text = trim(fctp_message.body.as_str());
        let decoded = match base64_decode(text.as_str()) {
            Ok(bytes) => bytes,
            Err(e) => {
                let name = e.name();
                return Err(
                    FctpError::MalformedMessage(joined("Base64 decode error: ", name.as_str())),
                );
            },
        };
        if decoded.len() != 32 {
            return Err(FctpError::MalformedMessage("Invalid public key length".to_owned()));
        }
        let key = PublicKey { bytes: array_of(decoded.as_slice()) };
        clients.set_e2ee_public(client_id, key);
    }
    Ok(())
}

/// Why a client's exchange key could not be read.
#[derive(Debug)]
pub enum KeyExchangeError {
    /// The bytes are not text.
    NotText(String),
    /// The text is not base64.
    NotBase64(DecodeError),
    /// The message was not sealed to the server.
    DecryptionFailed(CryptError),
    /// What was sealed is not a key.
    InvalidKeyLength,
    /// The session key could not be sealed.
    EncryptionFailed(CryptError),
}

/// Why a client's exchange key could not be read, with the details as plain values.
pub enum KeyExchangeErrorView {
    NotText(Seq<char>),
    NotBase64(DecodeError),
    DecryptionFailed(CryptError),
    InvalidKeyLength,
    EncryptionFailed(CryptError),
}

impl View for KeyExchangeError {
    type V = KeyExchangeErrorView;

    open spec fn view(&self) -> KeyExchangeErrorView {
        match self {
            KeyExchangeError::NotText(s) => KeyExchangeErrorView::NotText(s@),
            KeyExchangeError::NotBase64(e) => KeyExchangeErrorView::NotBase64(*e),
            KeyExchangeError::DecryptionFailed(e) => KeyExchangeErrorView::DecryptionFailed(*e),
            KeyExchangeError::InvalidKeyLength => KeyExchangeErrorView::InvalidKeyLength,
            KeyExchangeError::EncryptionFailed(e) => KeyExchangeErrorView::EncryptionFailed(*e),
        }
    }
}

/// What an error says to a reader.
pub open spec fn key_exchange_error_text(e: KeyExchangeErrorView) -> Seq<char> {
    match e {
        KeyExchangeErrorView::NotText(s) => s,
        KeyExchangeErrorView::NotBase64(e) => decode_error_text(e),
        KeyExchangeErrorView::DecryptionFailed(e) => "Decryption failed: "@ + crypt_error_quoted(e),
        KeyExchangeErrorView::InvalidKeyLength => "Invalid exchange key length"@,
        KeyExchangeErrorView::EncryptionFailed(e) => "Encryption failed: "@ + crypt_error_quoted(e),
    }
}

impl KeyExchangeError {
    /// The text of the error.
    pub fn message(&self) -> (r: String)
        ensures
            r@ == key_exchange_error_text(self@),
    {
        match self {
            KeyExchangeError::NotText(s) => s.clone(),
            KeyExchangeError::NotBase64(e) => e.message(),
            KeyExchangeError::DecryptionFailed(e) => {
                let text = e.quoted();
                joined("Decryption failed: ", text.as_str())
            },
            KeyExchangeError::InvalidKeyLength => "Invalid exchange key length".to_owned(),
            KeyExchangeError::EncryptionFailed(e) => {
                let text = e.quoted();
                joined("Encryption failed: ", text.as_str())
            },
        }
    }
}

/// Bytes as they are sent before there is a session: in base64, with two line ends behind them.
pub open spec fn plain_line(bytes: Seq<u8>) -> Seq<u8> {
    encode_utf8(base64_text(bytes) + "\r\n\r\n"@)
}

/// The key that was sealed to the owner of a secret key and sent before there is a session.
pub open spec fn exchanged_key(msg: Seq<u8>, secret: Seq<u8>) -> Result<
    Seq<u8>,
    KeyExchangeErrorView,
> {
    if !valid_utf8(msg) {
        Err(KeyExchangeErrorView::NotText(utf8_failure(msg)))
    } else {
        match base64_decoded(trimmed(decode_utf8(msg))) {
            Err(e) => Err(KeyExchangeErrorView::NotBase64(e)),
            Ok(sealed) => match asymmetric::opened(secret, sealed) {
                Err(e) => Err(KeyExchangeErrorView::DecryptionFailed(e)),
                Ok(key) => if key.len() != 32 {
                    Err(KeyExchangeErrorView::InvalidKeyLength)
                } else {
                    Ok(key)
                },
            },
        }
    }
}

/// Writes bytes in base64, with two line ends behind them.
pub fn send_plain_line(bytes: &[u8]) -> (r: Vec<u8>)
    requires
        (bytes@.len() + 2) / 3 * 4 <= isize::MAX,
    ensures
        r@ == plain_line(bytes@),
        valid_utf8(r@),
        base64_decoded(base64_text(bytes@)) is Ok,
        base64_decoded(base64_text(bytes@))->Ok_0 == bytes@,
        bytes@.len() > 0 ==> base64_decoded(trimmed(decode_utf8(r@))) is Ok && base64_decoded(
            trimmed(decode_utf8(r@)),
        )->Ok_0 == bytes@,
{
    let b64 = base64_encode(bytes);
    let mut text = b64.clone();
    text.append("\r\n\r\n");
    proof {
        encode_utf8_valid_utf8(text@);
        encode_utf8_decode_utf8(text@);
        reveal_strlit("\r\n\r\n");
        if bytes@.len() > 0 {
            assert(is_base64_char(b64@[0]));
            assert(is_base64_char(b64@[b64@.len() - 1]));
            lemma_trim_behind(b64@, "\r\n\r\n"@);
        }
    }
    vstd::slice::slice_to_vec(text.as_str().as_bytes())
}

/// What a new client is sent first: the public key of the server.
pub fn greeting(cert: &Certificate) -> (r: Vec<u8>)
    ensures
        r@ == plain_line(cert.public_view()),
        base64_decoded(trimmed(decode_utf8(r@))) is Ok,
        base64_decoded(trimmed(decode_utf8(r@)))->Ok_0 == cert.public_view(),
{
    let key = cert.get_cert_pub();
    send_plain_line(key.bytes.as_slice())
}

/// Whether a message is text whose length, without outer white space, is that of a sealed message on
/// which the cipher panics. No message of up to 256 gigabytes is.
pub open spec fn exchange_overrun(msg: Seq<u8>) -> bool {
    &&& msg.len() > asymmetric::MAX_PLAINTEXT
    &&& valid_utf8(msg)
    &&& (asymmetric::MAX_PLAINTEXT + 92) / 3 * 4 <= trimmed(decode_utf8(msg)).len() <= (
    asymmetric::MAX_PLAINTEXT + 154) / 3 * 4
}

/// Reads the exchange key that a client has sealed to the server.
pub fn open_exchange_key(msg: &[u8], secret: &StaticSecret) -> (r: Result<
    PublicKey,
    KeyExchangeError,
>)
    requires
        !exchange_overrun(msg@),
    ensures
        viewed(r) == exchanged_key(msg@, secret@),
{
    let text = match text_of_utf8(vstd::slice::slice_to_vec(msg)) {
        Ok(text) => text,
        Err(failure) => {
            return Err(KeyExchangeError::NotText(failure));
        },
    };
    proof {
        decode_utf8_encode_utf8(msg@);
        lemma_utf8_len(text@);
        lemma_trimmed(text@);
    }
    let trimmed_text = trim(text.as_str());
    let decoded = match base64_decode(trimmed_text.as_str()) {
        Ok(bytes) => bytes,
        Err(e) => {
            return Err(KeyExchangeError::NotBase64(e));
        },
    };
    match asymmetric::decrypt(secret, decoded.as_slice()) {
        Ok(key) => {
            if key.len() != 32 {
                Err(KeyExchangeError::InvalidKeyLength)
            } else {
                Ok(PublicKey { bytes: array_of(key.as_slice()) })
            }
        },
        Err(e) => Err(KeyExchangeError::DecryptionFailed(e)),
    }
}

/// The clients after one of them was given a session key.
pub open spec fn with_session_key(m: Registry, id: Seq<char>, key: Seq<u8>) -> Registry {
    m.insert(id, ClientView { session_key: key, ..m[id] })
}

/// Whether a client was given a session key and that key was sealed to an exchange key and sent, for
/// some session key, ephemeral key, salt and nonce.
pub open spec fn session_started(
    before: Registry,
    after: Registry,
    id: Seq<char>,
    public: Seq<u8>,
    answer: Seq<u8>,
) -> bool {
    exists|key: Seq<u8>, ephemeral: Seq<u8>, salt: Seq<u8>, nonce: Seq<u8>|
        {
            &&& key.len() == 32
            &&& ephemeral.len() == 32
            &&& salt.len() == 16
            &&& nonce.len() == 24
            &&& asymmetric::x25519_public(ephemeral).len() == 32
            &&& after == with_session_key(before, id, key)
            &&& answer == plain_line(
                #[trigger] asymmetric::sealed(public, key, ephemeral, salt, nonce),
            )
        }
}

/// Whether everyone who holds the secret of a public key reads a key from an answer.
pub open spec fn read_by_owner(public: Seq<u8>, answer: Seq<u8>, key: Seq<u8>) -> bool {
    forall|secret: Seq<u8>|
        secret.len() == 32 && public == #[trigger] asymmetric::x25519_public(secret)
            ==> exchanged_key(answer, secret) == Ok::<Seq<u8>, KeyExchangeErrorView>(key)
}

/// Whether an answer is a text in base64 with two line ends behind it, and the bytes that the text
/// stands for open to a key for everyone who holds the secret of a public key.
pub open spec fn sealed_to_owner(public: Seq<u8>, answer: Seq<u8>, key: Seq<u8>) -> bool {
    exists|text: Seq<char>|
        {
            &&& answer == encode_utf8(text + "\r\n\r\n"@)
            &&& #[trigger] base64_decoded(text) is Ok
            &&& asymmetric::opens_for_owner(public, base64_decoded(text)->Ok_0, key)
        }
}

/// Reads the exchange key that a client has sealed to the server, gives the client a session key, and
/// returns what the client is sent: the session key, sealed to the exchange key with a given
/// ephemeral key, salt and nonce. A message that cannot be read changes nothing, and a client that is
/// not connected is sent nothing.
///
/// Whoever holds the secret of the exchange key reads the session key from the answer in the way in
/// which the server reads the exchange key, or by decoding what stands before the line ends.
pub fn exchange_keys_with(
    msg: &[u8],
    client_id: &str,
    cert: &Certificate,
    clients: &mut Clients,
    session_key: &Key,
    ephemeral: &StaticSecret,
    salt: &[u8; 16],
    nonce: &[u8; 24],
) -> (r: Result<Option<Vec<u8>>, KeyExchangeError>)
    requires
        old(clients).wf(),
        !exchange_overrun(msg@),
    ensures
        final(clients).wf(),
        match exchanged_key(msg@, cert.secret_view()) {
            Err(e) => {
                &&& r matches Err(error)
                &&& error@ == e
                &&& final(clients)@ == old(clients)@
            },
            Ok(public) => if !old(clients)@.dom().contains(client_id@) {
                r matches Ok(None) && final(clients)@ == old(clients)@
            } else {
                &&& r matches Ok(Some(answer))
                &&& final(clients)@ == with_session_key(old(clients)@, client_id@, session_key@)
                &&& answer@ == plain_line(
                    asymmetric::sealed(public, session_key@, ephemeral@, salt@, nonce@),
                )
                &&& asymmetric::x25519_public(ephemeral@).len() == 32
                &&& sealed_to_owner(public, answer@, session_key@)
                &&& read_by_owner(public, answer@, session_key@)
            },
        },
{
    let secret = cert.get_cert_sec();
    let exchange_pubkey = match open_exchange_key(msg, &secret) {
        Ok(key) => key,
        Err(e) => {
            return Err(e);
        },
    };
    if !clients.set_session_key(client_id, *session_key) {
        return Ok(None);
    }
    match asymmetric::seal(
        &exchange_pubkey,
        session_key.bytes.as_slice(),
        ephemeral,
        salt,
        nonce,
    ) {
        Ok(sealed) => {
            let answer = send_plain_line(sealed.as_slice());
            proof {
                let public = exchange_pubkey@;
                assert(base64_decoded(base64_text(sealed@))->Ok_0 == sealed@);
                assert(sealed_to_owner(public, answer@, session_key@));
                assert forall|secret: Seq<u8>|
                    secret.len() == 32 && public == #[trigger] asymmetric::x25519_public(
                        secret,
                    ) implies exchanged_key(answer@, secret) == Ok::<
                    Seq<u8>,
                    KeyExchangeErrorView,
                >(session_key@) by {
                    assert(asymmetric::opened(secret, sealed@) == Ok::<Seq<u8>, CryptError>(
                        session_key@,
                    ));
                }
            }
            Ok(Some(answer))
        },
        Err(e) => Err(KeyExchangeError::EncryptionFailed(e)),
    }
}

/// Reads the exchange key that a client has sealed to the server, gives the client a random session
/// key, and returns what the client is sent: the session key, sealed to the exchange key. A message
/// that cannot be read changes nothing, and a client that is not connected is sent nothing.
///
/// Whoever holds the secret of the exchange key reads the session key from the answer in the way in
/// which the server reads the exchange key, or by decoding what stands before the line ends.
pub fn handle_key_exchange(
    msg: &[u8],
    client_id: &str,
    cert: &Certificate,
    clients: &mut Clients,
) -> (r: Result<Option<Vec<u8>>, KeyExchangeError>)
    requires
        old(clients).wf(),
        !exchange_overrun(msg@),
    ensures
        final(clients).wf(),
        match exchanged_key(msg@, cert.secret_view()) {
            Err(e) => {
                &&& r matches Err(error)
                &&& error@ == e
                &&& final(clients)@ == old(clients)@
            },
            Ok(public) => if !old(clients)@.dom().contains(client_id@) {
                r matches Ok(None) && final(clients)@ == old(clients)@
            } else {
                &&& r matches Ok(Some(answer))
                &&& session_started(
                    old(clients)@,
                    final(clients)@,
                    client_id@,
                    public,
                    answer@,
                )
                &&& sealed_to_owner(public, answer@, final(clients)@[client_id@].session_key)
                &&& read_by_owner(public, answer@, final(clients)@[client_id@].session_key)
            },
        },
{
    let session_key = symmetric::keygen();
    let ephemeral = StaticSecret { bytes: asymmetric::random_secret() };
    let salt: [u8; 16] = random_bytes();
    let nonce: [u8; 24] = random_bytes();
    exchange_keys_with(msg, client_id, cert, clients, &session_key, &ephemeral, &salt, &nonce)
}

/// An announcement in base64 of exactly 32 bytes, whatever the bytes, is accepted, and those bytes are
/// stored for its client and for no other. Any other announcement of a connected client is refused with
/// the reason and changes nothing.
pub proof fn law_announcement(m: Registry, body: Seq<char>, id: Seq<char>, other: Seq<char>)
    ensures
        ({
            let decoded = base64_decoded(trimmed(body));
            let after = key_announced(m, body, id);
            let result = key_announcement_result(m, body, id);
            &&& after.dom() == m.dom()
            &&& other != id ==> after[other] == m[other]
            &&& m.dom().contains(id) && decoded is Ok && decoded->Ok_0.len() == 32 ==> {
                &&& result == Ok::<(), FctpErrorView>(())
                &&& after[id].e2ee_public == decoded->Ok_0
                &&& after[id] == ClientView { e2ee_public: decoded->Ok_0, ..m[id] }
            }
            &&& m.dom().contains(id) && decoded is Ok && decoded->Ok_0.len() != 32 ==> {
                &&& result == Err::<(), FctpErrorView>(
                    FctpErrorView::MalformedMessage("Invalid public key length"@),
                )
                &&& after == m
            }
            &&& m.dom().contains(id) && decoded is Err ==> {
                &&& result == Err::<(), FctpErrorView>(
                    FctpErrorView::MalformedMessage(
                        "Base64 decode error: "@ + decode_error_name(decoded->Err_0),
                    ),
                )
                &&& after == m
            }
            &&& !m.dom().contains(id) ==> result == Ok::<(), FctpErrorView>(()) && after == m
        }),
{
    assert(key_announced(m, body, id).dom() =~= m.dom());
}

/// Two announcements: the last one that is accepted is the one that counts.
pub proof fn law_last_announcement_counts(
    m: Registry,
    first: Seq<char>,
    second: Seq<char>,
    id: Seq<char>,
)
    requires
        m.dom().contains(id),
        base64_decoded(trimmed(second)) is Ok,
        base64_decoded(trimmed(second))->Ok_0.len() == 32,
    ensures
        key_announced(key_announced(m, first, id), second, id) == key_announced(m, second, id),
        key_announced(m, second, id)[id].e2ee_public == base64_decoded(trimmed(second))->Ok_0,
{
    assert(key_announced(key_announced(m, first, id), second, id) =~= key_announced(m, second, id));
}

/// Bytes are sent before there is a session as their base64 text and two line ends.
pub proof fn law_plain_line(bytes: Seq<u8>)
    ensures
        plain_line(bytes) == encode_utf8(base64_text(bytes) + "\r\n\r\n"@),
{
}

/// A message holds a key exactly where it is text whose base64, without outer white space, opens under
/// the secret to 32 bytes; those bytes, whatever they are, are the key. Otherwise the first fault is
/// reported.
pub proof fn law_exchanged_key(msg: Seq<u8>, secret: Seq<u8>)
    ensures
        ({
            let result = exchanged_key(msg, secret);
            let decoded = base64_decoded(trimmed(decode_utf8(msg)));
            let opened = asymmetric::opened(secret, decoded->Ok_0);
            &&& !valid_utf8(msg) ==> result == Err::<Seq<u8>, KeyExchangeErrorView>(
                KeyExchangeErrorView::NotText(utf8_failure(msg)),
            )
            &&& valid_utf8(msg) && decoded is Err ==> result == Err::<Seq<u8>, KeyExchangeErrorView>(
                KeyExchangeErrorView::NotBase64(decoded->Err_0),
            )
            &&& valid_utf8(msg) && decoded is Ok && opened is Err ==> result == Err::<
                Seq<u8>,
                KeyExchangeErrorView,
            >(KeyExchangeErrorView::DecryptionFailed(opened->Err_0))
            &&& valid_utf8(msg) && decoded is Ok && opened is Ok && opened->Ok_0.len() != 32
                ==> result == Err::<Seq<u8>, KeyExchangeErrorView>(
                KeyExchangeErrorView::InvalidKeyLength,
            )
            &&& valid_utf8(msg) && decoded is Ok && opened is Ok && opened->Ok_0.len() == 32
                ==> result == Ok::<Seq<u8>, KeyExchangeErrorView>(opened->Ok_0)
        }),
{
}

/// A session that has started gives its client a key of 32 bytes and changes nothing else, of this
/// client or of another; what is sent is that key, sealed to the exchange key, in base64 and with two
/// line ends.
pub proof fn law_session_started(
    before: Registry,
    after: Registry,
    id: Seq<char>,
    public: Seq<u8>,
    answer: Seq<u8>,
    other: Seq<char>,
)
    requires
        before.dom().contains(id),
        session_started(before, after, id, public, answer),
    ensures
        after.dom() == before.dom(),
        after[id].session_key.len() == 32,
        after[id].e2ee_public == before[id].e2ee_public,
        after[id].username == before[id].username,
        after[id].connected_at == before[id].connected_at,
        after[id].last_packet == before[id].last_packet,
        after[id].free_packets == before[id].free_packets,
        after[id].burst == before[id].burst,
        other != id ==> after[other] == before[other],
        exists|ephemeral: Seq<u8>, salt: Seq<u8>, nonce: Seq<u8>|
            salt.len() == 16 && nonce.len() == 24 && answer == encode_utf8(
                base64_text(
                    #[trigger] asymmetric::sealed(
                        public,
                        after[id].session_key,
                        ephemeral,
                        salt,
                        nonce,
                    ),
                ) + "\r\n\r\n"@,
            ),
{
    assert(after.dom() =~= before.dom());
}

/// A client that is given a session key has that key, and nothing else about it changes, nor about any
/// other client.
pub proof fn law_with_session_key(m: Registry, id: Seq<char>, key: Seq<u8>, other: Seq<char>)
    requires
        m.dom().contains(id),
    ensures
        with_session_key(m, id, key).dom() == m.dom(),
        with_session_key(m, id, key)[id] == (ClientView { session_key: key, ..m[id] }),
        other != id ==> with_session_key(m, id, key)[other] == m[other],
{
    assert(with_session_key(m, id, key).dom() =~= m.dom());
}

/// Whoever holds the secret of the exchange key reads the session key from the answer, as the server
/// reads a message and by opening the bytes before the line ends.
pub proof fn law_owner_reads(public: Seq<u8>, answer: Seq<u8>, key: Seq<u8>, secret: Seq<u8>)
    requires
        secret.len() == 32,
        public == asymmetric::x25519_public(secret),
    ensures
        read_by_owner(public, answer, key) ==> exchanged_key(answer, secret) == Ok::<
            Seq<u8>,
            KeyExchangeErrorView,
        >(key),
        sealed_to_owner(public, answer, key) ==> exists|text: Seq<char>|
            {
                &&& answer == encode_utf8(text + "\r\n\r\n"@)
                &&& #[trigger] base64_decoded(text) is Ok
                &&& asymmetric::opened(secret, base64_decoded(text)->Ok_0) == Ok::<
                    Seq<u8>,
                    CryptError,
                >(key)
            },
{
}

/// Each error of a key exchange has its own text; what the ciphers say is quoted in it.
pub proof fn law_key_exchange_error_texts(s: Seq<char>, d: DecodeError, c: CryptError)
    ensures
        key_exchange_error_text(KeyExchangeErrorView::NotText(s)) == s,
        key_exchange_error_text(KeyExchangeErrorView::NotBase64(d)) == decode_error_text(d),
        key_exchange_error_text(KeyExchangeErrorView::DecryptionFailed(c)) == "Decryption failed: "@
            + crypt_error_quoted(c),
        key_exchange_error_text(KeyExchangeErrorView::InvalidKeyLength)
            == "Invalid exchange key length"@,
        key_exchange_error_text(KeyExchangeErrorView::EncryptionFailed(c)) == "Encryption failed: "@
            + crypt_error_quoted(c),
{
}

/// An error of a key exchange is seen as it is, with what it carries.
pub proof fn law_key_exchange_error_views(s: String, d: DecodeError, c: CryptError)
    ensures
        KeyExchangeError::NotText(s)@ == KeyExchangeErrorView::NotText(s@),
        KeyExchangeError::NotBase64(d)@ == KeyExchangeErrorView::NotBase64(d),
        KeyExchangeError::DecryptionFailed(c)@ == KeyExchangeErrorView::DecryptionFailed(c),
        KeyExchangeError::InvalidKeyLength@ == KeyExchangeErrorView::InvalidKeyLength,
        KeyExchangeError::EncryptionFailed(c)@ == KeyExchangeErrorView::EncryptionFailed(c),
{
}

/// Every message of at most 2^38 - 128 bytes can be read, and so can every one that is no text.
pub proof fn law_messages_can_be_read(msg: Seq<u8>)
    ensures
        msg.len() <= 0x3F_FFFF_FF80 ==> !exchange_overrun(msg),
        !valid_utf8(msg) ==> !exchange_overrun(msg),
{
}

} // verus!
