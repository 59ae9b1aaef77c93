//! Messages sealed to the holder of an X25519 secret key.
//!
//! A sealed message is one version byte, the 32 bytes of an ephemeral public key, a nonce of 24
//! bytes, a salt of 16 bytes, and the ciphertext. The cipher key is derived from the salt and from
//! what the ephemeral key and the receiver's key agree on.

use chacha20poly1305::aead::{Aead, KeyInit, OsRng};
use chacha20poly1305::{XChaCha20Poly1305, XNonce};
use hkdf::Hkdf;
use sha2::Sha256;
use vstd::prelude::*;
use vstd::utf8::encode_utf8;
use crate::crypt::error::CryptError;
use crate::crypt::keys::{array_of, PublicKey, StaticSecret};
use crate::crypt::random::random_bytes;

verus! {

/// The version of the message format.
pub const VERSION: u8 = 1;

/// The bytes before the ciphertext.
pub const HEADER_SIZE: usize = 73;

/// The largest plaintext that the cipher accepts, in bytes.
pub const MAX_PLAINTEXT: u64 = 0x3F_FFFF_FF80;

/// The public key of an X25519 secret key.
pub uninterp spec fn x25519_public(secret: Seq<u8>) -> Seq<u8>;

/// What an X25519 secret key and a public key agree on.
pub uninterp spec fn x25519_agreed(secret: Seq<u8>, public: Seq<u8>) -> Seq<u8>;

/// The 32 bytes that HKDF with SHA-256 derives from a salt, key material and a label.
pub uninterp spec fn hkdf_sha256(salt: Seq<u8>, material: Seq<u8>, info: Seq<u8>) -> Seq<u8>;

/// What XChaCha20-Poly1305 makes of a plaintext without associated data: the ciphertext and its tag.
pub uninterp spec fn xchacha_sealed(key: Seq<u8>, nonce: Seq<u8>, plaintext: Seq<u8>) -> Seq<u8>;

/// What XChaCha20-Poly1305 makes of a ciphertext and its tag: the plaintext, if the tag is right.
pub uninterp spec fn xchacha_opened(key: Seq<u8>, nonce: Seq<u8>, ciphertext: Seq<u8>) -> Option<
    Seq<u8>,
>;

/// The lengths, just above `MAX_PLAINTEXT`, on which the cipher neither encrypts nor refuses but
/// runs out of key stream and panics.
pub open spec fn keystream_overrun(len: int) -> bool {
    MAX_PLAINTEXT < len < MAX_PLAINTEXT + 64
}

/// `StaticSecret::random_from_rng(OsRng)`: a random secret key. Nothing is claimed of its value.
/// The call panics if the system has no random source.
#[verifier::external_body]
pub(crate) fn random_secret() -> (r: [u8; 32])
{
    x25519_dalek::StaticSecret::random_from_rng(OsRng).to_bytes()
}

/// `PublicKey::from(&StaticSecret)`: the public key depends on the secret key alone.
#[verifier::external_body]
fn public_of(secret: &[u8; 32]) -> (r: [u8; 32])
    ensures
        r@ == x25519_public(secret@),
{
    x25519_dalek::PublicKey::from(&x25519_dalek::StaticSecret::from(*secret)).to_bytes()
}

/// `x25519`: what a secret key and a public key agree on depends on the two alone, and the other
/// party, who holds the secret of that public key and has the public key of this secret, agrees on
/// the same.
#[verifier::external_body]
fn agree(secret: &[u8; 32], public: &[u8; 32]) -> (r: [u8; 32])
    ensures
        r@ == x25519_agreed(secret@, public@),
        forall|other: Seq<u8>|
            other.len() == 32 && public@ == #[trigger] x25519_public(other) ==> r@
                == x25519_agreed(other, x25519_public(secret@)),
{
    x25519_dalek::x25519(*secret, *public)
}

/// `Hkdf::<Sha256>::new` and `expand` to 32 bytes, which is within what `expand` accepts: the
/// output depends on the salt, the key material and the label alone.
#[verifier::external_body]
fn hkdf_expand(salt: &[u8], material: &[u8], info: &[u8]) -> (r: [u8; 32])
    ensures
        r@ == hkdf_sha256(salt@, material@, info@),
{
    let mut okm = [0u8; 32];
    Hkdf::<Sha256>::new(Some(salt), material)
        .expand(info, &mut okm)
        .expect("HKDF expand should never fail with 32 bytes output");
    okm
}

/// `Aead::encrypt` of `XChaCha20Poly1305`. Outside the lengths that `keystream_overrun` names it
/// refuses plaintexts longer than `MAX_PLAINTEXT` and no others; the result depends on the key, the
/// nonce and the plaintext alone, is longer than the plaintext by the tag, and is what
/// `Aead::decrypt` opens to the plaintext again.
#[verifier::external_body]
fn xchacha_seal(key: &[u8; 32], nonce: &[u8; 24], plaintext: &[u8]) -> (r: Option<Vec<u8>>)
    requires
        !keystream_overrun(plaintext@.len() as int),
    ensures
        r is Some <==> plaintext@.len() <= MAX_PLAINTEXT,
        r matches Some(c) ==> c@ == xchacha_sealed(key@, nonce@, plaintext@),
        r matches Some(c) ==> c@.len() == plaintext@.len() + 16,
        r matches Some(c) ==> xchacha_opened(key@, nonce@, c@) == Some(plaintext@),
{
    XChaCha20Poly1305::new(key.into()).encrypt(XNonce::from_slice(nonce), plaintext).ok()
}

/// `Aead::decrypt` of `XChaCha20Poly1305`. The result depends on the key, the nonce and the
/// ciphertext alone; where there is one, it is shorter than the ciphertext by the tag, and
/// `Aead::encrypt` makes that ciphertext of it.
#[verifier::external_body]
fn xchacha_open(key: &[u8; 32], nonce: &[u8; 24], ciphertext: &[u8]) -> (r: Option<Vec<u8>>)
    requires
        !keystream_overrun(ciphertext@.len() - 16),
    ensures
        r is Some <==> xchacha_opened(key@, nonce@, ciphertext@) is Some,
        r matches Some(p) ==> xchacha_opened(key@, nonce@, ciphertext@) == Some(p@),
        r matches Some(p) ==> ciphertext@.len() == p@.len() + 16,
        r matches Some(p) ==> ciphertext@ == xchacha_sealed(key@, nonce@, p@),
{
    XChaCha20Poly1305::new(key.into()).decrypt(XNonce::from_slice(nonce), ciphertext).ok()
}

/// The cipher key that is derived from a shared secret and a salt.
pub open spec fn derived_key(shared: Seq<u8>, salt: Seq<u8>) -> Seq<u8> {
    hkdf_sha256(salt, shared, encode_utf8("chacha20poly1305 key"@))
}

/// A message sealed to a public key, for a given ephemeral secret key, salt and nonce.
pub open spec fn sealed(
    public: Seq<u8>,
    plaintext: Seq<u8>,
    ephemeral: Seq<u8>,
    salt: Seq<u8>,
    nonce: Seq<u8>,
) -> Seq<u8> {
    let key = derived_key(x25519_agreed(ephemeral, public), salt);
    seq![VERSION] + x25519_public(ephemeral) + nonce + salt + xchacha_sealed(key, nonce, plaintext)
}

/// What a sealed message holds for the owner of a secret key.
pub open spec fn opened(secret: Seq<u8>, message: Seq<u8>) -> Result<Seq<u8>, CryptError> {
    if message.len() <= HEADER_SIZE {
        Err(CryptError::MessageTooShort)
    } else if message[0] != VERSION {
        Err(CryptError::UnsupportedVersion(message[0]))
    } else {
        let shared = x25519_agreed(secret, message.subrange(1, 33));
        let nonce = message.subrange(33, 57);
        let salt = message.subrange(57, 73);
        match xchacha_opened(derived_key(shared, salt), nonce, message.skip(73)) {
            Some(p) => Ok(p),
            None => Err(CryptError::DecryptFailed),
        }
    }
}

/// Whether a sealed message opens to a plaintext for everyone who holds the secret of a public key.
pub open spec fn opens_for_owner(public: Seq<u8>, message: Seq<u8>, plaintext: Seq<u8>) -> bool {
    forall|secret: Seq<u8>|
        secret.len() == 32 && public == #[trigger] x25519_public(secret) ==> opened(secret, message)
            == Ok::<Seq<u8>, CryptError>(plaintext)
}

/// A sealed message holds the version, the ephemeral public key, the nonce, the salt and the
/// ciphertext at fixed places.
pub proof fn law_sealed_layout(
    public: Seq<u8>,
    plaintext: Seq<u8>,
    ephemeral: Seq<u8>,
    salt: Seq<u8>,
    nonce: Seq<u8>,
)
    requires
        x25519_public(ephemeral).len() == 32,
        salt.len() == 16,
        nonce.len() == 24,
    ensures
        ({
            let message = sealed(public, plaintext, ephemeral, salt, nonce);
            let key = hkdf_sha256(
                salt,
                x25519_agreed(ephemeral, public),
                encode_utf8("chacha20poly1305 key"@),
            );
            &&& message[0] == 1
            &&& message.subrange(1, 33) == x25519_public(ephemeral)
            &&& message.subrange(33, 57) == nonce
            &&& message.subrange(57, 73) == salt
            &&& message.skip(73) == xchacha_sealed(key, nonce, plaintext)
        }),
{
}

/// Makes a key pair: a random secret key and its public key.
pub fn keypairgen() -> (r: ([u8; 32], [u8; 32]))
    ensures
        r.1@ == x25519_public(r.0@),
{
    let secret = random_secret();
    let public = public_of(&secret);
    (secret, public)
}

/// Derives a cipher key from a shared secret and a salt.
pub fn derive_key(shared_secret: &[u8], salt: &[u8]) -> (r: [u8; 32])
    ensures
        r@ == derived_key(shared_secret@, salt@),
{
    hkdf_expand(salt, shared_secret, "chacha20poly1305 key".as_bytes())
}

/// Seals a message to a public key with a given ephemeral secret key, salt and nonce.
pub fn seal(
    public: &PublicKey,
    plaintext: &[u8],
    ephemeral: &StaticSecret,
    salt: &[u8; 16],
    nonce: &[u8; 24],
) -> (r: Result<Vec<u8>, CryptError>)
    requires
        !keystream_overrun(plaintext@.len() as int),
    ensures
        match r {
            Ok(message) => plaintext@.len() <= MAX_PLAINTEXT && message@ == sealed(
                public@,
                plaintext@,
                ephemeral@,
                salt@,
                nonce@,
            ),
            Err(e) => plaintext@.len() > MAX_PLAINTEXT && e == CryptError::EncryptFailed,
        },
        x25519_public(ephemeral@).len() == 32,
        r matches Ok(message) ==> message@.len() == plaintext@.len() + 89,
        r matches Ok(message) ==> opens_for_owner(public@, message@, plaintext@),
{
    let eph_pub = public_of(&ephemeral.bytes);
    let shared = agree(&ephemeral.bytes, &public.bytes);
    let key = derive_key(shared.as_slice(), salt.as_slice());
    let ciphertext = match xchacha_seal(&key, nonce, plaintext) {
        Some(c) => c,
        None => {
            return Err(CryptError::EncryptFailed);
        },
    };
    let mut message: Vec<u8> = Vec::new();
    message.push(VERSION);
    message.extend_from_slice(eph_pub.as_slice());
    message.extend_from_slice(nonce.as_slice());
    message.extend_from_slice(salt.as_slice());
    message.extend_from_slice(ciphertext.as_slice());
    proof {
        assert(message@ == seq![VERSION] + eph_pub@ + nonce@ + salt@ + ciphertext@);
        law_sealed_layout(public@, plaintext@, ephemeral@, salt@, nonce@);
        assert forall|secret: Seq<u8>|
            secret.len() == 32 && public@ == #[trigger] x25519_public(secret) implies opened(
            secret,
            message@,
        ) == Ok::<Seq<u8>, CryptError>(plaintext@) by {
            assert(x25519_agreed(secret, eph_pub@) == shared@);
        }
    }
    Ok(message)
}

/// Seals a message to a public key, with a random ephemeral key, salt and nonce. Whoever holds the
/// secret of the public key opens the result to the plaintext again.
pub fn encrypt(public: &PublicKey, plaintext: &[u8]) -> (r: Result<Vec<u8>, CryptError>)
    requires
        !keystream_overrun(plaintext@.len() as int),
    ensures
        match r {
            Ok(message) => plaintext@.len() <= MAX_PLAINTEXT && exists|
                ephemeral: Seq<u8>,
                salt: Seq<u8>,
                nonce: Seq<u8>,
            |
                ephemeral.len() == 32 && salt.len() == 16 && nonce.len() == 24 && x25519_public(
                    ephemeral,
                ).len() == 32 && message@ == #[trigger] sealed(
                    public@,
                    plaintext@,
                    ephemeral,
                    salt,
                    nonce,
                ),
            Err(e) => plaintext@.len() > MAX_PLAINTEXT && e == CryptError::EncryptFailed,
        },
        r matches Ok(message) ==> message@.len() == plaintext@.len() + 89,
        r matches Ok(message) ==> opens_for_owner(public@, message@, plaintext@),
{
    let ephemeral = StaticSecret { bytes: random_secret() };
    let salt: [u8; 16] = random_bytes();
    let nonce: [u8; 24] = random_bytes();
    seal(public, plaintext, &ephemeral, &salt, &nonce)
}

/// Opens a sealed message with a secret key. A message opens only if its ciphertext was made under
/// the key that is derived from that secret and from what the message says.
pub fn decrypt(secret: &StaticSecret, message: &[u8]) -> (r: Result<Vec<u8>, CryptError>)
    requires
        !keystream_overrun(message@.len() - 89),
    ensures
        match r {
            Ok(p) => opened(secret@, message@) == Ok::<Seq<u8>, CryptError>(p@),
            Err(e) => opened(secret@, message@) == Err::<Seq<u8>, CryptError>(e),
        },
        r matches Ok(p) ==> message@.len() == p@.len() + 89,
        r matches Ok(p) ==> message@.skip(73) == xchacha_sealed(
            derived_key(
                x25519_agreed(secret@, message@.subrange(1, 33)),
                message@.subrange(57, 73),
            ),
            message@.subrange(33, 57),
            p@,
        ),
{
    if message.len() < 74 {
        return Err(CryptError::MessageTooShort);
    }
    let version = message[0];
    if version != VERSION {
        return Err(CryptError::UnsupportedVersion(version));
    }
    let eph_pub = array_of(vstd::slice::slice_subrange(message, 1, 33));
    let mut nonce: [u8; 24] = [0u8;24];
    for i in 0..24
        invariant
            message@.len() >= 74,
            forall|j: int| 0 <= j < i ==> nonce[j] == message[33 + j],
    {
        nonce[i] = message[33 + i];
    }
    assert(nonce@ == message@.subrange(33, 57));
    let salt = vstd::slice::slice_subrange(message, 57, 73);
    let ciphertext = vstd::slice::slice_subrange(message, HEADER_SIZE, message.len());
    assert(ciphertext@ == message@.skip(73));
    let shared = agree(&secret.bytes, &eph_pub);
    let key = derive_key(shared.as_slice(), salt);
    match xchacha_open(&key, &nonce, ciphertext) {
        Some(p) => Ok(p),
        None => Err(CryptError::DecryptFailed),
    }
}

/// A message of the right version is opened by its parts: the key comes from the salt and from what
/// the secret agrees on with the ephemeral public key, and the ciphertext is opened under it with the
/// nonce.
pub proof fn law_opened_by_parts(
    secret: Seq<u8>,
    eph_pub: Seq<u8>,
    nonce: Seq<u8>,
    salt: Seq<u8>,
    ciphertext: Seq<u8>,
)
    requires
        eph_pub.len() == 32,
        nonce.len() == 24,
        salt.len() == 16,
        ciphertext.len() > 0,
    ensures
        ({
            let message = seq![1u8] + eph_pub + nonce + salt + ciphertext;
            let key = hkdf_sha256(
                salt,
                x25519_agreed(secret, eph_pub),
                encode_utf8("chacha20poly1305 key"@),
            );
            match xchacha_opened(key, nonce, ciphertext) {
                Some(p) => opened(secret, message) == Ok::<Seq<u8>, CryptError>(p),
                None => opened(secret, message) == Err::<Seq<u8>, CryptError>(
                    CryptError::DecryptFailed,
                ),
            }
        }),
{
    let message = seq![1u8] + eph_pub + nonce + salt + ciphertext;
    assert(message.subrange(1, 33) == eph_pub);
    assert(message.subrange(33, 57) == nonce);
    assert(message.subrange(57, 73) == salt);
    assert(message.skip(73) == ciphertext);
}

/// A message is too short exactly where no byte is left for the ciphertext; one that is long enough
/// is of an unsupported version exactly where its first byte is not 1, and is told so by that byte.
pub proof fn law_refused_messages(secret: Seq<u8>, message: Seq<u8>, version: u8)
    ensures
        message.len() < 74 <==> opened(secret, message) == Err::<Seq<u8>, CryptError>(
            CryptError::MessageTooShort,
        ),
        message.len() >= 74 && message[0] != 1 && message[0] == version <==> opened(secret, message)
            == Err::<Seq<u8>, CryptError>(CryptError::UnsupportedVersion(version)),
{
}

/// Whoever holds the secret of a public key opens what opens for its owner.
pub proof fn law_owner_opens(
    public: Seq<u8>,
    message: Seq<u8>,
    plaintext: Seq<u8>,
    secret: Seq<u8>,
)
    requires
        opens_for_owner(public, message, plaintext),
        secret.len() == 32,
        public == x25519_public(secret),
    ensures
        opened(secret, message) == Ok::<Seq<u8>, CryptError>(plaintext),
{
}

/// The cipher key is what HKDF makes of the salt, the shared secret and a fixed label.
pub proof fn law_derived_key(shared: Seq<u8>, salt: Seq<u8>)
    ensures
        derived_key(shared, salt) == hkdf_sha256(
            salt,
            shared,
            encode_utf8("chacha20poly1305 key"@),
        ),
{
}

/// The only lengths that cannot be sealed or opened are the 63 above the largest plaintext.
pub proof fn law_keystream_overrun(len: int)
    ensures
        keystream_overrun(len) <==> 0x3F_FFFF_FF80 < len < 0x3F_FFFF_FFC0,
{
}

} // verus!
