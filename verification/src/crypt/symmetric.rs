//! The session cipher: AES-256-GCM with a random nonce in front of the ciphertext.

use aes_gcm::aead::Aead;
use aes_gcm::{Aes256Gcm, KeyInit, Nonce};
use vstd::prelude::*;
use vstd::utf8::encode_utf8;
use crate::crypt::error::CryptError;
use crate::crypt::keys::Key;
use crate::crypt::random::random_bytes;

verus! {

/// The number of bytes of a nonce.
pub const NONCE_SIZE: usize = 12;

/// The largest plaintext that the cipher accepts, in bytes.
pub const MAX_PLAINTEXT: u64 = 0x10_0000_0000;

/// What AES-256-GCM makes of a plaintext without associated data: the ciphertext and its tag.
pub uninterp spec fn aes256gcm_sealed(key: Seq<u8>, nonce: Seq<u8>, plaintext: Seq<u8>) -> Seq<u8>;

/// What AES-256-GCM makes of a ciphertext and its tag: the plaintext, if the tag is right.
pub uninterp spec fn aes256gcm_opened(key: Seq<u8>, nonce: Seq<u8>, ciphertext: Seq<u8>) -> Option<
    Seq<u8>,
>;

/// `Aead::encrypt` of `Aes256Gcm`. It refuses plaintexts longer than `MAX_PLAINTEXT` and no others;
/// the result depends on the key, the nonce and the plaintext alone, is longer than the plaintext by
/// the tag, and is what `Aead::decrypt` opens to the plaintext again.
#[verifier::external_body]
fn aes_seal(key: &[u8; 32], nonce: &[u8; 12], plaintext: &[u8]) -> (r: Option<Vec<u8>>)
    ensures
        r is Some <==> plaintext@.len() <= MAX_PLAINTEXT,
        r matches Some(c) ==> c@ == aes256gcm_sealed(key@, nonce@, plaintext@),
        r matches Some(c) ==> c@.len() == plaintext@.len() + 16,
        r matches Some(c) ==> aes256gcm_opened(key@, nonce@, c@) == Some(plaintext@),
{
    Aes256Gcm::new(key.into()).encrypt(Nonce::from_slice(nonce), plaintext).ok()
}

/// `Aead::decrypt` of `Aes256Gcm`. The result depends on the key, the nonce and the ciphertext
/// alone; where there is one, it is shorter than the ciphertext by the tag, and `Aead::encrypt`
/// makes that ciphertext of it.
#[verifier::external_body]
fn aes_open(key: &[u8; 32], nonce: &[u8; 12], ciphertext: &[u8]) -> (r: Option<Vec<u8>>)
    ensures
        r is Some <==> aes256gcm_opened(key@, nonce@, ciphertext@) is Some,
        r matches Some(p) ==> aes256gcm_opened(key@, nonce@, ciphertext@) == Some(p@),
        r matches Some(p) ==> ciphertext@.len() == p@.len() + 16,
        r matches Some(p) ==> p@.len() <= MAX_PLAINTEXT ==> ciphertext@ == aes256gcm_sealed(
            key@,
            nonce@,
            p@,
        ),
{
    Aes256Gcm::new(key.into()).decrypt(Nonce::from_slice(nonce), ciphertext).ok()
}

/// A sealed text: the nonce, then what the cipher makes of the plaintext.
pub open spec fn sealed(key: Seq<u8>, nonce: Seq<u8>, plaintext: Seq<u8>) -> Seq<u8> {
    nonce + aes256gcm_sealed(key, nonce, plaintext)
}

/// What sealed bytes hold.
pub open spec fn opened(key: Seq<u8>, data: Seq<u8>) -> Result<Seq<u8>, CryptError> {
    if data.len() < NONCE_SIZE {
        Err(CryptError::MessageTooShort)
    } else {
        match aes256gcm_opened(
            key,
            data.take(NONCE_SIZE as int),
            data.skip(NONCE_SIZE as int),
        ) {
            Some(p) => Ok(p),
            None => Err(CryptError::DecryptFailed),
        }
    }
}

/// A random key. Nothing is promised of its bytes.
pub fn keygen() -> Key {
    Key { bytes: random_bytes() }
}

/// Seals a text under a key with a given nonce.
pub fn seal_binary(plaintext: &str, key: &Key, nonce: &[u8; 12]) -> (r: Result<Vec<u8>, CryptError>)
    ensures
        match r {
            Ok(data) => encode_utf8(plaintext@).len() <= MAX_PLAINTEXT && data@ == sealed(
                key@,
                nonce@,
                encode_utf8(plaintext@),
            ),
            Err(e) => encode_utf8(plaintext@).len() > MAX_PLAINTEXT && e
                == CryptError::EncryptFailed,
        },
        r matches Ok(data) ==> data@.len() == encode_utf8(plaintext@).len() + 28,
        r matches Ok(data) ==> opened(key@, data@) == Ok::<Seq<u8>, CryptError>(
            encode_utf8(plaintext@),
        ),
{
    match aes_seal(&key.bytes, nonce, plaintext.as_bytes()) {
        Some(ciphertext) => {
            let mut data: Vec<u8> = Vec::new();
            data.extend_from_slice(nonce.as_slice());
            data.extend_from_slice(ciphertext.as_slice());
            proof {
                assert(data@ == nonce@ + ciphertext@);
                assert(data@.take(12) == nonce@);
                assert(data@.skip(12) == ciphertext@);
            }
            Ok(data)
        },
        None => Err(CryptError::EncryptFailed),
    }
}

/// Seals a text under a key with a random nonce. Opening the result under the same key gives the
/// text back.
pub fn encrypt_binary(plaintext: &str, key: &Key) -> (r: Result<Vec<u8>, CryptError>)
    ensures
        match r {
            Ok(data) => encode_utf8(plaintext@).len() <= MAX_PLAINTEXT && exists|nonce: Seq<u8>|
                nonce.len() == NONCE_SIZE && data@ == #[trigger] sealed(
                    key@,
                    nonce,
                    encode_utf8(plaintext@),
                ),
            Err(e) => encode_utf8(plaintext@).len() > MAX_PLAINTEXT && e
                == CryptError::EncryptFailed,
        },
        r matches Ok(data) ==> data@.len() == encode_utf8(plaintext@).len() + 28,
        r matches Ok(data) ==> opened(key@, data@) == Ok::<Seq<u8>, CryptError>(
            encode_utf8(plaintext@),
        ),
{
    let nonce: [u8; 12] = random_bytes();
    seal_binary(plaintext, key, &nonce)
}

/// Opens sealed bytes under a key.
pub fn decrypt_binary(data: &[u8], key: &Key) -> (r: Result<Vec<u8>, CryptError>)
    ensures
        match r {
            Ok(p) => opened(key@, data@) == Ok::<Seq<u8>, CryptError>(p@),
            Err(e) => opened(key@, data@) == Err::<Seq<u8>, CryptError>(e),
        },
        r matches Ok(p) ==> data@.len() == p@.len() + 28,
        r matches Ok(p) ==> p@.len() <= MAX_PLAINTEXT ==> data@ == sealed(
            key@,
            data@.take(NONCE_SIZE as int),
            p@,
        ),
{
    if data.len() < NONCE_SIZE {
        return Err(CryptError::MessageTooShort);
    }
    let mut nonce: [u8; 12] = [0u8;12];
    for i in 0..12
        invariant
            data@.len() >= 12,
            forall|j: int| 0 <= j < i ==> nonce[j] == data[j],
    {
        nonce[i] = data[i];
    }
    assert(nonce@ == data@.take(12));
    let ciphertext = vstd::slice::slice_subrange(data, NONCE_SIZE, data.len());
    assert(ciphertext@ == data@.skip(12));
    match aes_open(&key.bytes, &nonce, ciphertext) {
        Some(p) => {
            assert(data@ == data@.take(12) + data@.skip(12));
            Ok(p)
        },
        None => Err(CryptError::DecryptFailed),
    }
}

/// A sealed text is its nonce with the ciphertext behind it, and opening takes the two apart again:
/// what is opened is the ciphertext, under the same key and with that nonce.
pub proof fn law_nonce_stands_first(
    key: Seq<u8>,
    nonce: Seq<u8>,
    plaintext: Seq<u8>,
    ciphertext: Seq<u8>,
)
    requires
        nonce.len() == 12,
    ensures
        sealed(key, nonce, plaintext) == nonce + aes256gcm_sealed(key, nonce, plaintext),
        aes256gcm_opened(key, nonce, ciphertext) is Some ==> opened(key, nonce + ciphertext) == Ok::<
            Seq<u8>,
            CryptError,
        >(aes256gcm_opened(key, nonce, ciphertext)->Some_0),
        aes256gcm_opened(key, nonce, ciphertext) is None ==> opened(key, nonce + ciphertext) == Err::<
            Seq<u8>,
            CryptError,
        >(CryptError::DecryptFailed),
{
    assert((nonce + ciphertext).take(12) == nonce);
    assert((nonce + ciphertext).skip(12) == ciphertext);
}

/// Bytes are too short for a sealed text exactly where they do not hold a nonce.
pub proof fn law_too_short_to_open(key: Seq<u8>, data: Seq<u8>)
    ensures
        data.len() < 12 <==> opened(key, data) == Err::<Seq<u8>, CryptError>(
            CryptError::MessageTooShort,
        ),
{
}

} // verus!
