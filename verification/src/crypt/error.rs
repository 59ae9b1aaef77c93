//! Why a message could not be sealed or opened.

use vstd::prelude::*;
use vstd::string::StringExecFns;
use crate::number::{decimal, decimal_text};

verus! {

/// Why a message could not be sealed or opened.
#[derive(Clone, Copy, Debug, PartialEq, Eq, Structural)]
pub enum CryptError {
    /// There are fewer bytes than the smallest sealed message has.
    MessageTooShort,
    /// The first byte names a version that this library does not know.
    UnsupportedVersion(u8),
    /// The cipher refused to encrypt.
    EncryptFailed,
    /// The cipher refused to decrypt: the bytes were not sealed under this key.
    DecryptFailed,
}

/// What an error says to a reader.
pub open spec fn crypt_error_text(e: CryptError) -> Seq<char> {
    match e {
        CryptError::MessageTooShort => "Message too short"@,
        CryptError::UnsupportedVersion(v) => "Unsupported version: "@ + decimal(v as nat),
        CryptError::EncryptFailed => "Encrypt error: Error"@,
        CryptError::DecryptFailed => "Decrypt error: Error"@,
    }
}

/// What an error says inside another message: its text between quotation marks.
pub open spec fn crypt_error_quoted(e: CryptError) -> Seq<char> {
    "\""@ + crypt_error_text(e) + "\""@
}

impl CryptError {
    /// The text of the error.
    pub fn message(&self) -> (r: String)
        ensures
            r@ == crypt_error_text(*self),
    {
        match self {
            CryptError::MessageTooShort => "Message too short".to_owned(),
            CryptError::UnsupportedVersion(v) => {
                let mut r = "Unsupported version: ".to_owned();
                let number = decimal_text(*v as u128);
                r.append(number.as_str());
                r
            },
            CryptError::EncryptFailed => "Encrypt error: Error".to_owned(),
            CryptError::DecryptFailed => "Decrypt error: Error".to_owned(),
        }
    }

    /// The text of the error between quotation marks.
    pub fn quoted(&self) -> (r: String)
        ensures
            r@ == crypt_error_quoted(*self),
    {
        let mut r = "\"".to_owned();
        let text = self.message();
        r.append(text.as_str());
        r.append("\"");
        r
    }
}

/// Each error has its own text, and an unknown version is named in it.
pub proof fn law_crypt_error_texts(e: CryptError, version: u8)
    ensures
        crypt_error_text(CryptError::MessageTooShort) == "Message too short"@,
        crypt_error_text(CryptError::UnsupportedVersion(version)) == "Unsupported version: "@
            + decimal(version as nat),
        crypt_error_text(CryptError::EncryptFailed) == "Encrypt error: Error"@,
        crypt_error_text(CryptError::DecryptFailed) == "Decrypt error: Error"@,
        crypt_error_quoted(e) == "\""@ + crypt_error_text(e) + "\""@,
{
}

} // verus!
