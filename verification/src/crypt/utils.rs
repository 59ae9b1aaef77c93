//! Digests and the base64 encoding.

use base64::engine::general_purpose::STANDARD;
use base64::Engine;
use vstd::prelude::*;
use vstd::string::StringExecFns;
use crate::number::{decimal, decimal_text};

verus! {

/// The BLAKE3 digest of some bytes, in lower-case hexadecimal.
pub uninterp spec fn blake3_hex(input: Seq<u8>) -> Seq<char>;

/// Some bytes in base64, with the standard alphabet and padding.
pub uninterp spec fn base64_text(input: Seq<u8>) -> Seq<char>;

/// The bytes that a text in base64 stands for, or what is wrong with the text.
pub uninterp spec fn base64_decoded(text: Seq<char>) -> Result<Seq<u8>, DecodeError>;

/// What is wrong with a text that is not base64.
#[derive(Clone, Copy, Debug, PartialEq, Eq)]
pub enum DecodeError {
    /// At an offset stands a byte that is not in the alphabet or not allowed there.
    InvalidByte(usize, u8),
    /// The number of symbols is not possible.
    InvalidLength(usize),
    /// The symbol at an offset, the last one, carries bits that stand for nothing.
    InvalidLastSymbol(usize, u8),
    /// The padding is missing or wrong.
    InvalidPadding,
}

/// What a decoding error says to a reader.
pub open spec fn decode_error_text(e: DecodeError) -> Seq<char> {
    match e {
        DecodeError::InvalidByte(index, byte) => "Invalid symbol "@ + decimal(byte as nat)
            + ", offset "@ + decimal(index as nat) + "."@,
        DecodeError::InvalidLength(len) => "Invalid input length: "@ + decimal(len as nat),
        DecodeError::InvalidLastSymbol(index, byte) => "Invalid last symbol "@ + decimal(
            byte as nat,
        ) + ", offset "@ + decimal(index as nat) + "."@,
        DecodeError::InvalidPadding => "Invalid padding"@,
    }
}

/// A decoding error as its variant is written, with its fields.
pub open spec fn decode_error_name(e: DecodeError) -> Seq<char> {
    match e {
        DecodeError::InvalidByte(index, byte) => "InvalidByte("@ + decimal(index as nat) + ", "@
            + decimal(byte as nat) + ")"@,
        DecodeError::InvalidLength(len) => "InvalidLength("@ + decimal(len as nat) + ")"@,
        DecodeError::InvalidLastSymbol(index, byte) => "InvalidLastSymbol("@ + decimal(index as nat)
            + ", "@ + decimal(byte as nat) + ")"@,
        DecodeError::InvalidPadding => "InvalidPadding"@,
    }
}

/// `first` and a number, `second` and a number, `third`.
fn two_numbers(first: &str, a: u128, second: &str, b: u128, third: &str) -> (r: String)
    ensures
        r@ == first@ + decimal(a as nat) + second@ + decimal(b as nat) + third@,
{
    let mut r = first.to_owned();
    let a = decimal_text(a);
    r.append(a.as_str());
    r.append(second);
    let b = decimal_text(b);
    r.append(b.as_str());
    r.append(third);
    r
}

impl DecodeError {
    /// The text of the error.
    pub fn message(&self) -> (r: String)
        ensures
            r@ == decode_error_text(*self),
    {
        match self {
            DecodeError::InvalidByte(index, byte) => two_numbers(
                "Invalid symbol ",
                *byte as u128,
                ", offset ",
                *index as u128,
                ".",
            ),
            DecodeError::InvalidLength(len) => {
                let mut r = "Invalid input length: ".to_owned();
                let len = decimal_text(*len as u128);
                r.append(len.as_str());
                r
            },
            DecodeError::InvalidLastSymbol(index, byte) => two_numbers(
                "Invalid last symbol ",
                *byte as u128,
                ", offset ",
                *index as u128,
                ".",
            ),
            DecodeError::InvalidPadding => "Invalid padding".to_owned(),
        }
    }

    /// The variant of the error, with its fields.
    pub fn name(&self) -> (r: String)
        ensures
            r@ == decode_error_name(*self),
    {
        match self {
            DecodeError::InvalidByte(index, byte) => two_numbers(
                "InvalidByte(",
                *index as u128,
                ", ",
                *byte as u128,
                ")",
            ),
            DecodeError::InvalidLength(len) => {
                let mut r = "InvalidLength(".to_owned();
                let len = decimal_text(*len as u128);
                r.append(len.as_str());
                r.append(")");
                r
            },
            DecodeError::InvalidLastSymbol(index, byte) => two_numbers(
                "InvalidLastSymbol(",
                *index as u128,
                ", ",
                *byte as u128,
                ")",
            ),
            DecodeError::InvalidPadding => "InvalidPadding".to_owned(),
        }
    }
}

/// Whether a character is a symbol of the base64 alphabet or its padding.
pub open spec fn is_base64_char(c: char) -> bool {
    'A' <= c <= 'Z' || 'a' <= c <= 'z' || '0' <= c <= '9' || c == '+' || c == '/' || c == '='
}

/// `blake3::hash` and `to_hex`: the digest depends on the bytes alone and is written in 64
/// lower-case hexadecimal digits.
#[verifier::external_body]
pub fn blake3_hash(input: &[u8]) -> (r: String)
    ensures
        r@ == blake3_hex(input@),
        r@.len() == 64,
        forall|i: int|
            0 <= i < 64 ==> '0' <= #[trigger] r@[i] <= '9' || 'a' <= r@[i] <= 'f',
{
    blake3::hash(input).to_hex().to_string()
}

/// How many padding signs stand at the end of the text for a number of bytes: as many as there are
/// bytes missing to a multiple of three.
pub open spec fn base64_padding(len: nat) -> int {
    (3 - len % 3) % 3
}

/// `Engine::encode` of `STANDARD`: the text depends on the bytes alone, has four symbols for each
/// three bytes or part of three, ends with equals signs for the bytes that are missing and has none
/// elsewhere, and is what `Engine::decode` reads as those bytes.
#[verifier::external_body]
pub fn base64_encode(input: &[u8]) -> (r: String)
    requires
        (input@.len() + 2) / 3 * 4 <= isize::MAX,
    ensures
        r@ == base64_text(input@),
        r@.len() == (input@.len() + 2) / 3 * 4,
        forall|i: int| 0 <= i < r@.len() ==> is_base64_char(#[trigger] r@[i]),
        forall|i: int|
            0 <= i < r@.len() ==> (#[trigger] r@[i] == '=' <==> i >= r@.len() - base64_padding(
                input@.len(),
            )),
        base64_decoded(r@) is Ok && base64_decoded(r@)->Ok_0 == input@,
{
    STANDARD.encode(input)
}

/// `Engine::decode` of `STANDARD`: the result depends on the text alone. Where there are bytes,
/// `Engine::encode` writes them as that text, which has four symbols for each three of them or part
/// of three. So a text whose padding was left off is refused.
#[verifier::external_body]
pub fn base64_decode(input: &str) -> (r: Result<Vec<u8>, DecodeError>)
    ensures
        r is Ok <==> base64_decoded(input@) is Ok,
        r matches Ok(bytes) ==> base64_decoded(input@)->Ok_0 == bytes@,
        r matches Err(e) ==> base64_decoded(input@)->Err_0 == e,
        r matches Ok(bytes) ==> input@.len() == (bytes@.len() + 2) / 3 * 4,
        input@.len() % 4 != 0 ==> r is Err,
        r matches Ok(bytes) ==> base64_text(bytes@) == input@,
{
    STANDARD.decode(input).map_err(
        |e| match e {
            base64::DecodeError::InvalidByte(i, b) => DecodeError::InvalidByte(i, b),
            base64::DecodeError::InvalidLength(n) => DecodeError::InvalidLength(n),
            base64::DecodeError::InvalidLastSymbol(i, b) => DecodeError::InvalidLastSymbol(i, b),
            base64::DecodeError::InvalidPadding => DecodeError::InvalidPadding,
        },
    )
}

/// A decoding error names the byte and its offset, or the length, in words and as it is written.
pub proof fn law_decode_error_texts(index: usize, byte: u8)
    ensures
        decode_error_text(DecodeError::InvalidByte(index, byte)) == "Invalid symbol "@ + decimal(
            byte as nat,
        ) + ", offset "@ + decimal(index as nat) + "."@,
        decode_error_text(DecodeError::InvalidLength(index)) == "Invalid input length: "@ + decimal(
            index as nat,
        ),
        decode_error_text(DecodeError::InvalidLastSymbol(index, byte)) == "Invalid last symbol "@
            + decimal(byte as nat) + ", offset "@ + decimal(index as nat) + "."@,
        decode_error_text(DecodeError::InvalidPadding) == "Invalid padding"@,
        decode_error_name(DecodeError::InvalidByte(index, byte)) == "InvalidByte("@ + decimal(
            index as nat,
        ) + ", "@ + decimal(byte as nat) + ")"@,
        decode_error_name(DecodeError::InvalidLength(index)) == "InvalidLength("@ + decimal(
            index as nat,
        ) + ")"@,
        decode_error_name(DecodeError::InvalidLastSymbol(index, byte)) == "InvalidLastSymbol("@
            + decimal(index as nat) + ", "@ + decimal(byte as nat) + ")"@,
        decode_error_name(DecodeError::InvalidPadding) == "InvalidPadding"@,
{
}

} // verus!
