//! Names of the server and of its clients.

use vstd::prelude::*;
use crate::text::{is_white_space, no_white_space};

verus! {

/// The number of characters of the text of an identifier.
pub const ID_LENGTH: usize = 36;

/// A universally unique identifier.
#[derive(Clone, Copy, Debug, PartialEq, Eq)]
pub struct Uuid {
    pub bytes: [u8; 16],
}

impl View for Uuid {
    type V = Seq<u8>;

    open spec fn view(&self) -> Seq<u8> {
        self.bytes@
    }
}

/// A hexadecimal digit in lower case.
pub open spec fn hex_digit(n: int) -> char {
    if n < 10 {
        (48 + n) as char
    } else {
        (87 + n) as char
    }
}

/// The half byte at an index, the upper half of each byte first.
pub open spec fn nibble(bytes: Seq<u8>, k: int) -> int {
    if k % 2 == 0 {
        bytes[k / 2] as int / 16
    } else {
        bytes[k / 2] as int % 16
    }
}

/// The hexadecimal digits of 16 bytes in groups of 8, 4, 4, 4 and 12, with hyphens between them.
pub open spec fn hyphenated(bytes: Seq<u8>) -> Seq<char> {
    Seq::new(
        36,
        |i: int|
            if i == 8 || i == 13 || i == 18 || i == 23 {
                '-'
            } else if i < 8 {
                hex_digit(nibble(bytes, i))
            } else if i < 13 {
                hex_digit(nibble(bytes, i - 1))
            } else if i < 18 {
                hex_digit(nibble(bytes, i - 2))
            } else if i < 23 {
                hex_digit(nibble(bytes, i - 3))
            } else {
                hex_digit(nibble(bytes, i - 4))
            },
    )
}

/// `Uuid::new_v4`: random bytes, but for the four bits of the version and the two of the variant. The
/// call panics if the system has no random source.
#[verifier::external_body]
fn random_uuid() -> (r: [u8; 16])
    ensures
        0x40 <= r@[6] < 0x50,
        0x80 <= r@[8] < 0xc0,
{
    uuid::Uuid::new_v4().into_bytes()
}

/// `to_string` of `Uuid`: the hyphenated form in lower case.
#[verifier::external_body]
fn uuid_text(bytes: &[u8; 16]) -> (r: String)
    ensures
        r@ == hyphenated(bytes@),
{
    uuid::Uuid::from_bytes(*bytes).to_string()
}

impl Uuid {
    /// Whether all bytes are zero.
    pub fn is_nil(&self) -> (r: bool)
        ensures
            r == (forall|i: int| 0 <= i < 16 ==> self@[i] == 0),
    {
        for i in 0..16
            invariant
                forall|j: int| 0 <= j < i ==> self@[j] == 0,
        {
            if self.bytes[i] != 0 {
                assert(self@[i as int] != 0);
                return false;
            }
        }
        true
    }

    /// The text of the identifier.
    pub fn to_text(&self) -> (r: String)
        ensures
            r@ == hyphenated(self@),
            r@.len() == ID_LENGTH,
    {
        uuid_text(&self.bytes)
    }
}

/// Makes a random identifier of version 4. It is never nil.
pub fn generate_id() -> (r: Uuid)
    ensures
        0x40 <= r@[6] < 0x50,
        0x80 <= r@[8] < 0xc0,
        exists|i: int| 0 <= i < 16 && r@[i] != 0,
{
    let r = Uuid { bytes: random_uuid() };
    assert(r@[6] != 0);
    r
}

/// The text of an identifier holds no white space.
pub proof fn lemma_id_text(id: Uuid)
    ensures
        no_white_space(hyphenated(id@)),
{
    let s = hyphenated(id@);
    assert forall|i: int| 0 <= i < s.len() implies !is_white_space(#[trigger] s[i]) by {
        assert forall|k: int| 0 <= #[trigger] nibble(id@, k) && nibble(id@, k) < 16 by {}
        assert forall|n: int| 0 <= n < 16 implies !is_white_space(#[trigger] hex_digit(n)) by {}
    }
}

/// Two identifiers with the same text are the same.
pub proof fn law_id_texts_differ(a: Uuid, b: Uuid)
    requires
        hyphenated(a@) == hyphenated(b@),
    ensures
        a@ == b@,
{
    let s = hyphenated(a@);
    let t = hyphenated(b@);
    assert forall|k: int| 0 <= k < 32 implies nibble(a@, k) == nibble(b@, k) by {
        let i = if k < 8 {
            k
        } else if k < 12 {
            k + 1
        } else if k < 16 {
            k + 2
        } else if k < 20 {
            k + 3
        } else {
            k + 4
        };
        assert(s[i] == t[i]);
        assert(s[i] == hex_digit(nibble(a@, k)));
        assert(t[i] == hex_digit(nibble(b@, k)));
    }
    assert forall|j: int| 0 <= j < 16 implies a@[j] == b@[j] by {
        assert(nibble(a@, 2 * j) == nibble(b@, 2 * j));
        assert(nibble(a@, 2 * j + 1) == nibble(b@, 2 * j + 1));
    }
    assert(a@ == b@);
}

/// The name of the server, which is registered once.
pub struct ServerIdentity {
    id: Option<String>,
}

impl View for ServerIdentity {
    type V = Option<Seq<char>>;

    closed spec fn view(&self) -> Option<Seq<char>> {
        match self.id {
            Some(id) => Some(id@),
            None => None,
        }
    }
}

impl ServerIdentity {
    /// A server that is not registered.
    pub fn new() -> (r: ServerIdentity)
        ensures
            r@ is None,
    {
        ServerIdentity { id: None }
    }

    /// Registers the server. A server that is registered keeps its name: the answer is then `false`.
    pub fn set_id(&mut self, new_id: &str) -> (r: bool)
        ensures
            r == (old(self)@ is None),
            final(self)@ == (if old(self)@ is None {
                Some(new_id@)
            } else {
                old(self)@
            }),
    {
        if self.id.is_none() {
            self.id = Some(new_id.to_owned());
            true
        } else {
            false
        }
    }

    /// The name of the server, if it is registered.
    pub fn get_id(&self) -> (r: Option<&str>)
        ensures
            match r {
                Some(id) => self@ == Some(id@),
                None => self@ is None,
            },
    {
        match &self.id {
            Some(id) => Some(id.as_str()),
            None => None,
        }
    }
}

/// The text of an identifier has hyphens behind 8, 12, 16 and 20 digits, and each byte is written as
/// its upper and its lower half, in the order of the bytes.
pub proof fn law_id_text_layout(bytes: Seq<u8>, j: int)
    requires
        bytes.len() == 16,
        0 <= j < 16,
    ensures
        ({
            let s = hyphenated(bytes);
            let hyphens = if j < 4 {
                0int
            } else if j < 6 {
                1
            } else if j < 8 {
                2
            } else if j < 10 {
                3
            } else {
                4
            };
            let digits = "0123456789abcdef"@;
            &&& s.len() == 36
            &&& s[8] == '-' && s[13] == '-' && s[18] == '-' && s[23] == '-'
            &&& s[2 * j + hyphens] == digits[bytes[j] as int / 16]
            &&& s[2 * j + hyphens + 1] == digits[bytes[j] as int % 16]
        }),
{
    reveal_strlit("0123456789abcdef");
    let digits = "0123456789abcdef"@;
    assert forall|n: int| 0 <= n < 16 implies #[trigger] hex_digit(n) == digits[n] by {}
    assert((2 * j) / 2 == j && (2 * j + 1) / 2 == j);
    assert(hex_digit(bytes[j] as int / 16) == digits[bytes[j] as int / 16]);
    assert(hex_digit(bytes[j] as int % 16) == digits[bytes[j] as int % 16]);
}

} // verus!
