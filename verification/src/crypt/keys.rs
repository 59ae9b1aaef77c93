//! Key material as plain bytes.

use vstd::prelude::*;

verus! {

/// The bytes of a key that nobody has set: all zero.
pub open spec fn zero_key() -> Seq<u8> {
    Seq::new(32, |i: int| 0u8)
}

/// Copies 32 bytes into an array.
pub(crate) fn array_of(s: &[u8]) -> (r: [u8; 32])
    requires
        s@.len() == 32,
    ensures
        r@ == s@,
{
    let mut out: [u8; 32] = [0u8;32];
    for i in 0..32
        invariant
            s@.len() == 32,
            forall|j: int| 0 <= j < i ==> out[j] == s[j],
    {
        out[i] = s[i];
    }
    assert(out@ == s@);
    out
}

/// An X25519 public key.
#[derive(Clone, Copy, Debug, PartialEq, Eq)]
pub struct PublicKey {
    pub bytes: [u8; 32],
}

impl View for PublicKey {
    type V = Seq<u8>;

    open spec fn view(&self) -> Seq<u8> {
        self.bytes@
    }
}

impl From<[u8; 32]> for PublicKey {
    fn from(bytes: [u8; 32]) -> (r: PublicKey) {
        PublicKey { bytes }
    }
}

impl vstd::std_specs::convert::FromSpecImpl<[u8; 32]> for PublicKey {
    open spec fn obeys_from_spec() -> bool {
        true
    }

    open spec fn from_spec(bytes: [u8; 32]) -> PublicKey {
        PublicKey { bytes }
    }
}

impl PublicKey {
    /// The bytes of the key.
    pub fn to_bytes(&self) -> (r: [u8; 32])
        ensures
            r@ == self@,
    {
        self.bytes
    }

    /// The bytes of the key.
    pub fn as_bytes(&self) -> (r: &[u8; 32])
        ensures
            r@ == self@,
    {
        &self.bytes
    }
}

/// An X25519 secret key.
pub struct StaticSecret {
    pub bytes: [u8; 32],
}

impl View for StaticSecret {
    type V = Seq<u8>;

    open spec fn view(&self) -> Seq<u8> {
        self.bytes@
    }
}

impl Clone for StaticSecret {
    fn clone(&self) -> (r: StaticSecret)
        ensures
            r@ == self@,
    {
        StaticSecret { bytes: self.bytes }
    }
}

impl From<[u8; 32]> for StaticSecret {
    fn from(bytes: [u8; 32]) -> (r: StaticSecret) {
        StaticSecret { bytes }
    }
}

impl vstd::std_specs::convert::FromSpecImpl<[u8; 32]> for StaticSecret {
    open spec fn obeys_from_spec() -> bool {
        true
    }

    open spec fn from_spec(bytes: [u8; 32]) -> StaticSecret {
        StaticSecret { bytes }
    }
}

impl StaticSecret {
    /// The bytes of the key.
    pub fn to_bytes(&self) -> (r: [u8; 32])
        ensures
            r@ == self@,
    {
        self.bytes
    }

    /// The bytes of the key.
    pub fn as_bytes(&self) -> (r: &[u8; 32])
        ensures
            r@ == self@,
    {
        &self.bytes
    }
}

/// A key of the session cipher. The default key, all zero, stands for a session without one.
#[derive(Clone, Copy, Debug, PartialEq, Eq)]
pub struct Key {
    pub bytes: [u8; 32],
}

impl View for Key {
    type V = Seq<u8>;

    open spec fn view(&self) -> Seq<u8> {
        self.bytes@
    }
}

impl Default for Key {
    fn default() -> (r: Key)
        ensures
            r@ == zero_key(),
    {
        let r = Key { bytes: [0u8;32] };
        assert(r@ == zero_key());
        r
    }
}

impl Key {
    /// Whether this is the default key.
    pub fn is_default(&self) -> (r: bool)
        ensures
            r == (self@ == zero_key()),
    {
        for i in 0..32
            invariant
                forall|j: int| 0 <= j < i ==> self.bytes[j] == 0,
        {
            if self.bytes[i] != 0 {
                assert(self@[i as int] != zero_key()[i as int]);
                return false;
            }
        }
        assert(self@ == zero_key());
        true
    }
}

/// The key that nobody has set is 32 bytes, each of them zero.
pub proof fn law_zero_key()
    ensures
        zero_key().len() == 32,
        forall|i: int| 0 <= i < 32 ==> #[trigger] zero_key()[i] == 0,
{
}

/// A key is its bytes, in their order.
pub proof fn law_keys_are_bytes(public: PublicKey, secret: StaticSecret, key: Key)
    ensures
        public@ == public.bytes@,
        secret@ == secret.bytes@,
        key@ == key.bytes@,
{
}

} // verus!
