//! SHA-256 identities of byte sequences.

use sha2::Digest;
use vstd::prelude::*;

use crate::text;

verus! {

/// The SHA-256 digest of a byte sequence.
pub uninterp spec fn sha256_of(bytes: Seq<u8>) -> Seq<u8>;

/// The bytes that a running digest has taken in so far.
pub uninterp spec fn absorbed(state: RunningDigest) -> Seq<u8>;

/// A SHA-256 computation in progress, fed in pieces.
#[verifier::external_body]
pub struct RunningDigest {
    state: sha2::Sha256,
}

impl RunningDigest {
    /// `sha2::Sha256::new`: a digest that has taken in nothing.
    #[verifier::external_body]
    pub(crate) fn new() -> (r: Self)
        ensures
            absorbed(r) == Seq::<u8>::empty(),
    {
        RunningDigest { state: sha2::Sha256::new() }
    }

    /// `Digest::update` of `sha2::Sha256`: takes in `bytes` behind what was taken
    /// in before.
    #[verifier::external_body]
    pub(crate) fn update(&mut self, bytes: &[u8])
        ensures
            absorbed(*final(self)) == absorbed(*old(self)) + bytes@,
    {
        self.state.update(bytes);
    }

    /// `Digest::finalize` of `sha2::Sha256`: the 32 bytes of the digest of all that
    /// was taken in. The digest function itself stays unnamed beyond `sha256_of`.
    #[verifier::external_body]
    pub(crate) fn finalize(self) -> (r: [u8; 32])
        ensures
            r@ == sha256_of(absorbed(self)),
    {
        self.state.finalize().into()
    }
}

/// A 256-bit identity.
#[derive(Debug, Clone, Copy)]
pub struct Hash256 {
    pub bytes: [u8; 32],
}

impl Hash256 {
    pub open spec fn view(&self) -> Seq<u8> {
        self.bytes@
    }

    pub fn from_bytes(bytes: [u8; 32]) -> (r: Self)
        ensures
            r@ == bytes@,
    {
        Hash256 { bytes }
    }

    /// The SHA-256 digest of `bytes`.
    pub fn from_sha256(bytes: &[u8]) -> (r: Self)
        ensures
            r@ == sha256_of(bytes@),
    {
        let mut digest = RunningDigest::new();
        digest.update(bytes);
        assert(Seq::<u8>::empty() + bytes@ =~= bytes@);
        Hash256 { bytes: digest.finalize() }
    }

    /// The all-zero identity.
    pub fn zero() -> (r: Self)
        ensures
            r@ == Seq::new(32, |i: int| 0u8),
    {
        let r = Hash256 { bytes: [0u8; 32] };
        assert(r@ =~= Seq::new(32, |i: int| 0u8));
        r
    }

    /// Whether two identities are equal.
    pub fn same(&self, other: &Hash256) -> (r: bool)
        ensures
            r == (self@ == other@),
    {
        let mut i: usize = 0;
        while i < 32
            invariant
                i <= 32,
                forall|j: int| 0 <= j < i ==> self@[j] == other@[j],
            decreases 32 - i,
        {
            if self.bytes[i] != other.bytes[i] {
                assert(self@[i as int] != other@[i as int]);
                return false;
            }
            i = i + 1;
        }
        assert(self@ =~= other@);
        true
    }

    /// The identity as 64 lower-case hexadecimal digits.
    pub fn to_hex(&self) -> (r: String)
        ensures
            r@ == text::hex(self@),
    {
        text::hex_string(&self.bytes)
    }
}

}
