//! Account addresses, 256-bit hashes, and the Keccak-256 digest.

use crate::bytes::{be_fixed, lemma_be_fixed_len, push_be_fixed};
use crate::uint::U256;
use vstd::prelude::*;

verus! {

/// The Keccak-256 digest of a byte string.
pub uninterp spec fn keccak_digest(data: Seq<u8>) -> Seq<u8>;

/// Calls `tiny_keccak::keccak256`. The contract names its result: the 32 bytes
/// are a function of the input bytes alone. That the function is the Keccak-256
/// permutation sponge is not stated.
#[verifier::external_body]
pub(crate) fn keccak256(data: &[u8]) -> (digest: [u8; 32])
    ensures
        digest@ == keccak_digest(data@),
{
    tiny_keccak::keccak256(data)
}

/// The address of an account: 20 bytes.
#[derive(Clone, Copy, Debug, PartialEq, Eq)]
pub struct Address {
    pub bytes: [u8; 20],
}

impl View for Address {
    type V = Seq<u8>;

    open spec fn view(&self) -> Seq<u8> {
        self.bytes@
    }
}

impl Address {
    /// Whether the bytes are the same.
    pub fn same(&self, other: &Self) -> (equal: bool)
        ensures
            equal == (self@ == other@),
    {
        let mut i: usize = 0;
        while i < 20
            invariant
                i <= 20,
                forall|j: int| 0 <= j < i ==> self.bytes@[j] == other.bytes@[j],
            decreases 20 - i,
        {
            if self.bytes[i] != other.bytes[i] {
                return false;
            }
            i = i + 1;
        }
        assert(self@ =~= other@);
        true
    }
}

/// A 256-bit hash, also the key and the value of a storage slot: 32 bytes.
#[derive(Clone, Copy, Debug, PartialEq, Eq)]
pub struct H256 {
    pub bytes: [u8; 32],
}

impl View for H256 {
    type V = Seq<u8>;

    open spec fn view(&self) -> Seq<u8> {
        self.bytes@
    }
}

impl H256 {
    /// Whether the bytes are the same.
    pub fn same(&self, other: &Self) -> (equal: bool)
        ensures
            equal == (self@ == other@),
    {
        let mut i: usize = 0;
        while i < 32
            invariant
                i <= 32,
                forall|j: int| 0 <= j < i ==> self.bytes@[j] == other.bytes@[j],
            decreases 32 - i,
        {
            if self.bytes[i] != other.bytes[i] {
                return false;
            }
            i = i + 1;
        }
        assert(self@ =~= other@);
        true
    }
}

/// The 32 zero bytes of an empty storage slot.
pub open spec fn zero_hash() -> Seq<u8> {
    Seq::new(32, |i: int| 0u8)
}

impl H256 {
    /// The hash of 32 zero bytes.
    pub fn new() -> (hash: H256)
        ensures
            hash@ == zero_hash(),
    {
        let hash: H256 = H256 { bytes: [0u8; 32] };
        assert(hash@ =~= zero_hash());
        hash
    }

    /// A word as 32 big-endian bytes.
    pub fn from_u256(x: &U256) -> (hash: H256)
        ensures
            hash@ == be_fixed(x@, 32),
    {
        let mut out: Vec<u8> = Vec::new();
        push_be_fixed(&mut out, *x, 32);
        let mut bytes: [u8; 32] = [0u8; 32];
        let mut i: usize = 0;
        proof {
            lemma_be_fixed_len(x@, 32);
        }
        while i < 32
            invariant
                i <= 32,
                out@.len() == 32,
                forall|j: int| 0 <= j < i ==> bytes@[j] == out@[j],
            decreases 32 - i,
        {
            bytes[i] = out[i];
            i = i + 1;
        }
        assert(bytes@ =~= out@);
        assert(out@ =~= be_fixed(x@, 32));
        H256 { bytes }
    }
}

impl Address {
    /// The address of 20 zero bytes.
    pub fn zero() -> (address: Address)
        ensures
            address@ == Seq::new(20, |i: int| 0u8),
    {
        let address: Address = Address { bytes: [0u8; 20] };
        assert(address@ =~= Seq::new(20, |i: int| 0u8));
        address
    }

    /// The last 20 bytes of a hash.
    pub fn from_hash(hash: &H256) -> (address: Address)
        ensures
            address@ == hash@.subrange(12, 32),
    {
        let mut bytes: [u8; 20] = [0u8; 20];
        let mut i: usize = 0;
        while i < 20
            invariant
                i <= 20,
                forall|j: int| 0 <= j < i ==> bytes@[j] == hash.bytes@[12 + j],
            decreases 20 - i,
        {
            bytes[i] = hash.bytes[12 + i];
            i = i + 1;
        }
        assert(bytes@ =~= hash@.subrange(12, 32));
        Address { bytes }
    }
}

} // verus!
