//! Ledger addresses and related fixed-width values.
//!
//! An address is a 32-byte public key. It is carried as two 128-bit
//! halves, packed little-endian from the raw bytes, so that equality and
//! ordering are plain integer comparisons. The order on addresses is the
//! lexicographic order on the pair `(hi, lo)`.

use vstd::prelude::*;
use vstd::bytes::{spec_u128_from_le_bytes, u128_from_le_bytes};
use vstd::slice::slice_subrange;

verus! {

/// A 32-byte ledger address, packed into two 128-bit halves.
#[derive(Clone, Copy, PartialEq, Eq, Structural, Debug, Hash)]
pub struct Address {
    pub hi: u128,
    pub lo: u128,
}

/// A 32-byte hash value (a blockhash or a slot hash), packed like an
/// address.
#[derive(Clone, Copy, PartialEq, Eq, Structural, Debug)]
pub struct BlockHash {
    pub hi: u128,
    pub lo: u128,
}

/// A 64-byte transaction signature, packed into four 128-bit quarters.
#[derive(Clone, Copy, PartialEq, Eq, Structural, Debug)]
pub struct Signature {
    pub q0: u128,
    pub q1: u128,
    pub q2: u128,
    pub q3: u128,
}

/// The address whose 32 bytes are `s`, halves packed little-endian.
pub open spec fn spec_address_of_bytes(s: Seq<u8>) -> Address
    recommends
        s.len() == 32,
{
    Address {
        hi: spec_u128_from_le_bytes(s.subrange(0, 16)),
        lo: spec_u128_from_le_bytes(s.subrange(16, 32)),
    }
}

/// The hash value whose 32 bytes are `s`, halves packed little-endian.
pub open spec fn spec_hash_of_bytes(s: Seq<u8>) -> BlockHash
    recommends
        s.len() == 32,
{
    BlockHash {
        hi: spec_u128_from_le_bytes(s.subrange(0, 16)),
        lo: spec_u128_from_le_bytes(s.subrange(16, 32)),
    }
}

/// Strict order on addresses: by high half, then by low half.
pub open spec fn spec_address_lt(a: Address, b: Address) -> bool {
    a.hi < b.hi || (a.hi == b.hi && a.lo < b.lo)
}

impl Address {
    /// Packs a 32-byte slice into an address.
    pub fn from_bytes(bytes: &[u8]) -> (r: Address)
        requires
            bytes@.len() == 32,
        ensures
            r == spec_address_of_bytes(bytes@),
    {
        let hi = u128_from_le_bytes(slice_subrange(bytes, 0, 16));
        let lo = u128_from_le_bytes(slice_subrange(bytes, 16, 32));
        Address { hi, lo }
    }

    /// True when `self` comes strictly before `other` in address order.
    pub fn lt(&self, other: &Address) -> (r: bool)
        ensures
            r == spec_address_lt(*self, *other),
    {
        self.hi < other.hi || (self.hi == other.hi && self.lo < other.lo)
    }
}

impl BlockHash {
    /// Packs a 32-byte slice into a hash value.
    pub fn from_bytes(bytes: &[u8]) -> (r: BlockHash)
        requires
            bytes@.len() == 32,
        ensures
            r == spec_hash_of_bytes(bytes@),
    {
        let hi = u128_from_le_bytes(slice_subrange(bytes, 0, 16));
        let lo = u128_from_le_bytes(slice_subrange(bytes, 16, 32));
        BlockHash { hi, lo }
    }
}

} // verus!
