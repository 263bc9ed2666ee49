//! The 64-bit FNV-1a hash used to index log-site descriptors.
//!
//! The registry keys every site by the FNV-1a hash of its identity, so the
//! whole algorithm is stated here as a spec function and the executable code
//! is proved against it.

use vstd::prelude::*;

verus! {

/// FNV-1a 64-bit offset basis.
pub const FNV_OFFSET_BASIS: u64 = 0xcbf29ce484222325;

/// FNV-1a 64-bit prime.
pub const FNV_PRIME: u64 = 0x100000001b3;

/// One round of FNV-1a: fold the next byte into the running hash.
pub open spec fn fnv1a_step(h: u64, b: u8) -> u64 {
    vstd::wrapping::u64_specs::wrapping_mul(h ^ (b as u64), FNV_PRIME)
}

/// FNV-1a hash of a byte sequence, processed left to right.
pub open spec fn fnv1a_seq(bytes: Seq<u8>) -> u64
    decreases bytes.len(),
{
    if bytes.len() == 0 {
        FNV_OFFSET_BASIS
    } else {
        fnv1a_step(fnv1a_seq(bytes.drop_last()), bytes.last())
    }
}

/// Hash of a site identity: FNV-1a over its eight little-endian bytes,
/// matching how a 64-bit value is fed to a byte-oriented hasher.
pub open spec fn identity_hash_spec(id: u64) -> u64 {
    fnv1a_seq(vstd::bytes::spec_u64_to_le_bytes(id))
}

/// Hasher-factory for the FNV-1a 64-bit hash. The hash itself is a pure
/// function, so the builder carries no state.
pub struct FNV1aHasher64HasherBuilder {}

impl FNV1aHasher64HasherBuilder {
    pub fn new() -> (r: Self) {
        FNV1aHasher64HasherBuilder {}
    }
}

/// Computes the FNV-1a 64-bit hash of a byte slice.
pub fn fnv1a_bytes(bytes: &[u8]) -> (r: u64)
    ensures
        r == fnv1a_seq(bytes@),
{
    let mut h: u64 = FNV_OFFSET_BASIS;
    let n: usize = bytes.len();
    let mut i: usize = 0;
    while i < n
        invariant
            n == bytes@.len(),
            i <= n,
            h == fnv1a_seq(bytes@.take(i as int)),
        decreases n - i,
    {
        let b: u8 = bytes[i];
        proof {
            assert(bytes@.take(i + 1).drop_last() =~= bytes@.take(i as int));
            assert(bytes@.take(i + 1).last() == bytes@[i as int]);
        }
        h = (h ^ (b as u64)).wrapping_mul(FNV_PRIME);
        i = i + 1;
    }
    proof {
        assert(bytes@.take(n as int) =~= bytes@);
    }
    h
}

/// Computes the hash of a site identity.
pub fn hash_identity(id: u64) -> (r: u64)
    ensures
        r == identity_hash_spec(id),
{
    let bytes = vstd::bytes::u64_to_le_bytes(id);
    fnv1a_bytes(bytes.as_slice())
}

} // verus!
