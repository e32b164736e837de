//! The hash algorithms that protect storage key components, and the
//! dispatch from an algorithm tag to the digest bytes it produces.
//!
//! The digests themselves come from `sp_crypto_hashing`; each one is a pure
//! function of the input bytes, named here by an uninterpreted spec function
//! so that contracts can speak of it exactly.

use vstd::prelude::*;

verus! {

/// The hash algorithm declared by metadata for one key component.
/// `Concat` algorithms append the original input bytes after the digest;
/// `Identity` emits the input unchanged.
#[derive(Debug, Clone, Copy, PartialEq, Eq, Structural)]
pub enum StorageHasher {
    Blake2_128,
    Blake2_256,
    Blake2_128Concat,
    Twox128,
    Twox256,
    Twox64Concat,
    Identity,
}

/// The 16-byte Blake2b-128 digest of the input.
pub uninterp spec fn blake2_128_of(data: Seq<u8>) -> Seq<u8>;

/// The 32-byte Blake2b-256 digest of the input.
pub uninterp spec fn blake2_256_of(data: Seq<u8>) -> Seq<u8>;

/// The 8-byte XX-64 digest of the input.
pub uninterp spec fn twox_64_of(data: Seq<u8>) -> Seq<u8>;

/// The 16-byte XX-128 digest of the input.
pub uninterp spec fn twox_128_of(data: Seq<u8>) -> Seq<u8>;

/// The 32-byte XX-256 digest of the input.
pub uninterp spec fn twox_256_of(data: Seq<u8>) -> Seq<u8>;

/// Relies on `sp_crypto_hashing::blake2_128`: a 16-byte digest determined
/// by the input bytes alone.
#[verifier::external_body]
pub(crate) fn hash_blake2_128(data: &[u8]) -> (r: Vec<u8>)
    ensures
        r@ == blake2_128_of(data@),
        r@.len() == 16,
{
    sp_crypto_hashing::blake2_128(data).to_vec()
}

/// Relies on `sp_crypto_hashing::blake2_256`: a 32-byte digest determined
/// by the input bytes alone.
#[verifier::external_body]
pub(crate) fn hash_blake2_256(data: &[u8]) -> (r: Vec<u8>)
    ensures
        r@ == blake2_256_of(data@),
        r@.len() == 32,
{
    sp_crypto_hashing::blake2_256(data).to_vec()
}

/// Relies on `sp_crypto_hashing::twox_64`: an 8-byte digest determined by
/// the input bytes alone.
#[verifier::external_body]
pub(crate) fn hash_twox_64(data: &[u8]) -> (r: Vec<u8>)
    ensures
        r@ == twox_64_of(data@),
        r@.len() == 8,
{
    sp_crypto_hashing::twox_64(data).to_vec()
}

/// Relies on `sp_crypto_hashing::twox_128`: a 16-byte digest determined by
/// the input bytes alone.
#[verifier::external_body]
pub(crate) fn hash_twox_128(data: &[u8]) -> (r: Vec<u8>)
    ensures
        r@ == twox_128_of(data@),
        r@.len() == 16,
{
    sp_crypto_hashing::twox_128(data).to_vec()
}

/// Relies on `sp_crypto_hashing::twox_256`: a 32-byte digest determined by
/// the input bytes alone.
#[verifier::external_body]
pub(crate) fn hash_twox_256(data: &[u8]) -> (r: Vec<u8>)
    ensures
        r@ == twox_256_of(data@),
        r@.len() == 32,
{
    sp_crypto_hashing::twox_256(data).to_vec()
}

/// The bytes that hashing an input with the given algorithm produces:
/// the digest, followed by the input itself for `Concat` algorithms, or
/// the unchanged input for `Identity`.
pub open spec fn spec_hash_with(hasher: StorageHasher, data: Seq<u8>) -> Seq<u8> {
    match hasher {
        StorageHasher::Blake2_128 => blake2_128_of(data),
        StorageHasher::Blake2_256 => blake2_256_of(data),
        StorageHasher::Blake2_128Concat => blake2_128_of(data) + data,
        StorageHasher::Twox128 => twox_128_of(data),
        StorageHasher::Twox256 => twox_256_of(data),
        StorageHasher::Twox64Concat => twox_64_of(data) + data,
        StorageHasher::Identity => data,
    }
}

/// Hashes the given bytes with the given algorithm.
pub fn hash_bytes_with(bytes: &[u8], hasher: &StorageHasher) -> (r: Vec<u8>)
    ensures
        r@ == spec_hash_with(*hasher, bytes@),
{
    match hasher {
        StorageHasher::Blake2_128 => hash_blake2_128(bytes),
        StorageHasher::Blake2_256 => hash_blake2_256(bytes),
        StorageHasher::Blake2_128Concat => {
            let mut out = hash_blake2_128(bytes);
            out.extend_from_slice(bytes);
            assert(out@ =~= blake2_128_of(bytes@) + bytes@);
            out
        },
        StorageHasher::Twox128 => hash_twox_128(bytes),
        StorageHasher::Twox256 => hash_twox_256(bytes),
        StorageHasher::Twox64Concat => {
            let mut out = hash_twox_64(bytes);
            out.extend_from_slice(bytes);
            assert(out@ =~= twox_64_of(bytes@) + bytes@);
            out
        },
        StorageHasher::Identity => {
            let mut out: Vec<u8> = Vec::new();
            out.extend_from_slice(bytes);
            assert(out@ =~= bytes@);
            out
        },
    }
}

} // verus!
