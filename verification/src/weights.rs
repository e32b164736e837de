//! The cost model: a calibration table assigns each hash algorithm a fixed
//! base weight plus a weight per input byte; all accounting saturates, so a
//! cost can never wrap around to a small value.

use vstd::prelude::*;

use crate::hashing::StorageHasher;

verus! {

/// Weight of one hash algorithm: a fixed base plus a per-byte term.
#[derive(Debug, Clone, Copy, PartialEq, Eq, Structural)]
pub struct HasherWeight {
    pub base: u64,
    pub per_byte: u64,
}

/// The calibration table: one linear weight per hash algorithm. The
/// coefficients are external configuration, injected by the caller.
#[derive(Debug, Clone, Copy, PartialEq, Eq, Structural)]
pub struct WeightTable {
    pub blake2_128: HasherWeight,
    pub blake2_256: HasherWeight,
    pub blake2_128_concat: HasherWeight,
    pub twox_128: HasherWeight,
    pub twox_256: HasherWeight,
    pub twox_64_concat: HasherWeight,
    pub identity: HasherWeight,
}

/// Saturating addition over mathematical integers, with the `u64` ceiling.
pub open spec fn spec_sat_add(a: int, b: int) -> int {
    if a + b > u64::MAX {
        u64::MAX as int
    } else {
        a + b
    }
}

/// Saturating multiplication over mathematical integers, with the `u64`
/// ceiling.
pub open spec fn spec_sat_mul(a: int, b: int) -> int {
    if a * b > u64::MAX {
        u64::MAX as int
    } else {
        a * b
    }
}

/// The table entry that applies to the given algorithm.
pub open spec fn spec_table_entry(t: WeightTable, h: StorageHasher) -> HasherWeight {
    match h {
        StorageHasher::Blake2_128 => t.blake2_128,
        StorageHasher::Blake2_256 => t.blake2_256,
        StorageHasher::Blake2_128Concat => t.blake2_128_concat,
        StorageHasher::Twox128 => t.twox_128,
        StorageHasher::Twox256 => t.twox_256,
        StorageHasher::Twox64Concat => t.twox_64_concat,
        StorageHasher::Identity => t.identity,
    }
}

/// Weight of hashing `len` input bytes with the given algorithm:
/// `base + per_byte * len`, saturating at the `u64` ceiling.
pub open spec fn spec_hasher_weight(h: StorageHasher, len: int, t: WeightTable) -> int {
    spec_sat_add(
        spec_table_entry(t, h).base as int,
        spec_sat_mul(spec_table_entry(t, h).per_byte as int, len),
    )
}

/// Saturating `u64` addition.
pub fn sat_add(a: u64, b: u64) -> (r: u64)
    ensures
        r == spec_sat_add(a as int, b as int),
{
    a.saturating_add(b)
}

/// Saturating `u64` multiplication.
pub fn sat_mul(a: u64, b: u64) -> (r: u64)
    ensures
        r == spec_sat_mul(a as int, b as int),
{
    match a.checked_mul(b) {
        Some(p) => p,
        Option::None => u64::MAX,
    }
}

/// Weight of hashing `input_len` bytes with the given algorithm, under the
/// given calibration table.
pub fn hasher_weight(hasher: &StorageHasher, input_len: usize, table: &WeightTable) -> (r: u64)
    ensures
        r == spec_hasher_weight(*hasher, input_len as int, *table),
{
    let entry = match hasher {
        StorageHasher::Blake2_128 => table.blake2_128,
        StorageHasher::Blake2_256 => table.blake2_256,
        StorageHasher::Blake2_128Concat => table.blake2_128_concat,
        StorageHasher::Twox128 => table.twox_128,
        StorageHasher::Twox256 => table.twox_256,
        StorageHasher::Twox64Concat => table.twox_64_concat,
        StorageHasher::Identity => table.identity,
    };
    sat_add(entry.base, sat_mul(entry.per_byte, input_len as u64))
}

/// Monotonic cost: for a fixed algorithm and table, hashing more bytes
/// never weighs less.
pub proof fn lemma_hasher_weight_monotonic(h: StorageHasher, t: WeightTable, len1: int, len2: int)
    requires
        0 <= len1 <= len2,
    ensures
        spec_hasher_weight(h, len1, t) <= spec_hasher_weight(h, len2, t),
{
    let per = spec_table_entry(t, h).per_byte as int;
    assert(per * len1 <= per * len2) by (nonlinear_arith)
        requires
            0 <= len1 <= len2,
            per >= 0,
    ;
}

} // verus!
