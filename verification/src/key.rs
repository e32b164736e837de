//! Logical keys, entry shapes, and the derivation of the final backend
//! storage key: namespace hash, entry hash, then the hashed key components
//! in declared order.

use vstd::prelude::*;

use crate::hashing::{StorageHasher, hash_bytes_with, hash_twox_128, spec_hash_with, twox_128_of};
use crate::weights::{WeightTable, hasher_weight, sat_add, spec_hasher_weight};

verus! {

/// The key supplied by a caller: nothing for a plain entry, or one byte
/// sequence per declared hash algorithm for a keyed entry.
#[derive(Debug, Clone, PartialEq, Eq)]
pub enum Key {
    /// For a `Plain` entry.
    NoKey,
    /// For a `Keyed` entry: the opaque, caller-encoded key components.
    MapKey(Vec<Vec<u8>>),
}

/// Mathematical view of a `Key`.
pub enum KeyV {
    NoKey,
    MapKey(Seq<Seq<u8>>),
}

impl View for Key {
    type V = KeyV;

    open spec fn view(&self) -> KeyV {
        match self {
            Key::NoKey => KeyV::NoKey,
            Key::MapKey(components) => KeyV::MapKey(components.deep_view()),
        }
    }
}

/// How an entry is organized: an unkeyed plain value, or a map keyed by
/// one hashed component per declared algorithm.
#[derive(Debug, Clone, PartialEq, Eq)]
pub enum EntryShape {
    /// A single unkeyed value.
    Plain,
    /// A map; each key component is protected by the algorithm at its
    /// position.
    Keyed(Vec<StorageHasher>),
}

/// Mathematical view of an `EntryShape`.
pub enum ShapeV {
    Plain,
    Keyed(Seq<StorageHasher>),
}

impl View for EntryShape {
    type V = ShapeV;

    open spec fn view(&self) -> ShapeV {
        match self {
            EntryShape::Plain => ShapeV::Plain,
            EntryShape::Keyed(hashers) => ShapeV::Keyed(hashers@),
        }
    }
}

/// Whether a key fits a shape: `NoKey` fits `Plain`, and a `MapKey` fits a
/// `Keyed` shape exactly when it has one component per declared algorithm.
pub open spec fn spec_compatible(k: KeyV, s: ShapeV) -> bool {
    match (k, s) {
        (KeyV::NoKey, ShapeV::Plain) => true,
        (KeyV::MapKey(components), ShapeV::Keyed(hashers)) => components.len() == hashers.len(),
        _ => false,
    }
}

/// Concatenation, in declared order, of each component hashed with the
/// algorithm at its position, starting at position `i`.
pub open spec fn spec_hashed_from(
    components: Seq<Seq<u8>>,
    hashers: Seq<StorageHasher>,
    i: int,
) -> Seq<u8>
    decreases components.len() - i,
{
    if i < 0 || i >= components.len() || components.len() != hashers.len() {
        Seq::empty()
    } else {
        spec_hash_with(hashers[i], components[i]) + spec_hashed_from(components, hashers, i + 1)
    }
}

/// The hashed-key bytes of a key against a shape: empty for `NoKey`, the
/// concatenated per-component digests for a `MapKey`.
pub open spec fn spec_hashed_key(k: KeyV, s: ShapeV) -> Seq<u8>
    recommends
        spec_compatible(k, s),
{
    match k {
        KeyV::NoKey => Seq::empty(),
        KeyV::MapKey(components) => match s {
            ShapeV::Keyed(hashers) => spec_hashed_from(components, hashers, 0),
            ShapeV::Plain => Seq::empty(),
        },
    }
}

/// The final backend storage key: fixed-width hash of the namespace name,
/// fixed-width hash of the entry name, then the hashed key components.
pub open spec fn spec_storage_key(pallet: Seq<u8>, entry: Seq<u8>, k: KeyV, s: ShapeV) -> Seq<u8>
    recommends
        spec_compatible(k, s),
{
    twox_128_of(pallet) + twox_128_of(entry) + spec_hashed_key(k, s)
}

/// What building the storage key yields: the key bytes for a compatible
/// key/shape pair, nothing for an incompatible one.
pub open spec fn spec_build_result(pallet: Seq<u8>, entry: Seq<u8>, k: KeyV, s: ShapeV) -> Option<
    Seq<u8>,
> {
    if spec_compatible(k, s) {
        Some(spec_storage_key(pallet, entry, k, s))
    } else {
        Option::None
    }
}

/// Plain (unsaturated) sum of the per-component hashing weights from
/// position `i` on.
pub open spec fn spec_weights_sum(
    components: Seq<Seq<u8>>,
    hashers: Seq<StorageHasher>,
    t: WeightTable,
    i: int,
) -> int
    decreases components.len() - i,
{
    if i < 0 || i >= components.len() || components.len() != hashers.len() {
        0
    } else {
        spec_hasher_weight(hashers[i], components[i].len() as int, t) + spec_weights_sum(
            components,
            hashers,
            t,
            i + 1,
        )
    }
}

/// Caps a non-negative amount at the `u64` ceiling.
pub open spec fn spec_cap(x: int) -> int {
    if x > u64::MAX {
        u64::MAX as int
    } else {
        x
    }
}

/// Weight of hashing all components of a key against a shape: the capped
/// sum of the per-component weights, zero for `NoKey`.
pub open spec fn spec_key_weight(k: KeyV, s: ShapeV, t: WeightTable) -> int
    recommends
        spec_compatible(k, s),
{
    match k {
        KeyV::NoKey => 0,
        KeyV::MapKey(components) => match s {
            ShapeV::Keyed(hashers) => spec_cap(spec_weights_sum(components, hashers, t, 0)),
            ShapeV::Plain => 0,
        },
    }
}

/// Weight of deriving the whole storage key: the key-component weight plus
/// the weight of hashing the two names, capped at the `u64` ceiling.
pub open spec fn spec_full_key_weight(
    pallet: Seq<u8>,
    entry: Seq<u8>,
    k: KeyV,
    s: ShapeV,
    t: WeightTable,
) -> int
    recommends
        spec_compatible(k, s),
{
    spec_cap(
        spec_key_weight(k, s, t) + spec_hasher_weight(StorageHasher::Twox128, pallet.len() as int, t)
            + spec_hasher_weight(StorageHasher::Twox128, entry.len() as int, t),
    )
}

/// The suffix sums of the per-component weights are never negative.
proof fn lemma_weights_sum_nonneg(
    components: Seq<Seq<u8>>,
    hashers: Seq<StorageHasher>,
    t: WeightTable,
    i: int,
)
    ensures
        spec_weights_sum(components, hashers, t, i) >= 0,
    decreases components.len() - i,
{
    if !(i < 0 || i >= components.len() || components.len() != hashers.len()) {
        lemma_weights_sum_nonneg(components, hashers, t, i + 1);
    }
}

impl Key {
    /// A key with a single component.
    pub fn new_single(component: Vec<u8>) -> (r: Key)
        ensures
            r@ == KeyV::MapKey(seq![component@]),
    {
        let mut components: Vec<Vec<u8>> = Vec::new();
        components.push(component);
        assert(components.deep_view() =~~= seq![components@[0]@]);
        Key::MapKey(components)
    }

    /// A key with two components.
    pub fn new_double(first: Vec<u8>, second: Vec<u8>) -> (r: Key)
        ensures
            r@ == KeyV::MapKey(seq![first@, second@]),
    {
        let mut components: Vec<Vec<u8>> = Vec::new();
        components.push(first);
        components.push(second);
        assert(components.deep_view() =~~= seq![components@[0]@, components@[1]@]);
        Key::MapKey(components)
    }

    /// Attempts to hash the key against the shape's declared algorithms.
    /// Yields nothing exactly when the key does not fit the shape.
    pub fn to_hashed_key(&self, shape: &EntryShape) -> (r: Option<Vec<u8>>)
        ensures
            r is Some <==> spec_compatible(self@, shape@),
            (r matches Some(v) ==> v@ == spec_hashed_key(self@, shape@)),
    {
        match (self, shape) {
            (Key::NoKey, EntryShape::Plain) => {
                let out: Vec<u8> = Vec::new();
                assert(out@ =~= Seq::<u8>::empty());
                Some(out)
            },
            (Key::MapKey(components), EntryShape::Keyed(hashers)) => {
                if components.len() != hashers.len() {
                    return Option::None;
                }
                let ghost cs = components.deep_view();
                let ghost hs = hashers@;
                let mut out: Vec<u8> = Vec::new();
                let mut i: usize = 0;
                assert(out@ + spec_hashed_from(cs, hs, 0) =~= spec_hashed_from(cs, hs, 0));
                while i < components.len()
                    invariant
                        i <= components.len(),
                        cs == components.deep_view(),
                        hs == hashers@,
                        cs.len() == components@.len(),
                        hs.len() == cs.len(),
                        out@ + spec_hashed_from(cs, hs, i as int) == spec_hashed_from(cs, hs, 0),
                    decreases components.len() - i,
                {
                    let mut hashed = hash_bytes_with(components[i].as_slice(), &hashers[i]);
                    proof {
                        assert(cs[i as int] == components@[i as int]@);
                        assert(spec_hashed_from(cs, hs, i as int) == spec_hash_with(
                            hs[i as int],
                            cs[i as int],
                        ) + spec_hashed_from(cs, hs, i as int + 1));
                    }
                    out.append(&mut hashed);
                    i = i + 1;
                    assert(out@ + spec_hashed_from(cs, hs, i as int) =~= spec_hashed_from(
                        cs,
                        hs,
                        0,
                    ));
                }
                assert(out@ =~= out@ + spec_hashed_from(cs, hs, i as int));
                Some(out)
            },
            _ => Option::None,
        }
    }

    /// Converts the key to the full storage key with the hashed namespace
    /// and entry name prefix. Yields nothing exactly when the key does not
    /// fit the shape.
    pub fn to_pallet_entry_storage_key(
        &self,
        pallet: &[u8],
        entry: &[u8],
        shape: &EntryShape,
    ) -> (r: Option<Vec<u8>>)
        ensures
            crate::output::bytes_opt_view(r) == spec_build_result(pallet@, entry@, self@, shape@),
    {
        match self.to_hashed_key(shape) {
            Option::None => Option::None,
            Some(mut hashed) => {
                let mut out = hash_twox_128(pallet);
                let mut entry_hash = hash_twox_128(entry);
                out.append(&mut entry_hash);
                out.append(&mut hashed);
                assert(out@ =~= spec_storage_key(pallet@, entry@, self@, shape@));
                Some(out)
            },
        }
    }

    /// Weight of hashing all key components against the shape's declared
    /// algorithms. Yields nothing exactly when the key does not fit the
    /// shape.
    pub fn hashing_weight(&self, shape: &EntryShape, table: &WeightTable) -> (r: Option<u64>)
        ensures
            r is Some <==> spec_compatible(self@, shape@),
            (r matches Some(w) ==> w == spec_key_weight(self@, shape@, *table)),
    {
        match (self, shape) {
            (Key::NoKey, EntryShape::Plain) => Some(0),
            (Key::MapKey(components), EntryShape::Keyed(hashers)) => {
                if components.len() != hashers.len() {
                    return Option::None;
                }
                let ghost cs = components.deep_view();
                let ghost hs = hashers@;
                let mut acc: u64 = 0;
                let mut i: usize = 0;
                while i < components.len()
                    invariant
                        i <= components.len(),
                        cs == components.deep_view(),
                        hs == hashers@,
                        cs.len() == components@.len(),
                        hs.len() == cs.len(),
                        spec_cap(acc + spec_weights_sum(cs, hs, *table, i as int)) == spec_cap(
                            spec_weights_sum(cs, hs, *table, 0),
                        ),
                    decreases components.len() - i,
                {
                    let w = hasher_weight(&hashers[i], components[i].len(), table);
                    proof {
                        assert(cs[i as int] == components@[i as int]@);
                        assert(spec_weights_sum(cs, hs, *table, i as int) == spec_hasher_weight(
                            hs[i as int],
                            cs[i as int].len() as int,
                            *table,
                        ) + spec_weights_sum(cs, hs, *table, i as int + 1));
                        lemma_weights_sum_nonneg(cs, hs, *table, i as int + 1);
                    }
                    acc = sat_add(acc, w);
                    i = i + 1;
                }
                assert(spec_weights_sum(cs, hs, *table, i as int) == 0);
                Some(acc)
            },
            _ => Option::None,
        }
    }

    /// Weight of deriving the whole storage key, the two hashed names
    /// included. Yields nothing exactly when the key does not fit the shape.
    pub fn full_hashing_weight(
        &self,
        pallet: &[u8],
        entry: &[u8],
        shape: &EntryShape,
        table: &WeightTable,
    ) -> (r: Option<u64>)
        ensures
            r is Some <==> spec_compatible(self@, shape@),
            (r matches Some(w) ==> w == spec_full_key_weight(
                pallet@,
                entry@,
                self@,
                shape@,
                *table,
            )),
    {
        match self.hashing_weight(shape, table) {
            Option::None => Option::None,
            Some(key_weight) => {
                let pallet_weight = hasher_weight(&StorageHasher::Twox128, pallet.len(), table);
                let entry_weight = hasher_weight(&StorageHasher::Twox128, entry.len(), table);
                let total = sat_add(sat_add(key_weight, pallet_weight), entry_weight);
                Some(total)
            },
        }
    }
}

/// Determinism: one `(namespace, entry, key, shape)` quadruple determines
/// at most one storage key; two builds from the same inputs agree.
pub proof fn lemma_storage_key_deterministic(
    r1: Option<Seq<u8>>,
    r2: Option<Seq<u8>>,
    pallet: Seq<u8>,
    entry: Seq<u8>,
    k: KeyV,
    s: ShapeV,
)
    requires
        r1 == spec_build_result(pallet, entry, k, s),
        r2 == spec_build_result(pallet, entry, k, s),
    ensures
        r1 == r2,
{
}

/// Shape gating: a `NoKey` against a `Keyed` shape never builds, and a
/// `MapKey` with the wrong component count never builds against any
/// `Keyed` shape.
pub proof fn lemma_shape_gating(pallet: Seq<u8>, entry: Seq<u8>, k: KeyV, s: ShapeV)
    ensures
        k is NoKey && s is Keyed ==> spec_build_result(pallet, entry, k, s) is None,
        (match (k, s) {
            (KeyV::MapKey(components), ShapeV::Keyed(hashers)) => components.len() != hashers.len()
                ==> spec_build_result(pallet, entry, k, s) is None,
            _ => true,
        }),
{
}

} // verus!
