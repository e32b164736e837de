//! The read pipeline: resolve the entry's metadata shape, build the storage
//! key, check the budget, then — after the external store read — resolve the
//! default, check the budget again, window the value and encode it.
//!
//! The metadata registry and the raw store are external collaborators; a
//! thin driver looks the metadata up, performs the read, and hands both
//! results to the verified pipeline as plain values.

use vstd::prelude::*;
use vstd::slice::slice_to_vec;

use crate::key::{
    EntryShape, Key, KeyV, ShapeV, spec_compatible, spec_full_key_weight, spec_storage_key,
};
use crate::output::{
    RawStorageValue, bytes_opt_view, spec_apply_params, spec_encode_value, spec_resolve,
    spec_value_len,
};
use crate::params::{Params, ParamsError, spec_validate};
use crate::weights::{WeightTable, sat_add, sat_mul, spec_sat_add, spec_sat_mul};

verus! {

/// Whether an entry declares a default value for absent reads.
#[derive(Debug, Clone, Copy, PartialEq, Eq, Structural)]
pub enum StorageEntryModifier {
    /// Absent means absent.
    Optional,
    /// Absent resolves to the declared default bytes.
    Default,
}

/// Metadata of one storage entry, as the external metadata registry
/// describes it: its name, whether it has a default, its shape, and the
/// default value bytes.
#[derive(Debug, Clone, PartialEq, Eq)]
pub struct StorageEntryMetadata {
    pub name: Vec<u8>,
    pub modifier: StorageEntryModifier,
    pub ty: EntryShape,
    pub default: Vec<u8>,
}

/// Metadata of a whole namespace: its entries, in declared order.
#[derive(Debug, Clone, PartialEq, Eq)]
pub struct PalletStorageMetadata {
    pub entries: Vec<StorageEntryMetadata>,
}

/// The store's opaque failure, distinct from "absent".
#[derive(Debug, Clone, Copy, PartialEq, Eq, Structural)]
pub struct StoreError;

/// Why a read request was rejected. Every failure is terminal.
#[derive(Debug, Clone, Copy, PartialEq, Eq, Structural)]
pub enum Error {
    /// The namespace/entry pair is unknown to the metadata registry.
    EntryNotFound,
    /// The key variant or component count does not fit the entry's shape.
    KeyShapeMismatch,
    /// The offset/length request is over-long or overflows.
    InvalidRange(ParamsError),
    /// A checkpoint's running cost exceeds the supplied ceiling.
    BudgetExceeded,
    /// The raw store reported an error.
    StoreFailure,
    /// The request envelope failed to decode.
    MalformedRequest,
}

/// Input for a metadata-driven read: namespace name, entry name, key and
/// windowing params.
#[derive(Debug, Clone, PartialEq, Eq)]
pub struct MetaStorageReaderInput {
    pub pallet: Vec<u8>,
    pub entry: Vec<u8>,
    pub key: Key,
    pub params: Params,
}

/// Input for a raw read: the exact storage key bytes and windowing params.
#[derive(Debug, Clone, PartialEq, Eq)]
pub struct RawStorageReaderInput {
    pub key: Vec<u8>,
    pub params: Params,
}

/// Everything the pipeline knows before the store read: the derived
/// storage key, the already-charged base cost, the entry's default, and
/// the params to apply afterwards.
#[derive(Debug, Clone, PartialEq, Eq)]
pub struct PreparedRead {
    pub storage_key: Vec<u8>,
    pub base_cost: u64,
    pub default_value: Option<Vec<u8>>,
    pub params: Params,
}

/// The outcome of a successful read: the encoded response and the total
/// cost to charge.
#[derive(Debug, Clone, PartialEq, Eq)]
pub struct ReadOutput {
    pub output: Vec<u8>,
    pub gas_used: u64,
}

/// Copies value bytes.
pub(crate) fn clone_bytes(bytes: &Vec<u8>) -> (r: Vec<u8>)
    ensures
        r@ == bytes@,
{
    slice_to_vec(bytes.as_slice())
}

/// The value behind an optional reference.
pub open spec fn opt_deref<T>(o: Option<&T>) -> Option<T> {
    match o {
        Some(x) => Some(*x),
        Option::None => Option::None,
    }
}

/// Whether a cost exceeds the optional budget ceiling.
pub open spec fn spec_gas_insufficient(gas_limit: Option<u64>, cost: int) -> bool {
    match gas_limit {
        Some(limit) => (limit as int) < cost,
        Option::None => false,
    }
}

/// The default bytes that an entry declares, if any.
pub open spec fn spec_default_of(m: StorageEntryMetadata) -> Option<Seq<u8>> {
    match m.modifier {
        StorageEntryModifier::Default => Some(m.default@),
        StorageEntryModifier::Optional => Option::None,
    }
}

/// The first entry with the given name, searched in declared order.
pub open spec fn spec_find_entry(entries: Seq<StorageEntryMetadata>, name: Seq<u8>) -> Option<
    StorageEntryMetadata,
>
    decreases entries.len(),
{
    if entries.len() == 0 {
        Option::None
    } else if entries[0].name@ == name {
        Some(entries[0])
    } else {
        spec_find_entry(entries.drop_first(), name)
    }
}

/// Whether the two byte slices hold the same bytes.
pub fn bytes_eq(a: &[u8], b: &[u8]) -> (r: bool)
    ensures
        r <==> a@ == b@,
{
    if a.len() != b.len() {
        return false;
    }
    let mut i: usize = 0;
    while i < a.len()
        invariant
            i <= a@.len(),
            a@.len() == b@.len(),
            forall|j: int| 0 <= j < i ==> a@[j] == b@[j],
        decreases a@.len() - i,
    {
        if a[i] != b[i] {
            return false;
        }
        i = i + 1;
    }
    proof {
        assert(a@ =~= b@);
    }
    true
}

impl PalletStorageMetadata {
    /// Finds the metadata of the entry with the given name, if the
    /// namespace declares one.
    pub fn pallet_storage_entry_metadata(&self, entry: &[u8]) -> (r: Option<&StorageEntryMetadata>)
        ensures
            opt_deref(r) == spec_find_entry(self.entries@, entry@),
    {
        let ghost all = self.entries@;
        let mut i: usize = 0;
        assert(all.skip(0) =~= all);
        while i < self.entries.len()
            invariant
                i <= all.len(),
                all == self.entries@,
                spec_find_entry(all, entry@) == spec_find_entry(all.skip(i as int), entry@),
            decreases all.len() - i,
        {
            proof {
                assert(all.skip(i as int).drop_first() =~= all.skip(i as int + 1));
                assert(all.skip(i as int)[0] == all[i as int]);
            }
            if bytes_eq(self.entries[i].name.as_slice(), entry) {
                return Some(&self.entries[i]);
            }
            i = i + 1;
        }
        Option::None
    }
}

/// What preparing a read yields: the storage key bytes, the base cost, the
/// entry's default and the params when everything up to the pre-read
/// checkpoint passes, or the rejection otherwise.
pub open spec fn spec_prepare_outcome(
    reader: MetaStorageReader,
    input: MetaStorageReaderInput,
    meta: Option<StorageEntryMetadata>,
    gas_limit: Option<u64>,
) -> Result<(Seq<u8>, int, Option<Seq<u8>>, Params), Error> {
    match meta {
        Option::None => Err(Error::EntryNotFound),
        Some(m) => if !spec_compatible(input.key@, m.ty@) {
            Err(Error::KeyShapeMismatch)
        } else {
            let base = spec_meta_base_cost(reader, input.pallet@, input.entry@, input.key@, m.ty@);
            if spec_gas_insufficient(gas_limit, base) {
                Err(Error::BudgetExceeded)
            } else {
                match spec_validate(input.params) {
                    Err(e) => Err(Error::InvalidRange(e)),
                    Ok(_) => Ok(
                        (
                            spec_storage_key(input.pallet@, input.entry@, input.key@, m.ty@),
                            base,
                            spec_default_of(m),
                            input.params,
                        ),
                    ),
                }
            }
        },
    }
}

/// Base cost of a metadata-driven read: the full key-hashing weight plus
/// the fixed per-read cost, saturating.
pub open spec fn spec_meta_base_cost(
    reader: MetaStorageReader,
    pallet: Seq<u8>,
    entry: Seq<u8>,
    k: KeyV,
    s: ShapeV,
) -> int {
    spec_sat_add(
        spec_full_key_weight(pallet, entry, k, s, reader.weights),
        reader.base_read_cost as int,
    )
}

/// What finishing a read yields: the encoded response and the total cost,
/// or the rejection. The default is resolved before the window is applied,
/// and the output cost is charged on the resolved (pre-window) length.
pub open spec fn spec_read_outcome(
    byte_read_cost: u64,
    base_cost: u64,
    default_value: Option<Seq<u8>>,
    read: Result<Option<Seq<u8>>, StoreError>,
    p: Params,
    gas_limit: Option<u64>,
) -> Result<(Seq<u8>, int), Error> {
    match read {
        Err(_) => Err(Error::StoreFailure),
        Ok(raw) => {
            let resolved = spec_resolve(raw, default_value);
            let total = spec_sat_add(
                base_cost as int,
                spec_sat_mul(byte_read_cost as int, spec_value_len(resolved)),
            );
            if spec_gas_insufficient(gas_limit, total) {
                Err(Error::BudgetExceeded)
            } else {
                match spec_apply_params(resolved, p) {
                    Err(e) => Err(Error::InvalidRange(e)),
                    Ok(windowed) => Ok((spec_encode_value(windowed), total)),
                }
            }
        },
    }
}

/// Metering never under-charges: whenever a read completes, the total
/// cost charged at the second checkpoint covers the base cost charged at
/// the first — saturation can cap the total, never wrap it below.
pub proof fn lemma_total_cost_covers_base(
    byte_read_cost: u64,
    base_cost: u64,
    default_value: Option<Seq<u8>>,
    read: Result<Option<Seq<u8>>, StoreError>,
    p: Params,
    gas_limit: Option<u64>,
)
    ensures
        (match spec_read_outcome(byte_read_cost, base_cost, default_value, read, p, gas_limit) {
            Ok((_, total)) => base_cost <= total <= u64::MAX,
            Err(_) => true,
        }),
{
}

/// View of a store read result.
pub open spec fn read_view(read: Result<RawStorageValue, StoreError>) -> Result<
    Option<Seq<u8>>,
    StoreError,
> {
    match read {
        Ok(v) => Ok(v@),
        Err(e) => Err(e),
    }
}

/// Resolves the default, charges the total cost against the budget,
/// windows the value and encodes it. Shared by both readers.
fn finish_read(
    byte_read_cost: u64,
    base_cost: u64,
    default_value: &Option<Vec<u8>>,
    read: Result<RawStorageValue, StoreError>,
    params: &Params,
    gas_limit: Option<u64>,
) -> (r: Result<ReadOutput, Error>)
    ensures
        (match r {
            Ok(out) => spec_read_outcome(
                byte_read_cost,
                base_cost,
                bytes_opt_view(*default_value),
                read_view(read),
                *params,
                gas_limit,
            ) == Ok::<_, Error>((out.output@, out.gas_used as int)),
            Err(e) => spec_read_outcome(
                byte_read_cost,
                base_cost,
                bytes_opt_view(*default_value),
                read_view(read),
                *params,
                gas_limit,
            ) == Err::<(Seq<u8>, int), _>(e),
        }),
{
    let raw = match read {
        Ok(v) => v,
        Err(_) => {
            return Err(Error::StoreFailure);
        },
    };
    let default_copy: Option<Vec<u8>> = match default_value {
        Some(d) => Some(clone_bytes(d)),
        Option::None => Option::None,
    };
    let resolved = raw.or_default(default_copy);
    let total = sat_add(base_cost, sat_mul(byte_read_cost, resolved.len() as u64));
    if let Some(limit) = gas_limit {
        if limit < total {
            return Err(Error::BudgetExceeded);
        }
    }
    let windowed = match resolved.apply_params(params) {
        Ok(v) => v,
        Err(e) => {
            return Err(Error::InvalidRange(e));
        },
    };
    let output = windowed.encode_to_bytes();
    Ok(ReadOutput { output, gas_used: total })
}

/// Reads an entry addressed by namespace and entry name, deriving the
/// storage key from the entry's metadata; absent entries resolve to their
/// declared default.
#[derive(Debug, Clone, Copy, PartialEq, Eq, Structural)]
pub struct MetaStorageReader {
    /// Calibration table for the hash algorithms.
    pub weights: WeightTable,
    /// Fixed cost of one store read.
    pub base_read_cost: u64,
    /// Cost per byte of resolved output.
    pub byte_read_cost: u64,
}

impl MetaStorageReader {
    /// A reader with the given cost configuration.
    pub fn new(weights: WeightTable, base_read_cost: u64, byte_read_cost: u64) -> (r: Self)
        ensures
            r == (MetaStorageReader { weights, base_read_cost, byte_read_cost }),
    {
        MetaStorageReader { weights, base_read_cost, byte_read_cost }
    }

    /// Base cost of a single read: key-derivation weight plus the fixed
    /// per-read cost. Fails exactly when the key does not fit the shape.
    pub fn base_gas_cost(
        &self,
        pallet: &[u8],
        entry: &[u8],
        key: &Key,
        shape: &EntryShape,
    ) -> (r: Result<u64, Error>)
        ensures
            r is Ok <==> spec_compatible(key@, shape@),
            (r matches Ok(c) ==> c == spec_meta_base_cost(*self, pallet@, entry@, key@, shape@)),
            (r matches Err(e) ==> e == Error::KeyShapeMismatch),
    {
        match key.full_hashing_weight(pallet, entry, shape, &self.weights) {
            Some(w) => Ok(sat_add(w, self.base_read_cost)),
            Option::None => Err(Error::KeyShapeMismatch),
        }
    }

    /// Cost of returning `output_len` bytes.
    pub fn output_gas_cost(&self, output_len: usize) -> (r: u64)
        ensures
            r == spec_sat_mul(self.byte_read_cost as int, output_len as int),
    {
        sat_mul(self.byte_read_cost, output_len as u64)
    }

    /// Everything up to the pre-read checkpoint: resolve the metadata,
    /// gate the key against the shape, charge the base cost against the
    /// budget, derive the storage key and validate the params.
    pub fn prepare(
        &self,
        input: &MetaStorageReaderInput,
        meta: Option<&StorageEntryMetadata>,
        gas_limit: Option<u64>,
    ) -> (r: Result<PreparedRead, Error>)
        ensures
            (match r {
                Ok(p) => spec_prepare_outcome(*self, *input, opt_deref(meta), gas_limit)
                    == Ok::<_, Error>(
                    (p.storage_key@, p.base_cost as int, bytes_opt_view(p.default_value), p.params),
                ),
                Err(e) => spec_prepare_outcome(*self, *input, opt_deref(meta), gas_limit)
                    == Err::<(Seq<u8>, int, Option<Seq<u8>>, Params), _>(e),
            }),
    {
        let m = match meta {
            Some(m) => m,
            Option::None => {
                return Err(Error::EntryNotFound);
            },
        };
        let base_cost = match self.base_gas_cost(
            input.pallet.as_slice(),
            input.entry.as_slice(),
            &input.key,
            &m.ty,
        ) {
            Ok(c) => c,
            Err(e) => {
                return Err(e);
            },
        };
        if let Some(limit) = gas_limit {
            if limit < base_cost {
                return Err(Error::BudgetExceeded);
            }
        }
        if let Err(e) = input.params.validate() {
            return Err(Error::InvalidRange(e));
        }
        let storage_key = match input.key.to_pallet_entry_storage_key(
            input.pallet.as_slice(),
            input.entry.as_slice(),
            &m.ty,
        ) {
            Some(k) => k,
            Option::None => {
                // unreachable: the key was already gated against the shape
                return Err(Error::KeyShapeMismatch);
            },
        };
        let default_value: Option<Vec<u8>> = match m.modifier {
            StorageEntryModifier::Default => Some(clone_bytes(&m.default)),
            StorageEntryModifier::Optional => Option::None,
        };
        Ok(PreparedRead { storage_key, base_cost, default_value, params: input.params })
    }

    /// Everything after the store read: resolve the default, charge the
    /// total cost against the budget, window the value and encode it.
    pub fn complete(
        &self,
        prepared: &PreparedRead,
        read: Result<RawStorageValue, StoreError>,
        gas_limit: Option<u64>,
    ) -> (r: Result<ReadOutput, Error>)
        ensures
            (match r {
                Ok(out) => spec_read_outcome(
                    self.byte_read_cost,
                    prepared.base_cost,
                    bytes_opt_view(prepared.default_value),
                    read_view(read),
                    prepared.params,
                    gas_limit,
                ) == Ok::<_, Error>((out.output@, out.gas_used as int)),
                Err(e) => spec_read_outcome(
                    self.byte_read_cost,
                    prepared.base_cost,
                    bytes_opt_view(prepared.default_value),
                    read_view(read),
                    prepared.params,
                    gas_limit,
                ) == Err::<(Seq<u8>, int), _>(e),
            }),
    {
        finish_read(
            self.byte_read_cost,
            prepared.base_cost,
            &prepared.default_value,
            read,
            &prepared.params,
            gas_limit,
        )
    }
}

/// Reads a value by its exact storage key bytes; no metadata, no default.
#[derive(Debug, Clone, Copy, PartialEq, Eq, Structural)]
pub struct RawStorageReader {
    /// Fixed cost of one store read.
    pub base_read_cost: u64,
    /// Cost per byte of output.
    pub byte_read_cost: u64,
}

/// What preparing a raw read yields: the base cost when the budget covers
/// it and the params are valid, or the rejection.
pub open spec fn spec_raw_prepare_outcome(
    reader: RawStorageReader,
    p: Params,
    gas_limit: Option<u64>,
) -> Result<int, Error> {
    if spec_gas_insufficient(gas_limit, reader.base_read_cost as int) {
        Err(Error::BudgetExceeded)
    } else {
        match spec_validate(p) {
            Err(e) => Err(Error::InvalidRange(e)),
            Ok(_) => Ok(reader.base_read_cost as int),
        }
    }
}

impl RawStorageReader {
    /// A reader with the given cost configuration.
    pub fn new(base_read_cost: u64, byte_read_cost: u64) -> (r: Self)
        ensures
            r == (RawStorageReader { base_read_cost, byte_read_cost }),
    {
        RawStorageReader { base_read_cost, byte_read_cost }
    }

    /// Fixed cost of one store read.
    pub fn base_gas_cost(&self) -> (r: u64)
        ensures
            r == self.base_read_cost,
    {
        self.base_read_cost
    }

    /// Cost of returning `output_len` bytes.
    pub fn output_gas_cost(&self, output_len: usize) -> (r: u64)
        ensures
            r == spec_sat_mul(self.byte_read_cost as int, output_len as int),
    {
        sat_mul(self.byte_read_cost, output_len as u64)
    }

    /// The pre-read checkpoint: charge the base cost against the budget
    /// and validate the params; yields the base cost.
    pub fn prepare(&self, input: &RawStorageReaderInput, gas_limit: Option<u64>) -> (r: Result<
        u64,
        Error,
    >)
        ensures
            (match r {
                Ok(c) => spec_raw_prepare_outcome(*self, input.params, gas_limit) == Ok::<
                    _,
                    Error,
                >(c as int),
                Err(e) => spec_raw_prepare_outcome(*self, input.params, gas_limit) == Err::<
                    int,
                    _,
                >(e),
            }),
    {
        if let Some(limit) = gas_limit {
            if limit < self.base_read_cost {
                return Err(Error::BudgetExceeded);
            }
        }
        if let Err(e) = input.params.validate() {
            return Err(Error::InvalidRange(e));
        }
        Ok(self.base_read_cost)
    }

    /// Everything after the store read: charge the total cost against the
    /// budget, window the value and encode it. No default is resolved.
    pub fn complete(
        &self,
        base_cost: u64,
        read: Result<RawStorageValue, StoreError>,
        params: &Params,
        gas_limit: Option<u64>,
    ) -> (r: Result<ReadOutput, Error>)
        ensures
            (match r {
                Ok(out) => spec_read_outcome(
                    self.byte_read_cost,
                    base_cost,
                    Option::None,
                    read_view(read),
                    *params,
                    gas_limit,
                ) == Ok::<_, Error>((out.output@, out.gas_used as int)),
                Err(e) => spec_read_outcome(
                    self.byte_read_cost,
                    base_cost,
                    Option::None,
                    read_view(read),
                    *params,
                    gas_limit,
                ) == Err::<(Seq<u8>, int), _>(e),
            }),
    {
        let no_default: Option<Vec<u8>> = Option::None;
        finish_read(self.byte_read_cost, base_cost, &no_default, read, params, gas_limit)
    }
}

impl MetaStorageReaderInput {
    /// Constructs an input from its parts.
    pub fn new(pallet: Vec<u8>, entry: Vec<u8>, key: Key, params: Params) -> (r: Self)
        ensures
            r == (MetaStorageReaderInput { pallet, entry, key, params }),
    {
        MetaStorageReaderInput { pallet, entry, key, params }
    }

    /// The same input with the key replaced.
    pub fn with_replaced_key(&self, key: Key) -> (r: Self)
        ensures
            r.pallet@ == self.pallet@,
            r.entry@ == self.entry@,
            r.key == key,
            r.params == self.params,
    {
        MetaStorageReaderInput {
            pallet: clone_bytes(&self.pallet),
            entry: clone_bytes(&self.entry),
            key,
            params: self.params,
        }
    }
}

impl RawStorageReaderInput {
    /// Constructs an input from its parts.
    pub fn new(key: Vec<u8>, params: Params) -> (r: Self)
        ensures
            r == (RawStorageReaderInput { key, params }),
    {
        RawStorageReaderInput { key, params }
    }
}

} // verus!
