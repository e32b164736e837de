use parity_scale_codec::{Compact, Decode, Encode};
use storage_reader::hashing::StorageHasher;
use storage_reader::key::{EntryShape, Key};
use storage_reader::output::RawStorageValue;
use storage_reader::params::{Params, ParamsError, MAX_BYTES_LEN};
use storage_reader::reader::{
    Error, MetaStorageReader, MetaStorageReaderInput, PalletStorageMetadata, RawStorageReader,
    RawStorageReaderInput, ReadOutput, StorageEntryMetadata, StorageEntryModifier, StoreError,
};
use storage_reader::weights::{HasherWeight, WeightTable};
use storage_reader::wire::{decode_meta_input, decode_raw_input, encode_meta_input, encode_raw_input};

type Store = Vec<(Vec<u8>, Vec<u8>)>;

const BASE_READ_COST: u64 = 25_000_000;
const BYTE_READ_COST: u64 = 10;

fn bytes_from_to(from: usize, to: usize) -> Vec<u8> {
    (from..to).map(|i| i as u8).collect()
}

fn bytes_with_len(len: usize) -> Vec<u8> {
    bytes_from_to(0, len)
}

fn weight_table() -> WeightTable {
    WeightTable {
        blake2_128: HasherWeight { base: 2000, per_byte: 10 },
        blake2_256: HasherWeight { base: 3000, per_byte: 12 },
        blake2_128_concat: HasherWeight { base: 2200, per_byte: 11 },
        twox_128: HasherWeight { base: 1000, per_byte: 5 },
        twox_256: HasherWeight { base: 1500, per_byte: 6 },
        twox_64_concat: HasherWeight { base: 800, per_byte: 4 },
        identity: HasherWeight { base: 100, per_byte: 1 },
    }
}

fn meta_reader() -> MetaStorageReader {
    MetaStorageReader::new(weight_table(), BASE_READ_COST, BYTE_READ_COST)
}

fn raw_reader() -> RawStorageReader {
    RawStorageReader::new(BASE_READ_COST, BYTE_READ_COST)
}

fn entry(
    name: &str,
    modifier: StorageEntryModifier,
    ty: EntryShape,
    default: Vec<u8>,
) -> StorageEntryMetadata {
    StorageEntryMetadata { name: name.as_bytes().to_vec(), modifier, ty, default }
}

fn keyed(hashers: Vec<StorageHasher>) -> EntryShape {
    EntryShape::Keyed(hashers)
}

const MAPS: [(&str, StorageHasher); 7] = [
    ("MapWithBlake2_128", StorageHasher::Blake2_128),
    ("MapWithBlake2_256", StorageHasher::Blake2_256),
    ("MapWithBlake2_128Concat", StorageHasher::Blake2_128Concat),
    ("MapWithTwox128", StorageHasher::Twox128),
    ("MapWithTwox256", StorageHasher::Twox256),
    ("MapWithTwox64Concat", StorageHasher::Twox64Concat),
    ("MapWithIdentity", StorageHasher::Identity),
];

/// The metadata that the external registry would supply for the test
/// namespace: plain entries with and without defaults, one map per hash
/// algorithm, and two double maps.
fn test_metadata() -> PalletStorageMetadata {
    let mut entries = vec![
        entry("Single", StorageEntryModifier::Optional, EntryShape::Plain, Vec::new()),
        entry(
            "SingleDefault",
            StorageEntryModifier::Default,
            EntryShape::Plain,
            bytes_with_len(100).encode(),
        ),
        entry(
            "LargeSingleDefault",
            StorageEntryModifier::Default,
            EntryShape::Plain,
            bytes_with_len(1_000_000).encode(),
        ),
        entry(
            "MapDefault",
            StorageEntryModifier::Default,
            keyed(vec![StorageHasher::Blake2_128]),
            bytes_with_len(100).encode(),
        ),
        entry(
            "DoubleMap",
            StorageEntryModifier::Optional,
            keyed(vec![StorageHasher::Blake2_128, StorageHasher::Blake2_128]),
            Vec::new(),
        ),
        entry(
            "DoubleMapDefault",
            StorageEntryModifier::Default,
            keyed(vec![StorageHasher::Blake2_128, StorageHasher::Blake2_128]),
            bytes_with_len(100).encode(),
        ),
    ];
    for (name, hasher) in MAPS.iter() {
        entries.push(entry(name, StorageEntryModifier::Optional, keyed(vec![*hasher]), Vec::new()));
    }
    PalletStorageMetadata { entries }
}

fn store_get(store: &Store, key: &[u8]) -> Option<Vec<u8>> {
    store.iter().find(|(k, _)| k == key).map(|(_, v)| v.clone())
}

/// Inserts a value into the in-memory store under the storage key that the
/// backend would use for the given entry and key components.
fn store_insert(store: &mut Store, entry_name: &str, components: Vec<Vec<u8>>, value: Vec<u8>) {
    let metadata = test_metadata();
    let meta = metadata.pallet_storage_entry_metadata(entry_name.as_bytes()).unwrap();
    let key = if components.is_empty() { Key::NoKey } else { Key::MapKey(components) };
    let storage_key = key
        .to_pallet_entry_storage_key(b"TestStorage", entry_name.as_bytes(), &meta.ty)
        .unwrap();
    store.push((storage_key, value));
}

/// Runs the whole metadata-reader pipeline the way the host driver would:
/// encode the request, decode it, look the metadata up, prepare, read the
/// in-memory store, and complete.
fn execute_meta(
    store: &Store,
    input: &MetaStorageReaderInput,
    gas_limit: Option<u64>,
) -> Result<ReadOutput, Error> {
    let wire = encode_meta_input(input);
    let decoded = decode_meta_input(&wire)?;
    let metadata = test_metadata();
    let entry_meta = if decoded.pallet == b"TestStorage".to_vec() {
        metadata.pallet_storage_entry_metadata(&decoded.entry)
    } else {
        None
    };
    let reader = meta_reader();
    let prepared = reader.prepare(&decoded, entry_meta, gas_limit)?;
    let read = RawStorageValue::from_option(store_get(store, &prepared.storage_key));
    reader.complete(&prepared, Ok(read), gas_limit)
}

/// Runs the raw-reader pipeline the same way.
fn execute_raw(
    store: &Store,
    input: &RawStorageReaderInput,
    gas_limit: Option<u64>,
) -> Result<ReadOutput, Error> {
    let wire = encode_raw_input(input);
    let decoded = decode_raw_input(&wire)?;
    let reader = raw_reader();
    let base_cost = reader.prepare(&decoded, gas_limit)?;
    let read = RawStorageValue::from_option(store_get(store, &decoded.key));
    reader.complete(base_cost, Ok(read), &decoded.params, gas_limit)
}

fn meta_input(entry_name: &str, key: Key, params: Params) -> MetaStorageReaderInput {
    MetaStorageReaderInput::new(
        b"TestStorage".to_vec(),
        entry_name.as_bytes().to_vec(),
        key,
        params,
    )
}

/// The decoded payload of a present response, or nothing for an absent one.
fn decoded_item(out: &ReadOutput) -> Option<Vec<u8>> {
    match RawStorageValue::decode_from_bytes(&out.output) {
        RawStorageValue::Present(bytes) => Some(bytes),
        RawStorageValue::Absent => None,
    }
}

/// Like `decoded_item`, but also strips the scale length prefix that the
/// stored values in these tests carry.
fn decoded_value(out: &ReadOutput) -> Option<Vec<u8>> {
    decoded_item(out).map(|bytes| <Vec<u8>>::decode(&mut &bytes[..]).unwrap())
}

const GAS: Option<u64> = Some(30_000_000);

#[test]
fn tests_invalid_input() {
    let store: Store = Vec::new();
    let input = MetaStorageReaderInput::new(
        b"Pallet".to_vec(),
        b"Version".to_vec(),
        Key::NoKey,
        Params::Whole,
    );
    assert_eq!(execute_meta(&store, &input, GAS), Err(Error::EntryNotFound));

    let input = meta_input("Abcde", Key::NoKey, Params::Whole);
    assert_eq!(execute_meta(&store, &input, GAS), Err(Error::EntryNotFound));

    let input = meta_input("MapDefault", Key::NoKey, Params::Whole);
    assert_eq!(execute_meta(&store, &input, GAS), Err(Error::KeyShapeMismatch));

    let input = meta_input(
        "DoubleMap",
        Key::new_single(bytes_with_len(100).encode()),
        Params::Whole,
    );
    assert_eq!(execute_meta(&store, &input, GAS), Err(Error::KeyShapeMismatch));
}

#[test]
fn tests_entity_access() {
    let mut store: Store = Vec::new();
    let input = meta_input("SingleDefault", Key::NoKey, Params::Whole);
    let out = execute_meta(&store, &input, GAS).unwrap();
    assert_eq!(decoded_value(&out), Some(bytes_with_len(100)));

    let input = meta_input("Single", Key::NoKey, Params::Whole);
    let out = execute_meta(&store, &input, GAS).unwrap();
    assert_eq!(decoded_value(&out), None);

    store_insert(&mut store, "Single", Vec::new(), bytes_with_len(123).encode());
    let out = execute_meta(&store, &input, GAS).unwrap();
    assert_eq!(decoded_value(&out), Some(bytes_with_len(123)));
}

#[test]
fn tests_large_entity_access() {
    let mut store: Store = Vec::new();
    let input = meta_input("LargeSingleDefault", Key::NoKey, Params::Whole);
    assert_eq!(
        execute_meta(&store, &input, Some(30_000_000)),
        Err(Error::BudgetExceeded)
    );

    let out = execute_meta(&store, &input, Some(100_000_000)).unwrap();
    assert_eq!(decoded_value(&out), Some(bytes_with_len(1_000_000)));

    store_insert(
        &mut store,
        "LargeSingleDefault",
        Vec::new(),
        bytes_with_len(700).encode(),
    );
    let out = execute_meta(&store, &input, Some(100_000_000)).unwrap();
    assert_eq!(decoded_value(&out), Some(bytes_with_len(700)));
}

#[test]
fn tests_map_access() {
    for (name, _hasher) in MAPS.iter() {
        let mut store: Store = Vec::new();
        store_insert(
            &mut store,
            name,
            vec![bytes_with_len(10).encode()],
            bytes_from_to(100, 1000).encode(),
        );
        store_insert(
            &mut store,
            name,
            vec![name.as_bytes().to_vec().encode()],
            name.as_bytes().to_vec().encode(),
        );

        let input = meta_input(
            name,
            Key::new_single(bytes_with_len(10).encode()),
            Params::Whole,
        );
        let out = execute_meta(&store, &input, GAS).unwrap();
        assert_eq!(decoded_value(&out), Some(bytes_from_to(100, 1000)));

        let replaced = input.with_replaced_key(Key::new_single(name.as_bytes().to_vec().encode()));
        let out = execute_meta(&store, &replaced, GAS).unwrap();
        assert_eq!(decoded_value(&out), Some(name.as_bytes().to_vec()));

        let non_existent_key = bytes_with_len(11);
        let missing = input.with_replaced_key(Key::new_single(non_existent_key.encode()));
        let out = execute_meta(&store, &missing, GAS).unwrap();
        assert_eq!(decoded_value(&out), None);
    }
}

#[test]
fn tests_map_access_with_params() {
    for (name, _hasher) in MAPS.iter() {
        let mut store: Store = Vec::new();
        store_insert(
            &mut store,
            name,
            vec![bytes_with_len(10).encode()],
            bytes_from_to(100, 1000).encode(),
        );

        let input = meta_input(
            name,
            Key::new_single(bytes_with_len(10).encode()),
            Params::Len(4),
        );
        let out = execute_meta(&store, &input, GAS).unwrap();
        let payload = decoded_item(&out).unwrap();
        assert_eq!(payload.len(), 4);
        let mut cursor = &payload[..];
        assert_eq!(Compact::<u32>::decode(&mut cursor).unwrap().0, 900);

        let input = meta_input(
            name,
            Key::new_single(bytes_with_len(10).encode()),
            Params::Offset(10),
        );
        let out = execute_meta(&store, &input, GAS).unwrap();
        assert_eq!(decoded_item(&out), Some(bytes_from_to(108, 1000)));

        let input = meta_input(
            name,
            Key::new_single(bytes_with_len(10).encode()),
            Params::OffsetAndLen { offset: 10, len: 50 },
        );
        let out = execute_meta(&store, &input, GAS).unwrap();
        assert_eq!(decoded_item(&out), Some(bytes_from_to(108, 158)));
    }
}

#[test]
fn tests_double_map_access() {
    let mut store: Store = Vec::new();
    store_insert(
        &mut store,
        "DoubleMap",
        vec![bytes_with_len(10).encode(), bytes_with_len(20).encode()],
        bytes_with_len(30).encode(),
    );

    let input = meta_input(
        "DoubleMap",
        Key::new_double(bytes_with_len(10).encode(), bytes_with_len(20).encode()),
        Params::Whole,
    );
    let out = execute_meta(&store, &input, GAS).unwrap();
    assert_eq!(decoded_value(&out), Some(bytes_with_len(30)));

    let non_existent_key = bytes_with_len(11);
    let missing = input.with_replaced_key(Key::new_double(
        non_existent_key.encode(),
        bytes_with_len(20).encode(),
    ));
    let out = execute_meta(&store, &missing, GAS).unwrap();
    assert_eq!(decoded_value(&out), None);

    let non_existent_second_key = bytes_with_len(21);
    let missing = input.with_replaced_key(Key::new_double(
        bytes_with_len(10).encode(),
        non_existent_second_key.encode(),
    ));
    let out = execute_meta(&store, &missing, GAS).unwrap();
    assert_eq!(decoded_value(&out), None);

    let input = meta_input(
        "DoubleMapDefault",
        Key::new_double(bytes_with_len(10).encode(), bytes_with_len(20).encode()),
        Params::Whole,
    );
    let out = execute_meta(&store, &input, GAS).unwrap();
    assert_eq!(decoded_value(&out), Some(bytes_with_len(100)));
}

#[test]
fn double_map_access_with_params() {
    let mut store: Store = Vec::new();
    store_insert(
        &mut store,
        "DoubleMap",
        vec![bytes_with_len(10).encode(), bytes_with_len(11).encode()],
        bytes_from_to(100, 1000).encode(),
    );
    let key = Key::new_double(bytes_with_len(10).encode(), bytes_with_len(11).encode());

    let input = meta_input("DoubleMap", key.clone(), Params::Offset(10));
    let out = execute_meta(&store, &input, GAS).unwrap();
    assert_eq!(decoded_item(&out), Some(bytes_from_to(108, 1000)));

    let input = meta_input("DoubleMap", key.clone(), Params::OffsetAndLen { offset: 10, len: 10 });
    let out = execute_meta(&store, &input, GAS).unwrap();
    assert_eq!(decoded_item(&out), Some(bytes_from_to(108, 118)));

    let input = meta_input("DoubleMap", key, Params::Len(2));
    let out = execute_meta(&store, &input, GAS).unwrap();
    assert_eq!(decoded_item(&out), Some(Compact(900u32).encode()));
}

#[test]
fn costs() {
    let store: Store = Vec::new();
    let reader = meta_reader();
    let metadata = test_metadata();
    let entry_meta = metadata.pallet_storage_entry_metadata(b"SingleDefault").unwrap();

    let input = meta_input("SingleDefault", Key::NoKey, Params::Whole);
    let out = execute_meta(&store, &input, GAS).unwrap();
    let base = reader
        .base_gas_cost(b"TestStorage", b"SingleDefault", &Key::NoKey, &entry_meta.ty)
        .unwrap();
    assert_eq!(out.gas_used, base + reader.output_gas_cost(out.output.len() - 1));
    assert!(out.gas_used > raw_reader().base_gas_cost());

    let input = meta_input("SingleDefault", Key::NoKey, Params::Len(100));
    let out = execute_meta(&store, &input, GAS).unwrap();
    // the output cost is charged on the resolved (pre-window) length: the
    // 102-byte scale encoding of the 100-byte default
    assert_eq!(out.gas_used, base + reader.output_gas_cost(102));
}

#[test]
fn mod_invalid_input() {
    let store: Store = Vec::new();
    let input = MetaStorageReaderInput::new(
        b"Pallet".to_vec(),
        b"Version".to_vec(),
        Key::NoKey,
        Params::Whole,
    );
    assert_eq!(execute_meta(&store, &input, None), Err(Error::EntryNotFound));

    let input = meta_input("Abcde", Key::NoKey, Params::Whole);
    assert_eq!(execute_meta(&store, &input, None), Err(Error::EntryNotFound));

    let input = meta_input("MapDefault", Key::NoKey, Params::Whole);
    assert_eq!(execute_meta(&store, &input, None), Err(Error::KeyShapeMismatch));

    let input = meta_input(
        "DoubleMap",
        Key::new_single(bytes_with_len(100).encode()),
        Params::Whole,
    );
    assert_eq!(execute_meta(&store, &input, None), Err(Error::KeyShapeMismatch));
}

#[test]
fn mod_entity_access() {
    let store: Store = Vec::new();
    let input = meta_input("SingleDefault", Key::NoKey, Params::Whole);
    let out = execute_meta(&store, &input, None).unwrap();
    assert_eq!(decoded_value(&out), Some(bytes_with_len(100)));
}

#[test]
fn mod_large_entity_access() {
    let mut store: Store = Vec::new();
    let input = meta_input("LargeSingleDefault", Key::NoKey, Params::Whole);
    let out = execute_meta(&store, &input, None).unwrap();
    assert_eq!(decoded_value(&out), Some(bytes_with_len(1_000_000)));

    store_insert(
        &mut store,
        "LargeSingleDefault",
        Vec::new(),
        bytes_with_len(1_000_000).encode(),
    );
    let out = execute_meta(&store, &input, None).unwrap();
    assert_eq!(decoded_value(&out), Some(bytes_with_len(1_000_000)));
}

#[test]
fn mod_map_access() {
    for (name, _hasher) in MAPS.iter() {
        let mut store: Store = Vec::new();
        store_insert(
            &mut store,
            name,
            vec![bytes_with_len(10).encode()],
            bytes_from_to(100, 1000).encode(),
        );
        store_insert(
            &mut store,
            name,
            vec![name.as_bytes().to_vec().encode()],
            name.as_bytes().to_vec().encode(),
        );

        let input = meta_input(
            name,
            Key::new_single(bytes_with_len(10).encode()),
            Params::Whole,
        );
        let out = execute_meta(&store, &input, None).unwrap();
        assert_eq!(decoded_value(&out), Some(bytes_from_to(100, 1000)));

        let replaced = input.with_replaced_key(Key::new_single(name.as_bytes().to_vec().encode()));
        let out = execute_meta(&store, &replaced, None).unwrap();
        assert_eq!(decoded_value(&out), Some(name.as_bytes().to_vec()));

        // absent with no declared default: the result is absent
        let non_existent_key = bytes_with_len(11);
        let missing = input.with_replaced_key(Key::new_single(non_existent_key.encode()));
        let out = execute_meta(&store, &missing, None).unwrap();
        assert_eq!(decoded_value(&out), None);
    }
}

#[test]
fn mod_map_access_with_params() {
    for (name, _hasher) in MAPS.iter() {
        let mut store: Store = Vec::new();
        store_insert(
            &mut store,
            name,
            vec![bytes_with_len(10).encode()],
            bytes_from_to(100, 1000).encode(),
        );

        let input = meta_input(
            name,
            Key::new_single(bytes_with_len(10).encode()),
            Params::Len(4),
        );
        let out = execute_meta(&store, &input, None).unwrap();
        let payload = decoded_item(&out).unwrap();
        let mut cursor = &payload[..];
        assert_eq!(Compact::<u32>::decode(&mut cursor).unwrap().0, 900);

        let input = meta_input(
            name,
            Key::new_single(bytes_with_len(10).encode()),
            Params::Offset(10),
        );
        let out = execute_meta(&store, &input, None).unwrap();
        assert_eq!(decoded_item(&out), Some(bytes_from_to(108, 1000)));

        let input = meta_input(
            name,
            Key::new_single(bytes_with_len(10).encode()),
            Params::OffsetAndLen { offset: 10, len: 50 },
        );
        let out = execute_meta(&store, &input, None).unwrap();
        assert_eq!(decoded_item(&out), Some(bytes_from_to(108, 158)));
    }
}

#[test]
fn mod_double_map_access() {
    let mut store: Store = Vec::new();
    store_insert(
        &mut store,
        "DoubleMap",
        vec![bytes_with_len(10).encode(), bytes_with_len(20).encode()],
        bytes_with_len(30).encode(),
    );

    let input = meta_input(
        "DoubleMap",
        Key::new_double(bytes_with_len(10).encode(), bytes_with_len(20).encode()),
        Params::Whole,
    );
    let out = execute_meta(&store, &input, None).unwrap();
    assert_eq!(decoded_value(&out), Some(bytes_with_len(30)));

    // absent under either component, with no declared default: absent
    let non_existent_key = bytes_with_len(11);
    let missing = input.with_replaced_key(Key::new_double(
        non_existent_key.encode(),
        bytes_with_len(20).encode(),
    ));
    let out = execute_meta(&store, &missing, None).unwrap();
    assert_eq!(decoded_value(&out), None);

    let non_existent_second_key = bytes_with_len(21);
    let missing = input.with_replaced_key(Key::new_double(
        bytes_with_len(10).encode(),
        non_existent_second_key.encode(),
    ));
    let out = execute_meta(&store, &missing, None).unwrap();
    assert_eq!(decoded_value(&out), None);
}

/// The exact backend key of MapWithBlake2_128 under scale(bytes [0..10)).
const RAW_KEY: [u8; 48] = [
    67, 72, 185, 244, 78, 99, 49, 57, 216, 168, 24, 127, 78, 234, 212, 96, 213, 134, 173, 83, 23,
    191, 182, 238, 194, 232, 224, 37, 134, 115, 248, 8, 199, 181, 78, 40, 234, 211, 141, 15, 124,
    148, 20, 131, 114, 161, 6, 42,
];

fn raw_gas() -> Option<u64> {
    Some(raw_reader().base_gas_cost() + 5_000)
}

#[test]
fn raw_access() {
    let mut store: Store = Vec::new();
    store_insert(
        &mut store,
        "MapWithBlake2_128",
        vec![bytes_with_len(10).encode()],
        bytes_with_len(100).encode(),
    );

    let input = RawStorageReaderInput::new(RAW_KEY.to_vec(), Params::Whole);
    let out = execute_raw(&store, &input, raw_gas()).unwrap();
    assert_eq!(out.output[0], 1);
    assert_eq!(
        <Vec<u8>>::decode(&mut &out.output[1..]).unwrap(),
        bytes_with_len(100)
    );

    let non_existent_key = vec![1, 2, 3];
    let input = RawStorageReaderInput::new(non_existent_key, Params::Whole);
    let out = execute_raw(&store, &input, raw_gas()).unwrap();
    assert_eq!(out.output, vec![0]);
}

#[test]
fn raw_access_with_params() {
    let mut store: Store = Vec::new();
    store_insert(
        &mut store,
        "MapWithBlake2_128",
        vec![bytes_with_len(10).encode()],
        bytes_with_len(100).encode(),
    );

    let input = RawStorageReaderInput::new(RAW_KEY.to_vec(), Params::Offset(10));
    let out = execute_raw(&store, &input, raw_gas()).unwrap();
    assert_eq!(out.output[0], 1);
    assert_eq!(out.output[1..].to_vec(), bytes_from_to(8, 100));

    let input = RawStorageReaderInput::new(RAW_KEY.to_vec(), Params::Len(10));
    let out = execute_raw(&store, &input, raw_gas()).unwrap();
    assert_eq!(out.output[0], 1);
    assert_eq!(
        out.output[1..].to_vec(),
        [&[145, 1][..], &bytes_from_to(0, 8)[..]].concat()
    );

    let input = RawStorageReaderInput::new(
        RAW_KEY.to_vec(),
        Params::OffsetAndLen { offset: 10, len: 10 },
    );
    let out = execute_raw(&store, &input, raw_gas()).unwrap();
    assert_eq!(out.output[0], 1);
    assert_eq!(out.output[1..].to_vec(), bytes_from_to(8, 18));
}

#[test]
fn cost() {
    let mut store: Store = Vec::new();
    store_insert(
        &mut store,
        "MapWithBlake2_128",
        vec![bytes_with_len(10).encode()],
        bytes_with_len(100).encode(),
    );
    let reader = raw_reader();

    let input = RawStorageReaderInput::new(RAW_KEY.to_vec(), Params::Whole);
    let out = execute_raw(&store, &input, raw_gas()).unwrap();
    assert_eq!(
        out.gas_used,
        reader.base_gas_cost() + reader.output_gas_cost(out.output.len() - 1)
    );

    let invalid_cost = Some(reader.base_gas_cost());
    assert_eq!(
        execute_raw(&store, &input, invalid_cost),
        Err(Error::BudgetExceeded)
    );
}

#[test]
fn plain_default_resolves_when_absent() {
    // a plain entry with a declared default of the 100 sequential bytes
    // [0..100) and nothing stored resolves to exactly those bytes
    let metadata = PalletStorageMetadata {
        entries: vec![entry(
            "SingleDefault",
            StorageEntryModifier::Default,
            EntryShape::Plain,
            bytes_with_len(100),
        )],
    };
    let reader = meta_reader();
    let input = meta_input("SingleDefault", Key::NoKey, Params::Whole);
    let entry_meta = metadata.pallet_storage_entry_metadata(b"SingleDefault");
    let prepared = reader.prepare(&input, entry_meta, None).unwrap();
    let out = reader
        .complete(&prepared, Ok(RawStorageValue::Absent), None)
        .unwrap();
    assert_eq!(decoded_item(&out), Some(bytes_with_len(100)));
}

#[test]
fn keyed_window_returns_compact_length_prefix() {
    // a 900-byte value stored under a concat-hashed key, read back with
    // Len(4): the window holds the scale length prefix (compact 900, two
    // bytes) and the first two value bytes, not the first four value bytes
    let mut store: Store = Vec::new();
    store_insert(
        &mut store,
        "MapWithBlake2_128Concat",
        vec![bytes_with_len(10).encode()],
        bytes_from_to(100, 1000).encode(),
    );
    let input = meta_input(
        "MapWithBlake2_128Concat",
        Key::new_single(bytes_with_len(10).encode()),
        Params::Len(4),
    );
    let out = execute_meta(&store, &input, GAS).unwrap();
    let payload = decoded_item(&out).unwrap();
    assert_eq!(payload, [&Compact(900u32).encode()[..], &[100, 101][..]].concat());
}

#[test]
fn keyed_absent_without_default_stays_absent() {
    let mut store: Store = Vec::new();
    store_insert(
        &mut store,
        "MapWithBlake2_128Concat",
        vec![bytes_with_len(10).encode()],
        bytes_from_to(100, 1000).encode(),
    );
    let input = meta_input(
        "MapWithBlake2_128Concat",
        Key::new_single(bytes_with_len(9).encode()),
        Params::Whole,
    );
    let out = execute_meta(&store, &input, GAS).unwrap();
    assert_eq!(out.output, vec![0]);
}

#[test]
fn two_components_against_one_algorithm_are_rejected() {
    // independent of whether the entry holds data
    let mut store: Store = Vec::new();
    store_insert(
        &mut store,
        "MapWithBlake2_128",
        vec![bytes_with_len(10).encode()],
        bytes_with_len(100).encode(),
    );
    let input = meta_input(
        "MapWithBlake2_128",
        Key::new_double(bytes_with_len(10).encode(), bytes_with_len(20).encode()),
        Params::Whole,
    );
    assert_eq!(execute_meta(&store, &input, GAS), Err(Error::KeyShapeMismatch));
    let empty: Store = Vec::new();
    assert_eq!(execute_meta(&empty, &input, GAS), Err(Error::KeyShapeMismatch));
}

#[test]
fn over_long_range_requests_are_rejected_before_the_read() {
    let store: Store = Vec::new();
    let input = meta_input("SingleDefault", Key::NoKey, Params::Len(MAX_BYTES_LEN + 1));
    assert_eq!(
        execute_meta(&store, &input, GAS),
        Err(Error::InvalidRange(ParamsError::LengthExceedsLimit))
    );
}

#[test]
fn store_failures_propagate() {
    let reader = meta_reader();
    let metadata = test_metadata();
    let input = meta_input("SingleDefault", Key::NoKey, Params::Whole);
    let entry_meta = metadata.pallet_storage_entry_metadata(b"SingleDefault");
    let prepared = reader.prepare(&input, entry_meta, None).unwrap();
    assert_eq!(
        reader.complete(&prepared, Err(StoreError), None),
        Err(Error::StoreFailure)
    );
}
