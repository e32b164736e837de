use parity_scale_codec::{Compact, Decode, Encode};
use storage_reader::key::Key;
use storage_reader::params::Params;
use storage_reader::reader::{Error, MetaStorageReaderInput, RawStorageReaderInput};
use storage_reader::wire::{
    decode_compact_u32, decode_meta_input, decode_raw_input, encode_compact_u32, encode_meta_input,
    encode_raw_input,
};

#[test]
fn compact_encoding_matches_the_reference_codec() {
    let samples: [u32; 12] = [
        0,
        1,
        63,
        64,
        900,
        16383,
        16384,
        0x100000,
        0x3fff_ffff,
        0x4000_0000,
        0xdead_beef,
        u32::MAX,
    ];
    for &v in samples.iter() {
        let mut mine: Vec<u8> = Vec::new();
        encode_compact_u32(v, &mut mine);
        assert_eq!(mine, Compact(v).encode(), "value {}", v);
    }
}

#[test]
fn compact_round_trip() {
    let samples: [u32; 10] = [0, 5, 63, 64, 900, 16383, 16384, 0x3fff_ffff, 0x4000_0000, u32::MAX];
    for &v in samples.iter() {
        let mut encoded: Vec<u8> = Vec::new();
        encode_compact_u32(v, &mut encoded);
        let expected_len = encoded.len();
        encoded.push(0xaa); // trailing byte, must be ignored
        let (decoded, next) = decode_compact_u32(&encoded, 0).unwrap();
        assert_eq!(decoded, v);
        assert_eq!(next, expected_len);
    }
}

#[test]
fn non_minimal_compact_forms_are_rejected() {
    // 5 in two-byte mode: (5 << 2) | 1 little-endian
    let non_minimal = vec![21, 0];
    assert_eq!(decode_compact_u32(&non_minimal, 0), Err(Error::MalformedRequest));
    assert!(Compact::<u32>::decode(&mut &non_minimal[..]).is_err());
    // truncated two-byte form
    assert_eq!(decode_compact_u32(&[1], 0), Err(Error::MalformedRequest));
    // empty input
    assert_eq!(decode_compact_u32(&[], 0), Err(Error::MalformedRequest));
}

#[test]
fn meta_request_encoding_matches_the_documented_bytes() {
    // namespace "TestStorage", entry "MapWithBlake2_128", one key component
    // holding scale(bytes [0..10)), params Offset(10)
    let expected: Vec<u8> = vec![
        44, // length("TestStorage") << 2
        84, 101, 115, 116, 83, 116, 111, 114, 97, 103, 101, // "TestStorage"
        68, // length("MapWithBlake2_128") << 2
        77, 97, 112, 87, 105, 116, 104, 66, 108, 97, 107, 101, 50, 95, 49, 50, 56,
        1,  // one key component follows
        44, // length(component) << 2
        40, 0, 1, 2, 3, 4, 5, 6, 7, 8, 9, // component: scale(bytes [0..10))
        1,  // offset param follows
        40, // offset 10 << 2
    ];
    let component = (0u8..10).collect::<Vec<u8>>().encode();
    let input = MetaStorageReaderInput::new(
        b"TestStorage".to_vec(),
        b"MapWithBlake2_128".to_vec(),
        Key::new_single(component),
        Params::Offset(10),
    );
    assert_eq!(encode_meta_input(&input), expected);

    let decoded = decode_meta_input(&expected).unwrap();
    assert_eq!(decoded, input);
}

#[test]
fn meta_request_round_trip() {
    let inputs = vec![
        MetaStorageReaderInput::new(b"P".to_vec(), b"E".to_vec(), Key::NoKey, Params::Whole),
        MetaStorageReaderInput::new(
            b"TestStorage".to_vec(),
            b"DoubleMap".to_vec(),
            Key::new_double(vec![1, 2], vec![3]),
            Params::OffsetAndLen { offset: 10, len: 50 },
        ),
        MetaStorageReaderInput::new(
            Vec::new(),
            b"Entry".to_vec(),
            Key::new_single(Vec::new()),
            Params::Len(0),
        ),
    ];
    for input in inputs {
        let encoded = encode_meta_input(&input);
        assert_eq!(decode_meta_input(&encoded).unwrap(), input);
        // trailing bytes are ignored
        let mut with_trailing = encoded.clone();
        with_trailing.push(7);
        assert_eq!(decode_meta_input(&with_trailing).unwrap(), input);
    }
}

#[test]
fn raw_request_round_trip() {
    let input = RawStorageReaderInput::new(vec![9, 8, 7, 6], Params::Offset(10));
    let encoded = encode_raw_input(&input);
    // key: scale length + bytes; params: tag 1 + compact(10)
    assert_eq!(encoded, vec![16, 9, 8, 7, 6, 1, 40]);
    assert_eq!(decode_raw_input(&encoded).unwrap(), input);
}

#[test]
fn malformed_requests_are_rejected() {
    // empty input
    assert_eq!(decode_meta_input(&[]), Err(Error::MalformedRequest));
    // namespace length runs past the end
    assert_eq!(decode_meta_input(&[44, 84]), Err(Error::MalformedRequest));
    // key tag announces a component that is not there
    assert_eq!(
        decode_meta_input(&[4, 84, 4, 101, 1]),
        Err(Error::MalformedRequest)
    );
    // params tag out of range
    assert_eq!(
        decode_meta_input(&[4, 84, 4, 101, 0, 9]),
        Err(Error::MalformedRequest)
    );
    // truncated params payload
    assert_eq!(
        decode_meta_input(&[4, 84, 4, 101, 0, 3, 40]),
        Err(Error::MalformedRequest)
    );
    // a well-formed minimal request, for contrast
    let ok = decode_meta_input(&[4, 84, 4, 101, 0, 0]).unwrap();
    assert_eq!(ok.pallet, vec![84]);
    assert_eq!(ok.entry, vec![101]);
    assert_eq!(ok.key, Key::NoKey);
    assert_eq!(ok.params, Params::Whole);
}
