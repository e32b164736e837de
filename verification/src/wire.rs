//! The request envelope wire format: variable-length ("compact") integers,
//! length-prefixed byte strings, the key and params tags, and the decoders
//! for both readers' request envelopes.

use vstd::prelude::*;

use crate::key::{Key, KeyV};
use crate::output::copy_range;
use crate::params::Params;
use crate::reader::{Error, MetaStorageReaderInput, RawStorageReaderInput};
use vstd::arithmetic::div_mod::{
    lemma_div_denominator, lemma_fundamental_div_mod, lemma_fundamental_div_mod_converse,
    lemma_mod_mod, lemma_mod_multiples_vanish, lemma_small_mod,
};

verus! {

/// The compact encoding of an integer: the two low bits of the first byte
/// select the width (one, two or four bytes holding `v * 4 + mode` in
/// little-endian order, or a marker byte followed by four plain
/// little-endian bytes), and each value has exactly one, minimal, form.
pub open spec fn spec_compact(v: u32) -> Seq<u8> {
    if v < 64 {
        seq![(v * 4) as u8]
    } else if v < 16384 {
        let n = v * 4 + 1;
        seq![(n % 256) as u8, (n / 256) as u8]
    } else if v < 0x4000_0000 {
        let n = v * 4 + 2;
        seq![
            (n % 256) as u8,
            ((n / 256) % 256) as u8,
            ((n / 65536) % 256) as u8,
            ((n / 16777216) % 256) as u8,
        ]
    } else {
        seq![
            3u8,
            (v % 256) as u8,
            ((v / 256) % 256) as u8,
            ((v / 65536) % 256) as u8,
            ((v / 16777216) % 256) as u8,
        ]
    }
}

/// What decoding a compact integer at position `from` yields: the value
/// and the position after it, or nothing when the bytes there are not the
/// canonical encoding of any value.
pub open spec fn spec_decode_compact(bytes: Seq<u8>, from: int) -> Option<(u32, int)> {
    if from < 0 || from >= bytes.len() {
        Option::None
    } else {
        let b0 = bytes[from] as int;
        let mode = b0 % 4;
        if mode == 0 {
            Some(((b0 / 4) as u32, from + 1))
        } else if mode == 1 {
            if from + 2 > bytes.len() {
                Option::None
            } else {
                let n = b0 + (bytes[from + 1] as int) * 256;
                let v = n / 4;
                if v >= 64 {
                    Some((v as u32, from + 2))
                } else {
                    Option::None
                }
            }
        } else if mode == 2 {
            if from + 4 > bytes.len() {
                Option::None
            } else {
                let n = b0 + (bytes[from + 1] as int) * 256 + (bytes[from + 2] as int) * 65536 + (
                bytes[from + 3] as int) * 16777216;
                let v = n / 4;
                if v >= 16384 {
                    Some((v as u32, from + 4))
                } else {
                    Option::None
                }
            }
        } else {
            if b0 != 3 || from + 5 > bytes.len() {
                Option::None
            } else {
                let v = (bytes[from + 1] as int) + (bytes[from + 2] as int) * 256 + (bytes[from
                    + 3] as int) * 65536 + (bytes[from + 4] as int) * 16777216;
                if v >= 0x4000_0000 {
                    Some((v as u32, from + 5))
                } else {
                    Option::None
                }
            }
        }
    }
}

/// Appends the compact encoding of `v`.
pub fn encode_compact_u32(v: u32, out: &mut Vec<u8>)
    ensures
        final(out)@ == old(out)@ + spec_compact(v),
{
    if v < 64 {
        out.push((v * 4) as u8);
        assert(out@ =~= old(out)@ + spec_compact(v));
    } else if v < 16384 {
        let n = v * 4 + 1;
        out.push((n % 256) as u8);
        out.push((n / 256) as u8);
        assert(out@ =~= old(out)@ + spec_compact(v));
    } else if v < 0x4000_0000 {
        let n = v * 4 + 2;
        out.push((n % 256) as u8);
        out.push(((n / 256) % 256) as u8);
        out.push(((n / 65536) % 256) as u8);
        out.push(((n / 16777216) % 256) as u8);
        assert(out@ =~= old(out)@ + spec_compact(v));
    } else {
        out.push(3u8);
        out.push((v % 256) as u8);
        out.push(((v / 256) % 256) as u8);
        out.push(((v / 65536) % 256) as u8);
        out.push(((v / 16777216) % 256) as u8);
        assert(out@ =~= old(out)@ + spec_compact(v));
    }
}

/// Decodes a compact integer at position `from`.
pub fn decode_compact_u32(bytes: &[u8], from: usize) -> (r: Result<(u32, usize), Error>)
    ensures
        (match r {
            Ok((v, next)) => spec_decode_compact(bytes@, from as int) == Some((v, next as int))
                && from < next <= bytes@.len(),
            Err(e) => spec_decode_compact(bytes@, from as int) is None
                && e == Error::MalformedRequest,
        }),
{
    if from >= bytes.len() {
        return Err(Error::MalformedRequest);
    }
    let b0 = bytes[from];
    let mode = b0 % 4;
    if mode == 0 {
        Ok(((b0 / 4) as u32, from + 1))
    } else if mode == 1 {
        if bytes.len() - from < 2 {
            return Err(Error::MalformedRequest);
        }
        let n = b0 as u32 + (bytes[from + 1] as u32) * 256;
        let v = n / 4;
        if v >= 64 {
            Ok((v, from + 2))
        } else {
            Err(Error::MalformedRequest)
        }
    } else if mode == 2 {
        if bytes.len() - from < 4 {
            return Err(Error::MalformedRequest);
        }
        let n = b0 as u32 + (bytes[from + 1] as u32) * 256 + (bytes[from + 2] as u32) * 65536 + (
        bytes[from + 3] as u32) * 16777216;
        let v = n / 4;
        if v >= 16384 {
            Ok((v, from + 4))
        } else {
            Err(Error::MalformedRequest)
        }
    } else {
        if b0 != 3 || bytes.len() - from < 5 {
            return Err(Error::MalformedRequest);
        }
        let v = bytes[from + 1] as u32 + (bytes[from + 2] as u32) * 256 + (bytes[from + 3] as u32)
            * 65536 + (bytes[from + 4] as u32) * 16777216;
        if v >= 0x4000_0000 {
            Ok((v, from + 5))
        } else {
            Err(Error::MalformedRequest)
        }
    }
}

/// Round trip: decoding right where an encoding was placed gives the
/// value back, whatever stands before and after the encoding.
pub proof fn lemma_compact_round_trip(prefix: Seq<u8>, v: u32, rest: Seq<u8>)
    ensures
        spec_decode_compact(prefix + spec_compact(v) + rest, prefix.len() as int) == Some(
            (v, (prefix.len() + spec_compact(v).len()) as int),
        ),
{
    let all = prefix + spec_compact(v) + rest;
    let from = prefix.len() as int;
    if v < 64 {
        assert(all[from] == (v * 4) as u8);
    } else if v < 16384 {
        let n = v * 4 + 1;
        assert(all[from] == (n % 256) as u8 && all[from + 1] == (n / 256) as u8);
        lemma_mod_mod(n, 4, 64);
        lemma_mod_multiples_vanish(v as int, 1, 4);
        assert(n % 4 == 1);
        assert((n % 256) + (n / 256) * 256 == n) by (nonlinear_arith);
        assert(n / 4 == v as int) by (nonlinear_arith)
            requires
                n == v * 4 + 1,
        ;
    } else if v < 0x4000_0000 {
        let n = v * 4 + 2;
        assert(all[from] == (n % 256) as u8 && all[from + 1] == ((n / 256) % 256) as u8 && all[from
            + 2] == ((n / 65536) % 256) as u8 && all[from + 3] == ((n / 16777216) % 256) as u8);
        lemma_mod_mod(n, 4, 64);
        lemma_mod_multiples_vanish(v as int, 2, 4);
        assert(n % 4 == 2);
        assert(n % 256 + ((n / 256) % 256) * 256 + ((n / 65536) % 256) * 65536 + ((n / 16777216)
            % 256) * 16777216 == n) by (nonlinear_arith)
            requires
                0 <= n < 0x1_0000_0000,
        ;
        assert(n / 4 == v as int) by (nonlinear_arith)
            requires
                n == v * 4 + 2,
        ;
    } else {
        assert(all[from] == 3u8 && all[from + 1] == (v % 256) as u8 && all[from + 2] == ((v / 256)
            % 256) as u8 && all[from + 3] == ((v / 65536) % 256) as u8 && all[from + 4] == ((v
            / 16777216) % 256) as u8);
        assert(v % 256 + ((v / 256) % 256) * 256 + ((v / 65536) % 256) * 65536 + ((v / 16777216)
            % 256) * 16777216 == v as int) by (nonlinear_arith)
            requires
                0 <= v < 0x1_0000_0000,
        ;
    }
}

/// A length-prefixed byte string: the compact length, then the bytes.
pub open spec fn spec_encode_bytes(b: Seq<u8>) -> Seq<u8>
    recommends
        b.len() <= u32::MAX,
{
    spec_compact(b.len() as u32) + b
}

/// What decoding a length-prefixed byte string at `from` yields: the bytes
/// and the position after them.
pub open spec fn spec_decode_bytes(bytes: Seq<u8>, from: int) -> Option<(Seq<u8>, int)> {
    match spec_decode_compact(bytes, from) {
        Option::None => Option::None,
        Some((l, next)) => if next + l <= bytes.len() {
            Some((bytes.subrange(next, next + l), next + l))
        } else {
            Option::None
        },
    }
}

/// The concatenated encodings of the key components from position `i` on.
pub open spec fn spec_encode_components(components: Seq<Seq<u8>>, i: int) -> Seq<u8>
    decreases components.len() - i,
{
    if i < 0 || i >= components.len() {
        Seq::empty()
    } else {
        spec_encode_bytes(components[i]) + spec_encode_components(components, i + 1)
    }
}

/// Keys the wire format can carry: a `MapKey` needs its component count in
/// one byte (and a count of zero would read back as `NoKey`), and each
/// component's length in a compact integer.
pub open spec fn spec_key_encodable(k: KeyV) -> bool {
    match k {
        KeyV::NoKey => true,
        KeyV::MapKey(components) => 1 <= components.len() <= 255 && forall|j: int|
            0 <= j < components.len() ==> #[trigger] components[j].len() <= u32::MAX,
    }
}

/// A key on the wire: one tag byte holding the component count (zero for
/// `NoKey`), then each component as a length-prefixed byte string.
pub open spec fn spec_encode_key(k: KeyV) -> Seq<u8>
    recommends
        spec_key_encodable(k),
{
    match k {
        KeyV::NoKey => seq![0u8],
        KeyV::MapKey(components) => seq![components.len() as u8] + spec_encode_components(
            components,
            0,
        ),
    }
}

/// What decoding `count` consecutive length-prefixed byte strings at `from`
/// yields: the components and the position after them.
pub open spec fn spec_decode_components(bytes: Seq<u8>, from: int, count: int) -> Option<
    (Seq<Seq<u8>>, int),
>
    decreases count,
{
    if count <= 0 {
        Some((Seq::empty(), from))
    } else {
        match spec_decode_bytes(bytes, from) {
            Option::None => Option::None,
            Some((c, next)) => match spec_decode_components(bytes, next, count - 1) {
                Option::None => Option::None,
                Some((rest, fin)) => Some((seq![c] + rest, fin)),
            },
        }
    }
}

/// What decoding a key at `from` yields.
pub open spec fn spec_decode_key(bytes: Seq<u8>, from: int) -> Option<(KeyV, int)> {
    if from < 0 || from >= bytes.len() {
        Option::None
    } else {
        let tag = bytes[from];
        if tag == 0 {
            Some((KeyV::NoKey, from + 1))
        } else {
            match spec_decode_components(bytes, from + 1, tag as int) {
                Option::None => Option::None,
                Some((components, next)) => Some((KeyV::MapKey(components), next)),
            }
        }
    }
}

/// Params on the wire: one tag byte, then the compact offset and/or length.
pub open spec fn spec_encode_params(p: Params) -> Seq<u8> {
    match p {
        Params::Whole => seq![0u8],
        Params::Offset(o) => seq![1u8] + spec_compact(o),
        Params::Len(l) => seq![2u8] + spec_compact(l),
        Params::OffsetAndLen { offset, len } => seq![3u8] + spec_compact(offset) + spec_compact(
            len,
        ),
    }
}

/// What decoding params at `from` yields.
pub open spec fn spec_decode_params(bytes: Seq<u8>, from: int) -> Option<(Params, int)> {
    if from < 0 || from >= bytes.len() {
        Option::None
    } else {
        let tag = bytes[from];
        if tag == 0 {
            Some((Params::Whole, from + 1))
        } else if tag == 1 {
            match spec_decode_compact(bytes, from + 1) {
                Option::None => Option::None,
                Some((o, next)) => Some((Params::Offset(o), next)),
            }
        } else if tag == 2 {
            match spec_decode_compact(bytes, from + 1) {
                Option::None => Option::None,
                Some((l, next)) => Some((Params::Len(l), next)),
            }
        } else if tag == 3 {
            match spec_decode_compact(bytes, from + 1) {
                Option::None => Option::None,
                Some((o, next1)) => match spec_decode_compact(bytes, next1) {
                    Option::None => Option::None,
                    Some((l, next2)) => Some((Params::OffsetAndLen { offset: o, len: l }, next2)),
                },
            }
        } else {
            Option::None
        }
    }
}

/// A metadata-reader request on the wire: namespace name, entry name, key,
/// then params.
pub open spec fn spec_encode_meta_input(
    pallet: Seq<u8>,
    entry: Seq<u8>,
    k: KeyV,
    p: Params,
) -> Seq<u8> {
    spec_encode_bytes(pallet) + spec_encode_bytes(entry) + spec_encode_key(k) + spec_encode_params(
        p,
    )
}

/// What decoding a metadata-reader request yields: namespace, entry, key,
/// params, and the position after them. Trailing bytes are ignored.
pub open spec fn spec_decode_meta_input(bytes: Seq<u8>) -> Option<
    (Seq<u8>, Seq<u8>, KeyV, Params, int),
> {
    match spec_decode_bytes(bytes, 0) {
        Option::None => Option::None,
        Some((pallet, p1)) => match spec_decode_bytes(bytes, p1) {
            Option::None => Option::None,
            Some((entry, p2)) => match spec_decode_key(bytes, p2) {
                Option::None => Option::None,
                Some((k, p3)) => match spec_decode_params(bytes, p3) {
                    Option::None => Option::None,
                    Some((prm, p4)) => Some((pallet, entry, k, prm, p4)),
                },
            },
        },
    }
}

/// A raw-reader request on the wire: the storage key bytes, then params.
pub open spec fn spec_encode_raw_input(key: Seq<u8>, p: Params) -> Seq<u8> {
    spec_encode_bytes(key) + spec_encode_params(p)
}

/// What decoding a raw-reader request yields. Trailing bytes are ignored.
pub open spec fn spec_decode_raw_input(bytes: Seq<u8>) -> Option<(Seq<u8>, Params, int)> {
    match spec_decode_bytes(bytes, 0) {
        Option::None => Option::None,
        Some((key, p1)) => match spec_decode_params(bytes, p1) {
            Option::None => Option::None,
            Some((prm, p2)) => Some((key, prm, p2)),
        },
    }
}

/// Appends a length-prefixed byte string.
pub fn encode_bytes(b: &[u8], out: &mut Vec<u8>)
    requires
        b@.len() <= u32::MAX,
    ensures
        final(out)@ == old(out)@ + spec_encode_bytes(b@),
{
    encode_compact_u32(b.len() as u32, out);
    out.extend_from_slice(b);
    assert(out@ =~= old(out)@ + spec_encode_bytes(b@));
}

/// Decodes a length-prefixed byte string at position `from`.
pub fn decode_bytes(bytes: &[u8], from: usize) -> (r: Result<(Vec<u8>, usize), Error>)
    ensures
        (match r {
            Ok((v, next)) => spec_decode_bytes(bytes@, from as int) == Some((v@, next as int))
                && from < next <= bytes@.len(),
            Err(e) => spec_decode_bytes(bytes@, from as int) is None
                && e == Error::MalformedRequest,
        }),
{
    let (len, next) = match decode_compact_u32(bytes, from) {
        Ok(p) => p,
        Err(e) => {
            return Err(e);
        },
    };
    if (bytes.len() - next) < len as usize {
        return Err(Error::MalformedRequest);
    }
    let value = copy_range(bytes, next, next + len as usize);
    Ok((value, next + len as usize))
}

/// Appends a key: the component-count tag, then the components.
pub fn encode_key(key: &Key, out: &mut Vec<u8>)
    requires
        spec_key_encodable(key@),
    ensures
        final(out)@ == old(out)@ + spec_encode_key(key@),
{
    match key {
        Key::NoKey => {
            out.push(0u8);
            assert(out@ =~= old(out)@ + spec_encode_key(key@));
        },
        Key::MapKey(components) => {
            let ghost cs = components.deep_view();
            out.push(components.len() as u8);
            let ghost base = out@;
            let mut i: usize = 0;
            while i < components.len()
                invariant
                    i <= components.len(),
                    cs == components.deep_view(),
                    cs.len() == components@.len() <= 255,
                    spec_key_encodable(KeyV::MapKey(cs)),
                    out@ + spec_encode_components(cs, i as int) == base + spec_encode_components(
                        cs,
                        0,
                    ),
                decreases components.len() - i,
            {
                proof {
                    assert(cs[i as int] == components@[i as int]@);
                    assert(spec_encode_components(cs, i as int) == spec_encode_bytes(cs[i as int])
                        + spec_encode_components(cs, i as int + 1));
                }
                encode_bytes(components[i].as_slice(), out);
                i = i + 1;
                assert(out@ + spec_encode_components(cs, i as int) =~= base
                    + spec_encode_components(cs, 0));
            }
            assert(out@ =~= out@ + spec_encode_components(cs, i as int));
            assert(out@ =~= old(out)@ + spec_encode_key(key@));
        },
    }
}

/// Decodes a key at position `from`.
pub fn decode_key(bytes: &[u8], from: usize) -> (r: Result<(Key, usize), Error>)
    ensures
        (match r {
            Ok((k, next)) => spec_decode_key(bytes@, from as int) == Some((k@, next as int))
                && from < next <= bytes@.len(),
            Err(e) => spec_decode_key(bytes@, from as int) is None && e == Error::MalformedRequest,
        }),
{
    if from >= bytes.len() {
        return Err(Error::MalformedRequest);
    }
    let tag = bytes[from];
    if tag == 0 {
        return Ok((Key::NoKey, from + 1));
    }
    let count = tag as usize;
    let start = from + 1;
    let mut components: Vec<Vec<u8>> = Vec::new();
    let mut pos: usize = start;
    let mut i: usize = 0;
    proof {
        assert(components.deep_view() =~~= Seq::<Seq<u8>>::empty());
        match spec_decode_components(bytes@, start as int, count as int) {
            Some((rest, fin)) => {
                assert(Seq::<Seq<u8>>::empty() + rest =~= rest);
            },
            Option::None => {
            },
        }
    }
    while i < count
        invariant
            i <= count,
            count >= 1,
            start <= pos <= bytes@.len(),
            from < bytes@.len(),
            start == from + 1,
            count as int == bytes@[from as int] as int,
            (match spec_decode_components(bytes@, pos as int, (count - i) as int) {
                Option::None => spec_decode_components(bytes@, start as int, count as int)
                    is None,
                Some((rest, fin)) => spec_decode_components(bytes@, start as int, count as int)
                    == Some((components.deep_view() + rest, fin)),
            }),
        decreases count - i,
    {
        let (c, next) = match decode_bytes(bytes, pos) {
            Ok(p) => p,
            Err(_) => {
                return Err(Error::MalformedRequest);
            },
        };
        let ghost prev = components.deep_view();
        components.push(c);
        pos = next;
        i = i + 1;
        proof {
            assert(components.deep_view() =~~= prev + seq![components@[prev.len() as int]@]);
            match spec_decode_components(bytes@, pos as int, (count - i) as int) {
                Some((rest, fin)) => {
                    assert((prev + seq![components@[prev.len() as int]@]) + rest =~= prev + (seq![
                        components@[prev.len() as int]@,
                    ] + rest));
                },
                Option::None => {
                },
            }
        }
    }
    proof {
        assert(components.deep_view() + Seq::<Seq<u8>>::empty() =~= components.deep_view());
    }
    Ok((Key::MapKey(components), pos))
}

/// Appends params: the tag byte, then the compact offset and/or length.
pub fn encode_params(p: &Params, out: &mut Vec<u8>)
    ensures
        final(out)@ == old(out)@ + spec_encode_params(*p),
{
    match *p {
        Params::Whole => {
            out.push(0u8);
            assert(out@ =~= old(out)@ + spec_encode_params(*p));
        },
        Params::Offset(o) => {
            out.push(1u8);
            encode_compact_u32(o, out);
            assert(out@ =~= old(out)@ + spec_encode_params(*p));
        },
        Params::Len(l) => {
            out.push(2u8);
            encode_compact_u32(l, out);
            assert(out@ =~= old(out)@ + spec_encode_params(*p));
        },
        Params::OffsetAndLen { offset, len } => {
            out.push(3u8);
            encode_compact_u32(offset, out);
            encode_compact_u32(len, out);
            assert(out@ =~= old(out)@ + spec_encode_params(*p));
        },
    }
}

/// Decodes params at position `from`.
pub fn decode_params(bytes: &[u8], from: usize) -> (r: Result<(Params, usize), Error>)
    ensures
        (match r {
            Ok((p, next)) => spec_decode_params(bytes@, from as int) == Some((p, next as int))
                && from < next <= bytes@.len(),
            Err(e) => spec_decode_params(bytes@, from as int) is None
                && e == Error::MalformedRequest,
        }),
{
    if from >= bytes.len() {
        return Err(Error::MalformedRequest);
    }
    let tag = bytes[from];
    if tag == 0 {
        Ok((Params::Whole, from + 1))
    } else if tag == 1 {
        match decode_compact_u32(bytes, from + 1) {
            Ok((o, next)) => Ok((Params::Offset(o), next)),
            Err(e) => Err(e),
        }
    } else if tag == 2 {
        match decode_compact_u32(bytes, from + 1) {
            Ok((l, next)) => Ok((Params::Len(l), next)),
            Err(e) => Err(e),
        }
    } else if tag == 3 {
        let (offset, next1) = match decode_compact_u32(bytes, from + 1) {
            Ok(p) => p,
            Err(e) => {
                return Err(e);
            },
        };
        match decode_compact_u32(bytes, next1) {
            Ok((len, next2)) => Ok((Params::OffsetAndLen { offset, len }, next2)),
            Err(e) => Err(e),
        }
    } else {
        Err(Error::MalformedRequest)
    }
}

/// Encodes a metadata-reader request as wire bytes.
pub fn encode_meta_input(input: &MetaStorageReaderInput) -> (r: Vec<u8>)
    requires
        input.pallet@.len() <= u32::MAX,
        input.entry@.len() <= u32::MAX,
        spec_key_encodable(input.key@),
    ensures
        r@ == spec_encode_meta_input(input.pallet@, input.entry@, input.key@, input.params),
{
    let mut out: Vec<u8> = Vec::new();
    encode_bytes(input.pallet.as_slice(), &mut out);
    encode_bytes(input.entry.as_slice(), &mut out);
    encode_key(&input.key, &mut out);
    encode_params(&input.params, &mut out);
    assert(out@ =~= spec_encode_meta_input(input.pallet@, input.entry@, input.key@, input.params));
    out
}

/// Decodes a metadata-reader request from wire bytes; trailing bytes are
/// ignored, as the envelope carries its own lengths.
pub fn decode_meta_input(bytes: &[u8]) -> (r: Result<MetaStorageReaderInput, Error>)
    ensures
        (match r {
            Ok(input) => (match spec_decode_meta_input(bytes@) {
                Some((pallet, entry, k, prm, next)) => input.pallet@ == pallet && input.entry@
                    == entry && input.key@ == k && input.params == prm,
                Option::None => false,
            }),
            Err(e) => spec_decode_meta_input(bytes@) is None && e == Error::MalformedRequest,
        }),
{
    let (pallet, p1) = match decode_bytes(bytes, 0) {
        Ok(p) => p,
        Err(e) => {
            return Err(e);
        },
    };
    let (entry, p2) = match decode_bytes(bytes, p1) {
        Ok(p) => p,
        Err(e) => {
            return Err(e);
        },
    };
    let (key, p3) = match decode_key(bytes, p2) {
        Ok(p) => p,
        Err(e) => {
            return Err(e);
        },
    };
    let (params, _p4) = match decode_params(bytes, p3) {
        Ok(p) => p,
        Err(e) => {
            return Err(e);
        },
    };
    Ok(MetaStorageReaderInput { pallet, entry, key, params })
}

/// Encodes a raw-reader request as wire bytes.
pub fn encode_raw_input(input: &RawStorageReaderInput) -> (r: Vec<u8>)
    requires
        input.key@.len() <= u32::MAX,
    ensures
        r@ == spec_encode_raw_input(input.key@, input.params),
{
    let mut out: Vec<u8> = Vec::new();
    encode_bytes(input.key.as_slice(), &mut out);
    encode_params(&input.params, &mut out);
    assert(out@ =~= spec_encode_raw_input(input.key@, input.params));
    out
}

/// Decodes a raw-reader request from wire bytes; trailing bytes are
/// ignored.
pub fn decode_raw_input(bytes: &[u8]) -> (r: Result<RawStorageReaderInput, Error>)
    ensures
        (match r {
            Ok(input) => (match spec_decode_raw_input(bytes@) {
                Some((key, prm, next)) => input.key@ == key && input.params == prm,
                Option::None => false,
            }),
            Err(e) => spec_decode_raw_input(bytes@) is None && e == Error::MalformedRequest,
        }),
{
    let (key, p1) = match decode_bytes(bytes, 0) {
        Ok(p) => p,
        Err(e) => {
            return Err(e);
        },
    };
    let (params, _p2) = match decode_params(bytes, p1) {
        Ok(p) => p,
        Err(e) => {
            return Err(e);
        },
    };
    Ok(RawStorageReaderInput { key, params })
}

/// Little-endian recomposition: the four bytes of a 32-bit value are its
/// base-256 digits.
proof fn lemma_le4_digits(b0: int, b1: int, b2: int, b3: int, n: int)
    requires
        0 <= b0 < 256,
        0 <= b1 < 256,
        0 <= b2 < 256,
        0 <= b3 < 256,
        n == b0 + b1 * 256 + b2 * 65536 + b3 * 16777216,
    ensures
        n % 256 == b0,
        (n / 256) % 256 == b1,
        (n / 65536) % 256 == b2,
        (n / 16777216) % 256 == b3,
{
    let q1 = b1 + b2 * 256 + b3 * 65536;
    lemma_fundamental_div_mod_converse(n, 256, q1, b0);
    let q2 = b2 + b3 * 256;
    lemma_fundamental_div_mod_converse(q1, 256, q2, b1);
    lemma_div_denominator(n, 256, 256);
    lemma_fundamental_div_mod_converse(q2, 256, b3, b2);
    lemma_div_denominator(n, 65536, 256);
    lemma_small_mod(b3 as nat, 256);
}

/// Canonical form: whenever decoding succeeds, the consumed bytes are
/// exactly the compact encoding of the decoded value — no other byte
/// string decodes to it.
pub proof fn lemma_compact_canonical(bytes: Seq<u8>, from: int)
    ensures
        (match spec_decode_compact(bytes, from) {
            Some((v, next)) => next - from == spec_compact(v).len() && bytes.subrange(from, next)
                == spec_compact(v),
            Option::None => true,
        }),
{
    match spec_decode_compact(bytes, from) {
        Option::None => {
        },
        Some((v, next)) => {
            let b0 = bytes[from] as int;
            let mode = b0 % 4;
            if mode == 0 {
                lemma_fundamental_div_mod(b0, 4);
                assert(v as int * 4 == b0);
                assert(bytes.subrange(from, next) =~= spec_compact(v));
            } else if mode == 1 {
                let d1 = bytes[from + 1] as int;
                let n = b0 + d1 * 256;
                lemma_mod_multiples_vanish(d1 * 64, b0, 4);
                assert(n % 4 == 1);
                lemma_fundamental_div_mod(n, 4);
                assert(v as int * 4 + 1 == n);
                lemma_fundamental_div_mod_converse(n, 256, d1, b0);
                assert(bytes.subrange(from, next) =~= spec_compact(v));
            } else if mode == 2 {
                let d1 = bytes[from + 1] as int;
                let d2 = bytes[from + 2] as int;
                let d3 = bytes[from + 3] as int;
                let n = b0 + d1 * 256 + d2 * 65536 + d3 * 16777216;
                lemma_mod_multiples_vanish(d1 * 64 + d2 * 16384 + d3 * 4194304, b0, 4);
                assert(n % 4 == 2);
                lemma_fundamental_div_mod(n, 4);
                assert(v as int * 4 + 2 == n);
                lemma_le4_digits(b0, d1, d2, d3, n);
                assert(bytes.subrange(from, next) =~= spec_compact(v));
            } else {
                let d1 = bytes[from + 1] as int;
                let d2 = bytes[from + 2] as int;
                let d3 = bytes[from + 3] as int;
                let d4 = bytes[from + 4] as int;
                lemma_le4_digits(d1, d2, d3, d4, v as int);
                assert(bytes.subrange(from, next) =~= spec_compact(v));
            }
        },
    }
}

/// Round trip for a length-prefixed byte string placed after `prefix`.
pub proof fn lemma_encode_bytes_round_trip(prefix: Seq<u8>, b: Seq<u8>, rest: Seq<u8>)
    requires
        b.len() <= u32::MAX,
    ensures
        spec_decode_bytes(prefix + spec_encode_bytes(b) + rest, prefix.len() as int) == Some(
            (b, (prefix.len() + spec_encode_bytes(b).len()) as int),
        ),
{
    let all = prefix + spec_encode_bytes(b) + rest;
    let from = prefix.len() as int;
    let l = b.len() as u32;
    let clen = spec_compact(l).len() as int;
    assert(all =~= prefix + spec_compact(l) + (b + rest));
    lemma_compact_round_trip(prefix, l, b + rest);
    let next = from + clen;
    assert(all.subrange(next, next + l as int) =~= b);
}

/// Round trip for params placed after `prefix`.
pub proof fn lemma_encode_params_round_trip(prefix: Seq<u8>, p: Params, rest: Seq<u8>)
    ensures
        spec_decode_params(prefix + spec_encode_params(p) + rest, prefix.len() as int) == Some(
            (p, (prefix.len() + spec_encode_params(p).len()) as int),
        ),
{
    let all = prefix + spec_encode_params(p) + rest;
    let from = prefix.len() as int;
    match p {
        Params::Whole => {
            assert(all[from] == 0u8);
        },
        Params::Offset(o) => {
            assert(all[from] == 1u8);
            assert(all =~= (prefix + seq![1u8]) + spec_compact(o) + rest);
            lemma_compact_round_trip(prefix + seq![1u8], o, rest);
        },
        Params::Len(l) => {
            assert(all[from] == 2u8);
            assert(all =~= (prefix + seq![2u8]) + spec_compact(l) + rest);
            lemma_compact_round_trip(prefix + seq![2u8], l, rest);
        },
        Params::OffsetAndLen { offset, len } => {
            assert(all[from] == 3u8);
            assert(all =~= (prefix + seq![3u8]) + spec_compact(offset) + (spec_compact(len)
                + rest));
            lemma_compact_round_trip(prefix + seq![3u8], offset, spec_compact(len) + rest);
            assert(all =~= (prefix + seq![3u8] + spec_compact(offset)) + spec_compact(len) + rest);
            lemma_compact_round_trip(prefix + seq![3u8] + spec_compact(offset), len, rest);
        },
    }
}

/// Round trip for a run of key components placed after `prefix`, starting
/// at component `i`.
pub proof fn lemma_encode_components_round_trip(
    prefix: Seq<u8>,
    components: Seq<Seq<u8>>,
    i: int,
    rest: Seq<u8>,
)
    requires
        0 <= i <= components.len(),
        forall|j: int| 0 <= j < components.len() ==> #[trigger] components[j].len() <= u32::MAX,
    ensures
        spec_decode_components(
            prefix + spec_encode_components(components, i) + rest,
            prefix.len() as int,
            components.len() - i,
        ) == Some(
            (components.skip(i), (prefix.len() + spec_encode_components(components, i).len()) as int),
        ),
    decreases components.len() - i,
{
    let all = prefix + spec_encode_components(components, i) + rest;
    let from = prefix.len() as int;
    if i == components.len() {
        assert(components.skip(i) =~= Seq::<Seq<u8>>::empty());
    } else {
        let head = spec_encode_bytes(components[i]);
        let tail = spec_encode_components(components, i + 1);
        assert(all =~= prefix + head + (tail + rest));
        lemma_encode_bytes_round_trip(prefix, components[i], tail + rest);
        assert(all =~= (prefix + head) + tail + rest);
        lemma_encode_components_round_trip(prefix + head, components, i + 1, rest);
        assert(seq![components[i]] + components.skip(i + 1) =~= components.skip(i));
    }
}

/// Round trip for a key placed after `prefix`.
pub proof fn lemma_encode_key_round_trip(prefix: Seq<u8>, k: KeyV, rest: Seq<u8>)
    requires
        spec_key_encodable(k),
    ensures
        spec_decode_key(prefix + spec_encode_key(k) + rest, prefix.len() as int) == Some(
            (k, (prefix.len() + spec_encode_key(k).len()) as int),
        ),
{
    let all = prefix + spec_encode_key(k) + rest;
    let from = prefix.len() as int;
    match k {
        KeyV::NoKey => {
            assert(all[from] == 0u8);
        },
        KeyV::MapKey(components) => {
            let tag = components.len() as u8;
            assert(all[from] == tag);
            assert(tag != 0 && tag as int == components.len());
            assert(all =~= (prefix + seq![tag]) + spec_encode_components(components, 0) + rest);
            lemma_encode_components_round_trip(prefix + seq![tag], components, 0, rest);
            assert(components.skip(0) =~= components);
        },
    }
}

/// Round trip: decoding an encoded metadata-reader request gives back the
/// namespace, entry, key and params it was built from.
pub proof fn lemma_meta_input_round_trip(pallet: Seq<u8>, entry: Seq<u8>, k: KeyV, p: Params)
    requires
        pallet.len() <= u32::MAX,
        entry.len() <= u32::MAX,
        spec_key_encodable(k),
    ensures
        spec_decode_meta_input(spec_encode_meta_input(pallet, entry, k, p)) == Some(
            (pallet, entry, k, p, spec_encode_meta_input(pallet, entry, k, p).len() as int),
        ),
{
    let e1 = spec_encode_bytes(pallet);
    let e2 = spec_encode_bytes(entry);
    let e3 = spec_encode_key(k);
    let e4 = spec_encode_params(p);
    let all = spec_encode_meta_input(pallet, entry, k, p);
    assert(all =~= Seq::<u8>::empty() + e1 + (e2 + e3 + e4));
    lemma_encode_bytes_round_trip(Seq::<u8>::empty(), pallet, e2 + e3 + e4);
    assert(all =~= e1 + e2 + (e3 + e4));
    lemma_encode_bytes_round_trip(e1, entry, e3 + e4);
    assert(all =~= (e1 + e2) + e3 + e4);
    lemma_encode_key_round_trip(e1 + e2, k, e4);
    assert(all =~= (e1 + e2 + e3) + e4 + Seq::<u8>::empty());
    lemma_encode_params_round_trip(e1 + e2 + e3, p, Seq::<u8>::empty());
}

/// Round trip: decoding an encoded raw-reader request gives back the key
/// bytes and params it was built from.
pub proof fn lemma_raw_input_round_trip(key: Seq<u8>, p: Params)
    requires
        key.len() <= u32::MAX,
    ensures
        spec_decode_raw_input(spec_encode_raw_input(key, p)) == Some(
            (key, p, spec_encode_raw_input(key, p).len() as int),
        ),
{
    let e1 = spec_encode_bytes(key);
    let e2 = spec_encode_params(p);
    let all = spec_encode_raw_input(key, p);
    assert(all =~= Seq::<u8>::empty() + e1 + e2);
    lemma_encode_bytes_round_trip(Seq::<u8>::empty(), key, e2);
    assert(all =~= e1 + e2 + Seq::<u8>::empty());
    lemma_encode_params_round_trip(e1, p, Seq::<u8>::empty());
}

/// The encoding of a run of components depends only on the components from
/// position `i` on.
proof fn lemma_encode_components_skip(components: Seq<Seq<u8>>, i: int)
    requires
        0 <= i <= components.len(),
    ensures
        spec_encode_components(components, i) == spec_encode_components(components.skip(i), 0),
    decreases components.len() - i,
{
    if i < components.len() {
        lemma_encode_components_skip(components, i + 1);
        assert(components.skip(i + 1) =~= components.skip(i).skip(1));
        lemma_encode_components_skip(components.skip(i), 1);
        assert(components.skip(i)[0] == components[i]);
    }
}

/// Canonical form for a length-prefixed byte string: whenever decoding
/// succeeds, the consumed bytes are exactly the encoding of the result.
pub proof fn lemma_bytes_canonical(bytes: Seq<u8>, from: int)
    ensures
        (match spec_decode_bytes(bytes, from) {
            Some((b, next)) => b.len() <= u32::MAX && 0 <= from <= next <= bytes.len()
                && bytes.subrange(from, next) == spec_encode_bytes(b),
            Option::None => true,
        }),
{
    match spec_decode_bytes(bytes, from) {
        Option::None => {
        },
        Some((b, next)) => {
            let (l, mid) = spec_decode_compact(bytes, from).unwrap();
            lemma_compact_canonical(bytes, from);
            assert(bytes.subrange(from, next) =~= bytes.subrange(from, mid) + bytes.subrange(
                mid,
                next,
            ));
        },
    }
}

/// Canonical form for a run of `count` components.
pub proof fn lemma_components_canonical(bytes: Seq<u8>, from: int, count: int)
    requires
        0 <= from <= bytes.len(),
    ensures
        (match spec_decode_components(bytes, from, count) {
            Some((components, next)) => {
                &&& components.len() == (if count >= 0 {
                    count
                } else {
                    0
                })
                &&& from <= next <= bytes.len()
                &&& (forall|j: int|
                    0 <= j < components.len() ==> #[trigger] components[j].len() <= u32::MAX)
                &&& bytes.subrange(from, next) == spec_encode_components(components, 0)
            },
            Option::None => true,
        }),
    decreases count,
{
    if count <= 0 {
        let (components, next) = spec_decode_components(bytes, from, count).unwrap();
        assert(bytes.subrange(from, next) =~= spec_encode_components(components, 0));
    } else {
        match spec_decode_bytes(bytes, from) {
            Option::None => {
            },
            Some((c, mid)) => {
                lemma_bytes_canonical(bytes, from);
                lemma_components_canonical(bytes, mid, count - 1);
                match spec_decode_components(bytes, mid, count - 1) {
                    Option::None => {
                    },
                    Some((rest, next)) => {
                        let components = seq![c] + rest;
                        assert(components.skip(1) =~= rest);
                        lemma_encode_components_skip(components, 1);
                        assert(components[0] == c);
                        assert(bytes.subrange(from, next) =~= bytes.subrange(from, mid)
                            + bytes.subrange(mid, next));
                        assert(bytes.subrange(from, next) =~= spec_encode_components(
                            components,
                            0,
                        ));
                    },
                }
            },
        }
    }
}

/// Canonical form for a key: whenever decoding succeeds, the result is an
/// encodable key and the consumed bytes are exactly its encoding.
pub proof fn lemma_key_canonical(bytes: Seq<u8>, from: int)
    ensures
        (match spec_decode_key(bytes, from) {
            Some((k, next)) => spec_key_encodable(k) && 0 <= from <= next <= bytes.len()
                && bytes.subrange(from, next) == spec_encode_key(k),
            Option::None => true,
        }),
{
    match spec_decode_key(bytes, from) {
        Option::None => {
        },
        Some((k, next)) => {
            let tag = bytes[from];
            if tag == 0 {
                assert(bytes.subrange(from, next) =~= spec_encode_key(k));
            } else {
                lemma_components_canonical(bytes, from + 1, tag as int);
                let (components, fin) = spec_decode_components(
                    bytes,
                    from + 1,
                    tag as int,
                ).unwrap();
                assert(bytes.subrange(from, next) =~= seq![tag] + bytes.subrange(from + 1, next));
                assert(bytes.subrange(from, next) =~= spec_encode_key(k));
            }
        },
    }
}

/// Canonical form for params.
pub proof fn lemma_params_canonical(bytes: Seq<u8>, from: int)
    ensures
        (match spec_decode_params(bytes, from) {
            Some((p, next)) => 0 <= from <= next <= bytes.len() && bytes.subrange(from, next)
                == spec_encode_params(p),
            Option::None => true,
        }),
{
    match spec_decode_params(bytes, from) {
        Option::None => {
        },
        Some((p, next)) => {
            let tag = bytes[from];
            if tag == 0 {
                assert(bytes.subrange(from, next) =~= spec_encode_params(p));
            } else if tag == 1 || tag == 2 {
                lemma_compact_canonical(bytes, from + 1);
                assert(bytes.subrange(from, next) =~= seq![tag] + bytes.subrange(from + 1, next));
                assert(bytes.subrange(from, next) =~= spec_encode_params(p));
            } else {
                let (o, mid) = spec_decode_compact(bytes, from + 1).unwrap();
                lemma_compact_canonical(bytes, from + 1);
                lemma_compact_canonical(bytes, mid);
                assert(bytes.subrange(from, next) =~= seq![tag] + bytes.subrange(from + 1, mid)
                    + bytes.subrange(mid, next));
                assert(bytes.subrange(from, next) =~= spec_encode_params(p));
            }
        },
    }
}

/// Canonical form for a whole metadata-reader request: whenever decoding
/// succeeds, the consumed prefix is exactly the encoding of the result.
pub proof fn lemma_meta_input_canonical(bytes: Seq<u8>)
    ensures
        (match spec_decode_meta_input(bytes) {
            Some((pallet, entry, k, p, next)) => {
                &&& pallet.len() <= u32::MAX
                &&& entry.len() <= u32::MAX
                &&& spec_key_encodable(k)
                &&& 0 <= next <= bytes.len()
                &&& bytes.subrange(0, next) == spec_encode_meta_input(pallet, entry, k, p)
            },
            Option::None => true,
        }),
{
    match spec_decode_meta_input(bytes) {
        Option::None => {
        },
        Some((pallet, entry, k, p, next)) => {
            let (_, p1) = spec_decode_bytes(bytes, 0).unwrap();
            let (_, p2) = spec_decode_bytes(bytes, p1).unwrap();
            let (_, p3) = spec_decode_key(bytes, p2).unwrap();
            lemma_bytes_canonical(bytes, 0);
            lemma_bytes_canonical(bytes, p1);
            lemma_key_canonical(bytes, p2);
            lemma_params_canonical(bytes, p3);
            assert(bytes.subrange(0, next) =~= bytes.subrange(0, p1) + bytes.subrange(p1, p2)
                + bytes.subrange(p2, p3) + bytes.subrange(p3, next));
        },
    }
}

/// Canonical form for a whole raw-reader request.
pub proof fn lemma_raw_input_canonical(bytes: Seq<u8>)
    ensures
        (match spec_decode_raw_input(bytes) {
            Some((key, p, next)) => key.len() <= u32::MAX && 0 <= next <= bytes.len()
                && bytes.subrange(0, next) == spec_encode_raw_input(key, p),
            Option::None => true,
        }),
{
    match spec_decode_raw_input(bytes) {
        Option::None => {
        },
        Some((key, p, next)) => {
            let (_, p1) = spec_decode_bytes(bytes, 0).unwrap();
            lemma_bytes_canonical(bytes, 0);
            lemma_params_canonical(bytes, p1);
            assert(bytes.subrange(0, next) =~= bytes.subrange(0, p1) + bytes.subrange(p1, next));
        },
    }
}

} // verus!
