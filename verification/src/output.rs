//! A possibly-absent storage value: default resolution, windowing by
//! offset/length params, and the one-byte-flag response encoding.

use vstd::prelude::*;

use crate::params::{MAX_BYTES_LEN, Params, ParamsError, spec_to_range};

verus! {

/// A raw value read from the storage: absent, or present with its bytes.
#[derive(Debug, Clone, PartialEq, Eq)]
pub enum RawStorageValue {
    /// No value is stored under the key.
    Absent,
    /// The stored value bytes.
    Present(Vec<u8>),
}

impl View for RawStorageValue {
    type V = Option<Seq<u8>>;

    open spec fn view(&self) -> Option<Seq<u8>> {
        match self {
            RawStorageValue::Absent => Option::None,
            RawStorageValue::Present(bytes) => Some(bytes@),
        }
    }
}

/// A value with params already applied, ready to be encoded.
#[derive(Debug, Clone, PartialEq, Eq)]
pub struct OutputStorageValue(RawStorageValue);

impl View for OutputStorageValue {
    type V = Option<Seq<u8>>;

    closed spec fn view(&self) -> Option<Seq<u8>> {
        self.0@
    }
}

/// View of optional value bytes.
pub open spec fn bytes_opt_view(o: Option<Vec<u8>>) -> Option<Seq<u8>> {
    match o {
        Some(b) => Some(b@),
        Option::None => Option::None,
    }
}

/// Length of a possibly-absent value; an absent value has length zero.
pub open spec fn spec_value_len(v: Option<Seq<u8>>) -> int {
    match v {
        Some(b) => b.len() as int,
        Option::None => 0,
    }
}

/// Default resolution: a present value stays as it is; an absent one is
/// replaced by the default, when there is one.
pub open spec fn spec_resolve(v: Option<Seq<u8>>, default_bytes: Option<Seq<u8>>) -> Option<
    Seq<u8>,
> {
    match v {
        Some(b) => Some(b),
        Option::None => default_bytes,
    }
}

/// Windowing: an absent value is never windowed; a present one is narrowed
/// to the window that the params describe against its own length.
pub open spec fn spec_apply_params(v: Option<Seq<u8>>, p: Params) -> Result<
    Option<Seq<u8>>,
    ParamsError,
>
    recommends
        spec_value_len(v) <= usize::MAX,
{
    match v {
        Option::None => Ok(Option::None),
        Some(b) => match spec_to_range(p, b.len() as usize) {
            Err(e) => Err(e),
            Ok(Option::None) => Ok(Some(b)),
            Ok(Some(w)) => Ok(Some(b.subrange(w.lower as int, w.upper as int))),
        },
    }
}

/// Response encoding: one presence byte, then the value bytes when present.
pub open spec fn spec_encode_value(v: Option<Seq<u8>>) -> Seq<u8> {
    match v {
        Option::None => seq![0u8],
        Some(b) => seq![1u8] + b,
    }
}

/// Response decoding: a leading byte `1` marks a present value whose bytes
/// follow; anything else is an absent value.
pub open spec fn spec_decode_value(bytes: Seq<u8>) -> Option<Seq<u8>> {
    if bytes.len() > 0 && bytes[0] == 1u8 {
        Some(bytes.skip(1))
    } else {
        Option::None
    }
}

/// Copies the byte range `[lower, upper)` out of a slice.
pub(crate) fn copy_range(bytes: &[u8], lower: usize, upper: usize) -> (r: Vec<u8>)
    requires
        lower <= upper <= bytes@.len(),
    ensures
        r@ == bytes@.subrange(lower as int, upper as int),
{
    let mut out: Vec<u8> = Vec::new();
    let mut i: usize = lower;
    while i < upper
        invariant
            lower <= i <= upper <= bytes@.len(),
            out@ == bytes@.subrange(lower as int, i as int),
        decreases upper - i,
    {
        out.push(bytes[i]);
        i = i + 1;
        assert(out@ =~= bytes@.subrange(lower as int, i as int));
    }
    out
}

impl RawStorageValue {
    /// Length of the value bytes; zero when absent.
    pub fn len(&self) -> (r: usize)
        ensures
            r == spec_value_len(self@),
    {
        match self {
            RawStorageValue::Absent => 0,
            RawStorageValue::Present(bytes) => bytes.len(),
        }
    }

    /// Converts the value into its bytes, when present.
    pub fn into_item(self) -> (r: Option<Vec<u8>>)
        ensures
            bytes_opt_view(r) == self@,
    {
        match self {
            RawStorageValue::Absent => Option::None,
            RawStorageValue::Present(bytes) => Some(bytes),
        }
    }

    /// Builds a value from optional bytes, as a store read hands them back.
    pub fn from_option(bytes: Option<Vec<u8>>) -> (r: Self)
        ensures
            r@ == bytes_opt_view(bytes),
    {
        match bytes {
            Some(b) => RawStorageValue::Present(b),
            Option::None => RawStorageValue::Absent,
        }
    }

    /// If the value is absent, replaces it with the provided default bytes.
    pub fn or_default(self, default_bytes: Option<Vec<u8>>) -> (r: Self)
        ensures
            r@ == spec_resolve(self@, bytes_opt_view(default_bytes)),
    {
        match self {
            RawStorageValue::Absent => RawStorageValue::from_option(default_bytes),
            RawStorageValue::Present(bytes) => RawStorageValue::Present(bytes),
        }
    }

    /// Applies offset and length params to the value; an absent value is
    /// never windowed.
    pub fn apply_params(self, params: &Params) -> (r: Result<OutputStorageValue, ParamsError>)
        ensures
            (match r {
                Ok(out) => spec_apply_params(self@, *params) == Ok::<_, ParamsError>(out@),
                Err(e) => spec_apply_params(self@, *params) == Err::<Option<Seq<u8>>, _>(e),
            }),
    {
        match self {
            RawStorageValue::Absent => Ok(OutputStorageValue(RawStorageValue::Absent)),
            RawStorageValue::Present(bytes) => {
                match params.to_range(bytes.len()) {
                    Err(e) => Err(e),
                    Ok(Option::None) => Ok(OutputStorageValue(RawStorageValue::Present(bytes))),
                    Ok(Some(w)) => {
                        let windowed = copy_range(bytes.as_slice(), w.lower, w.upper);
                        Ok(OutputStorageValue(RawStorageValue::Present(windowed)))
                    },
                }
            },
        }
    }

    /// Decodes a response envelope back into a value.
    pub fn decode_from_bytes(bytes: &[u8]) -> (r: Self)
        ensures
            r@ == spec_decode_value(bytes@),
    {
        if bytes.len() > 0 && bytes[0] == 1u8 {
            let rest = copy_range(bytes, 1, bytes.len());
            assert(bytes@.subrange(1, bytes@.len() as int) =~= bytes@.skip(1));
            RawStorageValue::Present(rest)
        } else {
            RawStorageValue::Absent
        }
    }
}

impl OutputStorageValue {
    /// The underlying, already-windowed value.
    pub fn into_inner(self) -> (r: RawStorageValue)
        ensures
            r@ == self@,
    {
        self.0
    }

    /// Encodes the value as the response envelope: one presence byte,
    /// then the value bytes when present.
    pub fn encode_to_bytes(&self) -> (r: Vec<u8>)
        ensures
            r@ == spec_encode_value(self@),
    {
        match &self.0 {
            RawStorageValue::Absent => {
                let mut out: Vec<u8> = Vec::new();
                out.push(0u8);
                assert(out@ =~= seq![0u8]);
                out
            },
            RawStorageValue::Present(bytes) => {
                let mut out: Vec<u8> = Vec::new();
                out.push(1u8);
                out.extend_from_slice(bytes.as_slice());
                assert(out@ =~= seq![1u8] + bytes@);
                out
            },
        }
    }
}

/// Round trip: decoding an encoded value gives the value back, both for
/// present and for absent values.
pub proof fn lemma_value_encode_round_trip(v: Option<Seq<u8>>)
    ensures
        spec_decode_value(spec_encode_value(v)) == v,
{
    match v {
        Option::None => {
        },
        Some(b) => {
            assert((seq![1u8] + b).skip(1) =~= b);
        },
    }
}

/// Default resolution happens before windowing: resolving an absent value
/// with default `b` and then applying a length `l` clamps the window
/// against `b`'s own length, not against the absent value.
pub proof fn lemma_default_before_window(b: Seq<u8>, l: u32)
    requires
        l <= MAX_BYTES_LEN,
        b.len() <= usize::MAX,
    ensures
        spec_apply_params(spec_resolve(Option::None, Some(b)), Params::Len(l)) == Ok::<
            _,
            ParamsError,
        >(Some(b.take(if l as int <= b.len() as int { l as int } else { b.len() as int }))),
{
    let clamp = if l as int <= b.len() as int { l as int } else { b.len() as int };
    assert(b.subrange(0, clamp) =~= b.take(clamp));
}

} // verus!
