//! Offset / length parameters of a read request, and their conversion to a
//! clamped byte window over a buffer of known length.

use vstd::prelude::*;

verus! {

/// Largest number of bytes that a `Len` / `OffsetAndLen` request may ask
/// for; longer requests are rejected before any read happens.
pub const MAX_BYTES_LEN: u32 = 0x100000;

/// Optional offset and length to be applied to the value bytes.
#[derive(Debug, Clone, Copy, PartialEq, Eq, Structural)]
pub enum Params {
    /// No params specified: the whole value is returned.
    Whole,
    /// Skip the first `offset` bytes of the value.
    Offset(u32),
    /// Return at most this many of the leading value bytes.
    Len(u32),
    /// Skip `offset` bytes, then return at most `len` bytes.
    OffsetAndLen { offset: u32, len: u32 },
}

/// Why a set of params was rejected.
#[derive(Debug, Clone, Copy, PartialEq, Eq, Structural)]
pub enum ParamsError {
    /// A requested length exceeds `MAX_BYTES_LEN`.
    LengthExceedsLimit,
    /// `offset + len` does not fit in `usize`.
    OffsetPlusLengthOverflow,
}

/// A byte range `[lower, upper)`, already clamped to a buffer.
#[derive(Debug, Clone, Copy, PartialEq, Eq, Structural)]
pub struct RangeWindow {
    pub lower: usize,
    pub upper: usize,
}

/// Params that cannot be rejected by `to_range`, whatever the buffer length.
pub open spec fn spec_params_valid(p: Params) -> bool {
    match p {
        Params::Whole => true,
        Params::Offset(_) => true,
        Params::Len(l) => l <= MAX_BYTES_LEN,
        Params::OffsetAndLen { offset, len } => len <= MAX_BYTES_LEN && offset + len
            <= usize::MAX,
    }
}

/// The error that `validate` reports, if any.
pub open spec fn spec_validate(p: Params) -> Result<(), ParamsError> {
    match p {
        Params::Whole => Ok(()),
        Params::Offset(_) => Ok(()),
        Params::Len(l) => if l <= MAX_BYTES_LEN {
            Ok(())
        } else {
            Err(ParamsError::LengthExceedsLimit)
        },
        Params::OffsetAndLen { offset, len } => if len > MAX_BYTES_LEN {
            Err(ParamsError::LengthExceedsLimit)
        } else if offset + len > usize::MAX {
            Err(ParamsError::OffsetPlusLengthOverflow)
        } else {
            Ok(())
        },
    }
}

/// Which params `new` builds from optional offset and length values.
pub open spec fn spec_new_params(offset: Option<u32>, len: Option<u32>) -> Result<
    Params,
    ParamsError,
> {
    if (len matches Some(l) && l > MAX_BYTES_LEN) {
        Err(ParamsError::LengthExceedsLimit)
    } else {
        match (offset, len) {
            (Option::None, Option::None) => Ok(Params::Whole),
            (Some(o), Option::None) => Ok(Params::Offset(o)),
            (Option::None, Some(l)) => Ok(Params::Len(l)),
            (Some(o), Some(l)) => Ok(Params::OffsetAndLen { offset: o, len: l }),
        }
    }
}

/// The window that `to_range` yields over a buffer of `max` bytes:
/// `Ok(None)` means "no narrowing", a returned window is clamped so that
/// `lower <= upper <= max`, and an over-long or overflowing request fails.
pub open spec fn spec_to_range(p: Params, max: usize) -> Result<Option<RangeWindow>, ParamsError> {
    match p {
        Params::Whole => Ok(Option::None),
        Params::Offset(o) => {
            let lower = if o as int <= max as int {
                o as usize
            } else {
                max
            };
            Ok(Some(RangeWindow { lower, upper: max }))
        },
        Params::Len(l) => if l > MAX_BYTES_LEN {
            Err(ParamsError::LengthExceedsLimit)
        } else {
            let upper = if l as int <= max as int {
                l as usize
            } else {
                max
            };
            Ok(Some(RangeWindow { lower: 0, upper }))
        },
        Params::OffsetAndLen { offset, len } => if len > MAX_BYTES_LEN {
            Err(ParamsError::LengthExceedsLimit)
        } else {
            let lower = if offset as int <= max as int {
                offset as usize
            } else {
                max
            };
            if lower + len > usize::MAX {
                Err(ParamsError::OffsetPlusLengthOverflow)
            } else {
                let upper = if lower + len <= max as int {
                    (lower + len) as usize
                } else {
                    max
                };
                Ok(Some(RangeWindow { lower, upper }))
            }
        },
    }
}

/// The unclamped `(lower, upper)` pair that the params describe, with no
/// buffer involved: `upper` is absent when no length was requested.
pub open spec fn spec_lower_upper(p: Params) -> Result<(usize, Option<usize>), ParamsError> {
    match p {
        Params::Whole => Ok((0usize, Option::None)),
        Params::Offset(o) => Ok((o as usize, Option::None)),
        Params::Len(l) => Ok((0usize, Some(l as usize))),
        Params::OffsetAndLen { offset, len } => if offset + len <= usize::MAX {
            Ok((offset as usize, Some((offset + len) as usize)))
        } else {
            Err(ParamsError::OffsetPlusLengthOverflow)
        },
    }
}

impl Params {
    /// Constructs params from optional offset and length values, rejecting a
    /// length above `MAX_BYTES_LEN`.
    pub fn new(offset: Option<u32>, len: Option<u32>) -> (r: Result<Params, ParamsError>)
        ensures
            r == spec_new_params(offset, len),
    {
        if let Some(l) = len {
            if l > MAX_BYTES_LEN {
                return Err(ParamsError::LengthExceedsLimit);
            }
        }
        match (offset, len) {
            (Option::None, Option::None) => Ok(Params::Whole),
            (Some(o), Option::None) => Ok(Params::Offset(o)),
            (Option::None, Some(l)) => Ok(Params::Len(l)),
            (Some(o), Some(l)) => Ok(Params::OffsetAndLen { offset: o, len: l }),
        }
    }

    /// Checks the params alone, with no buffer: accepted params are exactly
    /// those that `to_range` accepts against every buffer length.
    pub fn validate(&self) -> (r: Result<(), ParamsError>)
        ensures
            r == spec_validate(*self),
            r is Ok <==> spec_params_valid(*self),
    {
        match *self {
            Params::Whole => Ok(()),
            Params::Offset(_) => Ok(()),
            Params::Len(l) => {
                if l > MAX_BYTES_LEN {
                    Err(ParamsError::LengthExceedsLimit)
                } else {
                    Ok(())
                }
            },
            Params::OffsetAndLen { offset, len } => {
                if len > MAX_BYTES_LEN {
                    Err(ParamsError::LengthExceedsLimit)
                } else if (offset as usize).checked_add(len as usize).is_none() {
                    Err(ParamsError::OffsetPlusLengthOverflow)
                } else {
                    Ok(())
                }
            },
        }
    }

    /// Converts the params to a byte window over a buffer of `max` bytes.
    pub fn to_range(&self, max: usize) -> (r: Result<Option<RangeWindow>, ParamsError>)
        ensures
            r == spec_to_range(*self, max),
    {
        match *self {
            Params::Whole => Ok(Option::None),
            Params::Offset(o) => {
                let lower = if (o as usize) <= max {
                    o as usize
                } else {
                    max
                };
                Ok(Some(RangeWindow { lower, upper: max }))
            },
            Params::Len(l) => {
                if l > MAX_BYTES_LEN {
                    Err(ParamsError::LengthExceedsLimit)
                } else {
                    let upper = if (l as usize) <= max {
                        l as usize
                    } else {
                        max
                    };
                    Ok(Some(RangeWindow { lower: 0, upper }))
                }
            },
            Params::OffsetAndLen { offset, len } => {
                if len > MAX_BYTES_LEN {
                    return Err(ParamsError::LengthExceedsLimit);
                }
                let lower = if (offset as usize) <= max {
                    offset as usize
                } else {
                    max
                };
                match lower.checked_add(len as usize) {
                    Option::None => Err(ParamsError::OffsetPlusLengthOverflow),
                    Some(sum) => {
                        let upper = if sum <= max {
                            sum
                        } else {
                            max
                        };
                        Ok(Some(RangeWindow { lower, upper }))
                    },
                }
            },
        }
    }

    /// The unclamped `(lower, upper)` bounds described by the params.
    pub fn lower_upper(&self) -> (r: Result<(usize, Option<usize>), ParamsError>)
        ensures
            r == spec_lower_upper(*self),
    {
        match *self {
            Params::Whole => Ok((0usize, Option::None)),
            Params::Offset(o) => Ok((o as usize, Option::None)),
            Params::Len(l) => Ok((0usize, Some(l as usize))),
            Params::OffsetAndLen { offset, len } => {
                match (offset as usize).checked_add(len as usize) {
                    Option::None => Err(ParamsError::OffsetPlusLengthOverflow),
                    Some(sum) => Ok((offset as usize, Some(sum))),
                }
            },
        }
    }
}

/// Window invariant: every window that `to_range` yields is within bounds,
/// `0 <= lower <= upper <= max`.
pub proof fn lemma_window_within_bounds(p: Params, max: usize)
    ensures
        (match spec_to_range(p, max) {
            Ok(Some(w)) => w.lower <= w.upper <= max,
            _ => true,
        }),
{
}

/// Params that pass `validate` are accepted by `to_range` against every
/// buffer length.
pub proof fn lemma_valid_params_to_range(p: Params, max: usize)
    requires
        spec_params_valid(p),
    ensures
        spec_to_range(p, max) is Ok,
{
}

} // verus!
