//! The sample stencils of the two interpolation strategies: which samples of
//! an ordered sequence are combined for a given fractional index.
//!
//! Lookups are clamped into `[0, len - 1]`, so an index outside the sequence
//! reads the boundary samples instead of failing.

use vstd::prelude::*;

verus! {

/// Why samples could not be interpolated.
#[derive(Debug, Clone, Copy, PartialEq, Eq, Structural)]
pub enum InterpolationError {
    /// The sample sequence is empty.
    NoSamples,
}

/// `i` moved into `[0, len - 1]`.
pub open spec fn clamp_index(len: int, i: int) -> int {
    if i < 0 {
        0
    } else if i > len - 1 {
        len - 1
    } else {
        i
    }
}

/// `i` moved into `[0, len - 1]`; `len` is positive.
fn clamp_cell(len: usize, i: i64) -> (r: usize)
    requires
        len > 0,
    ensures
        r == clamp_index(len as int, i as int),
{
    if i < 0 {
        0
    } else if i as u64 >= len as u64 {
        len - 1
    } else {
        i as usize
    }
}

/// Piecewise-linear interpolation between the two samples around the index.
pub struct LinearInterpolation {}

impl LinearInterpolation {
    /// The positions `(c0, c1)` read for an index whose integer part is
    /// `cell`: `c0` is `cell` clamped into the sequence, `c1` the next sample,
    /// or `c0` again at the end.
    pub open spec fn spec_stencil(len: int, cell: int) -> (int, int) {
        let c0 = clamp_index(len, cell);
        (c0, if c0 + 1 < len { c0 + 1 } else { len - 1 })
    }

    /// The two sample positions read for an index whose integer part is `cell`,
    /// in a sequence of `len` samples.
    pub fn stencil(len: usize, cell: i64) -> (r: Result<(usize, usize), InterpolationError>)
        ensures
            len == 0 ==> r == Err::<(usize, usize), InterpolationError>(
                InterpolationError::NoSamples,
            ),
            len > 0 ==> (r matches Ok(c) && (c.0 as int, c.1 as int) == Self::spec_stencil(
                len as int,
                cell as int,
            )),
    {
        if len == 0 {
            return Err(InterpolationError::NoSamples);
        }
        let c0 = clamp_cell(len, cell);
        let c1 = if c0 + 1 < len {
            c0 + 1
        } else {
            len - 1
        };
        Ok((c0, c1))
    }

    /// Every position of the stencil lies in the sequence, and an index past
    /// either end reads exactly what the index clamped into `[0, len - 1]`
    /// reads.
    pub proof fn lemma_stencil_clamped(len: int, cell: int)
        requires
            len > 0,
        ensures
            0 <= Self::spec_stencil(len, cell).0 < len,
            0 <= Self::spec_stencil(len, cell).1 < len,
            Self::spec_stencil(len, cell) == Self::spec_stencil(len, clamp_index(len, cell)),
    {
    }
}

/// Four-point interpolation with Catmull-Rom weights over the samples at the
/// index, one before it and two after it.
pub struct CubicInterpolation {}

impl CubicInterpolation {
    /// The positions `(c0, c1, c2, c3)` read for an index whose integer part
    /// is `cell`: `c1` is `cell` clamped into the sequence, `c0` the sample
    /// before it and `c2`, `c3` the two after it, each clamped into the
    /// sequence.
    pub open spec fn spec_stencil(len: int, cell: int) -> (int, int, int, int) {
        let c1 = clamp_index(len, cell);
        (
            if c1 > 0 { c1 - 1 } else { 0 },
            c1,
            if c1 + 1 < len { c1 + 1 } else { len - 1 },
            if c1 + 2 < len { c1 + 2 } else { len - 1 },
        )
    }

    /// The four sample positions read for an index whose integer part is
    /// `cell`, in a sequence of `len` samples.
    pub fn stencil(len: usize, cell: i64) -> (r: Result<
        (usize, usize, usize, usize),
        InterpolationError,
    >)
        ensures
            len == 0 ==> r == Err::<(usize, usize, usize, usize), InterpolationError>(
                InterpolationError::NoSamples,
            ),
            len > 0 ==> (r matches Ok(c) && (c.0 as int, c.1 as int, c.2 as int, c.3 as int)
                == Self::spec_stencil(len as int, cell as int)),
    {
        if len == 0 {
            return Err(InterpolationError::NoSamples);
        }
        let c1 = clamp_cell(len, cell);
        let c0 = if c1 > 0 {
            c1 - 1
        } else {
            0
        };
        let c2 = if c1 + 1 < len {
            c1 + 1
        } else {
            len - 1
        };
        let c3 = if len - c1 > 2 {
            c1 + 2
        } else {
            len - 1
        };
        Ok((c0, c1, c2, c3))
    }

    /// Every position of the stencil lies in the sequence, and an index past
    /// either end reads exactly what the index clamped into `[0, len - 1]`
    /// reads.
    pub proof fn lemma_stencil_clamped(len: int, cell: int)
        requires
            len > 0,
        ensures
            0 <= Self::spec_stencil(len, cell).0 < len,
            0 <= Self::spec_stencil(len, cell).1 < len,
            0 <= Self::spec_stencil(len, cell).2 < len,
            0 <= Self::spec_stencil(len, cell).3 < len,
            Self::spec_stencil(len, cell) == Self::spec_stencil(len, clamp_index(len, cell)),
    {
    }
}

} // verus!
