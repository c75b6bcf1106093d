//! Range normalisation: every way of naming a run of rows or columns becomes
//! one half-open pair whose end may still be open.

use std::ops::{Range, RangeFrom, RangeFull, RangeTo};
use vstd::prelude::*;
use vstd::std_specs::convert::FromSpecImpl;

use crate::error::ArrayError;

verus! {

/// `std::ops::RangeFrom`, declared to the verifier as std documents it: a
/// struct whose one field, `start`, is public. Nothing else is claimed of it.
#[verifier::external_type_specification]
#[verifier::reject_recursive_types(Idx)]
pub struct ExRangeFrom<Idx>(RangeFrom<Idx>);

/// `std::ops::RangeTo`, declared to the verifier as std documents it: a
/// struct whose one field, `end`, is public. Nothing else is claimed of it.
#[verifier::external_type_specification]
#[verifier::reject_recursive_types(Idx)]
pub struct ExRangeTo<Idx>(RangeTo<Idx>);

/// `std::ops::RangeFull`, declared to the verifier as std documents it: a
/// struct without fields.
#[verifier::external_type_specification]
pub struct ExRangeFull(RangeFull);

/// A half-open range `[start, end)` along one dimension.
///
/// `end == None` means "up to wherever the dimension ends"; it is filled in
/// only when the range meets an actual array.
#[derive(Debug, Clone, Copy, PartialEq, Eq, Structural)]
pub struct ArrayRange {
    pub start: usize,
    pub end: Option<usize>,
}

impl ArrayRange {
    /// The end of the range once an open end is replaced by `dim`.
    pub open spec fn end_within(self, dim: usize) -> usize {
        match self.end {
            Some(e) => e,
            None => dim,
        }
    }

    /// What the range denotes along a dimension of size `dim`: the pair
    /// `(start, end)` with `start <= end <= dim`, or the reason there is none.
    /// A start beyond the end is reported before an end beyond `dim`.
    pub open spec fn resolution(self, dim: usize) -> Result<(usize, usize), ArrayError> {
        let end = self.end_within(dim);
        if self.start > end {
            Err(ArrayError::InvalidRange)
        } else if end > dim {
            Err(ArrayError::OutOfBounds)
        } else {
            Ok((self.start, end))
        }
    }

    /// Resolves the range against a dimension of size `dim`.
    pub fn resolve(&self, dim: usize) -> (r: Result<(usize, usize), ArrayError>)
        ensures
            r == self.resolution(dim),
    {
        let end: usize = match self.end {
            Some(e) => e,
            None => dim,
        };
        if self.start > end {
            Err(ArrayError::InvalidRange)
        } else if end > dim {
            Err(ArrayError::OutOfBounds)
        } else {
            Ok((self.start, end))
        }
    }
}

/// `a..b` is `[a, b)`.
impl From<Range<usize>> for ArrayRange {
    fn from(r: Range<usize>) -> (ret: ArrayRange) {
        ArrayRange { start: r.start, end: Some(r.end) }
    }
}

impl FromSpecImpl<Range<usize>> for ArrayRange {
    open spec fn obeys_from_spec() -> bool {
        true
    }

    open spec fn from_spec(r: Range<usize>) -> ArrayRange {
        ArrayRange { start: r.start, end: Some(r.end) }
    }
}

/// `..` is `[0, open)`.
impl From<RangeFull> for ArrayRange {
    fn from(r: RangeFull) -> (ret: ArrayRange) {
        ArrayRange { start: 0, end: None }
    }
}

impl FromSpecImpl<RangeFull> for ArrayRange {
    open spec fn obeys_from_spec() -> bool {
        true
    }

    open spec fn from_spec(r: RangeFull) -> ArrayRange {
        ArrayRange { start: 0, end: None }
    }
}

/// `a..` is `[a, open)`.
impl From<RangeFrom<usize>> for ArrayRange {
    fn from(r: RangeFrom<usize>) -> (ret: ArrayRange) {
        ArrayRange { start: r.start, end: None }
    }
}

impl FromSpecImpl<RangeFrom<usize>> for ArrayRange {
    open spec fn obeys_from_spec() -> bool {
        true
    }

    open spec fn from_spec(r: RangeFrom<usize>) -> ArrayRange {
        ArrayRange { start: r.start, end: None }
    }
}

/// `..b` is `[0, b)`.
impl From<RangeTo<usize>> for ArrayRange {
    fn from(r: RangeTo<usize>) -> (ret: ArrayRange) {
        ArrayRange { start: 0, end: Some(r.end) }
    }
}

impl FromSpecImpl<RangeTo<usize>> for ArrayRange {
    open spec fn obeys_from_spec() -> bool {
        true
    }

    open spec fn from_spec(r: RangeTo<usize>) -> ArrayRange {
        ArrayRange { start: 0, end: Some(r.end) }
    }
}

/// A single index `k` is the width-one range `[k, k + 1)`.
///
/// The largest `usize` has no successor; it becomes `[usize::MAX, 0)`, which
/// no dimension accepts.
impl From<usize> for ArrayRange {
    fn from(k: usize) -> (ret: ArrayRange) {
        ArrayRange { start: k, end: Some(k.wrapping_add(1)) }
    }
}

impl FromSpecImpl<usize> for ArrayRange {
    open spec fn obeys_from_spec() -> bool {
        true
    }

    open spec fn from_spec(k: usize) -> ArrayRange {
        ArrayRange {
            start: k,
            end: Some(
                if k < usize::MAX {
                    (k + 1) as usize
                } else {
                    0
                },
            ),
        }
    }
}

} // verus!
