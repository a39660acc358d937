//! A single-encoding interval: start, stop (both inclusive), length, and a
//! step that is always 1.  An empty range has `stop == start - 1`, sitting
//! immediately before its own start.

use vstd::prelude::*;

verus! {

/// Mathematical model of a linear range: the same four fields over `int`,
/// free of machine-width concerns.
pub struct LinModel {
    pub start: int,
    pub stop: int,
    pub length: int,
    pub step: int,
}

/// True when `v` fits in an `isize`.
pub open spec fn fits(v: int) -> bool {
    isize::MIN <= v <= isize::MAX
}

/// The model built from a start and a length: `stop = start + length - 1`.
pub open spec fn lin_from_sta_len(start: int, len: int) -> LinModel {
    LinModel { start: start, stop: start + len - 1, length: len, step: 1 }
}

/// The model built from a start and a stop: `length = stop - start + 1`.
pub open spec fn lin_from_sta_sto(start: int, stop: int) -> LinModel {
    LinModel { start: start, stop: stop, length: stop - start + 1, step: 1 }
}

/// The range invariant: the three fields are tied together and the step is 1.
pub open spec fn lin_wf(r: LinModel) -> bool {
    &&& r.length == r.stop - r.start + 1
    &&& r.step == 1
}

/// The two constructors agree: building from a start and a length names the
/// same range as building from that start and the resulting stop.
pub proof fn lemma_constructors_agree(start: int, len: int)
    ensures
        lin_from_sta_len(start, len) == lin_from_sta_sto(start, start + len - 1),
{
}

/// An interval in one encoding's unit space.  `start` and `stop` are both
/// inclusive; a zero-length range has `stop == start - 1`.  `step` is always
/// 1, reserved for future striding.
#[derive(Debug, Clone, Copy, PartialEq, Eq, Structural)]
pub struct SLRange {
    pub start: isize,
    pub stop: isize,
    pub length: isize,
    pub step: isize,
}

impl View for SLRange {
    type V = LinModel;

    open spec fn view(&self) -> LinModel {
        LinModel {
            start: self.start as int,
            stop: self.stop as int,
            length: self.length as int,
            step: self.step as int,
        }
    }
}

impl SLRange {
    /// Build a range from its start and its length.
    pub fn from_sta_len(start: isize, len: isize) -> (r: Self)
        requires
            fits(start + len),
            fits(start + len - 1),
        ensures
            r@ == lin_from_sta_len(start as int, len as int),
            lin_wf(r@),
    {
        SLRange { start: start, length: len, stop: start + len - 1, step: 1 }
    }

    /// Build a range from its start and its stop.
    pub fn from_sta_sto(start: isize, stop: isize) -> (r: Self)
        requires
            fits(stop - start),
            fits(stop - start + 1),
        ensures
            r@ == lin_from_sta_sto(start as int, stop as int),
            lin_wf(r@),
    {
        SLRange { start: start, stop: stop, length: stop - start + 1, step: 1 }
    }
}

} // verus!
