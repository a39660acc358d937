//! A composite range: four linear ranges, one per encoding, all describing
//! the same span of text.  The four operations that produce one — from a
//! point, after a prior range, by replacement, and by shifting after a
//! predecessor — apply identically and independently to each encoding.

use vstd::prelude::*;

verus! {

use crate::range::LinModel;
use crate::range::SLRange;
use crate::range::fits;
use crate::range::lin_from_sta_len;
use crate::range::lin_wf;
use crate::length::LenModel;
use crate::length::SLLength;
use crate::length::zero_len_model;

/// Mathematical model of a composite range: one linear model per encoding.
pub struct SpanModel {
    pub byte: LinModel,
    pub code: LinModel,
    pub char: LinModel,
    pub utf16: LinModel,
}

/// All four sub-ranges satisfy the linear-range invariant.
pub open spec fn span_wf(s: SpanModel) -> bool {
    &&& lin_wf(s.byte)
    &&& lin_wf(s.code)
    &&& lin_wf(s.char)
    &&& lin_wf(s.utf16)
}

/// The model of a composite range starting at one shared point, with each
/// sub-range's length taken from the measurement.
pub open spec fn span_from_point(point: int, len: LenModel) -> SpanModel {
    SpanModel {
        byte: lin_from_sta_len(point, len.byte),
        code: lin_from_sta_len(point, len.code),
        char: lin_from_sta_len(point, len.char),
        utf16: lin_from_sta_len(point, len.utf16),
    }
}

/// The model of a composite range appended immediately after a prior one:
/// each sub-range starts at the prior sub-range's stop plus one.
pub open spec fn span_from_range(prior: SpanModel, len: LenModel) -> SpanModel {
    SpanModel {
        byte: lin_from_sta_len(prior.byte.stop + 1, len.byte),
        code: lin_from_sta_len(prior.code.stop + 1, len.code),
        char: lin_from_sta_len(prior.char.stop + 1, len.char),
        utf16: lin_from_sta_len(prior.utf16.stop + 1, len.utf16),
    }
}

/// The model of replacing a range's content: the starts stay, the lengths
/// come from the new measurement.
pub open spec fn span_replace(r: SpanModel, len: LenModel) -> SpanModel {
    SpanModel {
        byte: lin_from_sta_len(r.byte.start, len.byte),
        code: lin_from_sta_len(r.code.start, len.code),
        char: lin_from_sta_len(r.char.start, len.char),
        utf16: lin_from_sta_len(r.utf16.start, len.utf16),
    }
}

/// The model of shifting a range to sit immediately after a predecessor:
/// the lengths stay, the starts move.
pub open spec fn span_shift_after(r: SpanModel, prev: SpanModel) -> SpanModel {
    SpanModel {
        byte: lin_from_sta_len(prev.byte.stop + 1, r.byte.length),
        code: lin_from_sta_len(prev.code.stop + 1, r.code.length),
        char: lin_from_sta_len(prev.char.stop + 1, r.char.length),
        utf16: lin_from_sta_len(prev.utf16.stop + 1, r.utf16.length),
    }
}

/// The zero composite range: all four sub-ranges zero-length at position 0,
/// the span immediately before the very first character.
pub open spec fn zero_span_model() -> SpanModel {
    span_from_point(0, zero_len_model())
}

/// True when a composite range built from these starts and lengths stays
/// within machine bounds, encoding by encoding.
pub open spec fn sta_len_fits(start: int, len: int) -> bool {
    &&& fits(start + len)
    &&& fits(start + len - 1)
}

/// Four linear ranges in lock-step, one per encoding, all derived from one
/// shared starting point and one shared measurement of the same span.
#[derive(Debug, Clone, Copy, PartialEq, Eq, Structural)]
pub struct SLStringRange {
    pub byte: SLRange,
    pub code: SLRange,
    pub char: SLRange,
    pub utf16: SLRange,
}

impl View for SLStringRange {
    type V = SpanModel;

    open spec fn view(&self) -> SpanModel {
        SpanModel { byte: self.byte@, code: self.code@, char: self.char@, utf16: self.utf16@ }
    }
}

impl SLStringRange {
    /// The zero composite range, the seed for chaining.
    pub fn zero() -> (r: Self)
        ensures
            r@ == zero_span_model(),
            span_wf(r@),
    {
        SLStringRange {
            byte: SLRange::from_sta_len(0, 0),
            code: SLRange::from_sta_len(0, 0),
            char: SLRange::from_sta_len(0, 0),
            utf16: SLRange::from_sta_len(0, 0),
        }
    }

    /// Build a composite range starting at `point` in every encoding, with
    /// each sub-range's length taken from `len`.  The same start value is
    /// used verbatim for all four encodings; no conversion between
    /// encodings happens here.
    pub fn from_point(point: isize, len: SLLength) -> (r: Self)
        requires
            sta_len_fits(point as int, len.byte as int),
            sta_len_fits(point as int, len.code as int),
            sta_len_fits(point as int, len.char as int),
            sta_len_fits(point as int, len.utf16 as int),
        ensures
            r@ == span_from_point(point as int, len@),
            span_wf(r@),
    {
        SLStringRange {
            byte: SLRange::from_sta_len(point, len.byte),
            code: SLRange::from_sta_len(point, len.code),
            char: SLRange::from_sta_len(point, len.char),
            utf16: SLRange::from_sta_len(point, len.utf16),
        }
    }

    /// Build the composite range that comes next: each sub-range starts
    /// immediately after the corresponding sub-range of `range`, one past
    /// its stop, with the lengths taken from `len`.
    pub fn from_range(range: SLStringRange, len: SLLength) -> (r: Self)
        requires
            fits(range.byte.stop + 1),
            fits(range.code.stop + 1),
            fits(range.char.stop + 1),
            fits(range.utf16.stop + 1),
            sta_len_fits(range.byte.stop + 1, len.byte as int),
            sta_len_fits(range.code.stop + 1, len.code as int),
            sta_len_fits(range.char.stop + 1, len.char as int),
            sta_len_fits(range.utf16.stop + 1, len.utf16 as int),
        ensures
            r@ == span_from_range(range@, len@),
            span_wf(r@),
            r.byte.start == range.byte.stop + 1,
            r.code.start == range.code.stop + 1,
            r.char.start == range.char.stop + 1,
            r.utf16.start == range.utf16.stop + 1,
    {
        SLStringRange {
            byte: SLRange::from_sta_len(range.byte.stop + 1, len.byte),
            code: SLRange::from_sta_len(range.code.stop + 1, len.code),
            char: SLRange::from_sta_len(range.char.stop + 1, len.char),
            utf16: SLRange::from_sta_len(range.utf16.stop + 1, len.utf16),
        }
    }

    /// Build the composite range of a span whose content changed in place:
    /// every sub-range keeps its start, and only the stops and lengths
    /// follow the new measurement.
    pub fn replace(range: SLStringRange, len: SLLength) -> (r: Self)
        requires
            sta_len_fits(range.byte.start as int, len.byte as int),
            sta_len_fits(range.code.start as int, len.code as int),
            sta_len_fits(range.char.start as int, len.char as int),
            sta_len_fits(range.utf16.start as int, len.utf16 as int),
        ensures
            r@ == span_replace(range@, len@),
            span_wf(r@),
            r.byte.start == range.byte.start,
            r.code.start == range.code.start,
            r.char.start == range.char.start,
            r.utf16.start == range.utf16.start,
    {
        SLStringRange {
            byte: SLRange::from_sta_len(range.byte.start, len.byte),
            code: SLRange::from_sta_len(range.code.start, len.code),
            char: SLRange::from_sta_len(range.char.start, len.char),
            utf16: SLRange::from_sta_len(range.utf16.start, len.utf16),
        }
    }

    /// Build the composite range of a span whose content is unchanged but
    /// which moved: every sub-range keeps its length and starts immediately
    /// after the corresponding sub-range of `prev`.
    pub fn shift_after(range: SLStringRange, prev: SLStringRange) -> (r: Self)
        requires
            fits(prev.byte.stop + 1),
            fits(prev.code.stop + 1),
            fits(prev.char.stop + 1),
            fits(prev.utf16.stop + 1),
            sta_len_fits(prev.byte.stop + 1, range.byte.length as int),
            sta_len_fits(prev.code.stop + 1, range.code.length as int),
            sta_len_fits(prev.char.stop + 1, range.char.length as int),
            sta_len_fits(prev.utf16.stop + 1, range.utf16.length as int),
        ensures
            r@ == span_shift_after(range@, prev@),
            span_wf(r@),
            r.byte.length == range.byte.length,
            r.code.length == range.code.length,
            r.char.length == range.char.length,
            r.utf16.length == range.utf16.length,
            r.byte.start == prev.byte.stop + 1,
            r.code.start == prev.code.stop + 1,
            r.char.start == prev.char.stop + 1,
            r.utf16.start == prev.utf16.stop + 1,
    {
        SLStringRange {
            byte: SLRange::from_sta_len(prev.byte.stop + 1, range.byte.length),
            code: SLRange::from_sta_len(prev.code.stop + 1, range.code.length),
            char: SLRange::from_sta_len(prev.char.stop + 1, range.char.length),
            utf16: SLRange::from_sta_len(prev.utf16.stop + 1, range.utf16.length),
        }
    }
}

} // verus!
