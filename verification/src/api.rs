//! The boundary operations, as plain functions: measure a text, build a
//! range from a point or after a prior range, replace a range's content by
//! newly measured text, and shift a range after a predecessor.

use vstd::prelude::*;

verus! {

use vstd::utf8::encode_utf8;
use crate::length::SLLength;
use crate::length::len_model;
use crate::range::fits;
use crate::string_range::SLStringRange;
use crate::string_range::span_from_point;
use crate::string_range::span_from_range;
use crate::string_range::span_replace;
use crate::string_range::span_shift_after;
use crate::string_range::span_wf;
use crate::string_range::sta_len_fits;

/// The starting offset a caller asked for: the given point, or 0 when none
/// was given.
pub open spec fn point_of(point: Option<isize>) -> int {
    match point {
        Some(p) => p as int,
        None => 0,
    }
}

/// Build a composite range at the given point (0 when absent), with the
/// lengths of `len`.
pub fn range_from_point(len: SLLength, point: Option<isize>) -> (r: SLStringRange)
    requires
        sta_len_fits(point_of(point), len.byte as int),
        sta_len_fits(point_of(point), len.code as int),
        sta_len_fits(point_of(point), len.char as int),
        sta_len_fits(point_of(point), len.utf16 as int),
    ensures
        r@ == span_from_point(point_of(point), len@),
        span_wf(r@),
{
    let p: isize = match point {
        Some(p) => p,
        None => 0,
    };
    SLStringRange::from_point(p, len)
}

/// Build the composite range that follows `range`, with the lengths of
/// `len`.
pub fn range_from_range(len: SLLength, range: SLStringRange) -> (r: SLStringRange)
    requires
        fits(range.byte.stop + 1),
        fits(range.code.stop + 1),
        fits(range.char.stop + 1),
        fits(range.utf16.stop + 1),
        sta_len_fits(range.byte.stop + 1, len.byte as int),
        sta_len_fits(range.code.stop + 1, len.code as int),
        sta_len_fits(range.char.stop + 1, len.char as int),
        sta_len_fits(range.utf16.stop + 1, len.utf16 as int),
    ensures
        r@ == span_from_range(range@, len@),
        span_wf(r@),
{
    SLStringRange::from_range(range, len)
}

/// Measure a text value in all four encodings.
pub fn length(string: &str) -> (r: SLLength)
    requires
        encode_utf8(string@).len() <= isize::MAX,
    ensures
        r@ == len_model(string@),
        0 <= r.char <= r.code,
        r.code <= r.byte,
        r.code <= r.utf16,
{
    SLLength::new(string)
}

/// Measure `string` and rebuild `range` with the new lengths: every
/// sub-range keeps its start, and only the stops and lengths change.
pub fn replace(range: SLStringRange, string: &str) -> (r: SLStringRange)
    requires
        encode_utf8(string@).len() <= isize::MAX,
        isize::MIN < range.byte.start,
        isize::MIN < range.code.start,
        isize::MIN < range.char.start,
        isize::MIN < range.utf16.start,
        range.byte.start + encode_utf8(string@).len() <= isize::MAX,
        range.code.start + encode_utf8(string@).len() <= isize::MAX,
        range.char.start + encode_utf8(string@).len() <= isize::MAX,
        range.utf16.start + encode_utf8(string@).len() <= isize::MAX,
    ensures
        r@ == span_replace(range@, len_model(string@)),
        span_wf(r@),
        r.byte.start == range.byte.start,
        r.code.start == range.code.start,
        r.char.start == range.char.start,
        r.utf16.start == range.utf16.start,
{
    let len = SLLength::new(string);
    SLStringRange::replace(range, len)
}

/// Move `range` to sit immediately after `prev`, keeping its lengths.
pub fn shift_after(range: SLStringRange, prev: SLStringRange) -> (r: SLStringRange)
    requires
        fits(prev.byte.stop + 1),
        fits(prev.code.stop + 1),
        fits(prev.char.stop + 1),
        fits(prev.utf16.stop + 1),
        sta_len_fits(prev.byte.stop + 1, range.byte.length as int),
        sta_len_fits(prev.code.stop + 1, range.code.length as int),
        sta_len_fits(prev.char.stop + 1, range.char.length as int),
        sta_len_fits(prev.utf16.stop + 1, range.utf16.length as int),
    ensures
        r@ == span_shift_after(range@, prev@),
        span_wf(r@),
{
    SLStringRange::shift_after(range, prev)
}

} // verus!
