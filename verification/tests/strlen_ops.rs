use strlen::SLLength;
use strlen::SLRange;
use strlen::SLStringRange;
use strlen::length;
use strlen::range_from_point;
use strlen::range_from_range;
use strlen::ranges;
use strlen::replace;
use strlen::shift_after;

#[test]
fn linear_range_from_start_and_length() {
    let r = SLRange::from_sta_len(3, 4);
    assert_eq!(r.start, 3);
    assert_eq!(r.stop, 6);
    assert_eq!(r.length, 4);
    assert_eq!(r.step, 1);
}

#[test]
fn linear_range_constructors_agree() {
    let a = SLRange::from_sta_len(3, 4);
    let b = SLRange::from_sta_sto(3, 6);
    assert_eq!(a, b);
}

#[test]
fn empty_linear_range_precedes_its_start() {
    let r = SLRange::from_sta_len(5, 0);
    assert_eq!(r.start, 5);
    assert_eq!(r.stop, 4);
    assert_eq!(r.length, 0);
}

#[test]
fn measure_ascii() {
    let l = length("a");
    assert_eq!(l, SLLength { byte: 1, code: 1, char: 1, utf16: 1 });
}

#[test]
fn measure_combining_mark_cluster() {
    // 'e' followed by a combining acute accent: one cluster of two scalars.
    let l = length("e\u{301}");
    assert_eq!(l, SLLength { byte: 3, code: 2, char: 1, utf16: 2 });
}

#[test]
fn measure_cjk_scalar() {
    let l = length("\u{5bb6}");
    assert_eq!(l, SLLength { byte: 3, code: 1, char: 1, utf16: 1 });
}

#[test]
fn measure_supplementary_plane_scalar() {
    // A scalar value outside the Basic Multilingual Plane takes two UTF-16
    // units but is a single scalar and a single cluster.
    let l = length("\u{1d11e}");
    assert_eq!(l, SLLength { byte: 4, code: 1, char: 1, utf16: 2 });
}

#[test]
fn measure_counts_are_ordered() {
    for s in ["", "a", "e\u{301}", "\u{5bb6}", "\u{1d11e}", "ab\u{301}c\u{1d11e}"] {
        let l = length(s);
        assert!(l.char <= l.code);
        assert!(l.code <= l.byte);
        assert!(l.code <= l.utf16);
    }
}

#[test]
fn measure_empty_is_zero() {
    assert_eq!(length(""), SLLength::zero());
    assert_eq!(SLLength::zero(), SLLength { byte: 0, code: 0, char: 0, utf16: 0 });
}

#[test]
fn zero_composite_range_sits_before_position_zero() {
    let z = SLStringRange::zero();
    for r in [z.byte, z.code, z.char, z.utf16] {
        assert_eq!(r.start, 0);
        assert_eq!(r.stop, -1);
        assert_eq!(r.length, 0);
    }
}

#[test]
fn range_from_point_defaults_to_zero() {
    let l = length("e\u{301}");
    let r = range_from_point(l, None);
    assert_eq!(r.byte, SLRange::from_sta_len(0, 3));
    assert_eq!(r.code, SLRange::from_sta_len(0, 2));
    assert_eq!(r.char, SLRange::from_sta_len(0, 1));
    assert_eq!(r.utf16, SLRange::from_sta_len(0, 2));
}

#[test]
fn range_from_point_uses_given_point_in_every_encoding() {
    let l = length("ab");
    let r = range_from_point(l, Some(7));
    for lin in [r.byte, r.code, r.char, r.utf16] {
        assert_eq!(lin.start, 7);
        assert_eq!(lin.stop, 8);
        assert_eq!(lin.length, 2);
    }
}

#[test]
fn range_from_range_starts_one_past_each_stop() {
    let first = range_from_point(length("e\u{301}"), None);
    let l = length("\u{5bb6}");
    let r = range_from_range(l, first);
    assert_eq!(r.byte.start, first.byte.stop + 1);
    assert_eq!(r.code.start, first.code.stop + 1);
    assert_eq!(r.char.start, first.char.stop + 1);
    assert_eq!(r.utf16.start, first.utf16.stop + 1);
    assert_eq!(r.byte, SLRange::from_sta_len(3, 3));
    assert_eq!(r.char, SLRange::from_sta_len(1, 1));
}

#[test]
fn replace_keeps_starts_and_takes_new_lengths() {
    let r = range_from_point(length("abcd"), Some(10));
    let replaced = replace(r, "e\u{301}");
    assert_eq!(replaced.byte.start, r.byte.start);
    assert_eq!(replaced.code.start, r.code.start);
    assert_eq!(replaced.char.start, r.char.start);
    assert_eq!(replaced.utf16.start, r.utf16.start);
    assert_eq!(replaced.byte.length, 3);
    assert_eq!(replaced.code.length, 2);
    assert_eq!(replaced.char.length, 1);
    assert_eq!(replaced.utf16.length, 2);
    assert_eq!(replaced.byte.stop, 12);
}

#[test]
fn shift_after_keeps_lengths_and_moves_starts() {
    let moved = range_from_point(length("xy"), Some(0));
    let pred = range_from_point(length("e\u{301}abc"), Some(3));
    let shifted = shift_after(moved, pred);
    assert_eq!(shifted.byte.length, moved.byte.length);
    assert_eq!(shifted.code.length, moved.code.length);
    assert_eq!(shifted.char.length, moved.char.length);
    assert_eq!(shifted.utf16.length, moved.utf16.length);
    assert_eq!(shifted.byte.start, pred.byte.stop + 1);
    assert_eq!(shifted.code.start, pred.code.stop + 1);
    assert_eq!(shifted.char.start, pred.char.stop + 1);
    assert_eq!(shifted.utf16.start, pred.utf16.stop + 1);
}

#[test]
fn sequence_of_one_segment_is_plain_append() {
    let start = range_from_point(length("abc"), None);
    let out = ranges(vec!["e\u{301}\u{5bb6}"], start);
    assert_eq!(out.len(), 1);
    assert_eq!(out[0], range_from_range(length("e\u{301}\u{5bb6}"), start));
}

#[test]
fn sequence_composes_segment_by_segment() {
    let start = SLStringRange::zero();
    let out = ranges(vec!["ab", "e\u{301}"], start);
    assert_eq!(out.len(), 2);
    let first = ranges(vec!["ab"], start);
    assert_eq!(out[0], first[0]);
    assert_eq!(out[1], range_from_range(length("e\u{301}"), first[0]));
}

#[test]
fn sequence_concrete_three_segments() {
    let out = ranges(vec!["a", "e\u{301}", "\u{5bb6}"], SLStringRange::zero());
    assert_eq!(out.len(), 3);
    let byte_starts: Vec<isize> = out.iter().map(|r| r.byte.start).collect();
    let byte_stops: Vec<isize> = out.iter().map(|r| r.byte.stop).collect();
    let char_starts: Vec<isize> = out.iter().map(|r| r.char.start).collect();
    let char_stops: Vec<isize> = out.iter().map(|r| r.char.stop).collect();
    assert_eq!(byte_starts, vec![0, 1, 4]);
    assert_eq!(byte_stops, vec![0, 3, 6]);
    assert_eq!(char_starts, vec![0, 1, 2]);
    assert_eq!(char_stops, vec![0, 1, 2]);
}

#[test]
fn sequence_keeps_empty_segments() {
    let out = ranges(vec!["ab", "", "c"], SLStringRange::zero());
    assert_eq!(out.len(), 3);
    assert_eq!(out[1].byte.length, 0);
    assert_eq!(out[1].byte.start, out[0].byte.stop + 1);
    assert_eq!(out[1].byte.stop, out[0].byte.stop);
    assert_eq!(out[1].char.length, 0);
    assert_eq!(out[1].char.start, out[0].char.stop + 1);
    assert_eq!(out[2].byte.start, out[1].byte.stop + 1);
    assert_eq!(out[2].byte.stop, 2);
}

#[test]
fn sequence_of_no_segments_is_empty() {
    let out = ranges(vec![], SLStringRange::zero());
    assert!(out.is_empty());
}

#[test]
fn sequence_order_matters() {
    let a = ranges(vec!["a", "\u{5bb6}"], SLStringRange::zero());
    let b = ranges(vec!["\u{5bb6}", "a"], SLStringRange::zero());
    assert_ne!(a, b);
    assert_eq!(a[1].byte.stop, b[1].byte.stop);
}
