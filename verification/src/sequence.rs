//! The sequencer: fold an ordered list of text segments into the list of
//! adjacent composite ranges they would occupy if concatenated immediately
//! after a starting range.

use vstd::prelude::*;

verus! {

use vstd::utf8::encode_utf8;
use crate::length::LenModel;
use crate::length::SLLength;
use crate::length::len_model;
use crate::string_range::SLStringRange;
use crate::string_range::SpanModel;
use crate::string_range::span_from_range;

/// Total UTF-8 storage units of a list of segments.
pub open spec fn total_units(ss: Seq<&str>) -> int
    decreases ss.len(),
{
    if ss.len() == 0 {
        0
    } else {
        encode_utf8(ss[0]@).len() + total_units(ss.drop_first())
    }
}

/// The measurement models of a list of segments, in order.
pub open spec fn len_models(ss: Seq<&str>) -> Seq<LenModel> {
    Seq::new(ss.len(), |i: int| len_model(ss[i]@))
}

/// The predecessor a chained range starts after: the last range produced so
/// far, or the starting range when none has been.
pub open spec fn chain_prev(produced: Seq<SpanModel>, start: SpanModel) -> SpanModel {
    if produced.len() == 0 {
        start
    } else {
        produced.last()
    }
}

/// The model of the sequencer: each measurement in turn is appended
/// immediately after the previous result, `start` seeding the first.
pub open spec fn span_chain(lens: Seq<LenModel>, start: SpanModel) -> Seq<SpanModel>
    decreases lens.len(),
{
    if lens.len() == 0 {
        Seq::empty()
    } else {
        let produced = span_chain(lens.drop_last(), start);
        produced.push(span_from_range(chain_prev(produced, start), lens.last()))
    }
}

/// The chain has one range per measurement.
pub proof fn lemma_chain_len(lens: Seq<LenModel>, start: SpanModel)
    ensures
        span_chain(lens, start).len() == lens.len(),
    decreases lens.len(),
{
    if lens.len() > 0 {
        lemma_chain_len(lens.drop_last(), start);
    }
}

/// Each range of the chain is the one appended after its predecessor: the
/// previous range of the chain, or `start` for the first.
pub proof fn lemma_chain_index(lens: Seq<LenModel>, start: SpanModel, i: int)
    requires
        0 <= i < lens.len(),
    ensures
        span_chain(lens, start).len() == lens.len(),
        span_chain(lens, start)[i] == span_from_range(
            if i == 0 {
                start
            } else {
                span_chain(lens, start)[i - 1]
            },
            lens[i],
        ),
    decreases lens.len(),
{
    lemma_chain_len(lens, start);
    let produced = span_chain(lens.drop_last(), start);
    lemma_chain_len(lens.drop_last(), start);
    if i == lens.len() - 1 {
        if i > 0 {
            assert(span_chain(lens, start)[i - 1] == produced[i - 1]);
        }
    } else {
        lemma_chain_index(lens.drop_last(), start, i);
        assert(span_chain(lens, start)[i] == produced[i]);
        if i > 0 {
            assert(span_chain(lens, start)[i - 1] == produced[i - 1]);
        }
    }
}

/// Chaining a single segment is the plain append: the one range produced
/// from `start` and the segment's measurement.
pub proof fn lemma_sequence_single(m: LenModel, start: SpanModel)
    ensures
        span_chain(seq![m], start).len() == 1,
        span_chain(seq![m], start)[0] == span_from_range(start, m),
{
    let empty = Seq::<LenModel>::empty();
    assert(span_chain(empty, start) =~= Seq::<SpanModel>::empty());
    assert(seq![m].drop_last() =~= empty);
    assert(seq![m].last() == m);
    assert(span_chain(seq![m], start) == span_chain(empty, start).push(
        span_from_range(chain_prev(span_chain(empty, start), start), m),
    ));
}

/// Sequencing composes: the second range of chaining two segments is the
/// range appended after the first, which is itself the chain of the first
/// segment alone.
pub proof fn lemma_sequence_composes(m1: LenModel, m2: LenModel, start: SpanModel)
    ensures
        span_chain(seq![m1, m2], start).len() == 2,
        span_chain(seq![m1, m2], start)[1] == span_from_range(
            span_chain(seq![m1], start)[0],
            m2,
        ),
{
    lemma_sequence_single(m1, start);
    assert(seq![m1, m2].drop_last() =~= seq![m1]);
    assert(seq![m1, m2].last() == m2);
    assert(span_chain(seq![m1, m2], start) == span_chain(seq![m1], start).push(
        span_from_range(chain_prev(span_chain(seq![m1], start), start), m2),
    ));
}

/// The total unit count of a list is never negative.
proof fn lemma_total_units_nonneg(ss: Seq<&str>)
    ensures
        0 <= total_units(ss),
    decreases ss.len(),
{
    if ss.len() > 0 {
        lemma_total_units_nonneg(ss.drop_first());
    }
}

/// Splitting off the segment at `i`: the units of the suffix from `i` are
/// that segment's units plus the units of the suffix from `i + 1`.
proof fn lemma_total_units_skip(ss: Seq<&str>, i: int)
    requires
        0 <= i < ss.len(),
    ensures
        total_units(ss.skip(i)) == encode_utf8(ss[i]@).len() + total_units(ss.skip(i + 1)),
{
    assert(ss.skip(i)[0] == ss[i]);
    assert(ss.skip(i).drop_first() =~= ss.skip(i + 1));
}

/// Fold the segments into consecutive composite ranges: each segment is
/// measured and appended immediately after the previous result, `r` seeding
/// the first.  A segment of empty text yields a zero-length range placed
/// right after its predecessor, not skipped; the output always has one
/// range per segment.
pub fn ranges(strings: Vec<&str>, r: SLStringRange) -> (result: Vec<SLStringRange>)
    requires
        total_units(strings@) <= isize::MAX,
        r.byte.stop + 1 + total_units(strings@) <= isize::MAX,
        r.code.stop + 1 + total_units(strings@) <= isize::MAX,
        r.char.stop + 1 + total_units(strings@) <= isize::MAX,
        r.utf16.stop + 1 + total_units(strings@) <= isize::MAX,
    ensures
        result@.len() == strings@.len(),
        forall|i: int|
            0 <= i < strings@.len() ==> result@[i]@ == span_chain(len_models(strings@), r@)[i],
        forall|i: int|
            0 <= i < strings@.len() ==> result@[i]@ == span_from_range(
                if i == 0 {
                    r@
                } else {
                    result@[i - 1]@
                },
                len_model(strings@[i]@),
            ),
        forall|i: int|
            0 <= i < strings@.len() && strings@[i]@.len() == 0 ==> result@[i].byte.length == 0
                && result@[i].code.length == 0 && result@[i].char.length == 0
                && result@[i].utf16.length == 0,
{
    let ghost ms = len_models(strings@);
    proof {
        assert(strings@.skip(0) =~= strings@);
    }
    let mut result: Vec<SLStringRange> = Vec::new();
    let mut range: SLStringRange = r;
    let n: usize = strings.len();
    let mut i: usize = 0;
    while i < n
        invariant
            n == strings@.len(),
            0 <= i <= n,
            ms == len_models(strings@),
            result@.len() == i,
            forall|j: int| 0 <= j < i ==> result@[j]@ == span_chain(ms, r@)[j],
            forall|j: int|
                0 <= j < i && strings@[j]@.len() == 0 ==> result@[j].byte.length == 0
                    && result@[j].code.length == 0 && result@[j].char.length == 0
                    && result@[j].utf16.length == 0,
            range@ == (if i == 0 {
                r@
            } else {
                span_chain(ms, r@)[i - 1]
            }),
            total_units(strings@.skip(i as int)) <= isize::MAX,
            range.byte.stop + 1 + total_units(strings@.skip(i as int)) <= isize::MAX,
            range.code.stop + 1 + total_units(strings@.skip(i as int)) <= isize::MAX,
            range.char.stop + 1 + total_units(strings@.skip(i as int)) <= isize::MAX,
            range.utf16.stop + 1 + total_units(strings@.skip(i as int)) <= isize::MAX,
        decreases n - i,
    {
        let section: &str = strings[i];
        proof {
            lemma_total_units_skip(strings@, i as int);
            lemma_total_units_nonneg(strings@.skip(i as int + 1));
        }
        let len = SLLength::new(section);
        let new_range = SLStringRange::from_range(range, len);
        proof {
            lemma_chain_index(ms, r@, i as int);
        }
        result.push(new_range);
        range = new_range;
        i = i + 1;
        proof {
            assert(strings@.skip(i - 1).drop_first() =~= strings@.skip(i as int));
        }
    }
    proof {
        assert(strings@.skip(n as int) =~= Seq::<&str>::empty());
        lemma_chain_len(ms, r@);
        if n > 0 {
            assert forall|i: int| 0 <= i < strings@.len() implies result@[i]@ == span_from_range(
                if i == 0 {
                    r@
                } else {
                    result@[i - 1]@
                },
                len_model(strings@[i]@),
            ) by {
                lemma_chain_index(ms, r@, i);
            }
        }
    }
    result
}

} // verus!
