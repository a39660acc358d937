//! The four simultaneous length measures of one text value: UTF-8 storage
//! units, Unicode scalar values, extended grapheme clusters, and UTF-16 code
//! units.

use vstd::prelude::*;

verus! {

use unicode_segmentation::UnicodeSegmentation;
use vstd::utf8::encode_utf8;
use vstd::utf8::encode_scalar;
use vstd::string::StrSliceExecFns;
use vstd::string::StringSliceAdditionalSpecFns;
use vstd::std_specs::iter::IteratorSpec;

broadcast use vstd::string::group_string_axioms;

/// UTF-16 code units taken by one scalar value: one inside the Basic
/// Multilingual Plane, two outside it.
pub open spec fn utf16_len_char(c: char) -> int {
    if (c as u32) < 0x10000 {
        1
    } else {
        2
    }
}

/// UTF-16 code units taken by a character sequence.
pub open spec fn utf16_len(s: Seq<char>) -> int
    decreases s.len(),
{
    if s.len() == 0 {
        0
    } else {
        utf16_len_char(s[0]) + utf16_len(s.drop_first())
    }
}

/// The number of extended grapheme clusters of a character sequence, as the
/// cluster-boundary rules determine it; a function of the characters alone.
pub uninterp spec fn grapheme_count(s: Seq<char>) -> nat;

/// One scalar value takes between one and four UTF-8 bytes, never fewer
/// bytes than its UTF-16 unit count, and one or two UTF-16 units.
proof fn lemma_scalar_widths(c: char)
    ensures
        1 <= encode_scalar(c as u32).len() <= 4,
        utf16_len_char(c) <= encode_scalar(c as u32).len(),
        1 <= utf16_len_char(c) <= 2,
{
    broadcast use vstd::utf8::char_is_scalar;

}

/// Ordering of three of the measures: a text never has more scalar values
/// than UTF-16 units, nor more UTF-16 units than UTF-8 bytes.
pub proof fn lemma_measure_order(s: Seq<char>)
    ensures
        s.len() <= utf16_len(s),
        utf16_len(s) <= encode_utf8(s).len(),
        s.len() <= encode_utf8(s).len(),
    decreases s.len(),
{
    if s.len() > 0 {
        lemma_scalar_widths(s[0]);
        lemma_measure_order(s.drop_first());
    }
}

/// Appending one character adds exactly its own UTF-16 unit count.
proof fn lemma_utf16_len_push(t: Seq<char>, c: char)
    ensures
        utf16_len(t.push(c)) == utf16_len(t) + utf16_len_char(c),
    decreases t.len(),
{
    if t.len() == 0 {
        assert(t.push(c)[0] == c);
        assert(t.push(c).drop_first() =~= Seq::<char>::empty());
        assert(utf16_len(t.push(c)) == utf16_len_char(c) + utf16_len(Seq::<char>::empty()));
    } else {
        assert(t.push(c)[0] == t[0]);
        assert(t.push(c).drop_first() =~= t.drop_first().push(c));
        lemma_utf16_len_push(t.drop_first(), c);
        assert(utf16_len(t.push(c)) == utf16_len_char(t[0]) + utf16_len(t.drop_first().push(c)));
    }
}

/// Extending a prefix by one character adds that character's unit count.
proof fn lemma_utf16_take_succ(s: Seq<char>, i: int)
    requires
        0 <= i < s.len(),
    ensures
        utf16_len(s.take(i + 1)) == utf16_len(s.take(i)) + utf16_len_char(s[i]),
{
    assert(s.take(i + 1) =~= s.take(i).push(s[i]));
    lemma_utf16_len_push(s.take(i), s[i]);
}

/// A prefix never has more UTF-16 units than the whole sequence.
proof fn lemma_utf16_take_le(s: Seq<char>, i: int)
    requires
        0 <= i <= s.len(),
    ensures
        utf16_len(s.take(i)) <= utf16_len(s),
    decreases s.len() - i,
{
    if i == s.len() {
        assert(s.take(i) =~= s);
    } else {
        lemma_utf16_take_succ(s, i);
        lemma_scalar_widths(s[i]);
        lemma_utf16_take_le(s, i + 1);
    }
}

/// Count the UTF-16 code units the text would occupy, by one scan of its
/// characters.
fn utf16_unit_count(s: &str) -> (r: usize)
    requires
        utf16_len(s@) <= usize::MAX,
    ensures
        r == utf16_len(s@),
{
    let mut it = s.chars();
    let mut count: usize = 0;
    let ghost mut i: int = 0;
    loop
        invariant
            0 <= i <= s@.len(),
            it.remaining() == s@.skip(i),
            it.obeys_prophetic_iter_laws(),
            count == utf16_len(s@.take(i)),
            utf16_len(s@) <= usize::MAX,
        ensures
            count == utf16_len(s@),
        decreases s@.len() - i,
    {
        match it.next() {
            Some(c) => {
                proof {
                    assert(s@.skip(i)[0] == s@[i]);
                    assert(s@.skip(i).drop_first() =~= s@.skip(i + 1));
                    lemma_utf16_take_succ(s@, i);
                    lemma_utf16_take_le(s@, i + 1);
                }
                if (c as u32) < 0x10000 {
                    count = count + 1;
                } else {
                    count = count + 2;
                }
                proof {
                    i = i + 1;
                }
            },
            None => {
                proof {
                    assert(s@.skip(i).len() == 0);
                    assert(s@.take(i) =~= s@);
                }
                break ;
            },
        }
    }
    count
}

/// Relies on unicode_segmentation's `UnicodeSegmentation::graphemes` with
/// extended clusters selected: it yields the non-empty extended grapheme
/// clusters of the text in order, so their number is at most the number of
/// scalar values, and the split depends on the characters alone.
#[verifier::external_body]
fn grapheme_cluster_count(s: &str) -> (r: usize)
    ensures
        r == grapheme_count(s@),
        r <= s@.len(),
        s@.len() == 0 ==> r == 0,
{
    s.graphemes(true).count()
}

/// Mathematical model of a measurement: the four counts over `int`.
pub struct LenModel {
    pub byte: int,
    pub code: int,
    pub char: int,
    pub utf16: int,
}

/// The model of measuring a character sequence.
pub open spec fn len_model(s: Seq<char>) -> LenModel {
    LenModel {
        byte: encode_utf8(s).len() as int,
        code: s.len() as int,
        char: grapheme_count(s) as int,
        utf16: utf16_len(s),
    }
}

/// The zero measurement: the measure of the empty text.
pub open spec fn zero_len_model() -> LenModel {
    LenModel { byte: 0, code: 0, char: 0, utf16: 0 }
}

/// The four-way length of one text value: `byte` counts UTF-8 storage units,
/// `code` counts Unicode scalar values, `char` counts extended grapheme
/// clusters, and `utf16` counts UTF-16 code units.
#[derive(Debug, Clone, Copy, PartialEq, Eq, Structural)]
pub struct SLLength {
    pub byte: isize,
    pub code: isize,
    pub char: isize,
    pub utf16: isize,
}

impl View for SLLength {
    type V = LenModel;

    open spec fn view(&self) -> LenModel {
        LenModel {
            byte: self.byte as int,
            code: self.code as int,
            char: self.char as int,
            utf16: self.utf16 as int,
        }
    }
}

impl SLLength {
    /// Measure a text value in all four encodings by one full scan.
    ///
    /// The counts are ordered: clusters never outnumber scalar values,
    /// scalar values never outnumber UTF-8 bytes nor UTF-16 units, and the
    /// empty text measures zero in all four.
    pub fn new(s: &str) -> (r: Self)
        requires
            encode_utf8(s@).len() <= isize::MAX,
        ensures
            r@ == len_model(s@),
            0 <= r.char <= r.code,
            r.code <= r.byte,
            r.code <= r.utf16,
            r.utf16 <= r.byte,
            s@.len() == 0 ==> r.byte == 0 && r.code == 0 && r.char == 0 && r.utf16 == 0,
    {
        proof {
            lemma_measure_order(s@);
        }
        let byte_n: usize = s.len();
        let code_n: usize = s.unicode_len();
        let char_n: usize = grapheme_cluster_count(s);
        let utf16_n: usize = utf16_unit_count(s);
        SLLength {
            byte: byte_n as isize,
            code: code_n as isize,
            char: char_n as isize,
            utf16: utf16_n as isize,
        }
    }

    /// The zero measurement, all four counts 0.
    pub fn zero() -> (r: Self)
        ensures
            r@ == zero_len_model(),
    {
        SLLength { byte: 0, code: 0, char: 0, utf16: 0 }
    }
}

} // verus!
