//! The text of a record: lines, and on each line fields set apart by white
//! space.

use vstd::prelude::*;

verus! {

/// A stretch of a text: the bytes from `start` up to, not including, `end`.
#[derive(Clone, Copy, Debug, PartialEq, Eq, Structural)]
pub struct Span {
    pub start: usize,
    pub end: usize,
}

/// The byte that ends a line.
pub const NEWLINE: u8 = 10;

/// White space: a blank, a tab, a line feed, a form feed or a carriage
/// return.
pub open spec fn is_space(b: u8) -> bool {
    b == 32 || b == 9 || b == 10 || b == 12 || b == 13
}

/// Decides [`is_space`].
pub fn space(b: u8) -> (r: bool)
    ensures
        r == is_space(b),
{
    b == 32 || b == 9 || b == 10 || b == 12 || b == 13
}

/// `spans` are the lines of `text`, in order: a line runs up to the next
/// line feed, which belongs to no line, and the next line starts right
/// after it. What follows the last line feed is a line only if it is not
/// empty.
pub open spec fn lines_of(text: Seq<u8>, spans: Seq<Span>) -> bool {
    &&& (spans.len() == 0) == (text.len() == 0)
    &&& spans.len() > 0 ==> spans[0].start == 0
    &&& forall|i: int|
        0 <= i < spans.len() ==> (#[trigger] spans[i]).start <= spans[i].end <= text.len()
    &&& forall|i: int, p: int|
        0 <= i < spans.len() && (#[trigger] spans[i]).start <= p < spans[i].end ==> #[trigger] text[p]
            != NEWLINE
    &&& forall|i: int|
        0 <= i < spans.len() - 1 ==> (#[trigger] spans[i]).end < text.len() && text[spans[i].end as int]
            == NEWLINE && spans[i + 1].start == spans[i].end + 1
    &&& spans.len() > 0 ==> {
        let last = spans[spans.len() - 1];
        ||| last.end == text.len() && last.start < last.end
        ||| last.end + 1 == text.len() && text[last.end as int] == NEWLINE
    }
}

/// `spans` are the fields of the stretch of `text` from `lo` to `hi`, in
/// order: each field is a run of bytes none of which is white space, as long
/// as it can be, and every byte outside the fields is white space.
#[verifier::opaque]
pub open spec fn fields_of(text: Seq<u8>, lo: int, hi: int, spans: Seq<Span>) -> bool {
    &&& forall|i: int|
        0 <= i < spans.len() ==> lo <= (#[trigger] spans[i]).start < spans[i].end <= hi
    &&& forall|i: int| 0 <= i < spans.len() - 1 ==> (#[trigger] spans[i]).end < spans[i + 1].start
    &&& forall|i: int, p: int|
        0 <= i < spans.len() && (#[trigger] spans[i]).start <= p < spans[i].end ==> !is_space(
            #[trigger] text[p],
        )
    &&& forall|i: int|
        0 <= i < spans.len() ==> (#[trigger] spans[i]).start == lo || is_space(
            text[spans[i].start - 1],
        )
    &&& forall|i: int|
        0 <= i < spans.len() ==> (#[trigger] spans[i]).end == hi || is_space(
            text[spans[i].end as int],
        )
    &&& forall|p: int| lo <= p < hi && !is_space(#[trigger] text[p]) ==> within(spans, p)
}

/// Position `p` lies in one of the spans.
pub open spec fn within(spans: Seq<Span>, p: int) -> bool {
    exists|i: int| 0 <= i < spans.len() && (#[trigger] spans[i]).start <= p < spans[i].end
}

/// Splits a text into its lines.
pub fn split_lines(text: &[u8]) -> (spans: Vec<Span>)
    ensures
        lines_of(text@, spans@),
{
    let len: usize = text.len();
    let mut spans: Vec<Span> = Vec::new();
    let mut p: usize = 0;
    while p < len
        invariant
            p <= len,
            len == text@.len(),
            (spans@.len() == 0) == (p == 0),
            spans@.len() > 0 ==> spans@[0].start == 0,
            forall|i: int|
                0 <= i < spans@.len() ==> (#[trigger] spans@[i]).start <= spans@[i].end < p,
            forall|i: int, q: int|
                0 <= i < spans@.len() && (#[trigger] spans@[i]).start <= q < spans@[i].end
                    ==> #[trigger] text@[q] != NEWLINE,
            forall|i: int|
                0 <= i < spans@.len() - 1 ==> text@[(#[trigger] spans@[i]).end as int] == NEWLINE
                    && spans@[i + 1].start == spans@[i].end + 1,
            spans@.len() > 0 ==> spans@[spans@.len() - 1].end + 1 == p && text@[spans@[spans@.len()
                - 1].end as int] == NEWLINE,
        decreases len - p,
    {
        let start: usize = p;
        while p < len && text[p] != NEWLINE
            invariant
                start <= p <= len,
                len == text@.len(),
                forall|q: int| start <= q < p ==> #[trigger] text@[q] != NEWLINE,
            decreases len - p,
        {
            p += 1;
        }
        let ghost before = spans@;
        spans.push(Span { start, end: p });
        if p < len {
            p += 1;
        } else {
            assert(lines_of(text@, spans@)) by {
                assert(forall|i: int| 0 <= i < before.len() ==> spans@[i] == before[i]);
            }
            return spans;
        }
        assert(forall|i: int| 0 <= i < before.len() ==> spans@[i] == before[i]);
    }
    spans
}

/// Splits the stretch of a text from `lo` to `hi` into its fields.
pub fn split_fields(text: &[u8], lo: usize, hi: usize) -> (spans: Vec<Span>)
    requires
        lo <= hi <= text@.len(),
    ensures
        fields_of(text@, lo as int, hi as int, spans@),
{
    let mut spans: Vec<Span> = Vec::new();
    let mut p: usize = lo;
    proof {
        lemma_fields_none(text@, lo as int);
    }
    while p < hi
        invariant
            lo <= p <= hi <= text@.len(),
            fields_of(text@, lo as int, p as int, spans@),
            p == lo || p == hi || is_space(text@[p - 1]),
        decreases hi - p,
    {
        if space(text[p]) {
            proof {
                lemma_fields_reach(text@, lo as int, p as int, spans@);
            }
            p += 1;
        } else {
            let start: usize = p;
            while p < hi && !space(text[p])
                invariant
                    start <= p <= hi <= text@.len(),
                    forall|q: int| start <= q < p ==> !is_space(#[trigger] text@[q]),
                decreases hi - p,
            {
                p += 1;
            }
            proof {
                lemma_fields_grow(text@, lo as int, start as int, p as int, hi as int, spans@);
            }
            spans.push(Span { start, end: p });
            if p < hi {
                proof {
                    lemma_fields_reach(text@, lo as int, p as int, spans@);
                }
                p += 1;
            }
        }
    }
    spans
}

/// A stretch of no bytes has no fields.
pub proof fn lemma_fields_none(text: Seq<u8>, lo: int)
    ensures
        fields_of(text, lo, lo, Seq::<Span>::empty()),
{
    reveal(fields_of);
}

/// Fields of a stretch stay its fields when the stretch grows by one byte
/// of white space.
pub proof fn lemma_fields_reach(text: Seq<u8>, lo: int, mid: int, spans: Seq<Span>)
    requires
        0 <= lo <= mid < text.len(),
        fields_of(text, lo, mid, spans),
        is_space(text[mid]),
    ensures
        fields_of(text, lo, mid + 1, spans),
{
    reveal(fields_of);
}

/// Fields of a stretch that ends in white space, together with a run of
/// bytes right after it none of which is white space and which white space
/// or the end follows, are the fields of the two stretches joined.
pub proof fn lemma_fields_grow(
    text: Seq<u8>,
    lo: int,
    start: int,
    end: int,
    hi: int,
    spans: Seq<Span>,
)
    requires
        0 <= lo <= start < end <= hi <= text.len(),
        end <= usize::MAX,
        fields_of(text, lo, start, spans),
        start == lo || is_space(text[start - 1]),
        forall|q: int| start <= q < end ==> !is_space(#[trigger] text[q]),
        end == hi || is_space(text[end]),
    ensures
        fields_of(text, lo, end, spans.push(Span { start: start as usize, end: end as usize })),
{
    reveal(fields_of);
    let added = Span { start: start as usize, end: end as usize };
    let grown = spans.push(added);
    assert forall|i: int| 0 <= i < spans.len() implies (#[trigger] spans[i]).end < start by {
        // a field that ended at `start` would have a byte of its own before `start`
        if spans[i].end == start {
            assert(!is_space(text[start - 1]));
        }
    }
    assert forall|i: int| 0 <= i < grown.len() - 1 implies (#[trigger] grown[i]).end < grown[i
        + 1].start by {
        assert(grown[i] == spans[i]);
        if i + 1 < spans.len() {
            assert(grown[i + 1] == spans[i + 1]);
        }
    }
    assert forall|p: int| lo <= p < end && !is_space(#[trigger] text[p]) implies within(
        grown,
        p,
    ) by {
        if p < start {
            assert(within(spans, p));
            let i = choose|i: int|
                0 <= i < spans.len() && (#[trigger] spans[i]).start <= p < spans[i].end;
            assert(grown[i] == spans[i]);
        } else {
            assert(grown[spans.len() as int] == added);
        }
    }
}

} // verus!
