//! Translation between (line, column) positions and byte offsets.

use vstd::prelude::*;
use vstd::string::StringSliceAdditionalSpecFns;

verus! {

/// A begin/end (row, column) range in a source text.
#[derive(Debug, Clone, Copy)]
pub struct SSourceSpan {
    pub begin_row: u32,
    pub begin_col: u32,
    pub end_row: u32,
    pub end_col: u32,
}

/// The byte value of a line break.
pub const LINE_BREAK: u8 = 10;

/// The offsets of the line breaks of `text`, in increasing order.
pub open spec fn newline_offsets(text: Seq<u8>) -> Seq<int>
    decreases text.len(),
{
    if text.len() == 0 {
        Seq::empty()
    } else if text.last() == LINE_BREAK {
        newline_offsets(text.drop_last()).push(text.len() - 1)
    } else {
        newline_offsets(text.drop_last())
    }
}

/// No offset is negative and each is larger than the one before it.
pub open spec fn strictly_increasing(breaks: Seq<int>) -> bool {
    &&& forall|i: int| 0 <= i < breaks.len() ==> 0 <= #[trigger] breaks[i]
    &&& forall|i: int, j: int| 0 <= i < j < breaks.len() ==> breaks[i] < breaks[j]
}

/// The offset at which line `line` starts.
pub open spec fn line_start(breaks: Seq<int>, line: int) -> int
    recommends
        0 <= line <= breaks.len(),
{
    if line == 0 {
        0
    } else {
        breaks[line - 1] + 1
    }
}

/// The byte offset of (`line`, `col`): none when the line lies past the last
/// line break, or when the offset does not fit in 32 bits.
pub open spec fn offset_of(breaks: Seq<int>, line: int, col: int) -> Option<int> {
    if line < 0 || line > breaks.len() {
        None
    } else if line_start(breaks, line) + col > u32::MAX {
        None
    } else {
        Some(line_start(breaks, line) + col)
    }
}

/// The number of line breaks that lie strictly before `offset`.
pub open spec fn lines_before(breaks: Seq<int>, offset: int) -> int
    decreases breaks.len(),
{
    if breaks.len() == 0 {
        0
    } else if breaks.last() < offset {
        breaks.len() as int
    } else {
        lines_before(breaks.drop_last(), offset)
    }
}

/// The (line, column) position of `offset`.
pub open spec fn position_of(breaks: Seq<int>, offset: int) -> (int, int) {
    let line = lines_before(breaks, offset);
    (line, offset - line_start(breaks, line))
}

/// (`line`, `col`) names a byte of line `line`, its line break included, or
/// any column of the last line.
pub open spec fn valid_position(breaks: Seq<int>, line: int, col: int) -> bool {
    &&& 0 <= line <= breaks.len()
    &&& 0 <= col
    &&& line < breaks.len() ==> line_start(breaks, line) + col <= breaks[line]
}

/// The line breaks of a text are offsets into it, in increasing order.
pub proof fn lemma_newline_offsets_bounds(text: Seq<u8>)
    ensures
        newline_offsets(text).len() <= text.len(),
        forall|i: int|
            0 <= i < newline_offsets(text).len() ==> 0 <= #[trigger] newline_offsets(text)[i]
                < text.len(),
        forall|i: int, j: int|
            0 <= i < j < newline_offsets(text).len() ==> newline_offsets(text)[i]
                < newline_offsets(text)[j],
    decreases text.len(),
{
    if text.len() > 0 {
        lemma_newline_offsets_bounds(text.drop_last());
    }
}

/// In an increasing sequence, `lines_before` is the index that parts the
/// offsets below `offset` from the others.
pub proof fn lemma_lines_before_is_partition(breaks: Seq<int>, offset: int, k: int)
    requires
        strictly_increasing(breaks),
        0 <= k <= breaks.len(),
        forall|i: int| 0 <= i < k ==> breaks[i] < offset,
        forall|i: int| k <= i < breaks.len() ==> breaks[i] >= offset,
    ensures
        lines_before(breaks, offset) == k,
    decreases breaks.len(),
{
    if breaks.len() > 0 && !(breaks.last() < offset) {
        lemma_lines_before_is_partition(breaks.drop_last(), offset, k);
    }
}

/// Translating a valid position to its byte offset and back gives the
/// position again. The offset is the start of the line and the column; it
/// is the result of `offset_of` wherever it fits in 32 bits, and a position
/// that has an offset gets itself back from it.
pub proof fn lemma_position_round_trip(breaks: Seq<int>, line: int, col: int)
    requires
        strictly_increasing(breaks),
        valid_position(breaks, line, col),
    ensures
        position_of(breaks, line_start(breaks, line) + col) == (line, col),
        line_start(breaks, line) + col <= u32::MAX <==> offset_of(breaks, line, col) is Some,
        offset_of(breaks, line, col) is Some ==> position_of(
            breaks,
            offset_of(breaks, line, col).unwrap(),
        ) == (line, col),
{
    let offset = line_start(breaks, line) + col;
    lemma_lines_before_is_partition(breaks, offset, line);
}

/// No position on a line past the last line break has a byte offset.
pub proof fn lemma_line_out_of_range(breaks: Seq<int>, line: int, col: int)
    requires
        line > breaks.len(),
    ensures
        offset_of(breaks, line, col) is None,
{
}

/// The line breaks of one text.
#[derive(Debug)]
pub struct SpanSource {
    line_breaks: Vec<usize>,
}

impl View for SpanSource {
    type V = Seq<int>;

    /// The offsets of the line breaks, in the order of the text.
    closed spec fn view(&self) -> Seq<int> {
        self.line_breaks@.map_values(|b: usize| b as int)
    }
}

impl SpanSource {
    #[verifier::type_invariant]
    pub closed spec fn wf(&self) -> bool {
        strictly_increasing(self@)
    }

    /// The line breaks are offsets in increasing order.
    pub proof fn lemma_increasing(&self)
        requires
            self.wf(),
        ensures
            strictly_increasing(self@),
    {
    }

    /// Collects the line breaks of `contents`.
    pub fn new(contents: &str) -> (source: Self)
        ensures
            source@ == newline_offsets(contents.spec_bytes()),
            source.wf(),
    {
        let bytes = contents.as_bytes();
        let mut line_breaks: Vec<usize> = Vec::new();
        let mut i: usize = 0;
        while i < bytes.len()
            invariant
                i <= bytes.len(),
                line_breaks@.map_values(|b: usize| b as int) == newline_offsets(
                    bytes@.take(i as int),
                ),
            decreases bytes.len() - i,
        {
            let ghost before = line_breaks@.map_values(|b: usize| b as int);
            proof {
                assert(bytes@.take(i + 1).drop_last() == bytes@.take(i as int));
            }
            if bytes[i] == LINE_BREAK {
                line_breaks.push(i);
                assert(line_breaks@.map_values(|b: usize| b as int) == before.push(i as int));
            }
            i += 1;
        }
        proof {
            assert(bytes@.take(i as int) == bytes@);
            lemma_newline_offsets_bounds(bytes@);
        }
        SpanSource { line_breaks }
    }

    /// The number of line breaks.
    pub fn line_break_count(&self) -> (n: usize)
        ensures
            n == self@.len(),
    {
        self.line_breaks.len()
    }

    /// The byte offset of (`line`, `col`).
    pub fn line_col_to_byte_offset(&self, line: u32, col: u32) -> (offset: Option<u32>)
        ensures
            match offset_of(self@, line as int, col as int) {
                Some(o) => offset == Some(o as u32),
                None => offset is None,
            },
    {
        proof {
            use_type_invariant(self);
        }
        let line_start: u32 = if line == 0 {
            0
        } else if line as usize <= self.line_breaks.len() {
            let line_break: usize = self.line_breaks[line as usize - 1];
            assert(line_break as int == self@[line as int - 1]);
            if line_break >= u32::MAX as usize {
                return None;
            }
            (line_break + 1) as u32
        } else {
            return None;
        };
        line_start.checked_add(col)
    }

    /// The byte offsets of both ends of `span`: none when either end has none.
    pub fn span_to_byte_offsets(&self, span: &SSourceSpan) -> (offsets: Option<(u32, u32)>)
        ensures
            match (
                offset_of(self@, span.begin_row as int, span.begin_col as int),
                offset_of(self@, span.end_row as int, span.end_col as int),
            ) {
                (Some(start), Some(end)) => offsets == Some((start as u32, end as u32)),
                _ => offsets is None,
            },
    {
        let start = self.line_col_to_byte_offset(span.begin_row, span.begin_col);
        let end = self.line_col_to_byte_offset(span.end_row, span.end_col);
        match (start, end) {
            (Some(start), Some(end)) => Some((start, end)),
            _ => None,
        }
    }

    /// The (line, column) position of the byte at `offset`.
    pub fn byte_offset_to_line_col(&self, offset: u32) -> (position: (u32, u32))
        ensures
            (position.0 as int, position.1 as int) == position_of(self@, offset as int),
    {
        proof {
            use_type_invariant(self);
        }
        let mut lo: usize = 0;
        let mut hi: usize = self.line_breaks.len();
        while lo < hi
            invariant
                lo <= hi <= self.line_breaks.len(),
                strictly_increasing(self@),
                forall|i: int| 0 <= i < lo ==> self@[i] < offset,
                forall|i: int| hi <= i < self@.len() ==> self@[i] >= offset,
            decreases hi - lo,
        {
            let mid: usize = lo + (hi - lo) / 2;
            assert(self.line_breaks[mid as int] as int == self@[mid as int]);
            if self.line_breaks[mid] < offset as usize {
                assert forall|i: int| 0 <= i < mid + 1 implies self@[i] < offset by {
                    assert(i < mid ==> self@[i] < self@[mid as int]);
                }
                lo = mid + 1;
            } else {
                assert forall|i: int| mid <= i < self@.len() implies self@[i] >= offset by {
                    assert(mid < i ==> self@[mid as int] < self@[i]);
                }
                hi = mid;
            }
        }
        proof {
            lemma_lines_before_is_partition(self@, offset as int, lo as int);
        }
        if lo == 0 {
            (0, offset)
        } else {
            let line_break: usize = self.line_breaks[lo - 1];
            assert(line_break as int == self@[lo as int - 1]);
            assert(lo <= offset) by {
                lemma_increasing_lower_bound(self@, lo as int - 1);
            }
            (lo as u32, offset - line_break as u32 - 1)
        }
    }
}

/// The `i`-th offset of an increasing sequence is at least `i`.
pub proof fn lemma_increasing_lower_bound(breaks: Seq<int>, i: int)
    requires
        strictly_increasing(breaks),
        0 <= i < breaks.len(),
    ensures
        breaks[i] >= i,
    decreases i,
{
    if i > 0 {
        lemma_increasing_lower_bound(breaks, i - 1);
    }
}

/// What the server keeps of one document between edits.
#[derive(Debug)]
pub struct FileState {
    pub span_source: SpanSource,
}

} // verus!
