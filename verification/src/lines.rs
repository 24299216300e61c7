//! Line boundaries of the source text and the line/column position of a
//! byte offset.
use vstd::prelude::*;
use vstd::string::StringSliceAdditionalSpecFns;

verus! {

/// A line and column in the source text, the line counted from 1 and the
/// column in bytes from the start of the line.
#[derive(Clone, Copy, Debug, PartialEq, Eq, Structural)]
pub struct Position {
    pub line: usize,
    pub column: usize,
}

/// The start/end byte index of a line.
#[derive(Clone, Copy, Debug, PartialEq, Eq, Structural)]
pub struct Line {
    pub start: usize,
    pub end: usize,
}

/// The lines of `b` from byte `i` on, when the current line started at
/// `line_start`.  A line ends at a line feed, at a carriage return that is
/// followed by a one byte character other than a line feed, and at the line
/// and paragraph separators (bytes `E2 80 A8` and `E2 80 A9`), whose end is
/// their last byte.  The last line ends at the last byte of the text.
pub open spec fn lines_from(b: Seq<u8>, i: int, line_start: int) -> Seq<Line>
    decreases b.len() - i,
{
    if i >= b.len() || i < 0 {
        seq![
            Line {
                start: line_start as usize,
                end: (if b.len() == 0 { 0 } else { b.len() - 1 }) as usize,
            },
        ]
    } else if b[i] == 0x0Du8 {
        if i + 2 <= b.len() && b[i + 1] < 0x80u8 && b[i + 1] != 0x0Au8 {
            seq![Line { start: line_start as usize, end: i as usize }] + lines_from(b, i + 1, i + 1)
        } else {
            lines_from(b, i + 1, line_start)
        }
    } else if b[i] == 0x0Au8 {
        seq![Line { start: line_start as usize, end: i as usize }] + lines_from(b, i + 1, i + 1)
    } else if b[i] == 0xE2u8 && i + 2 < b.len() && b[i + 1] == 0x80u8 && (b[i + 2] == 0xA8u8
        || b[i + 2] == 0xA9u8) {
        seq![Line { start: line_start as usize, end: (i + 2) as usize }] + lines_from(
            b,
            i + 3,
            i + 3,
        )
    } else {
        lines_from(b, i + 1, line_start)
    }
}

/// The lines of a whole text given as its bytes.
pub open spec fn spec_lines(b: Seq<u8>) -> Seq<Line> {
    lines_from(b, 0, 0)
}

/// Capture the lines from the raw js text
pub fn get_lines(text: &str) -> (ret: Vec<Line>)
    ensures
        ret@ == spec_lines(text.spec_bytes()),
        ret.len() >= 1,
        ends_sorted(ret@),
{
    let b = text.as_bytes();
    let len = b.len();
    proof {
        lemma_lines_sorted(b@);
    }
    let mut ret: Vec<Line> = Vec::new();
    let mut line_start: usize = 0;
    let mut i: usize = 0;
    while i < len
        invariant
            b@ == text.spec_bytes(),
            len == b@.len(),
            i <= len,
            line_start <= i,
            ret@ + lines_from(b@, i as int, line_start as int) == spec_lines(b@),
        decreases len - i,
    {
        let ghost i0 = i as int;
        let ghost ls0 = line_start as int;
        let ghost r0 = ret@;
        let c = b[i];
        if c == 0x0D {
            if i + 1 < len && b[i + 1] < 0x80 && b[i + 1] != 0x0A {
                ret.push(Line { start: line_start, end: i });
                line_start = i + 1;
            }
            i = i + 1;
        } else if c == 0x0A {
            ret.push(Line { start: line_start, end: i });
            line_start = i + 1;
            i = i + 1;
        } else if c == 0xE2 && len - i > 2 && b[i + 1] == 0x80 && (b[i + 2] == 0xA8 || b[i + 2]
            == 0xA9) {
            ret.push(Line { start: line_start, end: i + 2 });
            line_start = i + 3;
            i = i + 3;
        } else {
            i = i + 1;
        }
        assert(ret@ + lines_from(b@, i as int, line_start as int) =~= r0 + lines_from(
            b@,
            i0,
            ls0,
        ));
    }
    assert(lines_from(b@, i as int, line_start as int) == seq![
        Line { start: line_start, end: (if len == 0 { 0 } else { len - 1 }) as usize },
    ]);
    ret.push(Line { start: line_start, end: if len == 0 { 0 } else { len - 1 } });
    assert(ret@ == spec_lines(b@));
    ret
}

/// The line ends never decrease along a sequence of lines.
pub open spec fn ends_sorted(lines: Seq<Line>) -> bool {
    forall|i: int, j: int| 0 <= i <= j < lines.len() ==> lines[i].end <= lines[j].end
}

/// Every suffix of the line scan has at least one line, its line ends are
/// sorted, and none lies more than one byte before the scan position.
pub proof fn lemma_lines_from_sorted(b: Seq<u8>, i: int, line_start: int)
    requires
        0 <= i <= b.len(),
        b.len() <= usize::MAX,
    ensures
        lines_from(b, i, line_start).len() >= 1,
        ends_sorted(lines_from(b, i, line_start)),
        forall|k: int|
            0 <= k < lines_from(b, i, line_start).len() ==> lines_from(b, i, line_start)[k].end
                + 1 >= i,
    decreases b.len() - i,
{
    let l = lines_from(b, i, line_start);
    if i >= b.len() {
    } else {
        let c = b[i];
        if c == 0x0Du8 {
            lemma_lines_from_sorted(b, i + 1, i + 1);
            lemma_lines_from_sorted(b, i + 1, line_start);
        } else if c == 0x0Au8 {
            lemma_lines_from_sorted(b, i + 1, i + 1);
        } else if b[i] == 0xE2u8 && i + 2 < b.len() && b[i + 1] == 0x80u8 && (b[i + 2] == 0xA8u8
            || b[i + 2] == 0xA9u8) {
            lemma_lines_from_sorted(b, i + 3, i + 3);
        } else {
            lemma_lines_from_sorted(b, i + 1, line_start);
        }
    }
}

/// The lines of any text are at least one, with sorted ends.
pub proof fn lemma_lines_sorted(b: Seq<u8>)
    requires
        b.len() <= usize::MAX,
    ensures
        spec_lines(b).len() >= 1,
        ends_sorted(spec_lines(b)),
{
    lemma_lines_from_sorted(b, 0, 0);
}

/// `k` is the index of the line that the byte offset falls in: the first
/// line whose end lies after the offset, or else the last line.
pub open spec fn is_line_index(lines: Seq<Line>, offset: int, k: int) -> bool {
    &&& 0 <= k < lines.len()
    &&& forall|j: int| 0 <= j < k ==> lines[j].end <= offset
    &&& k < lines.len() - 1 ==> lines[k].end > offset
}

/// No two indices are the line index of one offset.
pub proof fn lemma_line_index_unique(lines: Seq<Line>, offset: int, k1: int, k2: int)
    requires
        is_line_index(lines, offset, k1),
        is_line_index(lines, offset, k2),
    ensures
        k1 == k2,
{
    if k1 < k2 {
        assert(lines[k1].end <= offset);
    } else if k2 < k1 {
        assert(lines[k2].end <= offset);
    }
}

/// With sorted line ends, some line holds every offset.
pub proof fn lemma_line_index_exists(lines: Seq<Line>, offset: int) -> (k: int)
    requires
        lines.len() > 0,
        ends_sorted(lines),
    ensures
        is_line_index(lines, offset, k),
    decreases lines.len(),
{
    if lines.len() == 1 || lines[0].end > offset {
        0
    } else {
        let k1 = lemma_line_index_exists(lines.drop_first(), offset);
        assert forall|j: int| 0 <= j < k1 + 1 implies lines[j].end <= offset by {
            if j > 0 {
                assert(lines[j] == lines.drop_first()[j - 1]);
            }
        }
        k1 + 1
    }
}

/// The index of the line that holds a byte offset.
pub open spec fn line_of(lines: Seq<Line>, offset: int) -> int {
    choose|k: int| is_line_index(lines, offset, k)
}

/// Binary search of the line that holds a byte offset; any index in range
/// when the line ends are not sorted.
pub fn line_index(lines: &Vec<Line>, offset: usize) -> (k: usize)
    requires
        lines.len() > 0,
    ensures
        k < lines.len(),
        ends_sorted(lines@) ==> is_line_index(lines@, offset as int, k as int),
{
    let mut lo: usize = 0;
    let mut n: usize = lines.len();
    while n > 1
        invariant
            0 < n,
            lo + n <= lines.len(),
            ends_sorted(lines@) ==> forall|j: int| 0 <= j < lo ==> lines@[j].end <= offset,
            ends_sorted(lines@) ==> (lo + n < lines.len() ==> lines@[lo + n - 1].end > offset),
        decreases n,
    {
        let half = n / 2;
        if lines[lo + half - 1].end > offset {
            n = half;
        } else {
            proof {
                if ends_sorted(lines@) {
                    assert forall|j: int| 0 <= j < lo + half implies lines@[j].end <= offset by {
                        assert(lines@[j].end <= lines@[lo + half - 1].end);
                    }
                }
            }
            lo = lo + half;
            n = n - half;
        }
    }
    lo
}

/// The position of a byte offset: the line that holds it, counted from 1,
/// and the bytes from that line's start (none if it starts later).
pub open spec fn spec_position(lines: Seq<Line>, offset: int, k: int) -> Position {
    Position {
        line: (k + 1) as usize,
        column: (if offset >= lines[k].start { offset - lines[k].start } else { 0 }) as usize,
    }
}

/// The position of a byte offset in text whose lines are `lines`.
pub fn position_in(lines: &Vec<Line>, offset: usize) -> (p: Position)
    requires
        lines.len() > 0,
    ensures
        ends_sorted(lines@) ==> p == spec_position(lines@, offset as int, line_of(lines@, offset as int)),
{
    let idx = line_index(lines, offset);
    let line = lines[idx];
    let column = offset.saturating_sub(line.start);
    proof {
        if ends_sorted(lines@) {
            let k = lemma_line_index_exists(lines@, offset as int);
            lemma_line_index_unique(lines@, offset as int, k, line_of(lines@, offset as int));
            lemma_line_index_unique(lines@, offset as int, k, idx as int);
        }
    }
    Position { line: idx + 1, column }
}

/// A line terminator starts at byte `k` of a text that ends at `hi`: a line
/// feed, a carriage return, or a line or paragraph separator.
pub open spec fn term_at(b: Seq<u8>, k: int, hi: int) -> bool {
    ||| b[k] == 0x0Au8
    ||| b[k] == 0x0Du8
    ||| (b[k] == 0xE2u8 && k + 2 < hi && b[k + 1] == 0x80u8 && (b[k + 2] == 0xA8u8 || b[k + 2]
        == 0xA9u8))
}

/// The number of line terminators in bytes `i..hi`.
pub open spec fn count_terms(b: Seq<u8>, i: int, hi: int) -> nat
    decreases hi - i,
{
    if i >= hi {
        0
    } else {
        (if term_at(b, i, hi) { 1nat } else { 0nat }) + count_terms(b, i + 1, hi)
    }
}

/// The number of carriage return, line feed pairs in bytes `i..hi`.
pub open spec fn count_crlf(b: Seq<u8>, i: int, hi: int) -> nat
    decreases hi - i,
{
    if i + 1 >= hi {
        0
    } else {
        (if b[i] == 0x0Du8 && b[i + 1] == 0x0Au8 { 1nat } else { 0nat }) + count_crlf(b, i + 1, hi)
    }
}

/// Bytes `lo..hi` end with a line terminator.
pub open spec fn ends_with_term(b: Seq<u8>, lo: int, hi: int) -> bool {
    &&& hi > lo
    &&& {
        ||| b[hi - 1] == 0x0Au8
        ||| b[hi - 1] == 0x0Du8
        ||| (hi - 3 >= lo && b[hi - 3] == 0xE2u8 && b[hi - 2] == 0x80u8 && (b[hi - 1] == 0xA8u8
            || b[hi - 1] == 0xA9u8))
    }
}

/// The index just after the last line feed in bytes `lo..hi`, or `lo`.
pub open spec fn after_last_lf(b: Seq<u8>, lo: int, hi: int) -> int
    decreases hi - lo,
{
    if hi <= lo {
        lo
    } else if b[hi - 1] == 0x0Au8 {
        hi
    } else {
        after_last_lf(b, lo, hi - 1)
    }
}

/// Count the line terminators in bytes `lo..hi` of `b`.
pub fn count_terms_in(b: &[u8], lo: usize, hi: usize) -> (r: usize)
    requires
        lo <= hi <= b@.len(),
    ensures
        r == count_terms(b@, lo as int, hi as int),
{
    let mut i = hi;
    let mut cnt: usize = 0;
    while i > lo
        invariant
            lo <= i <= hi <= b@.len(),
            cnt == count_terms(b@, i as int, hi as int),
            cnt <= hi - i,
        decreases i - lo,
    {
        i = i - 1;
        let t = b[i] == 0x0A || b[i] == 0x0D || (b[i] == 0xE2 && hi - i > 2 && b[i + 1] == 0x80 && (
        b[i + 2] == 0xA8 || b[i + 2] == 0xA9));
        if t {
            cnt = cnt + 1;
        }
    }
    cnt
}

/// Count the carriage return, line feed pairs in bytes `lo..hi` of `b`.
pub fn count_crlf_in(b: &[u8], lo: usize, hi: usize) -> (r: usize)
    requires
        lo <= hi <= b@.len(),
    ensures
        r == count_crlf(b@, lo as int, hi as int),
{
    let mut i = hi;
    let mut cnt: usize = 0;
    while i > lo
        invariant
            lo <= i <= hi <= b@.len(),
            cnt == count_crlf(b@, i as int, hi as int),
            cnt <= hi - i,
        decreases i - lo,
    {
        i = i - 1;
        if hi - i > 1 && b[i] == 0x0D && b[i + 1] == 0x0A {
            cnt = cnt + 1;
        }
    }
    cnt
}

/// Whether bytes `lo..hi` of `b` end with a line terminator.
pub fn ends_with_term_in(b: &[u8], lo: usize, hi: usize) -> (r: bool)
    requires
        lo <= hi <= b@.len(),
    ensures
        r == ends_with_term(b@, lo as int, hi as int),
{
    if hi <= lo {
        return false;
    }
    let c = b[hi - 1];
    c == 0x0A || c == 0x0D || (hi - lo >= 3 && b[hi - 3] == 0xE2 && b[hi - 2] == 0x80 && (c == 0xA8
        || c == 0xA9))
}

/// The index just after the last line feed in bytes `lo..hi`, or `lo`.
pub fn after_last_lf_in(b: &[u8], lo: usize, hi: usize) -> (r: usize)
    requires
        lo <= hi <= b@.len(),
    ensures
        r == after_last_lf(b@, lo as int, hi as int),
        lo <= r <= hi,
{
    let mut j = hi;
    while j > lo
        invariant
            lo <= j <= hi <= b@.len(),
            after_last_lf(b@, lo as int, j as int) == after_last_lf(b@, lo as int, hi as int),
        decreases j - lo,
    {
        if b[j - 1] == 0x0A {
            return j;
        }
        j = j - 1;
    }
    lo
}

} // verus!
