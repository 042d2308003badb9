//! Cursor arithmetic of the parameter panel's multi-line code editor: a cursor is a
//! character index into the buffer; lines are the pieces of the buffer between
//! newlines.
use vstd::prelude::*;
use crate::text::{split_on, ranges_of_split, split_ranges, to_chars, lemma_split_nonempty, lemma_split_pieces_lack_sep, lemma_ranges_exist};

verus! {

/// (line, column) reached after walking the characters of `s`: a newline starts
/// the next line at column 0, any other character advances the column.
pub open spec fn line_col(s: Seq<char>) -> (nat, nat)
    decreases s.len(),
{
    if s.len() == 0 {
        (0, 0)
    } else {
        let (l, c) = line_col(s.drop_last());
        if s.last() == '\n' {
            (l + 1, 0)
        } else {
            (l, c + 1)
        }
    }
}

/// The lines of a buffer.
pub open spec fn lines_of(s: Seq<char>) -> Seq<Seq<char>> {
    split_on(s, '\n')
}

/// Index of the first character of line `k`: the lengths of the lines before it,
/// each followed by its newline.
pub open spec fn line_start(lines: Seq<Seq<char>>, k: int) -> int
    decreases k,
{
    if k <= 0 {
        0
    } else {
        line_start(lines, k - 1) + lines[k - 1].len() + 1
    }
}

/// The position of the cursor at index `cursor` (clamped to the buffer's end).
pub open spec fn cursor_line_col(s: Seq<char>, cursor: int) -> (nat, nat) {
    line_col(s.take(if cursor < s.len() { cursor } else { s.len() as int }))
}

/// The index of (`line`, `col`), the line clamped to the last one and the column to
/// the line's length.
pub open spec fn index_of_line_col(s: Seq<char>, line: int, col: int) -> int {
    let lines = lines_of(s);
    let tl = if line < lines.len() - 1 { line } else { lines.len() - 1 };
    let tc = if col < lines[tl].len() { col } else { lines[tl].len() as int };
    line_start(lines, tl) + tc
}

proof fn lemma_line_start_prefix(a: Seq<Seq<char>>, b: Seq<Seq<char>>, k: int)
    requires
        forall|j: int| 0 <= j < k ==> a[j].len() == b[j].len(),
    ensures
        line_start(a, k) == line_start(b, k),
    decreases k,
{
    if k > 0 {
        lemma_line_start_prefix(a, b, k - 1);
    }
}

/// Walking to any index of the buffer lands on an existing line and column, and that
/// line's start plus the column is the index again.
pub proof fn lemma_line_col_in_lines(s: Seq<char>, i: int)
    requires
        0 <= i <= s.len(),
    ensures
        ({
            let lines = lines_of(s);
            let (l, c) = line_col(s.take(i));
            &&& l < lines.len()
            &&& c <= lines[l as int].len()
            &&& line_start(lines, l as int) + c == i
        }),
        line_col(s) == ((lines_of(s).len() - 1) as nat, lines_of(s).last().len()),
        line_start(lines_of(s), lines_of(s).len() - 1) + lines_of(s).last().len() == s.len(),
    decreases s.len(),
{
    lemma_split_nonempty(s, '\n');
    if s.len() == 0 {
        assert(s.take(i) =~= s);
    } else {
        let t = s.drop_last();
        let x = s.last();
        let lt = lines_of(t);
        let ls = lines_of(s);
        lemma_split_nonempty(t, '\n');
        lemma_line_col_in_lines(t, if i < s.len() { i } else { 0 });
        let last = lt.len() - 1;
        assert forall|j: int| 0 <= j < last implies ls[j] == lt[j] by {}
        lemma_line_start_prefix(ls, lt, last);
        if i < s.len() {
            assert(s.take(i) =~= t.take(i));
            let (l, c) = line_col(t.take(i));
            assert(l <= last);
            lemma_line_start_prefix(ls, lt, l as int);
        }
        if x == '\n' {
            assert(line_start(ls, last + 1) == line_start(ls, last) + ls[last].len() + 1);
        }
        if i == s.len() {
            assert(s.take(i) =~= s);
        }
    }
}

/// Moving the cursor to its own (line, column) leaves it where it was: for every
/// index up to the buffer's end, `map_2d_to_1d` undoes `get_cursor_line_col`.
pub proof fn lemma_line_col_round_trip(s: Seq<char>, i: int)
    requires
        0 <= i <= s.len(),
    ensures
        index_of_line_col(s, cursor_line_col(s, i).0 as int, cursor_line_col(s, i).1 as int) == i,
{
    lemma_line_col_in_lines(s, i);
}

/// Lines lie one after another: a line ends, its newline after it, before any later
/// line starts.
proof fn lemma_line_start_order(lines: Seq<Seq<char>>, a: int, b: int)
    requires
        0 <= a < b,
    ensures
        line_start(lines, a) + lines[a].len() < line_start(lines, b),
    decreases b - a,
{
    if b > a + 1 {
        lemma_line_start_order(lines, a, b - 1);
    }
}

proof fn lemma_line_start_nonneg(lines: Seq<Seq<char>>, k: int)
    ensures
        line_start(lines, k) >= 0,
    decreases k,
{
    if k > 0 {
        lemma_line_start_nonneg(lines, k - 1);
    }
}

/// Taking a (line, column) that exists in the buffer to its index and back gives the
/// same (line, column): for a line of the buffer and a column up to its length,
/// `get_cursor_line_col` undoes `map_2d_to_1d`.
pub proof fn lemma_index_round_trip(s: Seq<char>, line: int, col: int)
    requires
        0 <= line < lines_of(s).len(),
        0 <= col <= lines_of(s)[line].len(),
    ensures
        cursor_line_col(s, index_of_line_col(s, line, col)) == (line as nat, col as nat),
{
    let lines = lines_of(s);
    let last = lines.len() - 1;
    let i = index_of_line_col(s, line, col);
    assert(i == line_start(lines, line) + col);
    lemma_line_start_nonneg(lines, line);
    lemma_line_col_in_lines(s, 0);
    if line < last {
        lemma_line_start_order(lines, line, last);
    }
    assert(i <= s.len());
    lemma_line_col_in_lines(s, i);
    let (l, c) = line_col(s.take(i));
    if (l as int) < line {
        lemma_line_start_order(lines, l as int, line);
    } else if (l as int) > line {
        lemma_line_start_order(lines, line, l as int);
    }
}

/// The line the cursor sits on: it starts at the buffer's start or just after a
/// newline, ends at the buffer's end or at a newline, holds no newline, and contains
/// the cursor.
pub proof fn lemma_cursor_line_bounds(s: Seq<char>, i: int)
    requires
        0 <= i <= s.len(),
        s.len() < usize::MAX,
    ensures
        ({
            let line = cursor_line_col(s, i).0 as int;
            let st = index_of_line_col(s, line, 0);
            let en = index_of_line_col(s, line, lines_of(s)[line].len() as int);
            &&& line < lines_of(s).len()
            &&& 0 <= st <= i <= en <= s.len()
            &&& st == 0 || s[st - 1] == '\n'
            &&& en == s.len() || s[en] == '\n'
            &&& forall|j: int| st <= j < en ==> s[j] != '\n'
        }),
{
    lemma_line_col_in_lines(s, i);
    let line = cursor_line_col(s, i).0 as int;
    let lines = lines_of(s);
    let r = lemma_ranges_exist(s, '\n');
    lemma_ranges_are_line_starts(s, r, line);
    lemma_split_pieces_lack_sep(s, '\n');
    assert(s.subrange(r[line].0 as int, r[line].1 as int) == lines[line]);
    assert forall|j: int| r[line].0 <= j < r[line].1 implies s[j] != '\n' by {
        assert(s[j] == lines[line][j - r[line].0]);
    }
    if line > 0 {
        assert(r[(line - 1) + 1].0 == r[line - 1].1 + 1);
        assert(r[line - 1].0 <= r[line - 1].1);
    }
    if line < r.len() - 1 {
        assert(r[line].1 < r[line + 1].0);
    }
}

/// The (line, column) of the cursor at `cursor_idx`; a cursor past the end sits at the
/// buffer's end.
pub fn get_cursor_line_col(buffer: &str, cursor_idx: usize) -> (r: (usize, usize))
    ensures
        r.0 == cursor_line_col(buffer@, cursor_idx as int).0,
        r.1 == cursor_line_col(buffer@, cursor_idx as int).1,
{
    let chars = to_chars(buffer);
    line_col_of_chars(&chars, cursor_idx)
}

pub(crate) fn line_col_of_chars(chars: &Vec<char>, cursor_idx: usize) -> (r: (usize, usize))
    ensures
        r.0 == cursor_line_col(chars@, cursor_idx as int).0,
        r.1 == cursor_line_col(chars@, cursor_idx as int).1,
        r.0 <= chars@.len(),
        r.1 <= chars@.len(),
{
    let mut cur_line: usize = 0;
    let mut cur_col: usize = 0;
    let mut count: usize = 0;
    proof {
        assert(chars@.take(0) =~= Seq::<char>::empty());
    }
    while count < chars.len()
        invariant
            count <= chars.len(),
            count <= cursor_idx,
            (cur_line as nat, cur_col as nat) == line_col(chars@.take(count as int)),
            cur_line <= count,
            cur_col <= count,
        decreases chars.len() - count,
    {
        if count == cursor_idx {
            return (cur_line, cur_col);
        }
        proof {
            assert(chars@.take(count + 1).drop_last() =~= chars@.take(count as int));
        }
        if chars[count] == '\n' {
            cur_line = cur_line + 1;
            cur_col = 0;
        } else {
            cur_col = cur_col + 1;
        }
        count = count + 1;
    }
    proof {
        assert(chars@.take(count as int) =~= chars@);
    }
    (cur_line, cur_col)
}

proof fn lemma_ranges_are_line_starts(s: Seq<char>, r: Seq<(usize, usize)>, k: int)
    requires
        ranges_of_split(s, '\n', r),
        0 <= k < r.len(),
    ensures
        r[k].0 == line_start(lines_of(s), k),
        r[k].1 - r[k].0 == lines_of(s)[k].len(),
    decreases k,
{
    assert(s.subrange(r[k].0 as int, r[k].1 as int) == lines_of(s)[k]);
    if k > 0 {
        lemma_ranges_are_line_starts(s, r, k - 1);
        assert(s.subrange(r[k - 1].0 as int, r[k - 1].1 as int) == lines_of(s)[k - 1]);
        assert(r[(k - 1) + 1].0 == r[k - 1].1 + 1);
    }
}

pub(crate) fn index_of_chars(chars: &Vec<char>, line: usize, col: usize) -> (idx: usize)
    ensures
        idx == index_of_line_col(chars@, line as int, col as int),
        idx <= chars@.len(),
{
    let r = split_ranges(chars, '\n');
    let last = r.len() - 1;
    let tl = if line < last { line } else { last };
    let (start, end) = r[tl];
    let len_l = end - start;
    let tc = if col < len_l { col } else { len_l };
    proof {
        lemma_ranges_are_line_starts(chars@, r@, tl as int);
    }
    start + tc
}

/// The index of (`line`, `col`): the line clamped to the buffer's last line and the
/// column to that line's length.
pub fn map_2d_to_1d(buffer: &str, line: usize, col: usize) -> (idx: usize)
    ensures
        idx == index_of_line_col(buffer@, line as int, col as int),
        idx <= buffer@.len(),
{
    let chars = to_chars(buffer);
    index_of_chars(&chars, line, col)
}

/// The index where the cursor's line starts.
pub fn get_line_start(buffer: &str, cursor_idx: usize) -> (idx: usize)
    ensures
        idx == index_of_line_col(buffer@, cursor_line_col(buffer@, cursor_idx as int).0 as int, 0),
{
    let chars = to_chars(buffer);
    let (line, _) = line_col_of_chars(&chars, cursor_idx);
    index_of_chars(&chars, line, 0)
}

/// The index just past the last character of the cursor's line.
pub fn get_line_end(buffer: &str, cursor_idx: usize) -> (idx: usize)
    ensures
        ({
            let line = cursor_line_col(buffer@, cursor_idx as int).0 as int;
            let lines = lines_of(buffer@);
            let n = if line < lines.len() { lines[line].len() } else { lines.last().len() };
            idx == index_of_line_col(buffer@, line, n as int)
        }),
{
    let chars = to_chars(buffer);
    line_end_of_chars(&chars, cursor_idx)
}

pub(crate) fn line_end_of_chars(chars: &Vec<char>, cursor_idx: usize) -> (idx: usize)
    ensures
        ({
            let line = cursor_line_col(chars@, cursor_idx as int).0 as int;
            let lines = lines_of(chars@);
            let n = if line < lines.len() { lines[line].len() } else { lines.last().len() };
            idx == index_of_line_col(chars@, line, n as int)
        }),
        idx <= chars@.len(),
{
    let (line, _) = line_col_of_chars(chars, cursor_idx);
    let r = split_ranges(chars, '\n');
    let last = r.len() - 1;
    let k = if line <= last { line } else { last };
    let (start, end) = r[k];
    proof {
        lemma_ranges_are_line_starts(chars@, r@, k as int);
    }
    index_of_chars(chars, line, end - start)
}

} // verus!
