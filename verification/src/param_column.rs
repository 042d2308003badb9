//! The vertical layout of the parameter panel's row column, in whole pixels from the
//! column's origin. Rows advance on an 8px pitch from 30px down; a row inside a
//! collapsed section takes no space; a section header sits 16px below the previous
//! block's drawn bottom edge, which is its title box for a header (2px above the row,
//! 28px tall) and, once anything is drawn, a row's box 3px below the row.
use vstd::prelude::*;

verus! {

/// Where a row starts, given where the next row would start (`cur`), the drawn bottom
/// edge of what came before (`prev_bottom`), and whether the row is a section header.
pub open spec fn row_top_from(cur: int, prev_bottom: Option<int>, header: bool) -> int {
    if header && prev_bottom is Some {
        prev_bottom->0 + 16 + 2
    } else {
        cur
    }
}

/// The column before row `n`: where the next row would start, and the drawn bottom edge
/// of what was drawn last (`None` before anything is drawn). Rows are given by their
/// heights, whether each is a section header, and whether each is hidden.
pub open spec fn column_state(heights: Seq<nat>, headers: Seq<bool>, hidden: Seq<bool>, n: int) -> (int, Option<int>)
    decreases n,
{
    if n <= 0 {
        (30, None)
    } else {
        let (cur, pb) = column_state(heights, headers, hidden, n - 1);
        let i = n - 1;
        if hidden[i] {
            (cur, pb)
        } else {
            let top = row_top_from(cur, pb, headers[i]);
            let h = heights[i] as int;
            let bottom = if headers[i] {
                top - 2 + 28
            } else if pb is Some {
                top + h + 3
            } else {
                top + h
            };
            (top + h + 8, Some(bottom))
        }
    }
}

/// Row `i`'s box in the column: its top and its height. A hidden row is an empty box
/// where the next row would start.
pub open spec fn column_box(heights: Seq<nat>, headers: Seq<bool>, hidden: Seq<bool>, i: int) -> (int, int) {
    let (cur, pb) = column_state(heights, headers, hidden, i);
    if hidden[i] {
        (cur, 0)
    } else {
        (row_top_from(cur, pb, headers[i]), heights[i] as int)
    }
}

/// The lowest bottom edge among the first `n` rows that are drawn, if any is.
pub open spec fn lowest_bottom(heights: Seq<nat>, headers: Seq<bool>, hidden: Seq<bool>, n: int) -> Option<int>
    decreases n,
{
    if n <= 0 {
        None
    } else {
        let i = n - 1;
        let below = lowest_bottom(heights, headers, hidden, n - 1);
        if hidden[i] {
            below
        } else {
            let (top, h) = column_box(heights, headers, hidden, i);
            match below {
                Some(b) => Some(if b > top + h { b } else { top + h }),
                None => Some(top + h),
            }
        }
    }
}

/// The column's scrollable height over `n` rows: the lowest drawn bottom edge plus the
/// 8px pitch and 10px of padding, or the 30px top offset and the padding when nothing
/// is drawn.
pub open spec fn column_height(heights: Seq<nat>, headers: Seq<bool>, hidden: Seq<bool>, n: int) -> int {
    match lowest_bottom(heights, headers, hidden, n) {
        Some(b) => b + 8 + 10,
        None => 40int,
    }
}

/// A section header's vertical extents, header `h` being `collapsed` (or not) and
/// owning the rows `content`: the top of its 28px title box, and the box around its
/// rows as (top, height), `None` when it is collapsed or owns no rows. The box wraps
/// its rows 3px out, and the title box sits flush on it. A collapsed section's title
/// box stays where it would sit over a first row (one pitch below the header, 31px
/// up); an empty section's overhangs its header row by 2px.
pub open spec fn section_extent(heights: Seq<nat>, headers: Seq<bool>, hidden: Seq<bool>, h: int,
    collapsed: bool, content: Option<(usize, usize)>) -> (int, Option<(int, int)>)
{
    let (th, hh) = column_box(heights, headers, hidden, h);
    if collapsed {
        (th + hh + 8 - 3 - 28, None)
    } else {
        match content {
            Some((a, b)) => {
                let (ta, _) = column_box(heights, headers, hidden, a as int);
                let (tb, hb) = column_box(heights, headers, hidden, b as int);
                (ta - 3 - 28, Some((ta - 3, tb + hb + 3 - (ta - 3))))
            },
            None => (th - 2, None),
        }
    }
}

/// Header rows are 24px tall, as every section header is.
pub open spec fn headers_sized(heights: Seq<nat>, headers: Seq<bool>) -> bool {
    forall|i: int| 0 <= i < headers.len() && #[trigger] headers[i] ==> heights[i] == 24
}

/// While the column is laid out, the drawn bottom edge trails where the next row would
/// start by 5 to 8 pixels, and the next start never moves up.
pub proof fn lemma_column_step(heights: Seq<nat>, headers: Seq<bool>, hidden: Seq<bool>, n: int)
    requires
        0 <= n <= heights.len(),
        heights.len() == headers.len(),
        headers.len() == hidden.len(),
        headers_sized(heights, headers),
    ensures
        column_state(heights, headers, hidden, n).0 >= 30,
        column_state(heights, headers, hidden, n).1 matches Some(b) ==> column_state(heights, headers, hidden, n).0 - 8
            <= b <= column_state(heights, headers, hidden, n).0 - 5,
        n > 0 ==> column_state(heights, headers, hidden, n - 1).0 <= column_state(heights, headers, hidden, n).0,
        n > 0 ==> column_box(heights, headers, hidden, n - 1).0 >= column_state(heights, headers, hidden, n - 1).0,
        n > 0 ==> column_box(heights, headers, hidden, n - 1).0 + column_box(heights, headers, hidden, n - 1).1
            <= column_state(heights, headers, hidden, n).0,
    decreases n,
{
    if n > 0 {
        lemma_column_step(heights, headers, hidden, n - 1);
        let i = n - 1;
        if headers[i] {
            assert(heights[i] == 24);
        }
    }
}

/// The next start never moves up: from row `k` on, it only grows.
pub proof fn lemma_column_grows(heights: Seq<nat>, headers: Seq<bool>, hidden: Seq<bool>, k: int, n: int)
    requires
        0 <= k <= n <= heights.len(),
        heights.len() == headers.len(),
        headers.len() == hidden.len(),
        headers_sized(heights, headers),
    ensures
        column_state(heights, headers, hidden, k).0 <= column_state(heights, headers, hidden, n).0,
    decreases n - k,
{
    if k < n {
        lemma_column_grows(heights, headers, hidden, k, n - 1);
        lemma_column_step(heights, headers, hidden, n);
    }
}

/// Drawn rows never overlap and come in row order: a drawn row ends, 8px of pitch
/// before, no lower than any later drawn row starts.
pub proof fn lemma_rows_do_not_overlap(heights: Seq<nat>, headers: Seq<bool>, hidden: Seq<bool>, i: int, j: int)
    requires
        0 <= i < j < heights.len(),
        heights.len() == headers.len(),
        headers.len() == hidden.len(),
        headers_sized(heights, headers),
        !hidden[i],
        !hidden[j],
    ensures
        column_box(heights, headers, hidden, i).0 + column_box(heights, headers, hidden, i).1 + 8
            <= column_box(heights, headers, hidden, j).0,
{
    lemma_column_step(heights, headers, hidden, i + 1);
    lemma_column_grows(heights, headers, hidden, i + 1, j);
    lemma_column_step(heights, headers, hidden, j + 1);
}

/// A section header drawn after anything else starts its title box exactly 16px below
/// the drawn bottom edge before it, whatever that edge is: the box around the previous
/// section's rows, or a collapsed section's own title box.
pub proof fn lemma_section_gap(heights: Seq<nat>, headers: Seq<bool>, hidden: Seq<bool>, i: int)
    requires
        0 <= i < heights.len(),
        heights.len() == headers.len(),
        headers.len() == hidden.len(),
        headers[i],
        !hidden[i],
        column_state(heights, headers, hidden, i).1 is Some,
    ensures
        column_box(heights, headers, hidden, i).0 - 2 - column_state(heights, headers, hidden, i).1->0 == 16,
{
}

/// A hidden row takes no space: the rows after it lie as if it were not there.
pub proof fn lemma_hidden_row_takes_no_space(heights: Seq<nat>, headers: Seq<bool>, hidden: Seq<bool>, i: int)
    requires
        0 <= i < heights.len(),
        hidden[i],
    ensures
        column_box(heights, headers, hidden, i).1 == 0,
        column_state(heights, headers, hidden, i + 1) == column_state(heights, headers, hidden, i),
{
}

/// The lowest drawn bottom edge is the last drawn row's, 8px of pitch above where the
/// next row would start; so the column's height is that start plus 10.
pub proof fn lemma_column_height(heights: Seq<nat>, headers: Seq<bool>, hidden: Seq<bool>, n: int)
    requires
        0 <= n <= heights.len(),
        heights.len() == headers.len(),
        headers.len() == hidden.len(),
        headers_sized(heights, headers),
    ensures
        match lowest_bottom(heights, headers, hidden, n) {
            Some(b) => b == column_state(heights, headers, hidden, n).0 - 8,
            None => column_state(heights, headers, hidden, n).0 == 30,
        },
        column_height(heights, headers, hidden, n) == column_state(heights, headers, hidden, n).0 + 10,
    decreases n,
{
    if n > 0 {
        lemma_column_height(heights, headers, hidden, n - 1);
        lemma_column_step(heights, headers, hidden, n);
    }
}

/// An expanded section's title box sits flush on the box around its rows, which
/// overhangs its first row's top and its last row's bottom by 3px.
pub proof fn lemma_tab_flush_on_body(heights: Seq<nat>, headers: Seq<bool>, hidden: Seq<bool>, h: int,
    a: usize, b: usize)
    ensures
        ({
            let (t, c) = section_extent(heights, headers, hidden, h, false, Some((a, b)));
            let (ta, _) = column_box(heights, headers, hidden, a as int);
            let (tb, hb) = column_box(heights, headers, hidden, b as int);
            &&& c matches Some((y, bh)) && t + 28 == y && y + 3 == ta && y + bh == tb + hb + 3
        }),
{
}

/// A run of hidden rows leaves the column as it was.
proof fn lemma_hidden_run(heights: Seq<nat>, headers: Seq<bool>, hidden: Seq<bool>, a: int, b: int)
    requires
        0 <= a <= b <= heights.len(),
        forall|k: int| a <= k < b ==> #[trigger] hidden[k],
    ensures
        column_state(heights, headers, hidden, b) == column_state(heights, headers, hidden, a),
    decreases b - a,
{
    if a < b {
        lemma_hidden_run(heights, headers, hidden, a, b - 1);
    }
}

/// How the rows stack, over every column: the first row starts 30px down; a row's box
/// is empty when the row is hidden and as tall as the row otherwise; tops never move
/// up from one row to the next; and a drawn row that is not a section header starts
/// one 8px pitch below the previous drawn row, the hidden rows between them taking no
/// space.
pub proof fn lemma_rows_stack(heights: Seq<nat>, headers: Seq<bool>, hidden: Seq<bool>, i: int, j: int)
    requires
        0 <= i < j < heights.len(),
        heights.len() == headers.len(),
        headers.len() == hidden.len(),
        headers_sized(heights, headers),
    ensures
        column_box(heights, headers, hidden, 0).0 == 30,
        column_box(heights, headers, hidden, i).1 == if hidden[i] { 0 } else { heights[i] as int },
        column_box(heights, headers, hidden, i).0 <= column_box(heights, headers, hidden, j).0,
        !hidden[i] && !hidden[j] && !headers[j] && (forall|k: int| i < k < j ==> #[trigger] hidden[k])
            ==> column_box(heights, headers, hidden, j).0
                == column_box(heights, headers, hidden, i).0 + column_box(heights, headers, hidden, i).1 + 8,
{
    lemma_column_step(heights, headers, hidden, i + 1);
    lemma_column_grows(heights, headers, hidden, i + 1, j);
    lemma_column_step(heights, headers, hidden, j + 1);
    if !hidden[i] && !hidden[j] && !headers[j] && (forall|k: int| i < k < j ==> #[trigger] hidden[k]) {
        lemma_hidden_run(heights, headers, hidden, i + 1, j);
    }
}

} // verus!
