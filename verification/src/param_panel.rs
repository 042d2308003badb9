//! The parameter panel's row model: the `(name, value, type)` rows a host displays,
//! the sections they fall into and which of those the user collapsed, the focused row,
//! and the code editor a focused code row holds.
use vstd::prelude::*;
use crate::adapted::Adapted;
use crate::row_widgets::{RowWidgets, WidgetsView, row_widgets, row_widgets_spec, refresh_row_widgets,
    refreshed_widgets_spec};
use crate::text::{to_chars, split_ranges, split_on};
use crate::editor::{CodeEditor, EditorKey, key_result};
use crate::cursor::{index_of_line_col, map_2d_to_1d};
use crate::number::{clamp_spec, spin_step, format_i32, i32_text};
use crate::param_column::{column_state, column_box, column_height, headers_sized, lemma_column_step, section_extent,
    lemma_rows_stack,
    lemma_column_grows, lemma_column_height};
use crate::param_spec::{row_kind, row_kind_spec, row_height_px, row_height_spec, RowKind, chars_equal_str, starts_with,
    chars_start_with, is_text_row, is_text_row_spec, pieces, views};

verus! {

/// The views of a row: name, value, type.
pub open spec fn row_view(p: (String, String, String)) -> (Seq<char>, Seq<char>, Seq<char>) {
    (p.0@, p.1@, p.2@)
}

pub open spec fn rows_view(v: Seq<(String, String, String)>) -> Seq<(Seq<char>, Seq<char>, Seq<char>)> {
    v.map_values(|p: (String, String, String)| row_view(p))
}

pub open spec fn is_section(t: Seq<char>) -> bool {
    t == "section"@
}

/// Row `i` sits inside a collapsed section: it is not a header, and the last header
/// above it is collapsed. Rows above the first header are never hidden.
pub open spec fn row_hidden(rows: Seq<(Seq<char>, Seq<char>, Seq<char>)>, collapsed: Seq<Seq<char>>, i: int) -> bool {
    &&& !is_section(rows[i].2)
    &&& exists|h: int| #![trigger rows[h]]
        0 <= h < i && is_section(rows[h].2) && collapsed.contains(rows[h].0)
        && forall|j: int| h < j < i ==> !is_section(#[trigger] rows[j].2)
}

/// The first header after row `h`, or the row count when none follows.
pub open spec fn next_header(rows: Seq<(Seq<char>, Seq<char>, Seq<char>)>, h: int) -> int {
    if exists|j: int| h < j < rows.len() && is_section(rows[j].2) {
        choose|j: int| h < j < rows.len() && is_section(rows[j].2)
            && forall|k: int| h < k < j ==> !is_section(#[trigger] rows[k].2)
    } else {
        rows.len() as int
    }
}

/// The rows a header owns: those between it and the next header, `None` if none.
pub open spec fn section_content(rows: Seq<(Seq<char>, Seq<char>, Seq<char>)>, h: int) -> Option<(usize, usize)> {
    let e = next_header(rows, h);
    if e > h + 1 { Some(((h + 1) as usize, (e - 1) as usize)) } else { None }
}

/// Past any header after `h` lies a first one.
proof fn lemma_first_header_after(rows: Seq<(Seq<char>, Seq<char>, Seq<char>)>, h: int, j: int)
    requires
        h < j < rows.len(),
        is_section(rows[j].2),
    ensures
        exists|c: int| h < c < rows.len() && is_section(rows[c].2)
            && forall|k: int| h < k < c ==> !is_section(#[trigger] rows[k].2),
    decreases j - h,
{
    if exists|k: int| h < k < j && is_section(rows[k].2) {
        let k = choose|k: int| h < k < j && is_section(rows[k].2);
        lemma_first_header_after(rows, h, k);
    } else {
        assert(forall|k: int| h < k < j ==> !is_section(#[trigger] rows[k].2));
    }
}

/// The first header after `h` lies after it and within the rows (the row count when
/// none follows).
proof fn lemma_next_header_bounds(rows: Seq<(Seq<char>, Seq<char>, Seq<char>)>, h: int)
    requires
        0 <= h < rows.len(),
    ensures
        h < next_header(rows, h) <= rows.len(),
{
    if exists|j: int| h < j < rows.len() && is_section(rows[j].2) {
        let j = choose|j: int| h < j < rows.len() && is_section(rows[j].2);
        lemma_first_header_after(rows, h, j);
    }
}

/// The names and types of two row lists differ (in count, or at some row): the rows
/// need rebuilding rather than a value refresh.
pub open spec fn layout_changed_spec(
    old_rows: Seq<(Seq<char>, Seq<char>, Seq<char>)>,
    new_rows: Seq<(Seq<char>, Seq<char>, Seq<char>)>,
) -> bool {
    old_rows.len() != new_rows.len() || exists|i: int| 0 <= i < old_rows.len()
        && (old_rows[i].0 != new_rows[i].0 || old_rows[i].2 != new_rows[i].2)
}

/// The set of collapsed titles after setting the section `title` collapsed or expanded.
pub open spec fn collapsed_after(s: Set<Seq<char>>, title: Seq<char>, collapsed: bool) -> Set<Seq<char>> {
    if collapsed { s.insert(title) } else { s.remove(title) }
}

/// Collapsing a section and expanding it again leaves every other section as it was
/// (and the whole set as it was, when the section started expanded); setting the same
/// state twice is setting it once; and afterwards the section is in the state set.
pub proof fn lemma_collapse_round_trip(s: Set<Seq<char>>, title: Seq<char>, collapsed: bool)
    ensures
        collapsed_after(collapsed_after(s, title, true), title, false) == s.remove(title),
        !s.contains(title) ==> collapsed_after(collapsed_after(s, title, true), title, false) == s,
        s.contains(title) ==> collapsed_after(collapsed_after(s, title, false), title, true) == s,
        collapsed_after(collapsed_after(s, title, collapsed), title, collapsed) == collapsed_after(s, title, collapsed),
        collapsed_after(s, title, collapsed).contains(title) == collapsed,
{
    assert(s.insert(title).remove(title) =~= s.remove(title));
    if !s.contains(title) {
        assert(s.remove(title) =~= s);
    }
    if s.contains(title) {
        assert(s.remove(title).insert(title) =~= s);
    }
    assert(s.insert(title).insert(title) =~= s.insert(title));
    assert(s.remove(title).remove(title) =~= s.remove(title));
}

proof fn lemma_membership_to_set(a: Seq<Seq<char>>, b: Seq<Seq<char>>, title: Seq<char>, collapsed: bool)
    requires
        forall|t: Seq<char>| b.contains(t) == if t == title { collapsed } else { a.contains(t) },
    ensures
        b.to_set() == collapsed_after(a.to_set(), title, collapsed),
{
    assert(b.to_set() =~= collapsed_after(a.to_set(), title, collapsed)) by {
        assert forall|t: Seq<char>| b.to_set().contains(t) == collapsed_after(a.to_set(), title, collapsed).contains(t) by {
            assert(b.contains(t) == if t == title { collapsed } else { a.contains(t) });
        }
    }
}

/// A text a row draws itself (control widgets draw their own).
pub enum RowText {
    /// A section header's title.
    Title(String),
    /// A code row's caption: its name and a colon.
    Caption(String),
    /// Line `k` (from 0) of a code row's text; empty lines draw nothing.
    Line(usize, String),
    /// A ramp row's name.
    Name(String),
    /// A plain row: `name: value`.
    Plain(String),
}

/// A row text as (kind, line, text): kinds 0 to 4 in the order of `RowText`'s variants.
pub open spec fn text_view(t: RowText) -> (int, int, Seq<char>) {
    match t {
        RowText::Title(s) => (0, 0, s@),
        RowText::Caption(s) => (1, 0, s@),
        RowText::Line(k, s) => (2, k as int, s@),
        RowText::Name(s) => (3, 0, s@),
        RowText::Plain(s) => (4, 0, s@),
    }
}

pub open spec fn texts_view(v: Seq<RowText>) -> Seq<(int, int, Seq<char>)> {
    v.map_values(|t: RowText| text_view(t))
}

pub open spec fn nonempty_line(x: (int, int, Seq<char>)) -> bool {
    x.2.len() > 0
}

/// The non-empty lines of a code row's text, with their line numbers.
pub open spec fn code_lines_spec(v: Seq<char>) -> Seq<(int, int, Seq<char>)> {
    let p = split_on(v, '\n');
    Seq::new(p.len(), |k: int| (2int, k, p[k])).filter(|x: (int, int, Seq<char>)| nonempty_line(x))
}

/// The texts a row of this name, value and type draws itself, `shown` being the text a
/// code row shows (its editor's buffer while it is being edited).
pub open spec fn row_texts_spec(name: Seq<char>, value: Seq<char>, ptype: Seq<char>, shown: Seq<char>)
    -> Seq<(int, int, Seq<char>)>
{
    if starts_with(ptype, "slider"@) || starts_with(ptype, "float3"@) {
        Seq::empty()
    } else if ptype == "section"@ {
        seq![(0int, 0int, name)]
    } else if ptype == "code"@ {
        seq![(1int, 0int, name + ":"@)] + code_lines_spec(shown)
    } else if starts_with(ptype, "spinbox"@) || is_text_row_spec(ptype) || starts_with(ptype, "choice"@)
        || ptype == "button"@ || ptype == "toggle"@ || ptype == "checkbox"@
        || starts_with(ptype, "color"@) || ptype == "rgb"@ || ptype == "rgba"@ {
        Seq::empty()
    } else if ptype == "ramp"@ {
        seq![(3int, 0int, name)]
    } else {
        seq![(4int, 0int, name + ": "@ + value)]
    }
}

/// What a row draws as text itself depends only on its kind: a row with a control
/// widget (slider, float3, spinbox, dropdown, text box, button, toggle or checkbox,
/// color picker) draws nothing, its widget drawing its own label; a section header its
/// title; a code row its caption `name:` then the non-empty lines of its text; a ramp
/// row its name; any other row one `name: value` line.
pub proof fn lemma_row_texts_by_kind(name: Seq<char>, value: Seq<char>, ptype: Seq<char>, shown: Seq<char>)
    ensures
        ({
            let k = row_kind_spec(ptype);
            k == RowKind::Slider || k == RowKind::Float3 || k == RowKind::Spinbox || k == RowKind::Choice
                || k == RowKind::Text || k == RowKind::Button || k == RowKind::Toggle || k == RowKind::Color
        }) ==> row_texts_spec(name, value, ptype, shown).len() == 0,
        row_kind_spec(ptype) == RowKind::Section ==> row_texts_spec(name, value, ptype, shown) == seq![(0int, 0int, name)],
        row_kind_spec(ptype) == RowKind::Code ==> row_texts_spec(name, value, ptype, shown)
            == seq![(1int, 0int, name + ":"@)] + code_lines_spec(shown),
        row_kind_spec(ptype) == RowKind::Ramp ==> row_texts_spec(name, value, ptype, shown) == seq![(3int, 0int, name)],
        row_kind_spec(ptype) == RowKind::Plain ==> row_texts_spec(name, value, ptype, shown)
            == seq![(4int, 0int, name + ": "@ + value)],
{
    reveal_strlit("code");
    reveal_strlit("section");
    reveal_strlit("ramp");
    reveal_strlit("slider");
    reveal_strlit("float3");
    reveal_strlit("spinbox");
    reveal_strlit("choice");
    reveal_strlit("button");
    reveal_strlit("toggle");
    reveal_strlit("checkbox");
    reveal_strlit("color");
    reveal_strlit("rgb");
    reveal_strlit("rgba");
    reveal_strlit("text");
    reveal_strlit("textpick");
    let t = ptype;
    if starts_with(t, "slider"@) { lemma_prefix_chars(t, "slider"@); }
    if starts_with(t, "float3"@) { lemma_prefix_chars(t, "float3"@); }
    if starts_with(t, "spinbox"@) { lemma_prefix_chars(t, "spinbox"@); }
    if starts_with(t, "choice"@) { lemma_prefix_chars(t, "choice"@); }
    if starts_with(t, "color"@) { lemma_prefix_chars(t, "color"@); }
    if starts_with(t, "textpick"@) { lemma_prefix_chars(t, "textpick"@); }
    if t == "section"@ { assert(t.len() == 7 && t[0] == 's' && t[1] == 'e'); }
    if t == "ramp"@ { assert(t.len() == 4 && t[0] == 'r' && t[1] == 'a'); }
    if t == "code"@ { assert(t.len() == 4 && t[0] == 'c' && t[1] == 'o' && t[2] == 'd'); }
}

/// A text that starts with `p` has `p`'s characters first.
proof fn lemma_prefix_chars(t: Seq<char>, p: Seq<char>)
    requires
        starts_with(t, p),
    ensures
        forall|j: int| 0 <= j < p.len() ==> #[trigger] t[j] == p[j],
{
    assert forall|j: int| 0 <= j < p.len() implies #[trigger] t[j] == p[j] by {
        assert(t.take(p.len() as int)[j] == t[j]);
    }
}


/// The line texts of `text`, each with its line number, empty lines left out.
fn code_lines(text: &Vec<char>) -> (out: Vec<RowText>)
    ensures
        texts_view(out@) == code_lines_spec(text@),
{
    let all = pieces(text, '\n');
    let ghost p = split_on(text@, '\n');
    let ghost idx = Seq::new(p.len(), |k: int| (2int, k, p[k]));
    let ghost pred = |x: (int, int, Seq<char>)| nonempty_line(x);
    let mut out: Vec<RowText> = Vec::new();
    let mut k: usize = 0;
    while k < all.len()
        invariant
            k <= all.len(),
            views(all@) == p,
            p == split_on(text@, '\n'),
            idx == Seq::new(p.len(), |k: int| (2int, k, p[k])),
            pred == (|x: (int, int, Seq<char>)| nonempty_line(x)),
            texts_view(out@) == idx.take(k as int).filter(pred),
        decreases all.len() - k,
    {
        let ghost before = idx.take(k as int);
        let ghost item = idx[k as int];
        proof {
            assert(idx.take(k + 1).drop_last() =~= before);
            assert(idx.take(k + 1).last() == item);
            assert(idx.take(k + 1).filter(pred) == if pred(item) {
                before.filter(pred).push(item)
            } else {
                before.filter(pred)
            }) by {
                reveal(Seq::filter);
            }
            assert(item.2 == all@[k as int]@);
        }
        let cs = to_chars(all[k].as_str());
        let ghost prev = out@;
        if cs.len() > 0 {
            let line = RowText::Line(k, all[k].clone());
            out.push(line);
            proof {
                assert(texts_view(out@) =~= texts_view(prev).push(item));
            }
        }
        k = k + 1;
    }
    proof {
        assert(idx.take(k as int) =~= idx);
    }
    out
}

fn joined(a: &String, sep: &str, b: &String) -> (r: String)
    ensures
        r@ == a@ + sep@ + b@,
{
    let mut r = a.clone();
    r.append(sep);
    r.append(b.as_str());
    r
}

/// The parameter panel's rows and editing state.
pub struct ParametersBg {
    display_params: Vec<(String, String, String)>,
    dragging_param: Option<usize>,
    pub focused_param: Option<usize>,
    pub code_editor: Option<CodeEditor>,
    collapsed: Vec<String>,
    visible: bool,
    scrollbar_dragging: bool,
    widgets: Vec<RowWidgets>,
    widget_editing: Vec<bool>,
}

pub(crate) fn clone_row(p: &(String, String, String)) -> (r: (String, String, String))
    ensures
        row_view(r) == row_view(*p),
{
    (p.0.clone(), p.1.clone(), p.2.clone())
}

pub(crate) fn string_is(s: &String, lit: &str) -> (r: bool)
    ensures
        r == (s@ == lit@),
{
    let v = to_chars(s.as_str());
    chars_equal_str(&v, lit)
}

impl ParametersBg {
    /// The rows, as (name, value, type).
    pub closed spec fn rows(&self) -> Seq<(Seq<char>, Seq<char>, Seq<char>)> {
        rows_view(self.display_params@)
    }

    /// The titles of the collapsed sections.
    pub closed spec fn collapsed_titles(&self) -> Seq<Seq<char>> {
        self.collapsed@.map_values(|s: String| s@)
    }

    /// The row being dragged, if any.
    pub closed spec fn dragging(&self) -> Option<usize> {
        self.dragging_param
    }

    /// The focused row, if any.
    pub closed spec fn focused(&self) -> Option<usize> {
        self.focused_param
    }

    /// The open code editor's buffer and cursor, if any.
    pub closed spec fn editor(&self) -> Option<(Seq<char>, int)> {
        match self.code_editor {
            Some(e) => Some((e.buffer@, e.cursor_idx as int)),
            None => None,
        }
    }

    /// The open code editor's buffer (empty when none is open).
    pub closed spec fn editor_buffer(&self) -> Seq<char> {
        match self.code_editor {
            Some(e) => e.buffer@,
            None => Seq::empty(),
        }
    }

    /// The open code editor's cursor (0 when none is open).
    pub closed spec fn editor_cursor(&self) -> int {
        match self.code_editor {
            Some(e) => e.cursor_idx as int,
            None => 0,
        }
    }

    /// Whether the panel is shown.
    pub closed spec fn is_visible(&self) -> bool {
        self.visible
    }

    /// Whether a drag holds the scrollbar's thumb.
    pub closed spec fn scrollbar_held(&self) -> bool {
        self.scrollbar_dragging
    }

    /// Each row's widgets, with the values the panel last handed them.
    pub closed spec fn widget_views(&self) -> Seq<WidgetsView> {
        self.widgets@.map_values(|w: RowWidgets| w@)
    }

    /// Per row, whether its widget is being edited (a dropdown: open).
    pub closed spec fn editing_flags(&self) -> Seq<bool> {
        self.widget_editing@
    }

    /// Each collapsed title is recorded once, an open editor's cursor lies in its buffer,
    /// a focused row is a row, and each row has one entry of widgets and one editing flag.
    pub closed spec fn wf(&self) -> bool {
        &&& self.collapsed_titles().no_duplicates()
        &&& self.code_editor matches Some(e) ==> e.wf()
        &&& self.focused_param matches Some(i) ==> i < self.display_params@.len()
        &&& self.widgets@.len() == self.display_params@.len()
        &&& self.widget_editing@.len() == self.display_params@.len()
    }

    /// An empty, visible panel with nothing collapsed or focused.
    pub fn new() -> (p: Adapted<ParametersBg>)
        ensures
            p.inner.wf(),
            p.inner.rows().len() == 0,
            p.inner.collapsed_titles().len() == 0,
            p.inner.focused() is None,
            p.inner.editor() is None,
            p.inner.dragging() is None,
            p.inner.is_visible(),
            !p.inner.scrollbar_held(),
    {
        let p = ParametersBg {
            display_params: Vec::new(),
            dragging_param: None,
            focused_param: None,
            code_editor: None,
            collapsed: Vec::new(),
            visible: true,
            scrollbar_dragging: false,
            widgets: Vec::new(),
            widget_editing: Vec::new(),
        };
        proof {
            assert(p.collapsed_titles() =~= Seq::<Seq<char>>::empty());
            assert(p.rows() =~= Seq::<(Seq<char>, Seq<char>, Seq<char>)>::empty());
        }
        Adapted::new(p)
    }

    /// The rows the panel displays, with their current values.
    pub fn node_params(&self) -> (r: Vec<(String, String, String)>)
        ensures
            rows_view(r@) == self.rows(),
    {
        let mut r: Vec<(String, String, String)> = Vec::new();
        let mut i: usize = 0;
        while i < self.display_params.len()
            invariant
                i <= self.display_params@.len(),
                rows_view(r@) == rows_view(self.display_params@).take(i as int),
            decreases self.display_params.len() - i,
        {
            let row = clone_row(&self.display_params[i]);
            let ghost before = r@;
            r.push(row);
            proof {
                assert(rows_view(r@) =~= rows_view(before).push(row_view(row)));
                assert(rows_view(r@) =~= rows_view(self.display_params@).take(i + 1));
            }
            i = i + 1;
        }
        proof {
            assert(rows_view(self.display_params@).take(i as int) =~= rows_view(self.display_params@));
        }
        r
    }

    /// Whether the section titled `title` is collapsed.
    pub fn section_collapsed(&self, title: &str) -> (r: bool)
        ensures
            r == self.collapsed_titles().contains(title@),
    {
        self.find_title(title).is_some()
    }

    /// Where `title` is recorded among the collapsed titles.
    fn find_title(&self, title: &str) -> (r: Option<usize>)
        ensures
            match r {
                Some(k) => k < self.collapsed@.len() && self.collapsed_titles()[k as int] == title@,
                None => !self.collapsed_titles().contains(title@),
            },
    {
        let t = title.to_owned();
        let mut i: usize = 0;
        while i < self.collapsed.len()
            invariant
                i <= self.collapsed@.len(),
                t@ == title@,
                forall|j: int| 0 <= j < i ==> self.collapsed@[j]@ != title@,
            decreases self.collapsed.len() - i,
        {
            if self.collapsed[i] == t {
                return Some(i);
            }
            i = i + 1;
        }
        proof {
            if self.collapsed_titles().contains(title@) {
                let j = choose|j: int| 0 <= j < self.collapsed_titles().len() && self.collapsed_titles()[j] == title@;
                assert(self.collapsed@[j]@ == title@);
            }
        }
        None
    }

    /// Collapses (or expands) the section titled `title`, keyed by title so the state
    /// outlives row rebuilds; reports whether anything changed (and the rows need
    /// laying out again).
    pub fn set_section_collapsed(&mut self, title: &str, collapsed: bool) -> (changed: bool)
        requires
            old(self).wf(),
        ensures
            final(self).wf(),
            forall|t: Seq<char>| final(self).collapsed_titles().contains(t) == if t == title@ {
                collapsed
            } else {
                old(self).collapsed_titles().contains(t)
            },
            final(self).collapsed_titles().to_set() == collapsed_after(
                old(self).collapsed_titles().to_set(), title@, collapsed),
            changed == (old(self).collapsed_titles().contains(title@) != collapsed),
            final(self).rows() == old(self).rows(),
            final(self).focused() == old(self).focused(),
            final(self).editor() == old(self).editor(),
            final(self).dragging() == old(self).dragging(),
            final(self).is_visible() == old(self).is_visible(),
            final(self).widget_views() == old(self).widget_views(),
            final(self).editing_flags() == old(self).editing_flags(),
            final(self).scrollbar_held() == old(self).scrollbar_held(),
    {
        let t = title.to_owned();
        let ghost old_titles = self.collapsed_titles();
        let found = self.find_title(title);
        let changed = match found {
            Some(k) => {
                proof {
                    assert(old_titles[k as int] == title@);
                }
                if collapsed {
                    false
                } else {
                    self.collapsed.remove(k);
                    proof {
                        let nt = self.collapsed_titles();
                        assert(nt =~= old_titles.remove(k as int));
                        assert forall|x: Seq<char>| nt.contains(x) == if x == title@ { false } else {
                            old_titles.contains(x)
                        } by {
                            if nt.contains(x) {
                                let j = choose|j: int| 0 <= j < nt.len() && nt[j] == x;
                                if j < k { assert(nt[j] == old_titles[j]); } else { assert(nt[j] == old_titles[j + 1]); }
                            }
                            if x != title@ && old_titles.contains(x) {
                                let j = choose|j: int| 0 <= j < old_titles.len() && old_titles[j] == x;
                                if j < k { assert(nt[j] == x); } else { assert(nt[j - 1] == x); }
                            }
                        }
                    }
                    true
                }
            }
            None => {
                if collapsed {
                    let ghost before = self.collapsed@;
                    self.collapsed.push(t);
                    proof {
                        let nt = self.collapsed_titles();
                        assert(nt =~= old_titles.push(title@));
                        assert forall|x: Seq<char>| nt.contains(x) == if x == title@ { true } else {
                            old_titles.contains(x)
                        } by {
                            if x == title@ {
                                assert(nt[nt.len() - 1] == x);
                            }
                            if nt.contains(x) && x != title@ {
                                let j = choose|j: int| 0 <= j < nt.len() && nt[j] == x;
                                assert(old_titles[j] == x);
                            }
                            if old_titles.contains(x) {
                                let j = choose|j: int| 0 <= j < old_titles.len() && old_titles[j] == x;
                                assert(nt[j] == x);
                            }
                        }
                    }
                    true
                } else {
                    false
                }
            }
        };
        proof {
            lemma_membership_to_set(old_titles, self.collapsed_titles(), title@, collapsed);
        }
        changed
    }

    /// Per row, whether it sits inside a collapsed section.
    pub fn hidden_rows(&self) -> (out: Vec<bool>)
        ensures
            out@.len() == self.rows().len(),
            forall|i: int| 0 <= i < out@.len() ==> out@[i] == row_hidden(self.rows(), self.collapsed_titles(), i),
    {
        let ghost rows = self.rows();
        let ghost col = self.collapsed_titles();
        let mut out: Vec<bool> = Vec::new();
        let mut hiding = false;
        let mut last: Option<usize> = None;
        let mut i: usize = 0;
        while i < self.display_params.len()
            invariant
                i <= self.display_params@.len(),
                rows == self.rows(),
                col == self.collapsed_titles(),
                rows.len() == self.display_params@.len(),
                out@.len() == i,
                forall|k: int| 0 <= k < i ==> out@[k] == row_hidden(rows, col, k),
                match last {
                    Some(h) => h < i && is_section(rows[h as int].2)
                        && (forall|j: int| h < j < i ==> !is_section(#[trigger] rows[j].2))
                        && hiding == col.contains(rows[h as int].0),
                    None => (forall|j: int| 0 <= j < i ==> !is_section(#[trigger] rows[j].2)) && !hiding,
                },
            decreases self.display_params.len() - i,
        {
            proof {
                assert(rows[i as int] == row_view(self.display_params@[i as int]));
            }
            if string_is(&self.display_params[i].2, "section") {
                let sc = self.section_collapsed(self.display_params[i].0.as_str());
                hiding = sc;
                last = Some(i);
                out.push(false);
            } else {
                proof {
                    if hiding {
                        let h = last->0 as int;
                        assert(0 <= h < i && is_section(rows[h].2) && col.contains(rows[h].0)
                            && forall|j: int| h < j < i ==> !is_section(#[trigger] rows[j].2));
                    } else {
                        assert forall|h: int| #![trigger rows[h]] 0 <= h < i && is_section(rows[h].2)
                            && col.contains(rows[h].0) implies !(forall|j: int| h < j < i ==> !is_section(#[trigger] rows[j].2)) by {
                            match last {
                                Some(l) => {
                                    if (h as int) < (l as int) {
                                        assert(is_section(rows[l as int].2));
                                    }
                                }
                                None => {}
                            }
                        }
                    }
                }
                out.push(hiding);
            }
            i = i + 1;
        }
        out
    }

    /// The first header after row `h` (or the row count).
    fn next_header_exec(&self, h: usize) -> (e: usize)
        requires
            h < self.rows().len(),
        ensures
            e == next_header(self.rows(), h as int),
            h < e <= self.rows().len(),
    {
        let ghost rows = self.rows();
        assert(rows.len() == self.display_params@.len());
        let n = self.display_params.len();
        let mut j: usize = h + 1;
        while j < self.display_params.len()
            invariant
                h < j <= self.display_params@.len(),
                rows == self.rows(),
                rows.len() == self.display_params@.len(),
                forall|k: int| h < k < j ==> !is_section(#[trigger] rows[k].2),
            decreases self.display_params.len() - j,
        {
            proof {
                assert(rows[j as int] == row_view(self.display_params@[j as int]));
            }
            if string_is(&self.display_params[j].2, "section") {
                proof {
                    let c = choose|c: int| h < c < rows.len() && is_section(rows[c].2)
                        && forall|k: int| h < k < c ==> !is_section(#[trigger] rows[k].2);
                    if c < j {
                        assert(!is_section(rows[c].2));
                    }
                    if c > j {
                        assert(!is_section(rows[j as int].2));
                    }
                }
                return j;
            }
            j = j + 1;
        }
        j
    }

    /// Each section, as its header's row and the range of rows it owns (`None` when the
    /// next row is a header or there is none), in row order.
    pub fn sections(&self) -> (out: Vec<(usize, Option<(usize, usize)>)>)
        ensures
            forall|k: int| 0 <= k < out@.len() ==> {
                let h = #[trigger] out@[k].0 as int;
                &&& 0 <= h < self.rows().len()
                &&& is_section(self.rows()[h].2)
                &&& out@[k].1 == section_content(self.rows(), h)
            },
            forall|k: int, m: int| 0 <= k < m < out@.len() ==> out@[k].0 < out@[m].0,
            forall|i: int| 0 <= i < self.rows().len() && is_section(#[trigger] self.rows()[i].2)
                ==> exists|k: int| 0 <= k < out@.len() && out@[k].0 == i,
    {
        let ghost rows = self.rows();
        let mut out: Vec<(usize, Option<(usize, usize)>)> = Vec::new();
        let mut i: usize = 0;
        while i < self.display_params.len()
            invariant
                i <= self.display_params@.len(),
                rows == self.rows(),
                rows.len() == self.display_params@.len(),
                forall|k: int| 0 <= k < out@.len() ==> {
                    let h = #[trigger] out@[k].0 as int;
                    &&& 0 <= h < i
                    &&& is_section(rows[h].2)
                    &&& out@[k].1 == section_content(rows, h)
                },
                forall|k: int, m: int| 0 <= k < m < out@.len() ==> out@[k].0 < out@[m].0,
                forall|j: int| 0 <= j < i && is_section(#[trigger] rows[j].2)
                    ==> exists|k: int| 0 <= k < out@.len() && out@[k].0 == j,
            decreases self.display_params.len() - i,
        {
            proof {
                assert(rows[i as int] == row_view(self.display_params@[i as int]));
            }
            if string_is(&self.display_params[i].2, "section") {
                let e = self.next_header_exec(i);
                let content = if e > i + 1 { Some((i + 1, e - 1)) } else { None };
                let ghost before = out@;
                out.push((i, content));
                proof {
                    assert(out@[before.len() as int].0 == i);
                    assert forall|j: int| 0 <= j < i + 1 && is_section(#[trigger] rows[j].2)
                        implies exists|k: int| 0 <= k < out@.len() && out@[k].0 == j by {
                        if j < i {
                            let k = choose|k: int| 0 <= k < before.len() && before[k].0 == j;
                            assert(out@[k].0 == j);
                        } else {
                            assert(out@[before.len() as int].0 == j);
                        }
                    }
                }
            }
            i = i + 1;
        }
        out
    }

    /// The layout height of row `i` in pixels, by its type; a code row counts the
    /// lines of the open editor's buffer while it holds the focus, else of its value.
    pub fn row_height(&self, i: usize) -> (h: u128)
        requires
            i < self.rows().len(),
        ensures
            ({
                let r = self.rows()[i as int];
                let text = match self.editor() {
                    Some(e) if self.focused() == Some(i) => e.0,
                    _ => r.1,
                };
                h == row_height_spec(row_kind_spec(r.2), split_on(text, '\n').len())
            }),
    {
        let p = &self.display_params[i];
        let kind = row_kind(p.2.as_str());
        let lines: usize = if self.focused_param == Some(i) && self.code_editor.is_some() {
            match &self.code_editor {
                Some(e) => split_ranges(&e.buffer, '\n').len(),
                None => 0,
            }
        } else {
            let v = to_chars(p.1.as_str());
            split_ranges(&v, '\n').len()
        };
        proof {
            assert(self.rows()[i as int] == row_view(self.display_params@[i as int]));
        }
        row_height_px(kind, lines)
    }

    /// The texts row `i` draws itself: a section's title; a code row's caption and the
    /// non-empty lines of its text (of its editor's buffer while it is being edited); a
    /// ramp row's name; a plain row's `name: value`. Rows with control widgets draw none
    /// here.
    pub fn row_texts(&self, i: usize) -> (out: Vec<RowText>)
        requires
            i < self.rows().len(),
        ensures
            ({
                let row = self.rows()[i as int];
                let shown = if self.focused() == Some(i) && self.editor() is Some {
                    self.editor_buffer()
                } else {
                    row.1
                };
                texts_view(out@) == row_texts_spec(row.0, row.1, row.2, shown)
            }),
    {
        proof {
            assert(self.rows()[i as int] == row_view(self.display_params@[i as int]));
        }
        let (name, value, ty) = (&self.display_params[i].0, &self.display_params[i].1, &self.display_params[i].2);
        let t = to_chars(ty.as_str());
        let mut out: Vec<RowText> = Vec::new();
        if chars_start_with(&t, "slider") || chars_start_with(&t, "float3") {
            proof { assert(texts_view(out@) =~= Seq::<(int, int, Seq<char>)>::empty()); }
            return out;
        }
        if string_is(ty, "section") {
            out.push(RowText::Title(name.clone()));
            proof { assert(texts_view(out@) =~= seq![(0int, 0int, name@)]); }
            return out;
        }
        if string_is(ty, "code") {
            let mut caption = name.clone();
            caption.append(":");
            out.push(RowText::Caption(caption));
            let shown: Vec<char> = match (&self.focused_param, &self.code_editor) {
                (Some(f), Some(e)) => if *f == i { e.buffer.clone() } else { to_chars(value.as_str()) },
                _ => to_chars(value.as_str()),
            };
            let mut lines = code_lines(&shown);
            let ghost head = out@;
            let ghost tail = lines@;
            out.append(&mut lines);
            proof {
                assert(texts_view(out@) =~= texts_view(head) + texts_view(tail));
                assert(texts_view(head) =~= seq![(1int, 0int, name@ + ":"@)]);
                if self.focused() == Some(i) && self.editor() is Some {
                    assert(shown@ == self.editor_buffer());
                }
            }
            return out;
        }
        if chars_start_with(&t, "spinbox") || is_text_row(ty.as_str()) || chars_start_with(&t, "choice")
            || string_is(ty, "button") || string_is(ty, "toggle") || string_is(ty, "checkbox")
            || chars_start_with(&t, "color") || string_is(ty, "rgb") || string_is(ty, "rgba") {
            proof { assert(texts_view(out@) =~= Seq::<(int, int, Seq<char>)>::empty()); }
            return out;
        }
        if string_is(ty, "ramp") {
            out.push(RowText::Name(name.clone()));
            proof { assert(texts_view(out@) =~= seq![(3int, 0int, name@)]); }
            return out;
        }
        let plain = joined(name, ": ", value);
        out.push(RowText::Plain(plain));
        proof { assert(texts_view(out@) =~= seq![(4int, 0int, name@ + ": "@ + value@)]); }
        out
    }

    /// Takes a host's rows. When their names or types differ from the displayed ones
    /// (or their count does), the rows are replaced and the focus dropped — the row
    /// widgets must be rebuilt, which the result reports. Otherwise only the values
    /// refresh, except on the focused and the dragged row, whose edits win.
    pub fn set_display_params(&mut self, params: &[(String, String, String)]) -> (layout_changed: bool)
        requires
            old(self).wf(),
        ensures
            final(self).wf(),
            layout_changed == layout_changed_spec(old(self).rows(), rows_view(params@)),
            layout_changed ==> final(self).rows() == rows_view(params@) && final(self).focused() is None,
            !layout_changed ==> final(self).focused() == old(self).focused() && final(self).rows().len()
                == old(self).rows().len() && forall|i: int| 0 <= i < old(self).rows().len()
                ==> #[trigger] final(self).rows()[i] == if old(self).focused() != Some(i as usize)
                && old(self).dragging() != Some(i as usize) {
                (old(self).rows()[i].0, rows_view(params@)[i].1, old(self).rows()[i].2)
            } else {
                old(self).rows()[i]
            },
            layout_changed ==> final(self).widget_views().len() == params@.len()
                && (forall|i: int| 0 <= i < params@.len() ==> #[trigger] final(self).widget_views()[i]
                    == row_widgets_spec(rows_view(params@)[i].1, rows_view(params@)[i].2))
                && final(self).editing_flags() == Seq::new(params@.len(), |_i: int| false),
            !layout_changed ==> final(self).editing_flags() == old(self).editing_flags()
                && final(self).widget_views().len() == old(self).widget_views().len()
                && forall|i: int| 0 <= i < old(self).rows().len() ==> #[trigger] final(self).widget_views()[i]
                    == if old(self).focused() != Some(i as usize) && old(self).dragging() != Some(i as usize) {
                    refreshed_widgets_spec(old(self).widget_views()[i], rows_view(params@)[i].1,
                        old(self).rows()[i].2, old(self).editing_flags()[i])
                } else {
                    old(self).widget_views()[i]
                },
            final(self).collapsed_titles() == old(self).collapsed_titles(),
            final(self).editor() == old(self).editor(),
            final(self).dragging() == old(self).dragging(),
            final(self).is_visible() == old(self).is_visible(),
            final(self).scrollbar_held() == old(self).scrollbar_held(),
    {
        let ghost old_rows = self.rows();
        let ghost old_widgets = self.widget_views();
        let ghost old_editing = self.editing_flags();
        let ghost new_rows = rows_view(params@);
        let n = self.display_params.len();
        let mut changed = n != params.len();
        let mut i: usize = 0;
        if !changed {
            while i < n
                invariant
                    i <= n,
                    n == self.display_params@.len(),
                    n == params@.len(),
                    old_rows == self.rows(),
                    new_rows == rows_view(params@),
                    old_rows.len() == n,
                    new_rows.len() == n,
                    !changed ==> forall|j: int| 0 <= j < i ==> old_rows[j].0 == new_rows[j].0 && old_rows[j].2 == new_rows[j].2,
                    changed ==> layout_changed_spec(old_rows, new_rows),
                decreases n - i,
            {
                proof {
                    assert(old_rows[i as int] == row_view(self.display_params@[i as int]));
                    assert(new_rows[i as int] == row_view(params@[i as int]));
                }
                if self.display_params[i].0 != params[i].0 || self.display_params[i].2 != params[i].2 {
                    changed = true;
                }
                i = i + 1;
            }
        }
        if changed {
            let mut rows: Vec<(String, String, String)> = Vec::new();
            let mut widgets: Vec<RowWidgets> = Vec::new();
            let mut editing: Vec<bool> = Vec::new();
            let mut k: usize = 0;
            while k < params.len()
                invariant
                    k <= params@.len(),
                    rows_view(rows@) == rows_view(params@).take(k as int),
                    widgets@.len() == k,
                    forall|m: int| 0 <= m < k ==> #[trigger] widgets@[m]@
                        == row_widgets_spec(rows_view(params@)[m].1, rows_view(params@)[m].2),
                    editing@ == Seq::new(k as nat, |_i: int| false),
                decreases params.len() - k,
            {
                let row = clone_row(&params[k]);
                let w = row_widgets(params[k].1.as_str(), params[k].2.as_str());
                let ghost before = rows@;
                rows.push(row);
                widgets.push(w);
                editing.push(false);
                proof {
                    assert(rows_view(rows@) =~= rows_view(before).push(row_view(row)));
                    assert(rows_view(rows@) =~= rows_view(params@).take(k + 1));
                    assert(rows_view(params@)[k as int] == row_view(params@[k as int]));
                    assert(editing@ =~= Seq::new((k + 1) as nat, |_i: int| false));
                }
                k = k + 1;
            }
            proof {
                assert(rows_view(params@).take(k as int) =~= rows_view(params@));
            }
            self.display_params = rows;
            self.widgets = widgets;
            self.widget_editing = editing;
            self.focused_param = None;
            proof {
                assert(self.editing_flags() =~= Seq::new(params@.len(), |_i: int| false));
            }
            true
        } else {
            proof {
                assert(!layout_changed_spec(old_rows, new_rows));
            }
            let mut j: usize = 0;
            while j < n
                invariant
                    j <= n,
                    n == self.display_params@.len(),
                    n == params@.len(),
                    old_rows.len() == n,
                    new_rows == rows_view(params@),
                    self.focused_param == old(self).focused_param,
                    self.dragging_param == old(self).dragging_param,
                    self.collapsed == old(self).collapsed,
                    self.code_editor == old(self).code_editor,
                    self.visible == old(self).visible,
                    self.scrollbar_dragging == old(self).scrollbar_dragging,
                    self.widget_editing == old(self).widget_editing,
                    old_editing == self.editing_flags(),
                    old_editing.len() == n,
                    old_widgets.len() == n,
                    self.widgets@.len() == n,
                    forall|m: int| 0 <= m < n ==> #[trigger] self.widget_views()[m] == if m < j
                        && self.focused_param != Some(m as usize) && self.dragging_param != Some(m as usize) {
                        refreshed_widgets_spec(old_widgets[m], new_rows[m].1, old_rows[m].2, old_editing[m])
                    } else {
                        old_widgets[m]
                    },
                    forall|m: int| 0 <= m < n ==> #[trigger] self.rows()[m] == if m < j
                        && self.focused_param != Some(m as usize) && self.dragging_param != Some(m as usize) {
                        (old_rows[m].0, new_rows[m].1, old_rows[m].2)
                    } else {
                        old_rows[m]
                    },
                decreases n - j,
            {
                if self.focused_param != Some(j) && self.dragging_param != Some(j) {
                    proof {
                        assert(self.rows()[j as int] == row_view(self.display_params@[j as int]));
                        assert(new_rows[j as int] == row_view(params@[j as int]));
                        assert(self.widget_views()[j as int] == self.widgets@[j as int]@);
                        assert(old_widgets[j as int] == self.widgets@[j as int]@);
                        assert(self.rows()[j as int] == old_rows[j as int]);
                        assert(old_editing[j as int] == self.widget_editing@[j as int]);
                    }
                    let w = refresh_row_widgets(&self.widgets[j], params[j].1.as_str(),
                        self.display_params[j].2.as_str(), self.widget_editing[j]);
                    let ghost wbefore = self.widgets@;
                    let ghost vbefore = self.widget_views();
                    self.widgets.set(j, w);
                    proof {
                        assert forall|m: int| 0 <= m < n implies #[trigger] self.widget_views()[m] == if m < j + 1
                            && self.focused_param != Some(m as usize) && self.dragging_param != Some(m as usize) {
                            refreshed_widgets_spec(old_widgets[m], new_rows[m].1, old_rows[m].2, old_editing[m])
                        } else {
                            old_widgets[m]
                        } by {
                            assert(self.widget_views()[m] == self.widgets@[m]@);
                            if m != j {
                                assert(self.widgets@[m] == wbefore[m]);
                                assert(vbefore[m] == wbefore[m]@);
                            } else {
                                assert(self.widgets@[m] == w);
                            }
                        }
                    }
                    let ghost vafter = self.widget_views();
                    let ghost before = self.display_params@;
                    let ghost rows_before = self.rows();
                    let name = self.display_params[j].0.clone();
                    let ty = self.display_params[j].2.clone();
                    let value = params[j].1.clone();
                    self.display_params.set(j, (name, value, ty));
                    proof {
                        assert forall|m: int| 0 <= m < n implies #[trigger] self.rows()[m] == if m < j + 1
                            && self.focused_param != Some(m as usize) && self.dragging_param != Some(m as usize) {
                            (old_rows[m].0, new_rows[m].1, old_rows[m].2)
                        } else {
                            old_rows[m]
                        } by {
                            assert(self.rows()[m] == row_view(self.display_params@[m]));
                            assert(rows_before[m] == row_view(before[m]));
                            if m == j {
                                assert(new_rows[m] == row_view(params@[m]));
                                assert(rows_before[m] == old_rows[m]);
                            } else {
                                assert(self.display_params@[m] == before[m]);
                            }
                        }
                        assert(self.widget_views() == vafter);
                    }
                } else {
                    proof {
                        assert forall|m: int| 0 <= m < n implies #[trigger] self.widget_views()[m] == if m < j + 1
                            && self.focused_param != Some(m as usize) && self.dragging_param != Some(m as usize) {
                            refreshed_widgets_spec(old_widgets[m], new_rows[m].1, old_rows[m].2, old_editing[m])
                        } else {
                            old_widgets[m]
                        } by {
                        }
                    }
                }
                j = j + 1;
            }
            proof {
                assert(self.rows().len() == n);
            }
            false
        }
    }

    /// Leaves the focused row: a focused code row takes its editor's buffer as its value
    /// and closes the editor; any other focused row takes `widget_value`, the value its
    /// control widget holds (`None` when the row has no such widget). The focus drops.
    pub fn commit_and_unfocus(&mut self, widget_value: Option<String>)
        requires
            old(self).wf(),
        ensures
            final(self).wf(),
            final(self).focused() is None,
            ({
                let has = old(self).focused() is Some;
                let i = old(self).focused()->0 as int;
                let code = has && old(self).rows()[i].2 == "code"@;
                let row = old(self).rows()[i];
                &&& code ==> final(self).editor() is None
                &&& code && old(self).editor() is Some ==> final(self).rows() == old(self).rows().update(
                    i, (row.0, old(self).editor_buffer(), row.2))
                &&& has && !code && widget_value is Some ==> final(self).rows() == old(self).rows().update(
                    i, (row.0, widget_value->0@, row.2))
                &&& !(code && old(self).editor() is Some) && !(has && !code && widget_value is Some)
                    ==> final(self).rows() == old(self).rows()
                &&& !code ==> final(self).editor() == old(self).editor()
            }),
            final(self).collapsed_titles() == old(self).collapsed_titles(),
            final(self).dragging() == old(self).dragging(),
            final(self).is_visible() == old(self).is_visible(),
            final(self).scrollbar_held() == old(self).scrollbar_held(),
            final(self).widget_views() == old(self).widget_views(),
            final(self).editing_flags() == match old(self).focused() {
                Some(i) => old(self).editing_flags().update(i as int, false),
                None => old(self).editing_flags(),
            },
    {
        if let Some(idx) = self.focused_param {
            self.widget_editing.set(idx, false);
            proof {
                assert(self.rows()[idx as int] == row_view(self.display_params@[idx as int]));
            }
            if string_is(&self.display_params[idx].2, "code") {
                match &self.code_editor {
                    Some(e) => {
                        let value = e.buffer_string();
                        self.set_row_value(idx, value);
                    }
                    None => {}
                }
                self.code_editor = None;
            } else {
                match widget_value {
                    Some(v) => {
                        self.set_row_value(idx, v);
                    }
                    None => {}
                }
            }
        }
        self.focused_param = None;
    }

    /// Sets row `idx`'s value, keeping its name and type.
    fn set_row_value(&mut self, idx: usize, value: String)
        requires
            old(self).wf(),
            idx < old(self).rows().len(),
        ensures
            final(self).wf(),
            final(self).rows() == old(self).rows().update(idx as int,
                (old(self).rows()[idx as int].0, value@, old(self).rows()[idx as int].2)),
            final(self).focused() == old(self).focused(),
            final(self).editor() == old(self).editor(),
            final(self).collapsed_titles() == old(self).collapsed_titles(),
            final(self).dragging() == old(self).dragging(),
            final(self).is_visible() == old(self).is_visible(),
            final(self).widget_views() == old(self).widget_views(),
            final(self).editing_flags() == old(self).editing_flags(),
            final(self).scrollbar_held() == old(self).scrollbar_held(),
            final(self).code_editor == old(self).code_editor,
    {
        proof {
            assert(self.rows()[idx as int] == row_view(self.display_params@[idx as int]));
        }
        let name = self.display_params[idx].0.clone();
        let ty = self.display_params[idx].2.clone();
        let ghost before = self.display_params@;
        self.display_params.set(idx, (name, value, ty));
        proof {
            assert(self.rows() =~= rows_view(before).update(idx as int, row_view((name, value, ty))));
        }
    }

    /// The focused row's control widget took a key: the row takes `value` when the widget
    /// reports one, and loses the focus once the widget stops editing. Without a focused
    /// row, or while the panel is hidden, nothing changes.
    pub fn widget_key_taken(&mut self, value: Option<String>, still_editing: bool)
        requires
            old(self).wf(),
        ensures
            final(self).wf(),
            ({
                let active = old(self).is_visible() && old(self).focused() is Some;
                let i = old(self).focused()->0 as int;
                let row = old(self).rows()[i];
                &&& !active ==> final(self).rows() == old(self).rows()
                    && final(self).focused() == old(self).focused()
                &&& active && value is Some ==> final(self).rows()
                    == old(self).rows().update(i, (row.0, value->0@, row.2))
                &&& active && value is None ==> final(self).rows() == old(self).rows()
                &&& active ==> final(self).focused()
                    == if still_editing { old(self).focused() } else { None }
            }),
            final(self).editor() == old(self).editor(),
            final(self).collapsed_titles() == old(self).collapsed_titles(),
            final(self).dragging() == old(self).dragging(),
            final(self).scrollbar_held() == old(self).scrollbar_held(),
            final(self).is_visible() == old(self).is_visible(),
            final(self).widget_views() == old(self).widget_views(),
            final(self).editing_flags() == if old(self).is_visible() && old(self).focused() is Some {
                old(self).editing_flags().update(old(self).focused()->0 as int, still_editing)
            } else {
                old(self).editing_flags()
            },
    {
        if !self.visible {
            return;
        }
        if let Some(idx) = self.focused_param {
            match value {
                Some(v) => {
                    self.set_row_value(idx, v);
                }
                None => {}
            }
            self.widget_editing.set(idx, still_editing);
            if !still_editing {
                self.focused_param = None;
            }
        }
    }

    /// A click on code row `i`'s text box, at text `line` and column `col` (from the
    /// click's position): the row takes the focus and opens an editor on its value,
    /// the cursor at that position, clamped into the text.
    pub fn focus_code_row(&mut self, i: usize, line: usize, col: usize)
        requires
            old(self).wf(),
            i < old(self).rows().len(),
            old(self).rows()[i as int].2 == "code"@,
        ensures
            final(self).wf(),
            final(self).focused() == Some(i),
            final(self).editor() == Some((old(self).rows()[i as int].1,
                index_of_line_col(old(self).rows()[i as int].1, line as int, col as int))),
            final(self).rows() == old(self).rows(),
            final(self).collapsed_titles() == old(self).collapsed_titles(),
            final(self).dragging() == old(self).dragging(),
            final(self).is_visible() == old(self).is_visible(),
            final(self).widget_views() == old(self).widget_views(),
            final(self).editing_flags() == old(self).editing_flags(),
            final(self).scrollbar_held() == old(self).scrollbar_held(),
    {
        proof {
            assert(self.rows()[i as int] == row_view(self.display_params@[i as int]));
        }
        self.focused_param = Some(i);
        let mut editor = CodeEditor::new(self.display_params[i].1.as_str());
        editor.cursor_idx = map_2d_to_1d(self.display_params[i].1.as_str(), line, col);
        self.code_editor = Some(editor);
    }

    /// A key pressed while a code row holds the focus: the editor applies it, the row's
    /// value follows every change, and Escape commits the buffer and leaves the row.
    /// Reports whether the key was consumed; `false` (and no change) when the panel is
    /// hidden or no code row is being edited.
    pub fn code_keyboard_input(&mut self, key: &EditorKey, ctrl: bool) -> (handled: bool)
        requires
            old(self).wf(),
            old(self).editor_buffer().len() + 1 <= usize::MAX,
            key matches EditorKey::Character(s) ==> old(self).editor_buffer().len() + s@.len() <= usize::MAX,
        ensures
            final(self).wf(),
            ({
                let active = old(self).is_visible() && old(self).editor() is Some
                    && (old(self).focused() matches Some(i) && old(self).rows()[i as int].2 == "code"@);
                let i = old(self).focused()->0 as int;
                let (b, c, out) = key_result(old(self).editor_buffer(), old(self).editor_cursor(), *key, ctrl);
                let row = old(self).rows()[i];
                &&& !active ==> handled == false && final(self).rows() == old(self).rows()
                    && final(self).editor() == old(self).editor() && final(self).focused() == old(self).focused()
                &&& active ==> handled == out.handled
                &&& active && (out.changed || out.unfocus) ==> final(self).rows() == old(self).rows().update(i, (row.0, b, row.2))
                &&& active && !(out.changed || out.unfocus) ==> final(self).rows() == old(self).rows()
                &&& active && out.unfocus ==> final(self).focused() is None && final(self).editor() is None
                &&& active && !out.unfocus ==> final(self).focused() == old(self).focused()
                    && final(self).editor() == Some((b, c))
            }),
            final(self).collapsed_titles() == old(self).collapsed_titles(),
            final(self).dragging() == old(self).dragging(),
            final(self).is_visible() == old(self).is_visible(),
            final(self).widget_views() == old(self).widget_views(),
            final(self).editing_flags() == old(self).editing_flags(),
            final(self).scrollbar_held() == old(self).scrollbar_held(),
    {
        if !self.visible {
            return false;
        }
        let idx = match self.focused_param {
            Some(idx) => idx,
            None => return false,
        };
        proof {
            assert(self.rows()[idx as int] == row_view(self.display_params@[idx as int]));
        }
        if !string_is(&self.display_params[idx].2, "code") {
            return false;
        }
        let mut editor = match self.code_editor.take() {
            Some(e) => e,
            None => return false,
        };
        let out = editor.handle_key(key, ctrl);
        if out.changed || out.unfocus {
            let value = editor.buffer_string();
            let name = self.display_params[idx].0.clone();
            let ty = self.display_params[idx].2.clone();
            let ghost before = self.display_params@;
            self.display_params.set(idx, (name, value, ty));
            proof {
                assert(self.rows() =~= rows_view(before).update(idx as int, row_view((name, value, ty))));
            }
        }
        if out.unfocus {
            self.focused_param = None;
            self.code_editor = None;
        } else {
            self.code_editor = Some(editor);
        }
        out.handled
    }

    /// A press on section header `i`'s title box: the focused row commits (taking
    /// `widget_value` when it is not a code row, as `commit_and_unfocus` does) and loses
    /// the focus — collapsing must not strand an editor — then the section flips between
    /// collapsed and expanded.
    pub fn press_section_title(&mut self, i: usize, widget_value: Option<String>) -> (r: bool)
        requires
            old(self).wf(),
            i < old(self).rows().len(),
            is_section(old(self).rows()[i as int].2),
        ensures
            final(self).wf(),
            r,
            final(self).focused() is None,
            final(self).collapsed_titles().to_set() == collapsed_after(
                old(self).collapsed_titles().to_set(),
                old(self).rows()[i as int].0,
                !old(self).collapsed_titles().contains(old(self).rows()[i as int].0),
            ),
            ({
                let t = old(self).rows()[i as int].0;
                forall|x: Seq<char>| final(self).collapsed_titles().contains(x) == if x == t {
                    !old(self).collapsed_titles().contains(t)
                } else {
                    old(self).collapsed_titles().contains(x)
                }
            }),
            ({
                let has = old(self).focused() is Some;
                let f = old(self).focused()->0 as int;
                let code = has && old(self).rows()[f].2 == "code"@;
                let row = old(self).rows()[f];
                &&& code ==> final(self).editor() is None
                &&& code && old(self).editor() is Some ==> final(self).rows() == old(self).rows().update(
                    f, (row.0, old(self).editor_buffer(), row.2))
                &&& has && !code && widget_value is Some ==> final(self).rows() == old(self).rows().update(
                    f, (row.0, widget_value->0@, row.2))
                &&& !(code && old(self).editor() is Some) && !(has && !code && widget_value is Some)
                    ==> final(self).rows() == old(self).rows()
                &&& !code ==> final(self).editor() == old(self).editor()
            }),
            final(self).dragging() == old(self).dragging(),
            final(self).is_visible() == old(self).is_visible(),
            final(self).scrollbar_held() == old(self).scrollbar_held(),
            final(self).widget_views() == old(self).widget_views(),
            final(self).editing_flags() == match old(self).focused() {
                Some(f) => old(self).editing_flags().update(f as int, false),
                None => old(self).editing_flags(),
            },
    {
        proof {
            assert(self.rows()[i as int] == row_view(self.display_params@[i as int]));
        }
        let title = self.display_params[i].0.clone();
        let collapsed = self.section_collapsed(title.as_str());
        self.commit_and_unfocus(widget_value);
        self.set_section_collapsed(title.as_str(), !collapsed);
        true
    }
}

impl ParametersBg {
    /// The host shows or hides the panel.
    pub fn visibility_changed(&mut self, visible: bool)
        requires
            old(self).wf(),
        ensures
            final(self).wf(),
            final(self).is_visible() == visible,
            final(self).widget_views() == old(self).widget_views(),
            final(self).editing_flags() == old(self).editing_flags(),
            final(self).rows() == old(self).rows(),
            final(self).focused() == old(self).focused(),
            final(self).editor() == old(self).editor(),
            final(self).collapsed_titles() == old(self).collapsed_titles(),
            final(self).dragging() == old(self).dragging(),
            final(self).scrollbar_held() == old(self).scrollbar_held(),
    {
        self.visible = visible;
    }

    /// Whether the host may route a pointer drag here: the scrollbar or a row is being
    /// dragged, or some row is a slider or float3.
    pub fn draggable(&self) -> (r: bool)
        ensures
            r == (self.scrollbar_held() || self.dragging() is Some || exists|i: int| 0 <= i < self.rows().len()
                && (starts_with(#[trigger] self.rows()[i].2, "slider"@) || starts_with(self.rows()[i].2, "float3"@))),
    {
        if self.scrollbar_dragging || self.dragging_param.is_some() {
            return true;
        }
        let mut i: usize = 0;
        while i < self.display_params.len()
            invariant
                i <= self.display_params@.len(),
                !self.scrollbar_dragging,
                self.dragging_param is None,
                forall|j: int| 0 <= j < i ==> !(starts_with(#[trigger] self.rows()[j].2, "slider"@)
                    || starts_with(self.rows()[j].2, "float3"@)),
            decreases self.display_params.len() - i,
        {
            proof {
                assert(self.rows()[i as int] == row_view(self.display_params@[i as int]));
            }
            let t = to_chars(self.display_params[i].2.as_str());
            if chars_start_with(&t, "slider") || chars_start_with(&t, "float3") {
                proof {
                    assert(self.rows()[i as int].2 == t@);
                }
                return true;
            }
            i = i + 1;
        }
        false
    }

    /// Whether a drag is under way, on the scrollbar or on a row.
    pub fn is_dragging(&self) -> (r: bool)
        ensures
            r == (self.scrollbar_held() || self.dragging() is Some),
    {
        self.scrollbar_dragging || self.dragging_param.is_some()
    }

    /// A left press landed on the raised scrollbar (the host tests the bar's shape): the
    /// thumb follows the pointer until the button comes up. A hidden panel takes no
    /// press. Reports whether the bar was grabbed.
    pub fn grab_scrollbar(&mut self) -> (grabbed: bool)
        requires
            old(self).wf(),
        ensures
            final(self).wf(),
            grabbed == old(self).is_visible(),
            final(self).scrollbar_held() == (old(self).scrollbar_held() || grabbed),
            final(self).rows() == old(self).rows(),
            final(self).focused() == old(self).focused(),
            final(self).editor() == old(self).editor(),
            final(self).collapsed_titles() == old(self).collapsed_titles(),
            final(self).dragging() == old(self).dragging(),
            final(self).is_visible() == old(self).is_visible(),
            final(self).widget_views() == old(self).widget_views(),
            final(self).editing_flags() == old(self).editing_flags(),
    {
        if !self.visible {
            return false;
        }
        self.scrollbar_dragging = true;
        true
    }

    /// The left button came up: a held scrollbar lets go. Reports whether it was held;
    /// a hidden panel takes no release.
    pub fn release_scrollbar(&mut self) -> (released: bool)
        requires
            old(self).wf(),
        ensures
            final(self).wf(),
            released == (old(self).is_visible() && old(self).scrollbar_held()),
            final(self).scrollbar_held() == (old(self).scrollbar_held() && !released),
            final(self).rows() == old(self).rows(),
            final(self).focused() == old(self).focused(),
            final(self).editor() == old(self).editor(),
            final(self).collapsed_titles() == old(self).collapsed_titles(),
            final(self).dragging() == old(self).dragging(),
            final(self).is_visible() == old(self).is_visible(),
            final(self).widget_views() == old(self).widget_views(),
            final(self).editing_flags() == old(self).editing_flags(),
    {
        if self.visible && self.scrollbar_dragging {
            self.scrollbar_dragging = false;
            return true;
        }
        false
    }

    /// A drag starts on row `i`'s slider or float3 (the host finds the row under the
    /// pointer): the row is dragged from now on, unless the scrollbar holds the drag.
    pub fn begin_row_drag(&mut self, i: usize)
        requires
            old(self).wf(),
            i < old(self).rows().len(),
        ensures
            final(self).wf(),
            final(self).dragging() == if old(self).scrollbar_held() { old(self).dragging() } else { Some(i) },
            final(self).scrollbar_held() == old(self).scrollbar_held(),
            final(self).rows() == old(self).rows(),
            final(self).focused() == old(self).focused(),
            final(self).editor() == old(self).editor(),
            final(self).collapsed_titles() == old(self).collapsed_titles(),
            final(self).is_visible() == old(self).is_visible(),
            final(self).widget_views() == old(self).widget_views(),
            final(self).editing_flags() == old(self).editing_flags(),
    {
        if self.scrollbar_dragging {
            return;
        }
        self.dragging_param = Some(i);
    }

    /// The drag ends. A held scrollbar lets go, and `None` comes back; otherwise the
    /// dragged row, if any, stops being dragged and comes back for the host to end its
    /// widget's drag.
    pub fn end_drag(&mut self) -> (r: Option<usize>)
        requires
            old(self).wf(),
        ensures
            final(self).wf(),
            !final(self).scrollbar_held(),
            old(self).scrollbar_held() ==> r is None && final(self).dragging() == old(self).dragging(),
            !old(self).scrollbar_held() ==> r == old(self).dragging() && final(self).dragging() is None,
            final(self).rows() == old(self).rows(),
            final(self).focused() == old(self).focused(),
            final(self).editor() == old(self).editor(),
            final(self).collapsed_titles() == old(self).collapsed_titles(),
            final(self).is_visible() == old(self).is_visible(),
            final(self).widget_views() == old(self).widget_views(),
            final(self).editing_flags() == old(self).editing_flags(),
    {
        if self.scrollbar_dragging {
            self.scrollbar_dragging = false;
            return None;
        }
        let r = self.dragging_param;
        self.dragging_param = None;
        r
    }

    /// Whether a press reaches row `i`'s widget: the panel is shown and the row is not
    /// inside a collapsed section.
    fn row_takes_press(&self, i: usize) -> (r: bool)
        requires
            i < self.rows().len(),
        ensures
            r == (self.is_visible() && !row_hidden(self.rows(), self.collapsed_titles(), i as int)),
    {
        if !self.visible {
            return false;
        }
        let hidden = self.hidden_rows();
        !hidden[i]
    }

    /// A press consumed by row `i`'s control widget (a choice, text box, color picker,
    /// toggle or ramp): the row takes `value` when the widget reports one. A widget that
    /// edits (`editing` is `Some`) claims the focus while it edits and hands back a focus
    /// it held once it stops; `None` leaves the focus alone. A hidden panel, or a row
    /// inside a collapsed section, takes no press. Reports whether the press was taken.
    pub fn widget_pressed(&mut self, i: usize, value: Option<String>, editing: Option<bool>) -> (taken: bool)
        requires
            old(self).wf(),
            i < old(self).rows().len(),
        ensures
            final(self).wf(),
            taken == (old(self).is_visible() && !row_hidden(old(self).rows(), old(self).collapsed_titles(), i as int)),
            ({
                let row = old(self).rows()[i as int];
                &&& taken && value is Some ==> final(self).rows() == old(self).rows().update(i as int,
                    (row.0, value->0@, row.2))
                &&& !(taken && value is Some) ==> final(self).rows() == old(self).rows()
                &&& final(self).focused() == match editing {
                    Some(true) if taken => Some(i),
                    Some(false) if taken && old(self).focused() == Some(i) => None,
                    _ => old(self).focused(),
                }
            }),
            final(self).editor() == old(self).editor(),
            final(self).collapsed_titles() == old(self).collapsed_titles(),
            final(self).dragging() == old(self).dragging(),
            final(self).scrollbar_held() == old(self).scrollbar_held(),
            final(self).is_visible() == old(self).is_visible(),
            final(self).widget_views() == old(self).widget_views(),
            final(self).editing_flags() == if taken && editing is Some {
                old(self).editing_flags().update(i as int, editing->0)
            } else {
                old(self).editing_flags()
            },
    {
        if !self.row_takes_press(i) {
            return false;
        }
        match editing {
            Some(e) => {
                self.widget_editing.set(i, e);
            }
            None => {}
        }
        match value {
            Some(v) => {
                self.set_row_value(i, v);
            }
            None => {}
        }
        proof {
            assert(self.rows().len() == self.display_params@.len());
        }
        match editing {
            Some(true) => {
                self.focused_param = Some(i);
            }
            Some(false) => {
                if self.focused_param == Some(i) {
                    self.focused_param = None;
                }
            }
            None => {}
        }
        true
    }

    /// A press consumed by spinbox row `i`'s spinner, which now holds `value`: the row's
    /// text becomes the value, and the row holds the focus while the spinner is being
    /// typed into (`editing`), handing back a focus it held once it is not. Taken as
    /// `widget_pressed` takes a press.
    pub fn spinbox_pressed(&mut self, i: usize, value: i32, editing: bool) -> (taken: bool)
        requires
            old(self).wf(),
            i < old(self).rows().len(),
        ensures
            final(self).wf(),
            taken == (old(self).is_visible() && !row_hidden(old(self).rows(), old(self).collapsed_titles(), i as int)),
            ({
                let row = old(self).rows()[i as int];
                &&& taken ==> final(self).rows() == old(self).rows().update(i as int, (row.0, i32_text(value), row.2))
                &&& !taken ==> final(self).rows() == old(self).rows()
                &&& final(self).focused() == if !taken {
                    old(self).focused()
                } else if editing {
                    Some(i)
                } else if old(self).focused() == Some(i) {
                    None
                } else {
                    old(self).focused()
                }
            }),
            final(self).editor() == old(self).editor(),
            final(self).collapsed_titles() == old(self).collapsed_titles(),
            final(self).dragging() == old(self).dragging(),
            final(self).scrollbar_held() == old(self).scrollbar_held(),
            final(self).is_visible() == old(self).is_visible(),
            final(self).widget_views() == old(self).widget_views(),
            final(self).editing_flags() == if taken {
                old(self).editing_flags().update(i as int, editing)
            } else {
                old(self).editing_flags()
            },
    {
        let text = format_i32(value);
        self.widget_pressed(i, Some(text), Some(editing))
    }

    /// A press consumed by button row `i`'s button: when the press completed a click the
    /// row's value becomes `clicked`, for the host to see and act on. The focus stays.
    /// Taken as `widget_pressed` takes a press.
    pub fn button_pressed(&mut self, i: usize, clicked: bool) -> (taken: bool)
        requires
            old(self).wf(),
            i < old(self).rows().len(),
        ensures
            final(self).wf(),
            taken == (old(self).is_visible() && !row_hidden(old(self).rows(), old(self).collapsed_titles(), i as int)),
            ({
                let row = old(self).rows()[i as int];
                &&& taken && clicked ==> final(self).rows() == old(self).rows().update(i as int, (row.0, "clicked"@, row.2))
                &&& !(taken && clicked) ==> final(self).rows() == old(self).rows()
            }),
            final(self).focused() == old(self).focused(),
            final(self).editor() == old(self).editor(),
            final(self).collapsed_titles() == old(self).collapsed_titles(),
            final(self).dragging() == old(self).dragging(),
            final(self).scrollbar_held() == old(self).scrollbar_held(),
            final(self).is_visible() == old(self).is_visible(),
            final(self).widget_views() == old(self).widget_views(),
            final(self).editing_flags() == old(self).editing_flags(),
    {
        let value = if clicked { Some(String::from_str("clicked")) } else { None };
        proof {
            reveal_strlit("clicked");
        }
        self.widget_pressed(i, value, None)
    }

    /// Row `i`'s widget changed its value outside a press (a drag, a glide, a picker's
    /// stream): the row takes the value.
    pub fn take_widget_value(&mut self, i: usize, value: String)
        requires
            old(self).wf(),
            i < old(self).rows().len(),
        ensures
            final(self).wf(),
            final(self).rows() == old(self).rows().update(i as int,
                (old(self).rows()[i as int].0, value@, old(self).rows()[i as int].2)),
            final(self).focused() == old(self).focused(),
            final(self).editor() == old(self).editor(),
            final(self).collapsed_titles() == old(self).collapsed_titles(),
            final(self).dragging() == old(self).dragging(),
            final(self).scrollbar_held() == old(self).scrollbar_held(),
            final(self).is_visible() == old(self).is_visible(),
            final(self).widget_views() == old(self).widget_views(),
            final(self).editing_flags() == old(self).editing_flags(),
    {
        self.set_row_value(i, value);
    }

    /// A wheel turn of `notches` over spinbox row `i`, whose spinner holds `value` in
    /// `[min, max]` stepping by `step`: the spinner moves to `value + notches * step`,
    /// clamped into the range; when that differs from `value` the row's text becomes the
    /// new value, which comes back for the spinner to take. `None` when nothing moved or
    /// the panel is hidden. (The range must be ordered, and the step and the stepped value
    /// must fit an `i32`.)
    pub fn wheel_spinbox(&mut self, i: usize, value: i32, min: i32, max: i32, step: i32, notches: i32)
        -> (moved: Option<i32>)
        requires
            old(self).wf(),
            i < old(self).rows().len(),
            min <= max,
            i32::MIN <= notches * step <= i32::MAX,
            i32::MIN <= value + notches * step <= i32::MAX,
        ensures
            final(self).wf(),
            ({
                let nv = clamp_spec(value + notches * step, min as int, max as int);
                let row = old(self).rows()[i as int];
                &&& moved == if old(self).is_visible() && nv != value { Some(nv as i32) } else { None }
                &&& moved matches Some(v) ==> final(self).rows() == old(self).rows().update(i as int,
                    (row.0, i32_text(v), row.2))
                &&& moved is None ==> final(self).rows() == old(self).rows()
            }),
            final(self).focused() == old(self).focused(),
            final(self).editor() == old(self).editor(),
            final(self).collapsed_titles() == old(self).collapsed_titles(),
            final(self).dragging() == old(self).dragging(),
            final(self).scrollbar_held() == old(self).scrollbar_held(),
            final(self).is_visible() == old(self).is_visible(),
            final(self).widget_views() == old(self).widget_views(),
            final(self).editing_flags() == old(self).editing_flags(),
    {
        if !self.visible {
            return None;
        }
        let nv = spin_step(value, notches, step, min, max);
        if nv == value {
            return None;
        }
        let text = format_i32(nv);
        self.set_row_value(i, text);
        Some(nv)
    }
}

/// Section header `h`'s extents, from the column's boxes, its collapse state and the
/// rows it owns.
fn span_of(boxes: &Vec<(u128, u128)>, h: usize, collapsed: bool, content: Option<(usize, usize)>,
    Ghost(hs): Ghost<Seq<nat>>, Ghost(ds): Ghost<Seq<bool>>, Ghost(xs): Ghost<Seq<bool>>)
    -> (r: (u128, Option<(u128, u128)>))
    requires
        hs.len() == ds.len(),
        ds.len() == xs.len(),
        headers_sized(hs, ds),
        column_state(hs, ds, xs, hs.len() as int).0 + 10 <= u128::MAX,
        h < hs.len(),
        ds[h as int],
        !xs[h as int],
        content matches Some((a, b)) ==> a == h + 1 && a <= b < hs.len(),
        boxes@.len() == hs.len(),
        forall|i: int| 0 <= i < hs.len() ==> (#[trigger] boxes@[i]).0 as int == column_box(hs, ds, xs, i).0
            && boxes@[i].1 as int == column_box(hs, ds, xs, i).1,
    ensures
        r.0 as int == section_extent(hs, ds, xs, h as int, collapsed, content).0,
        match r.1 {
            Some((y, bh)) => section_extent(hs, ds, xs, h as int, collapsed, content).1 == Some((y as int, bh as int)),
            None => section_extent(hs, ds, xs, h as int, collapsed, content).1 is None,
        },
{
    let ghost n = hs.len() as int;
    proof {
        lemma_column_step(hs, ds, xs, h as int);
        lemma_column_step(hs, ds, xs, h as int + 1);
        lemma_column_grows(hs, ds, xs, h as int + 1, n);
    }
    let (th, hh) = boxes[h];
    if collapsed {
        (th + hh + 8 - 31, None)
    } else {
        match content {
            Some((a, b)) => {
                proof {
                    lemma_column_grows(hs, ds, xs, h as int + 1, a as int);
                    lemma_column_step(hs, ds, xs, a as int + 1);
                    if a < b {
                        lemma_column_grows(hs, ds, xs, a as int + 1, b as int);
                    }
                    lemma_column_step(hs, ds, xs, b as int + 1);
                    lemma_column_grows(hs, ds, xs, b as int + 1, n);
                }
                let (ta, _ha) = boxes[a];
                let (tb, hb) = boxes[b];
                (ta - 31, Some((ta - 3, tb + hb + 6 - ta)))
            },
            None => (th - 2, None),
        }
    }
}

impl ParametersBg {
    /// Row `i`'s laid-out height: by its type, a code row by the lines of its text (of
    /// its editor's buffer while it is being edited).
    pub open spec fn height_of(&self, i: int) -> nat {
        let r = self.rows()[i];
        let text = match self.editor() {
            Some(e) if self.focused() == Some(i as usize) => e.0,
            _ => r.1,
        };
        row_height_spec(row_kind_spec(r.2), split_on(text, '\n').len())
    }

    /// The rows' laid-out heights.
    #[verifier::opaque]
    pub open spec fn heights(&self) -> Seq<nat> {
        Seq::new(self.rows().len(), |i: int| self.height_of(i))
    }

    /// Which rows are section headers.
    #[verifier::opaque]
    pub open spec fn headers(&self) -> Seq<bool> {
        Seq::new(self.rows().len(), |i: int| is_section(self.rows()[i].2))
    }

    /// Which rows sit inside a collapsed section.
    #[verifier::opaque]
    pub open spec fn hidden_flags(&self) -> Seq<bool> {
        Seq::new(self.rows().len(), |i: int| row_hidden(self.rows(), self.collapsed_titles(), i))
    }

    /// The laid-out column, with its padding, fits the pixel arithmetic.
    pub open spec fn column_fits(&self) -> bool {
        column_state(self.heights(), self.headers(), self.hidden_flags(), self.rows().len() as int).0 + 10
            <= u128::MAX
    }

    /// Section header `h`'s vertical extents in the column, as `section_extent` lays
    /// them out for its collapse state and the rows it owns.
    pub open spec fn section_span(&self, h: int) -> (int, Option<(int, int)>) {
        section_extent(self.heights(), self.headers(), self.hidden_flags(), h,
            self.collapsed_titles().contains(self.rows()[h].0), section_content(self.rows(), h))
    }

    /// How the panel's rows stack in its column (the boxes `row_boxes` gives): the first
    /// row starts 30px down; a row inside a collapsed section has an empty box and any
    /// other row a box as tall as `height_of` says; tops never move up; and a drawn row
    /// that is not a section header starts one 8px pitch below the drawn row before it,
    /// collapsed rows between them taking no space.
    pub proof fn lemma_row_boxes_stack(&self, i: int, j: int)
        requires
            0 <= i < j < self.rows().len(),
        ensures
            ({
                let (hs, ds, xs) = (self.heights(), self.headers(), self.hidden_flags());
                let hid = |k: int| row_hidden(self.rows(), self.collapsed_titles(), k);
                &&& column_box(hs, ds, xs, 0).0 == 30
                &&& column_box(hs, ds, xs, i).1 == if hid(i) { 0 } else { self.height_of(i) as int }
                &&& column_box(hs, ds, xs, i).0 <= column_box(hs, ds, xs, j).0
                &&& !hid(i) && !hid(j) && !is_section(self.rows()[j].2)
                    && (forall|k: int| i < k < j ==> #[trigger] row_hidden(self.rows(), self.collapsed_titles(), k))
                    ==> column_box(hs, ds, xs, j).0 == column_box(hs, ds, xs, i).0 + column_box(hs, ds, xs, i).1 + 8
            }),
    {
        self.lemma_headers_sized();
        let (hs, ds, xs) = (self.heights(), self.headers(), self.hidden_flags());
        if forall|k: int| i < k < j ==> #[trigger] row_hidden(self.rows(), self.collapsed_titles(), k) {
            assert forall|k: int| i < k < j implies #[trigger] xs[k] by {
                assert(xs[k] == row_hidden(self.rows(), self.collapsed_titles(), k));
            }
        }
        lemma_rows_stack(hs, ds, xs, i, j);
        assert(xs[i] == row_hidden(self.rows(), self.collapsed_titles(), i));
        assert(xs[j] == row_hidden(self.rows(), self.collapsed_titles(), j));
        assert(ds[j] == is_section(self.rows()[j].2));
        assert(hs[i] == self.height_of(i));
    }

    proof fn lemma_headers_sized(&self)
        ensures
            headers_sized(self.heights(), self.headers()),
            self.heights().len() == self.rows().len(),
            self.headers().len() == self.rows().len(),
            self.hidden_flags().len() == self.rows().len(),
            forall|i: int| 0 <= i < self.rows().len() ==> #[trigger] self.heights()[i] == self.height_of(i),
            forall|i: int| 0 <= i < self.rows().len() ==> #[trigger] self.headers()[i] == is_section(self.rows()[i].2),
            forall|i: int| 0 <= i < self.rows().len() ==> #[trigger] self.hidden_flags()[i]
                == row_hidden(self.rows(), self.collapsed_titles(), i),
    {
        reveal(ParametersBg::heights);
        reveal(ParametersBg::headers);
        reveal(ParametersBg::hidden_flags);
        assert forall|i: int| 0 <= i < self.headers().len() && #[trigger] self.headers()[i]
            implies self.heights()[i] == 24 by {
            reveal_strlit("code");
            reveal_strlit("section");
            assert("section"@.len() != "code"@.len());
            assert(is_section(self.rows()[i].2));
            assert(row_kind_spec(self.rows()[i].2) == RowKind::Section);
        }
    }

    /// Each row's box in the column, as (top, height) in pixels from the column's
    /// origin: rows advance on the 8px pitch from 30px, a row in a collapsed section is
    /// an empty box taking no space, and a section header sits 16px below the drawn
    /// bottom edge of what came before it.
    pub fn row_boxes(&self) -> (out: Vec<(u128, u128)>)
        requires
            self.column_fits(),
        ensures
            out@.len() == self.rows().len(),
            forall|i: int| 0 <= i < out@.len() ==> (#[trigger] out@[i]).0 as int
                == column_box(self.heights(), self.headers(), self.hidden_flags(), i).0
                && out@[i].1 as int == column_box(self.heights(), self.headers(), self.hidden_flags(), i).1,
    {
        let (out, _end) = self.lay_out_column();
        out
    }

    /// The column's scrollable height: the lowest drawn row's bottom edge plus the 8px
    /// pitch and 10px of padding (40px when no row is drawn).
    pub fn content_height(&self) -> (h: u128)
        requires
            self.column_fits(),
        ensures
            h as int == column_height(self.heights(), self.headers(), self.hidden_flags(), self.rows().len() as int),
    {
        let (_out, end) = self.lay_out_column();
        proof {
            self.lemma_headers_sized();
            lemma_column_height(self.heights(), self.headers(), self.hidden_flags(), self.rows().len() as int);
        }
        end + 10
    }

    /// Each section's vertical extents, in header order: the header's row, the top of
    /// its title box, and the box around its rows, as `section_span` gives them.
    pub fn section_spans(&self) -> (out: Vec<(usize, u128, Option<(u128, u128)>)>)
        requires
            self.column_fits(),
        ensures
            forall|k: int| 0 <= k < out@.len() ==> {
                let h = #[trigger] out@[k].0 as int;
                let (t, c) = self.section_span(h);
                &&& 0 <= h < self.rows().len()
                &&& is_section(self.rows()[h].2)
                &&& out@[k].1 as int == t
                &&& match out@[k].2 {
                    Some((y, bh)) => c == Some((y as int, bh as int)),
                    None => c is None,
                }
            },
            forall|k: int, m: int| 0 <= k < m < out@.len() ==> out@[k].0 < out@[m].0,
            forall|i: int| 0 <= i < self.rows().len() && is_section(#[trigger] self.rows()[i].2)
                ==> exists|k: int| 0 <= k < out@.len() && out@[k].0 == i,
    {
        let ghost hs = self.heights();
        let ghost ds = self.headers();
        let ghost xs = self.hidden_flags();
        let ghost n = self.rows().len() as int;
        proof {
            self.lemma_headers_sized();
        }
        let (boxes, _end) = self.lay_out_column();
        let secs = self.sections();
        let len = self.display_params.len();
        let mut out: Vec<(usize, u128, Option<(u128, u128)>)> = Vec::new();
        let mut k: usize = 0;
        while k < secs.len()
            invariant
                hs == self.heights(),
                ds == self.headers(),
                xs == self.hidden_flags(),
                n == self.rows().len(),
                hs.len() == n && ds.len() == n && xs.len() == n,
                headers_sized(hs, ds),
                forall|i: int| 0 <= i < n ==> #[trigger] ds[i] == is_section(self.rows()[i].2),
                forall|i: int| 0 <= i < n ==> #[trigger] xs[i] == row_hidden(self.rows(), self.collapsed_titles(), i),
                len as int == n,
                self.column_fits(),
                boxes@.len() == n,
                forall|i: int| 0 <= i < n ==> (#[trigger] boxes@[i]).0 as int == column_box(hs, ds, xs, i).0
                    && boxes@[i].1 as int == column_box(hs, ds, xs, i).1,
                forall|j: int| 0 <= j < secs@.len() ==> {
                    let h = #[trigger] secs@[j].0 as int;
                    &&& 0 <= h < n
                    &&& is_section(self.rows()[h].2)
                    &&& secs@[j].1 == section_content(self.rows(), h)
                },
                k <= secs@.len(),
                out@.len() == k,
                forall|j: int| 0 <= j < k ==> (#[trigger] out@[j]).0 == secs@[j].0 && {
                    let h = out@[j].0 as int;
                    let (t, c) = self.section_span(h);
                    &&& out@[j].1 as int == t
                    &&& match out@[j].2 {
                        Some((y, bh)) => c == Some((y as int, bh as int)),
                        None => c is None,
                    }
                },
            decreases secs.len() - k,
        {
            let (h, content) = secs[k];
            proof {
                assert(self.rows()[h as int] == row_view(self.display_params@[h as int]));
                lemma_next_header_bounds(self.rows(), h as int);
                assert(!xs[h as int]);
            }
            let collapsed = self.section_collapsed(self.display_params[h].0.as_str());
            let span = span_of(&boxes, h, collapsed, content, Ghost(hs), Ghost(ds), Ghost(xs));
            out.push((h, span.0, span.1));
            k = k + 1;
        }
        proof {
            assert forall|j: int| 0 <= j < out@.len() implies {
                let h = #[trigger] out@[j].0 as int;
                &&& 0 <= h < self.rows().len()
                &&& is_section(self.rows()[h].2)
            } by {
                assert(out@[j].0 == secs@[j].0);
            }
            assert forall|i: int| 0 <= i < self.rows().len() && is_section(#[trigger] self.rows()[i].2)
                implies exists|j: int| 0 <= j < out@.len() && out@[j].0 == i by {
                let j = choose|j: int| 0 <= j < secs@.len() && secs@[j].0 == i;
                assert(out@[j].0 == i);
            }
        }
        out
    }

    /// Lays the column out: each row's box, and where a row after the last would start.
    fn lay_out_column(&self) -> (r: (Vec<(u128, u128)>, u128))
        requires
            self.column_fits(),
        ensures
            r.0@.len() == self.rows().len(),
            forall|i: int| 0 <= i < r.0@.len() ==> (#[trigger] r.0@[i]).0 as int
                == column_box(self.heights(), self.headers(), self.hidden_flags(), i).0
                && r.0@[i].1 as int == column_box(self.heights(), self.headers(), self.hidden_flags(), i).1,
            r.1 as int == column_state(self.heights(), self.headers(), self.hidden_flags(), self.rows().len() as int).0,
    {
        let ghost hs = self.heights();
        let ghost ds = self.headers();
        let ghost xs = self.hidden_flags();
        let n = self.display_params.len();
        proof {
            self.lemma_headers_sized();
        }
        let hidden = self.hidden_rows();
        let mut out: Vec<(u128, u128)> = Vec::new();
        let mut cur: u128 = 30;
        let mut pb: Option<u128> = None;
        let mut i: usize = 0;
        while i < n
            invariant
                n == self.rows().len(),
                hs == self.heights(),
                ds == self.headers(),
                xs == self.hidden_flags(),
                hs.len() == n && ds.len() == n && xs.len() == n,
                headers_sized(hs, ds),
                forall|k: int| 0 <= k < n ==> #[trigger] hs[k] == self.height_of(k),
                forall|k: int| 0 <= k < n ==> #[trigger] ds[k] == is_section(self.rows()[k].2),
                hidden@.len() == n,
                forall|k: int| 0 <= k < n ==> hidden@[k] == #[trigger] xs[k],
                i <= n,
                column_state(hs, ds, xs, n as int).0 <= u128::MAX,
                cur as int == column_state(hs, ds, xs, i as int).0,
                match pb {
                    Some(b) => column_state(hs, ds, xs, i as int).1 == Some(b as int),
                    None => column_state(hs, ds, xs, i as int).1 is None,
                },
                out@.len() == i,
                forall|k: int| 0 <= k < i ==> (#[trigger] out@[k]).0 as int == column_box(hs, ds, xs, k).0
                    && out@[k].1 as int == column_box(hs, ds, xs, k).1,
            decreases n - i,
        {
            proof {
                lemma_column_step(hs, ds, xs, (i + 1) as int);
                lemma_column_grows(hs, ds, xs, (i + 1) as int, n as int);
                assert(hidden@[i as int] == xs[i as int]);
            }
            if hidden[i] {
                out.push((cur, 0));
            } else {
                proof {
                    assert(self.rows()[i as int] == row_view(self.display_params@[i as int]));
                    assert(ds[i as int] == is_section(self.rows()[i as int].2));
                }
                let header = string_is(&self.display_params[i].2, "section");
                let top: u128 = if header {
                    match pb {
                        Some(b) => b + 18,
                        None => cur,
                    }
                } else {
                    cur
                };
                let h = self.row_height(i);
                proof {
                    assert(hs[i as int] == self.height_of(i as int));
                }
                let bottom: u128 = if header {
                    top + 26
                } else if pb.is_some() {
                    top + h + 3
                } else {
                    top + h
                };
                out.push((top, h));
                pb = Some(bottom);
                cur = top + h + 8;
            }
            i = i + 1;
        }
        (out, cur)
    }
}

impl ParametersBg {
    /// Row `i`'s widgets, with the values the panel last handed them.
    pub fn widget(&self, i: usize) -> (w: &RowWidgets)
        requires
            i < self.widget_views().len(),
        ensures
            w@ == self.widget_views()[i as int],
    {
        &self.widgets[i]
    }

    /// Whether row `i`'s widget is being edited (a dropdown: open).
    pub fn widget_editing(&self, i: usize) -> (e: bool)
        requires
            i < self.editing_flags().len(),
        ensures
            e == self.editing_flags()[i as int],
    {
        self.widget_editing[i]
    }
}

} // verus!
