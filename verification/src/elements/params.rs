//! The flat parameter panel: `(name, value, type)` rows edited in place. Text and code
//! rows are typed into directly, spinbox rows carry an integer spinner, and the rows
//! after each section header are framed together. (Slider and float3 rows drive float
//! widgets the host keeps beside the panel.)
use vstd::prelude::*;
use crate::text::{to_chars, chars_to_string};
use crate::number::{parse_i32, format_i32, i32_text, clamp_spec, spin_step};
use crate::param_spec::{starts_with, chars_start_with, parse_spinbox_range, spinbox_range_spec};
use crate::param_panel::{row_view, rows_view, layout_changed_spec, clone_row, string_is};
use crate::param_spec::views;
use crate::row_widgets::spinbox_value_spec;
use crate::editor::EditorKey;

verus! {

/// A spinbox row's spinner: its value, range and step, and whether the user is typing
/// into it.
#[derive(Clone, Copy, PartialEq, Eq, Structural, Debug)]
pub struct SpinboxState {
    pub value: i32,
    pub min: i32,
    pub max: i32,
    pub step: i32,
    pub editing: bool,
}

/// The spinner a row builds: only a `spinbox...` row has one, its range from the
/// type, its value the row's text read as an `i32` (else the minimum).
pub open spec fn spinbox_seed(value: Seq<char>, ptype: Seq<char>) -> Option<SpinboxState> {
    if starts_with(ptype, "spinbox"@) {
        let (min, max, step) = spinbox_range_spec(ptype);
        Some(SpinboxState { value: spinbox_value_spec(value, min), min, max, step, editing: false })
    } else {
        None
    }
}

pub open spec fn is_header(t: Seq<char>) -> bool {
    t == "section"@
}

/// `[s, e]` is a framed run: the rows right after a header up to the next header (or
/// the end), none of them a header.
pub open spec fn section_run(rows: Seq<(Seq<char>, Seq<char>, Seq<char>)>, s: int, e: int) -> bool {
    &&& 0 < s <= e < rows.len()
    &&& is_header(rows[s - 1].2)
    &&& (e + 1 == rows.len() || is_header(rows[e + 1].2))
    &&& forall|k: int| s <= k <= e ==> !is_header(#[trigger] rows[k].2)
}

/// A key typed into a focused text or code row: the new value, whether the row lets go
/// of the focus, and whether the key was taken. Backspace removes the last character
/// (a no-op, not taken, on an empty value); typed text is appended; Enter adds a line to
/// a code row and leaves a text row; Escape leaves either.
pub open spec fn text_key_spec(value: Seq<char>, ptype: Seq<char>, key: EditorKey) -> (Seq<char>, bool, bool) {
    let code = ptype == "code"@;
    let text = ptype == "text"@;
    if !code && !text {
        (value, false, false)
    } else {
        match key {
            EditorKey::Backspace => if value.len() > 0 { (value.drop_last(), false, true) } else { (value, false, false) },
            EditorKey::Enter => if code { (value.push('\n'), false, true) } else { (value, true, true) },
            EditorKey::Escape => (value, true, true),
            EditorKey::Character(s) => (value + s@, false, true),
            _ => (value, false, false),
        }
    }
}

/// How a focused text or code row takes keys: Escape is taken and leaves either row
/// with its value kept; Enter leaves a text row with its value kept, but adds a line to a
/// code row, which keeps the focus; typed text is appended and the row stays; Backspace
/// takes off the last character of a non-empty value and the row stays. A row of any
/// other type takes no key and keeps its value.
pub proof fn lemma_text_row_keys(value: Seq<char>, ptype: Seq<char>, s: String)
    ensures
        (ptype == "text"@ || ptype == "code"@) ==> text_key_spec(value, ptype, EditorKey::Escape) == (value, true, true),
        ptype == "text"@ ==> text_key_spec(value, ptype, EditorKey::Enter) == (value, true, true),
        ptype == "code"@ ==> text_key_spec(value, ptype, EditorKey::Enter) == (value + seq!['\n'], false, true),
        (ptype == "text"@ || ptype == "code"@) ==> text_key_spec(value, ptype, EditorKey::Character(s))
            == (value + s@, false, true),
        (ptype == "text"@ || ptype == "code"@) && value.len() > 0 ==> text_key_spec(value, ptype, EditorKey::Backspace)
            == (value.take(value.len() - 1), false, true),
        !(ptype == "text"@ || ptype == "code"@) ==> forall|k: EditorKey| #[trigger] text_key_spec(value, ptype, k)
            == (value, false, false),
{
    reveal_strlit("text");
    reveal_strlit("code");
    assert("text"@[0] != "code"@[0]);
    assert(value.push('\n') =~= value + seq!['\n']);
    if value.len() > 0 {
        assert(value.drop_last() =~= value.take(value.len() - 1));
    }
}

/// Leaving the focused row commits what its widget holds and nothing else: a spinbox
/// row takes its spinner's value written in decimal; a slider or float3 row takes its
/// float widget's value when the host reports one; every other row, and every row but
/// the focused one, keeps its value. Names and types never change, and without a
/// focused row nothing does.
pub proof fn lemma_unfocus_commits_the_widget(
    rows: Seq<(Seq<char>, Seq<char>, Seq<char>)>,
    spinboxes: Seq<Option<SpinboxState>>,
    i: usize,
    widget_value: Option<Seq<char>>,
)
    requires
        i < rows.len(),
        spinboxes.len() == rows.len(),
        forall|k: int| 0 <= k < rows.len() ==> (#[trigger] spinboxes[k] is Some) == starts_with(rows[k].2, "spinbox"@),
    ensures
        ({
            let out = unfocused_rows(rows, spinboxes, Some(i), widget_value);
            let t = rows[i as int].2;
            &&& out.len() == rows.len()
            &&& forall|k: int| 0 <= k < rows.len() && k != i ==> #[trigger] out[k] == rows[k]
            &&& out[i as int].0 == rows[i as int].0 && out[i as int].2 == t
            &&& starts_with(t, "spinbox"@) ==> out[i as int].1 == i32_text(spinboxes[i as int]->0.value)
            &&& (starts_with(t, "slider"@) || starts_with(t, "float3"@)) && widget_value is Some
                ==> out[i as int].1 == widget_value->0
            &&& !starts_with(t, "spinbox"@) && !((starts_with(t, "slider"@) || starts_with(t, "float3"@))
                && widget_value is Some) ==> out[i as int].1 == rows[i as int].1
        }),
        unfocused_rows(rows, spinboxes, None, widget_value) == rows,
{
    reveal_strlit("spinbox");
    reveal_strlit("slider");
    reveal_strlit("float3");
    let t = rows[i as int].2;
    if starts_with(t, "spinbox"@) {
        assert(t[0] == "spinbox"@[0] && t[1] == "spinbox"@[1]);
        assert(t[0] == 's' && t[1] == 'p');
        assert(!starts_with(t, "slider"@)) by {
            if starts_with(t, "slider"@) {
                assert(t[1] == "slider"@[1]);
            }
        }
        assert(!starts_with(t, "float3"@)) by {
            if starts_with(t, "float3"@) {
                assert(t[0] == "float3"@[0]);
            }
        }
    }
}

/// A row's height in pixels by its type.
pub open spec fn row_height_spec(ptype: Seq<char>) -> u32 {
    if ptype == "code"@ { 200 }
    else if ptype == "section"@ { 24 }
    else if starts_with(ptype, "float3"@) { 108 }
    else if ptype == "text"@ { 24 }
    else { 20 }
}

/// The top of row `i`, in pixels from the panel's top: rows stack from 30px down, each
/// followed by an 8px gap.
pub open spec fn row_top_spec(rows: Seq<(Seq<char>, Seq<char>, Seq<char>)>, i: int) -> int
    decreases i,
{
    if i <= 0 {
        30
    } else {
        row_top_spec(rows, i - 1) + row_height_spec(rows[i - 1].2) + 8
    }
}

/// A character typed into a text or code row and then taken back with Backspace leaves
/// the row's value as it was.
pub proof fn lemma_type_then_backspace_row(value: Seq<char>, ptype: Seq<char>, s: String)
    requires
        ptype == "code"@ || ptype == "text"@,
        s@.len() == 1,
    ensures
        ({
            let (v1, leave1, took1) = text_key_spec(value, ptype, EditorKey::Character(s));
            let (v2, leave2, took2) = text_key_spec(v1, ptype, EditorKey::Backspace);
            &&& took1 && took2 && !leave1 && !leave2
            &&& v2 == value
        }),
{
    assert((value + s@).drop_last() =~= value);
}

/// The text a spinner's value is written as reads back as that value: a spinbox row
/// rebuilt from the text `spin_row` or `unfocus` wrote starts at the same value.
pub proof fn lemma_spinbox_text_round_trip(v: i32, min: i32)
    ensures
        spinbox_value_spec(i32_text(v), min) == v,
{
    crate::number::lemma_i32_text_round_trip(v);
}

/// The spinner's stepped value always lies in its range, and a step of zero notches
/// leaves an in-range value where it was.
pub proof fn lemma_spin_stays_in_range(value: int, amount: int, step: int, min: int, max: int)
    requires
        min <= max,
    ensures
        min <= clamp_spec(value + amount * step, min, max) <= max,
        min <= value <= max ==> clamp_spec(value + 0 * step, min, max) == value,
{
}

/// The texts row (name, value, type) draws itself, `focused` telling whether it holds
/// the focus: a slider, spinbox or section row its name; a code row `name:` and its
/// value on the next line; a text row its name and its value (a caret after it while
/// focused); a float3 row nothing (its widget draws); any other `name: value`.
pub open spec fn row_texts_spec(name: Seq<char>, value: Seq<char>, ptype: Seq<char>, focused: bool) -> Seq<Seq<char>> {
    if starts_with(ptype, "slider"@) {
        seq![name]
    } else if starts_with(ptype, "float3"@) {
        Seq::empty()
    } else if ptype == "section"@ {
        seq![name]
    } else if ptype == "code"@ {
        seq![name + ":\n"@ + value]
    } else if starts_with(ptype, "spinbox"@) {
        seq![name]
    } else if ptype == "text"@ {
        seq![name, if focused { value + "|"@ } else { value }]
    } else {
        seq![name + ": "@ + value]
    }
}

/// The rows after the focused row is let go: a spinbox row's text becomes its
/// spinner's value; a slider or float3 row takes `widget_value` when there is one.
pub open spec fn unfocused_rows(
    rows: Seq<(Seq<char>, Seq<char>, Seq<char>)>,
    spinboxes: Seq<Option<SpinboxState>>,
    focused: Option<usize>,
    widget_value: Option<Seq<char>>,
) -> Seq<(Seq<char>, Seq<char>, Seq<char>)> {
    match focused {
        Some(f) => {
            let i = f as int;
            let row = rows[i];
            if spinboxes[i] is Some {
                rows.update(i, (row.0, i32_text(spinboxes[i]->0.value), row.2))
            } else if (starts_with(row.2, "slider"@) || starts_with(row.2, "float3"@)) && widget_value is Some {
                rows.update(i, (row.0, widget_value->0, row.2))
            } else {
                rows
            }
        },
        None => rows,
    }
}

/// The flat panel's rows and their spinners. A row of type `slider...` or `float3...`
/// carries a float widget the host keeps, one per such row, rebuilt with the rows;
/// which rows carry one follows from their types.
pub struct ParametersBg {
    pub display_params: Vec<(String, String, String)>,
    pub dragging_param: Option<usize>,
    pub focused_param: Option<usize>,
    pub spinboxes: Vec<Option<SpinboxState>>,
    pub visible: bool,
    pub hovered: bool,
}

impl ParametersBg {
    /// The rows, as (name, value, type).
    pub open spec fn rows(&self) -> Seq<(Seq<char>, Seq<char>, Seq<char>)> {
        rows_view(self.display_params@)
    }

    /// One spinner slot per row, filled exactly for spinbox rows; the focused row
    /// exists.
    pub open spec fn wf(&self) -> bool {
        &&& self.spinboxes@.len() == self.display_params@.len()
        &&& forall|i: int| 0 <= i < self.spinboxes@.len()
            ==> (#[trigger] self.spinboxes@[i] is Some) == starts_with(self.rows()[i].2, "spinbox"@)
        &&& self.focused_param matches Some(i) ==> i < self.display_params@.len()
    }

    /// An empty, visible panel.
    pub fn new() -> (p: ParametersBg)
        ensures
            p.wf(),
            p.rows().len() == 0,
            p.spinboxes@.len() == 0,
            p.focused_param is None && p.dragging_param is None,
            p.visible && !p.hovered,
    {
        let p = ParametersBg {
            display_params: Vec::new(),
            dragging_param: None,
            focused_param: None,
            spinboxes: Vec::new(),
            visible: true,
            hovered: false,
        };
        proof {
            assert(p.rows() =~= Seq::<(Seq<char>, Seq<char>, Seq<char>)>::empty());
        }
        p
    }

    /// The rows, with their current values.
    pub fn node_params(&self) -> (r: Vec<(String, String, String)>)
        ensures
            rows_view(r@) == self.rows(),
    {
        let mut r: Vec<(String, String, String)> = Vec::new();
        let mut i: usize = 0;
        while i < self.display_params.len()
            invariant
                i <= self.display_params@.len(),
                rows_view(r@) == rows_view(self.display_params@).take(i as int),
            decreases self.display_params.len() - i,
        {
            let row = clone_row(&self.display_params[i]);
            let ghost before = r@;
            r.push(row);
            proof {
                assert(rows_view(r@) =~= rows_view(before).push(row_view(row)));
                assert(rows_view(r@) =~= rows_view(self.display_params@).take(i + 1));
            }
            i = i + 1;
        }
        proof {
            assert(rows_view(self.display_params@).take(i as int) =~= rows_view(self.display_params@));
        }
        r
    }

    /// Takes a host's rows. When names or types differ from the displayed ones (or their
    /// count does), the rows are replaced, the focus dropped and the spinners rebuilt —
    /// the host rebuilds its float widgets too, which the result reports. Otherwise the
    /// values refresh on every row but the focused and the dragged one, and an idle
    /// spinner follows its row's value.
    pub fn set_display_params(&mut self, params: &[(String, String, String)]) -> (layout_changed: bool)
        requires
            old(self).wf(),
        ensures
            final(self).wf(),
            layout_changed == layout_changed_spec(old(self).rows(), rows_view(params@)),
            layout_changed ==> {
                &&& final(self).rows() == rows_view(params@)
                &&& final(self).focused_param is None
                &&& final(self).spinboxes@ == Seq::new(params@.len(),
                    |i: int| spinbox_seed(params@[i].1@, params@[i].2@))
            },
            !layout_changed ==> {
                &&& final(self).focused_param == old(self).focused_param
                &&& final(self).rows().len() == old(self).rows().len()
                &&& final(self).spinboxes@.len() == old(self).spinboxes@.len()
                &&& forall|i: int| 0 <= i < old(self).rows().len() ==> {
                    let refresh = old(self).focused_param != Some(i as usize) && old(self).dragging_param != Some(i as usize);
                    &&& #[trigger] final(self).rows()[i] == if refresh {
                        (old(self).rows()[i].0, rows_view(params@)[i].1, old(self).rows()[i].2)
                    } else {
                        old(self).rows()[i]
                    }
                    &&& final(self).spinboxes@[i] == match old(self).spinboxes@[i] {
                        Some(sb) => if refresh && !sb.editing {
                            Some(SpinboxState { value: spinbox_value_spec(params@[i].1@, spinbox_range_spec(params@[i].2@).0), ..sb })
                        } else {
                            Some(sb)
                        },
                        None => None,
                    }
                }
            },
            final(self).dragging_param == old(self).dragging_param,
            final(self).visible == old(self).visible,
            final(self).hovered == old(self).hovered,
    {
        let ghost old_rows = self.rows();
        let ghost new_rows = rows_view(params@);
        let n = self.display_params.len();
        let mut changed = n != params.len();
        let mut i: usize = 0;
        if !changed {
            while i < n
                invariant
                    i <= n,
                    n == self.display_params@.len(),
                    n == params@.len(),
                    old_rows == self.rows(),
                    new_rows == rows_view(params@),
                    old_rows.len() == n,
                    new_rows.len() == n,
                    !changed ==> forall|j: int| 0 <= j < i ==> old_rows[j].0 == new_rows[j].0 && old_rows[j].2 == new_rows[j].2,
                    changed ==> layout_changed_spec(old_rows, new_rows),
                decreases n - i,
            {
                proof {
                    assert(old_rows[i as int] == row_view(self.display_params@[i as int]));
                    assert(new_rows[i as int] == row_view(params@[i as int]));
                }
                if self.display_params[i].0 != params[i].0 || self.display_params[i].2 != params[i].2 {
                    changed = true;
                }
                i = i + 1;
            }
        }
        if changed {
            let mut rows: Vec<(String, String, String)> = Vec::new();
            let mut spins: Vec<Option<SpinboxState>> = Vec::new();
            let mut k: usize = 0;
            while k < params.len()
                invariant
                    k <= params@.len(),
                    rows_view(rows@) == rows_view(params@).take(k as int),
                    spins@ == Seq::new(k as nat, |i: int| spinbox_seed(params@[i].1@, params@[i].2@)),
                decreases params.len() - k,
            {
                let row = clone_row(&params[k]);
                let ghost before = rows@;
                let seed = spinbox_for(params[k].1.as_str(), params[k].2.as_str());
                rows.push(row);
                spins.push(seed);
                proof {
                    assert(rows_view(rows@) =~= rows_view(before).push(row_view(row)));
                    assert(rows_view(rows@) =~= rows_view(params@).take(k + 1));
                    assert(spins@ =~= Seq::new((k + 1) as nat, |i: int| spinbox_seed(params@[i].1@, params@[i].2@)));
                }
                k = k + 1;
            }
            proof {
                assert(rows_view(params@).take(k as int) =~= rows_view(params@));
            }
            self.display_params = rows;
            self.spinboxes = spins;
            self.focused_param = None;
            proof {
                assert forall|i: int| 0 <= i < self.spinboxes@.len()
                    implies (#[trigger] self.spinboxes@[i] is Some) == starts_with(self.rows()[i].2, "spinbox"@) by {
                    assert(self.rows()[i] == row_view(params@[i]));
                }
            }
            true
        } else {
            proof {
                assert(!layout_changed_spec(old_rows, new_rows));
            }
            let ghost old_spins = self.spinboxes@;
            let mut j: usize = 0;
            while j < n
                invariant
                    j <= n,
                    n == self.display_params@.len(),
                    n == params@.len(),
                    n == self.spinboxes@.len(),
                    old_rows.len() == n,
                    new_rows == rows_view(params@),
                    old_spins == old(self).spinboxes@,
                    old_rows == rows_view(old(self).display_params@),
                    forall|m: int| 0 <= m < n ==> old_rows[m].0 == new_rows[m].0 && old_rows[m].2 == new_rows[m].2,
                    forall|m: int| 0 <= m < n ==> (#[trigger] old_spins[m] is Some) == starts_with(old_rows[m].2, "spinbox"@),
                    self.focused_param == old(self).focused_param,
                    self.dragging_param == old(self).dragging_param,
                    self.visible == old(self).visible,
                    self.hovered == old(self).hovered,
                    forall|m: int| 0 <= m < n ==> #[trigger] self.rows()[m] == if m < j
                        && self.focused_param != Some(m as usize) && self.dragging_param != Some(m as usize) {
                        (old_rows[m].0, new_rows[m].1, old_rows[m].2)
                    } else {
                        old_rows[m]
                    },
                    forall|m: int| 0 <= m < n ==> #[trigger] self.spinboxes@[m] == match old_spins[m] {
                        Some(sb) => if m < j && self.focused_param != Some(m as usize)
                            && self.dragging_param != Some(m as usize) && !sb.editing {
                            Some(SpinboxState { value: spinbox_value_spec(params@[m].1@, spinbox_range_spec(params@[m].2@).0), ..sb })
                        } else {
                            Some(sb)
                        },
                        None => None,
                    },
                decreases n - j,
            {
                if self.focused_param != Some(j) && self.dragging_param != Some(j) {
                    let ghost before = self.display_params@;
                    let ghost rows_before = self.rows();
                    let ghost spins_before = self.spinboxes@;
                    let name = self.display_params[j].0.clone();
                    let ty = self.display_params[j].2.clone();
                    let value = params[j].1.clone();
                    self.display_params.set(j, (name, value, ty));
                    match self.spinboxes[j] {
                        Some(sb) => {
                            if !sb.editing {
                                let v = refreshed_spin_value(params[j].1.as_str(), params[j].2.as_str());
                                self.spinboxes.set(j, Some(SpinboxState { value: v, ..sb }));
                            }
                        },
                        None => {},
                    }
                    proof {
                        assert forall|m: int| 0 <= m < n implies #[trigger] self.rows()[m] == if m < j + 1
                            && self.focused_param != Some(m as usize) && self.dragging_param != Some(m as usize) {
                            (old_rows[m].0, new_rows[m].1, old_rows[m].2)
                        } else {
                            old_rows[m]
                        } by {
                            assert(self.rows()[m] == row_view(self.display_params@[m]));
                            assert(rows_before[m] == row_view(before[m]));
                            if m == j {
                                assert(new_rows[m] == row_view(params@[m]));
                                assert(rows_before[m] == old_rows[m]);
                            } else {
                                assert(self.display_params@[m] == before[m]);
                            }
                        }
                        assert forall|m: int| 0 <= m < n implies #[trigger] self.spinboxes@[m] == match old_spins[m] {
                            Some(sb) => if m < j + 1 && self.focused_param != Some(m as usize)
                                && self.dragging_param != Some(m as usize) && !sb.editing {
                                Some(SpinboxState { value: spinbox_value_spec(params@[m].1@, spinbox_range_spec(params@[m].2@).0), ..sb })
                            } else {
                                Some(sb)
                            },
                            None => None,
                        } by {
                            if m == j {
                                assert(spins_before[m] == old_spins[m]);
                            } else {
                                assert(self.spinboxes@[m] == spins_before[m]);
                            }
                        }
                    }
                }
                j = j + 1;
            }
            proof {
                assert forall|i: int| 0 <= i < self.spinboxes@.len()
                    implies (#[trigger] self.spinboxes@[i] is Some) == starts_with(self.rows()[i].2, "spinbox"@) by {
                    assert(self.rows()[i].2 == old_rows[i].2);
                    assert(old_spins[i] is Some == starts_with(old_rows[i].2, "spinbox"@));
                }
            }
            false
        }
    }
}

impl ParametersBg {
    /// A key typed while a text or code row holds the focus, as `text_key_spec` says;
    /// other rows' keys go to their widgets (not taken here). Reports whether the key
    /// was taken.
    pub fn text_key(&mut self, key: &EditorKey) -> (taken: bool)
        requires
            old(self).wf(),
        ensures
            final(self).wf(),
            final(self).hovered == old(self).hovered,
            old(self).focused_param is None ==> !taken && *final(self) == *old(self),
            old(self).focused_param matches Some(i) ==> {
                let row = old(self).rows()[i as int];
                let (v, leave, took) = text_key_spec(row.1, row.2, *key);
                &&& taken == took
                &&& final(self).rows() == old(self).rows().update(i as int, (row.0, v, row.2))
                &&& final(self).focused_param == if leave { None } else { old(self).focused_param }
                &&& final(self).spinboxes == old(self).spinboxes
                &&& final(self).dragging_param == old(self).dragging_param
                &&& final(self).visible == old(self).visible
            },
    {
        let idx = match self.focused_param {
            Some(i) => i,
            None => return false,
        };
        proof {
            assert(self.rows()[idx as int] == row_view(self.display_params@[idx as int]));
        }
        let code = string_is(&self.display_params[idx].2, "code");
        let text = string_is(&self.display_params[idx].2, "text");
        let ghost row = self.rows()[idx as int];
        if !code && !text {
            proof {
                assert(self.rows() =~= self.rows().update(idx as int, (row.0, row.1, row.2)));
            }
            return false;
        }
        let v = to_chars(self.display_params[idx].1.as_str());
        let (nv, leave, took): (Vec<char>, bool, bool) = match key {
            EditorKey::Backspace => {
                if v.len() > 0 {
                    let mut w = v;
                    w.pop();
                    (w, false, true)
                } else {
                    (v, false, false)
                }
            },
            EditorKey::Enter => {
                if code {
                    let mut w = v;
                    w.push('\n');
                    (w, false, true)
                } else {
                    (v, true, true)
                }
            },
            EditorKey::Escape => (v, true, true),
            EditorKey::Character(s) => {
                let mut w = v;
                let add = to_chars(s.as_str());
                let mut k: usize = 0;
                let ghost w0 = w@;
                while k < add.len()
                    invariant
                        k <= add@.len(),
                        add@ == s@,
                        w@ == w0 + add@.take(k as int),
                    decreases add.len() - k,
                {
                    w.push(add[k]);
                    proof {
                        assert(add@.take(k + 1) =~= add@.take(k as int).push(add@[k as int]));
                    }
                    k = k + 1;
                }
                proof {
                    assert(add@.take(k as int) =~= add@);
                }
                (w, false, true)
            },
            _ => (v, false, false),
        };
        proof {
            let (sv, sl, st) = text_key_spec(row.1, row.2, *key);
            if key is Backspace && row.1.len() > 0 {
                assert(nv@ =~= row.1.drop_last());
            }
            assert(nv@ =~= sv);
            assert(leave == sl && took == st);
        }
        let value = chars_to_string(&nv);
        let name = self.display_params[idx].0.clone();
        let ty = self.display_params[idx].2.clone();
        let ghost before = self.display_params@;
        self.display_params.set(idx, (name, value, ty));
        proof {
            assert(self.rows() =~= rows_view(before).update(idx as int, row_view((name, value, ty))));
        }
        if leave {
            self.focused_param = None;
        }
        took
    }

    /// A wheel turn of `amount` notches over row `i`: a spinbox row steps its spinner by
    /// `amount` steps, clamped to its range; when the value moves, the row's text
    /// becomes it. Reports whether it moved. (The range must be ordered, and the step
    /// and the stepped value must fit an `i32`.)
    pub fn spin_row(&mut self, i: usize, amount: i32) -> (changed: bool)
        requires
            old(self).wf(),
            i < old(self).spinboxes@.len(),
            old(self).spinboxes@[i as int] matches Some(sb) && sb.min <= sb.max
                && i32::MIN <= amount * sb.step <= i32::MAX
                && i32::MIN <= sb.value + amount * sb.step <= i32::MAX,
        ensures
            final(self).wf(),
            final(self).hovered == old(self).hovered,
            ({
                let sb = old(self).spinboxes@[i as int]->0;
                let nv = clamp_spec(sb.value + amount * sb.step, sb.min as int, sb.max as int);
                let row = old(self).rows()[i as int];
                &&& changed == (nv != sb.value)
                &&& changed ==> final(self).spinboxes@ == old(self).spinboxes@.update(i as int,
                        Some(SpinboxState { value: nv as i32, ..sb }))
                    && final(self).rows() == old(self).rows().update(i as int, (row.0, i32_text(nv as i32), row.2))
                &&& !changed ==> final(self).spinboxes == old(self).spinboxes && final(self).rows() == old(self).rows()
            }),
            final(self).focused_param == old(self).focused_param,
            final(self).dragging_param == old(self).dragging_param,
            final(self).visible == old(self).visible,
    {
        let sb = match self.spinboxes[i] {
            Some(sb) => sb,
            None => return false,
        };
        let nv32 = spin_step(sb.value, amount, sb.step, sb.min, sb.max);
        if nv32 == sb.value {
            return false;
        }
        self.spinboxes.set(i, Some(SpinboxState { value: nv32, ..sb }));
        let text = format_i32(nv32);
        proof {
            assert(self.rows() == rows_view(self.display_params@));
            assert(old(self).rows()[i as int] == row_view(self.display_params@[i as int]));
        }
        let name = self.display_params[i].0.clone();
        let ty = self.display_params[i].2.clone();
        let ghost before = self.display_params@;
        self.display_params.set(i, (name, text, ty));
        proof {
            assert(self.rows() =~= rows_view(before).update(i as int, row_view((name, text, ty))));
            assert forall|k: int| 0 <= k < self.spinboxes@.len()
                implies (#[trigger] self.spinboxes@[k] is Some) == starts_with(self.rows()[k].2, "spinbox"@) by {
                assert(self.rows()[k].2 == old(self).rows()[k].2);
            }
        }
        true
    }

    /// Leaves the focused row: a spinbox row's text becomes its spinner's value; a
    /// slider or float3 row takes `widget_value`, the text of its float widget's value
    /// (`None` when there is none); the focus drops.
    pub fn unfocus(&mut self, widget_value: Option<String>)
        requires
            old(self).wf(),
        ensures
            final(self).wf(),
            final(self).hovered == old(self).hovered,
            final(self).focused_param is None,
            final(self).spinboxes == old(self).spinboxes,
            final(self).dragging_param == old(self).dragging_param,
            final(self).visible == old(self).visible,
            final(self).rows() == unfocused_rows(old(self).rows(), old(self).spinboxes@, old(self).focused_param,
                match widget_value { Some(w) => Some(w@), None => None }),
    {
        if let Some(idx) = self.focused_param {
            proof {
                assert(self.rows()[idx as int] == row_view(self.display_params@[idx as int]));
            }
            let t = to_chars(self.display_params[idx].2.as_str());
            let new_text: Option<String> = match self.spinboxes[idx] {
                Some(sb) => Some(format_i32(sb.value)),
                None => {
                    if chars_start_with(&t, "slider") || chars_start_with(&t, "float3") {
                        widget_value
                    } else {
                        None
                    }
                },
            };
            match new_text {
                Some(text) => {
                    let name = self.display_params[idx].0.clone();
                    let ty = self.display_params[idx].2.clone();
                    let ghost before = self.display_params@;
                    self.display_params.set(idx, (name, text, ty));
                    proof {
                        assert(self.rows() =~= rows_view(before).update(idx as int, row_view((name, text, ty))));
                        assert forall|k: int| 0 <= k < self.spinboxes@.len()
                            implies (#[trigger] self.spinboxes@[k] is Some) == starts_with(self.rows()[k].2, "spinbox"@) by {
                            assert(self.rows()[k].2 == old(self).rows()[k].2);
                        }
                    }
                },
                None => {},
            }
        }
        self.focused_param = None;
    }

    /// A press on code or text row `i`'s box: the row takes the focus.
    pub fn focus_row(&mut self, i: usize)
        requires
            old(self).wf(),
            i < old(self).rows().len(),
        ensures
            final(self).wf(),
            *final(self) == (ParametersBg { focused_param: Some(i), ..*old(self) }),
    {
        self.focused_param = Some(i);
    }

    /// Whether a drag may start: one is under way, or some row is a slider or float3.
    pub fn draggable(&self) -> (r: bool)
        ensures
            r == (self.dragging_param is Some || exists|i: int| 0 <= i < self.rows().len()
                && (starts_with(#[trigger] self.rows()[i].2, "slider"@) || starts_with(self.rows()[i].2, "float3"@))),
    {
        if self.dragging_param.is_some() {
            return true;
        }
        let mut i: usize = 0;
        while i < self.display_params.len()
            invariant
                i <= self.display_params@.len(),
                self.dragging_param is None,
                forall|j: int| 0 <= j < i ==> !(starts_with(#[trigger] self.rows()[j].2, "slider"@)
                    || starts_with(self.rows()[j].2, "float3"@)),
            decreases self.display_params.len() - i,
        {
            proof {
                assert(self.rows()[i as int] == row_view(self.display_params@[i as int]));
            }
            let t = to_chars(self.display_params[i].2.as_str());
            if chars_start_with(&t, "slider") || chars_start_with(&t, "float3") {
                proof {
                    assert(self.rows()[i as int].2 == t@);
                    assert(starts_with(self.rows()[i as int].2, "slider"@) || starts_with(self.rows()[i as int].2, "float3"@));
                }
                return true;
            }
            i = i + 1;
        }
        false
    }

    /// Whether a drag is under way.
    pub fn is_dragging(&self) -> (r: bool)
        ensures
            r == self.dragging_param is Some,
    {
        self.dragging_param.is_some()
    }

    /// Row `i`'s float widget took a drag's start: the row is being dragged.
    pub fn begin_drag(&mut self, i: usize)
        requires
            old(self).wf(),
        ensures
            final(self).wf(),
            *final(self) == (ParametersBg { dragging_param: Some(i), ..*old(self) }),
    {
        self.dragging_param = Some(i);
    }

    /// The drag ends: the dragged row, if any, for the host to end its widget's drag.
    pub fn end_drag(&mut self) -> (r: Option<usize>)
        requires
            old(self).wf(),
        ensures
            final(self).wf(),
            r == old(self).dragging_param,
            *final(self) == (ParametersBg { dragging_param: None, ..*old(self) }),
    {
        let r = self.dragging_param;
        self.dragging_param = None;
        r
    }

    /// Row `i`'s height in pixels.
    pub fn row_height(&self, i: usize) -> (h: u32)
        requires
            i < self.rows().len(),
        ensures
            h == row_height_spec(self.rows()[i as int].2),
    {
        proof {
            assert(self.rows()[i as int] == row_view(self.display_params@[i as int]));
        }
        let t = to_chars(self.display_params[i].2.as_str());
        if string_is(&self.display_params[i].2, "code") { 200 }
        else if string_is(&self.display_params[i].2, "section") { 24 }
        else if chars_start_with(&t, "float3") { 108 }
        else if string_is(&self.display_params[i].2, "text") { 24 }
        else { 20 }
    }

    /// Each row's top, in pixels from the panel's top (`row_top_spec`).
    pub fn row_tops(&self) -> (out: Vec<u128>)
        ensures
            out@.len() == self.rows().len(),
            forall|i: int| 0 <= i < out@.len() ==> #[trigger] out@[i] as int == row_top_spec(self.rows(), i),
    {
        let mut out: Vec<u128> = Vec::new();
        let mut top: u128 = 30;
        let mut i: usize = 0;
        while i < self.display_params.len()
            invariant
                i <= self.display_params@.len(),
                self.rows().len() == self.display_params@.len(),
                top as int == row_top_spec(self.rows(), i as int),
                top <= 30 + 208 * i,
                out@.len() == i,
                forall|k: int| 0 <= k < i ==> #[trigger] out@[k] as int == row_top_spec(self.rows(), k),
            decreases self.display_params.len() - i,
        {
            out.push(top);
            let h = self.row_height(i);
            top = top + (h as u128) + 8;
            i = i + 1;
        }
        out
    }

    /// The texts row `i` draws itself, as `row_texts_spec` says.
    pub fn row_texts(&self, i: usize) -> (out: Vec<String>)
        requires
            i < self.rows().len(),
        ensures
            views(out@) == row_texts_spec(self.rows()[i as int].0, self.rows()[i as int].1,
                self.rows()[i as int].2, self.focused_param == Some(i)),
    {
        proof {
            assert(self.rows()[i as int] == row_view(self.display_params@[i as int]));
        }
        let (name, value, ty) = (&self.display_params[i].0, &self.display_params[i].1, &self.display_params[i].2);
        let t = to_chars(ty.as_str());
        let mut out: Vec<String> = Vec::new();
        if chars_start_with(&t, "slider") {
            out.push(name.clone());
        } else if chars_start_with(&t, "float3") {
        } else if string_is(ty, "section") {
            out.push(name.clone());
        } else if string_is(ty, "code") {
            let mut s = name.clone();
            s.append(":\n");
            s.append(value.as_str());
            out.push(s);
        } else if chars_start_with(&t, "spinbox") {
            out.push(name.clone());
        } else if string_is(ty, "text") {
            out.push(name.clone());
            let mut v = value.clone();
            let focused = match self.focused_param {
                Some(f) => f == i,
                None => false,
            };
            if focused {
                v.append("|");
            }
            out.push(v);
        } else {
            let mut s = name.clone();
            s.append(": ");
            s.append(value.as_str());
            out.push(s);
        }
        proof {
            let r = row_texts_spec(name@, value@, ty@, self.focused_param == Some(i));
            assert(views(out@) =~= r);
        }
        out
    }

    /// The focused spinbox row's spinner took a key and now holds `value` (`editing`
    /// while the user is still typing `edit_buffer`): the row's text follows — the
    /// typed text while editing, else the value, and then the row lets go of the focus.
    pub fn spinbox_key_taken(&mut self, value: i32, editing: bool, edit_buffer: String)
        requires
            old(self).wf(),
            old(self).focused_param matches Some(i) && old(self).spinboxes@[i as int] is Some,
        ensures
            final(self).wf(),
            final(self).hovered == old(self).hovered,
            ({
                let i = old(self).focused_param->0 as int;
                let row = old(self).rows()[i];
                let sb = old(self).spinboxes@[i]->0;
                &&& final(self).spinboxes@ == old(self).spinboxes@.update(i, Some(SpinboxState { value, editing, ..sb }))
                &&& final(self).rows() == old(self).rows().update(i,
                    (row.0, if editing { edit_buffer@ } else { i32_text(value) }, row.2))
                &&& final(self).focused_param == if editing { old(self).focused_param } else { None }
            }),
            final(self).dragging_param == old(self).dragging_param,
            final(self).visible == old(self).visible,
    {
        let idx = match self.focused_param {
            Some(i) => i,
            None => return,
        };
        let sb = match self.spinboxes[idx] {
            Some(sb) => sb,
            None => return,
        };
        self.spinboxes.set(idx, Some(SpinboxState { value, editing, ..sb }));
        let text = if editing { edit_buffer } else { format_i32(value) };
        self.set_value(idx, text);
        if !editing {
            self.focused_param = None;
        }
    }

    /// The focused slider or float3 row's widget took a key: the row takes `text`, the
    /// widget's value written out, and lets go of the focus once the widget stops
    /// editing. Without a focused row nothing changes.
    pub fn float_key_taken(&mut self, text: String, still_editing: bool)
        requires
            old(self).wf(),
        ensures
            final(self).wf(),
            final(self).hovered == old(self).hovered,
            old(self).focused_param is None ==> *final(self) == *old(self),
            old(self).focused_param matches Some(i) ==> {
                let row = old(self).rows()[i as int];
                &&& final(self).rows() == old(self).rows().update(i as int, (row.0, text@, row.2))
                &&& final(self).focused_param == if still_editing { old(self).focused_param } else { None }
                &&& final(self).spinboxes == old(self).spinboxes
            },
            final(self).dragging_param == old(self).dragging_param,
            final(self).visible == old(self).visible,
    {
        if let Some(idx) = self.focused_param {
            self.set_value(idx, text);
            if !still_editing {
                self.focused_param = None;
            }
        }
    }

    /// A press that spinbox row `i`'s spinner took, leaving it at `value` (`editing`
    /// when the press started typing into it): the row's text becomes the value; the
    /// row takes the focus while editing, else the focus is let go as `unfocus` does
    /// (with `widget_value` for a focused float row).
    pub fn spinbox_pressed(&mut self, i: usize, value: i32, editing: bool, widget_value: Option<String>)
        requires
            old(self).wf(),
            i < old(self).spinboxes@.len(),
            old(self).spinboxes@[i as int] is Some,
        ensures
            final(self).wf(),
            final(self).hovered == old(self).hovered,
            ({
                let row = old(self).rows()[i as int];
                let r1 = old(self).rows().update(i as int, (row.0, i32_text(value), row.2));
                let s1 = old(self).spinboxes@.update(i as int,
                    Some(SpinboxState { value, editing, ..old(self).spinboxes@[i as int]->0 }));
                &&& editing ==> final(self).rows() == r1 && final(self).focused_param == Some(i)
                &&& !editing ==> final(self).rows() == unfocused_rows(r1, s1, old(self).focused_param,
                        match widget_value { Some(w) => Some(w@), None => None })
                    && final(self).focused_param is None
                &&& final(self).spinboxes@ == s1
            }),
            final(self).dragging_param == old(self).dragging_param,
            final(self).visible == old(self).visible,
    {
        let sb = match self.spinboxes[i] {
            Some(sb) => sb,
            None => return,
        };
        self.spinboxes.set(i, Some(SpinboxState { value, editing, ..sb }));
        let text = format_i32(value);
        self.set_value(i, text);
        if editing {
            self.focused_param = Some(i);
        } else {
            self.unfocus(widget_value);
        }
    }

    /// Sets row `idx`'s value, keeping its name and type.
    fn set_value(&mut self, idx: usize, value: String)
        requires
            old(self).wf(),
            idx < old(self).rows().len(),
        ensures
            final(self).wf(),
            final(self).rows() == old(self).rows().update(idx as int,
                (old(self).rows()[idx as int].0, value@, old(self).rows()[idx as int].2)),
            final(self).spinboxes == old(self).spinboxes,
            final(self).focused_param == old(self).focused_param,
            final(self).dragging_param == old(self).dragging_param,
            final(self).visible == old(self).visible,
            final(self).hovered == old(self).hovered,
    {
        proof {
            assert(self.rows()[idx as int] == row_view(self.display_params@[idx as int]));
        }
        let name = self.display_params[idx].0.clone();
        let ty = self.display_params[idx].2.clone();
        let ghost before = self.display_params@;
        self.display_params.set(idx, (name, value, ty));
        proof {
            assert(self.rows() =~= rows_view(before).update(idx as int, row_view((name, value, ty))));
            assert forall|k: int| 0 <= k < self.spinboxes@.len()
                implies (#[trigger] self.spinboxes@[k] is Some) == starts_with(self.rows()[k].2, "spinbox"@) by {
                assert(self.rows()[k].2 == old(self).rows()[k].2);
            }
        }
    }

    /// The framed runs of rows, in order: each the rows right after a header up to the
    /// next header or the end; a header followed directly by another frames nothing,
    /// and rows above the first header are not framed.
    pub fn section_ranges(&self) -> (out: Vec<(usize, usize)>)
        ensures
            forall|k: int| 0 <= k < out@.len() ==> section_run(self.rows(), #[trigger] out@[k].0 as int, out@[k].1 as int),
            forall|k: int| 0 <= k < out@.len() - 1 ==> (#[trigger] out@[k]).1 < out@[k + 1].0,
            forall|i: int| 0 <= i < self.rows().len() && !is_header(#[trigger] self.rows()[i].2)
                && (exists|h: int| 0 <= h < i && is_header(self.rows()[h].2))
                ==> exists|k: int| 0 <= k < out@.len() && (#[trigger] out@[k]).0 <= i <= out@[k].1,
    {
        let ghost rows = self.rows();
        let n = self.display_params.len();
        let mut out: Vec<(usize, usize)> = Vec::new();
        let mut current: Option<(usize, usize)> = None;
        let mut in_section = false;
        let mut i: usize = 0;
        while i < n
            invariant
                i <= n,
                n == self.display_params@.len(),
                rows == self.rows(),
                rows.len() == n,
                in_section == exists|h: int| 0 <= h < i && is_header(#[trigger] rows[h].2),
                !in_section ==> current is None && out@.len() == 0,
                in_section && current is None ==> i > 0 && is_header(rows[i - 1].2),
                current matches Some((s, e)) ==> {
                    &&& 0 < s <= e
                    &&& e + 1 == i
                    &&& is_header(rows[s - 1].2)
                    &&& forall|k: int| s <= k <= e ==> !is_header(#[trigger] rows[k].2)
                },
                forall|k: int| 0 <= k < out@.len() ==> {
                    &&& 0 < #[trigger] out@[k].0 <= out@[k].1 < i
                    &&& is_header(rows[out@[k].0 - 1].2)
                    &&& out@[k].1 + 1 < i && is_header(rows[out@[k].1 + 1].2)
                    &&& forall|m: int| out@[k].0 <= m <= out@[k].1 ==> !is_header(#[trigger] rows[m].2)
                },
                forall|k: int| 0 <= k < out@.len() - 1 ==> (#[trigger] out@[k]).1 < out@[k + 1].0,
                out@.len() > 0 ==> (current matches Some((s, e)) ==> out@.last().1 < s),
                forall|j: int| 0 <= j < i && !is_header(#[trigger] rows[j].2)
                    && (exists|h: int| 0 <= h < j && is_header(rows[h].2))
                    ==> (exists|k: int| 0 <= k < out@.len() && (#[trigger] out@[k]).0 <= j <= out@[k].1)
                        || (current matches Some((s, e)) && s <= j <= e),
            decreases n - i,
        {
            proof {
                assert(rows[i as int] == row_view(self.display_params@[i as int]));
                if out@.len() > 0 {
                    assert(out@.last() == out@[out@.len() - 1]);
                    assert(0 < out@[out@.len() - 1].0);
                    assert(out@.last().1 + 1 < i);
                }
            }
            let hdr = string_is(&self.display_params[i].2, "section");
            proof {
                assert(hdr == is_header(rows[i as int].2));
                if !hdr {
                    assert((exists|h: int| 0 <= h < i + 1 && is_header(#[trigger] rows[h].2))
                        == (exists|h: int| 0 <= h < i && is_header(#[trigger] rows[h].2))) by {
                        if exists|h: int| 0 <= h < i + 1 && is_header(#[trigger] rows[h].2) {
                            let h = choose|h: int| 0 <= h < i + 1 && is_header(#[trigger] rows[h].2);
                            assert(h != i);
                        }
                    }
                }
            }
            if hdr {
                let ghost out0 = out@;
                match current {
                    Some(c) => {
                        out.push(c);
                    },
                    None => {},
                }
                proof {
                    assert forall|j: int| 0 <= j < i + 1 && !is_header(#[trigger] rows[j].2)
                        && (exists|h: int| 0 <= h < j && is_header(rows[h].2))
                        implies exists|k: int| 0 <= k < out@.len() && (#[trigger] out@[k]).0 <= j <= out@[k].1 by {
                        if exists|k: int| 0 <= k < out0.len() && (#[trigger] out0[k]).0 <= j <= out0[k].1 {
                            let k = choose|k: int| 0 <= k < out0.len() && (#[trigger] out0[k]).0 <= j <= out0[k].1;
                            assert(out@[k] == out0[k]);
                        } else {
                            assert(out@[out@.len() - 1] == current->0);
                        }
                    }
                }
                current = None;
                in_section = true;
            } else {
                if in_section {
                    match current {
                        Some((s, _e)) => {
                            current = Some((s, i));
                        },
                        None => {
                            current = Some((i, i));
                        },
                    }
                }
            }
            i = i + 1;
        }
        let ghost out0 = out@;
        match current {
            Some(c) => {
                out.push(c);
            },
            None => {},
        }
        proof {
            assert forall|i: int| 0 <= i < rows.len() && !is_header(#[trigger] rows[i].2)
                && (exists|h: int| 0 <= h < i && is_header(rows[h].2))
                implies exists|k: int| 0 <= k < out@.len() && (#[trigger] out@[k]).0 <= i <= out@[k].1 by {
                if exists|k: int| 0 <= k < out0.len() && (#[trigger] out0[k]).0 <= i <= out0[k].1 {
                    let k = choose|k: int| 0 <= k < out0.len() && (#[trigger] out0[k]).0 <= i <= out0[k].1;
                    assert(out@[k] == out0[k]);
                } else {
                    assert(out@[out@.len() - 1] == current->0);
                }
            }
            assert forall|k: int| 0 <= k < out@.len() implies section_run(rows, #[trigger] out@[k].0 as int, out@[k].1 as int) by {
                if k < out0.len() {
                    assert(out@[k] == out0[k]);
                }
            }
        }
        out
    }
}

/// The spinner a row with this value and type builds.
fn spinbox_for(value: &str, ptype: &str) -> (s: Option<SpinboxState>)
    ensures
        s == spinbox_seed(value@, ptype@),
{
    let t = to_chars(ptype);
    if chars_start_with(&t, "spinbox") {
        let (min, max, step) = parse_spinbox_range(ptype);
        let v = to_chars(value);
        let val = match parse_i32(&v) {
            Some(x) => x,
            None => min,
        };
        Some(SpinboxState { value: val, min, max, step, editing: false })
    } else {
        None
    }
}

/// A spinner's value after its row's text is refreshed.
fn refreshed_spin_value(value: &str, ptype: &str) -> (v: i32)
    ensures
        v == spinbox_value_spec(value@, spinbox_range_spec(ptype@).0),
{
    let (min, _max, _step) = parse_spinbox_range(ptype);
    let chars = to_chars(value);
    match parse_i32(&chars) {
        Some(x) => x,
        None => min,
    }
}

} // verus!
