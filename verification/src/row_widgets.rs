//! The control widgets a parameter row builds from its type and value strings, with the
//! plain values they start from, and how a row's widgets follow a value refreshed by
//! the host. (Sliders and float3 rows start from values their float widgets compute.)
use vstd::prelude::*;
use crate::text::{to_chars, split_on};
use crate::menu_bar::clone_strings;
use crate::number::{parse_i32, parse_i32_spec};
use crate::param_spec::{
    starts_with, chars_start_with, chars_equal_str, is_text_row, is_text_row_spec, views,
    parse_spinbox_range, spinbox_range_spec, choice_options, choice_options_spec,
    textpick_options, textpick_options_spec, position_of, selected_option_spec, toggle_on,
    toggle_on_spec, parse_hex_to_rgb, parse_hex_to_rgba, hex_bytes_spec,
};

verus! {

/// The starting color of a color picker.
#[derive(Clone, Copy, Debug)]
pub enum ColorSeed {
    /// An opaque picker (`"color..."`, `"rgb"`).
    Rgb([u8; 3]),
    /// A picker with alpha (`"rgba"`).
    Rgba([u8; 4]),
}

/// The widgets of one row and the values the panel handed them.
pub struct RowWidgets {
    pub slider: bool,
    pub float3: bool,
    /// (value, min, max, step).
    pub spinbox: Option<(i32, i32, i32, i32)>,
    pub button: bool,
    /// A dropdown's options and the selected one.
    pub choice: Option<(Vec<String>, usize)>,
    /// A text row's completion picker, with its candidates.
    pub picker: Option<Vec<String>>,
    /// A text row's text box, with its text.
    pub text: Option<String>,
    /// A toggle, on or off.
    pub toggle: Option<bool>,
    pub color: Option<ColorSeed>,
    /// A ramp editor, with the curve text it holds.
    pub ramp: Option<String>,
}

/// A row's widgets as plain values.
#[verifier::ext_equal]
pub struct WidgetsView {
    pub slider: bool,
    pub float3: bool,
    pub spinbox: Option<(i32, i32, i32, i32)>,
    pub button: bool,
    pub choice: Option<(Seq<Seq<char>>, usize)>,
    pub picker: Option<Seq<Seq<char>>>,
    pub text: Option<Seq<char>>,
    pub toggle: Option<bool>,
    pub color: Option<ColorSeed>,
    pub ramp: Option<Seq<char>>,
}

impl View for RowWidgets {
    type V = WidgetsView;

    open spec fn view(&self) -> WidgetsView {
        WidgetsView {
            slider: self.slider,
            float3: self.float3,
            spinbox: self.spinbox,
            button: self.button,
            choice: match self.choice {
                Some((o, sel)) => Some((views(o@), sel)),
                None => None,
            },
            picker: match self.picker {
                Some(o) => Some(views(o@)),
                None => None,
            },
            text: match self.text {
                Some(t) => Some(t@),
                None => None,
            },
            toggle: self.toggle,
            color: self.color,
            ramp: match self.ramp {
                Some(t) => Some(t@),
                None => None,
            },
        }
    }
}

/// A spinbox's value from the row's text: the text read as an `i32`, else the minimum.
pub open spec fn spinbox_value_spec(value: Seq<char>, min: i32) -> i32 {
    match parse_i32_spec(value) {
        Some(x) => x,
        None => min,
    }
}

/// The color a picker starts from: the row's hex value, white when unreadable.
pub open spec fn color_seed_spec(value: Seq<char>, ptype: Seq<char>) -> Option<ColorSeed> {
    if ptype == "rgba"@ {
        Some(ColorSeed::Rgba(match hex_bytes_spec(value) {
            Some(b) => b,
            None => [255u8, 255u8, 255u8, 255u8],
        }))
    } else if starts_with(ptype, "color"@) || ptype == "rgb"@ {
        Some(ColorSeed::Rgb(match hex_bytes_spec(value) {
            Some(b) => [b[0], b[1], b[2]],
            None => [255u8, 255u8, 255u8],
        }))
    } else {
        None
    }
}

/// The widgets row `(_, value, ptype)` builds: a slider or float3 by the type's prefix;
/// a spinner at the value read as an `i32` (the minimum when unreadable) with the
/// type's range; a button; a dropdown over the type's options with the value selected
/// (the first when the value is no option); a completion picker over a textpick type's
/// options; a text box holding the value; a toggle, on when the value reads `true`; a
/// color picker at the value's color; a ramp editor holding the value.
pub open spec fn row_widgets_spec(value: Seq<char>, ptype: Seq<char>) -> WidgetsView {
    WidgetsView {
        slider: starts_with(ptype, "slider"@),
        float3: starts_with(ptype, "float3"@),
        spinbox: if starts_with(ptype, "spinbox"@) {
            let (min, max, step) = spinbox_range_spec(ptype);
            Some((spinbox_value_spec(value, min), min, max, step))
        } else {
            None
        },
        button: ptype == "button"@,
        choice: match choice_options_spec(ptype) {
            Some(o) => Some((o, selected_option_spec(o, value) as usize)),
            None => None,
        },
        picker: textpick_options_spec(ptype),
        text: if is_text_row_spec(ptype) { Some(value) } else { None },
        toggle: if ptype == "toggle"@ || ptype == "checkbox"@ { Some(toggle_on_spec(value)) } else { None },
        color: color_seed_spec(value, ptype),
        ramp: if ptype == "ramp"@ { Some(value) } else { None },
    }
}

/// Row `(_, value, ptype)`'s widgets `w` after the host refreshed the row's value to
/// `value`, `editing` telling whether the row's widget is being edited (a dropdown:
/// open). The first widget the row has, in the order slider, float3, spinner,
/// dropdown or picker, text box, toggle, color picker, ramp, takes it: a spinner not
/// being edited takes the value read as an `i32`; a closed dropdown takes the type's
/// options and selects the value when it is one; a text box not being edited takes the
/// value as its text; a toggle turns on when the value reads `true`; a color picker not
/// being edited takes the value's color; a ramp not being edited takes the value as its
/// curve. Sliders, float3 rows and pickers keep what they hold.
pub open spec fn refreshed_widgets_spec(w: WidgetsView, value: Seq<char>, ptype: Seq<char>, editing: bool)
    -> WidgetsView
{
    if w.slider || w.float3 {
        w
    } else if w.spinbox is Some {
        let (v, min, max, step) = w.spinbox->0;
        WidgetsView {
            spinbox: Some((if editing { v } else { spinbox_value_spec(value, spinbox_range_spec(ptype).0) },
                min, max, step)),
            ..w
        }
    } else if w.choice is Some {
        let (opts, sel) = w.choice->0;
        if editing || choice_options_spec(ptype) is None {
            w
        } else {
            let o = choice_options_spec(ptype)->0;
            WidgetsView {
                choice: Some((o, if o.contains(value) { selected_option_spec(o, value) as usize } else { sel })),
                ..w
            }
        }
    } else if w.picker is Some {
        w
    } else if w.text is Some {
        if editing { w } else { WidgetsView { text: Some(value), ..w } }
    } else if w.toggle is Some {
        WidgetsView { toggle: Some(toggle_on_spec(value)), ..w }
    } else if w.color is Some {
        if editing { w } else { WidgetsView { color: color_seed_spec(value, ptype), ..w } }
    } else if w.ramp is Some {
        if editing { w } else { WidgetsView { ramp: Some(value), ..w } }
    } else {
        w
    }
}

fn string_equals(a: &str, b: &str) -> (r: bool)
    ensures
        r == (a@ == b@),
{
    let v = to_chars(a);
    chars_equal_str(&v, b)
}

/// The widgets row `(_, value, ptype)` builds.
pub fn row_widgets(value: &str, ptype: &str) -> (w: RowWidgets)
    ensures
        w@ == row_widgets_spec(value@, ptype@),
{
    let t = to_chars(ptype);
    let spinbox = if chars_start_with(&t, "spinbox") {
        let (min, max, step) = parse_spinbox_range(ptype);
        let v = to_chars(value);
        let val = match parse_i32(&v) {
            Some(x) => x,
            None => min,
        };
        Some((val, min, max, step))
    } else {
        None
    };
    let choice = match choice_options(ptype) {
        Some(opts) => {
            let sel = match position_of(&opts, value) {
                Some(i) => i,
                None => 0,
            };
            proof {
                let o = views(opts@);
                if exists|i: int| 0 <= i < o.len() && o[i] == value@ {
                    let i = choose|i: int| 0 <= i < o.len() && o[i] == value@
                        && forall|j: int| 0 <= j < i ==> o[j] != value@;
                    assert(o[sel as int] == opts@[sel as int]@);
                    if (sel as int) < i {
                        assert(o[sel as int] != value@);
                    }
                    if (sel as int) > i {
                        assert(opts@[i]@ == o[i]);
                    }
                } else {
                    assert forall|j: int| 0 <= j < opts@.len() implies opts@[j]@ != value@ by {
                        assert(o[j] == opts@[j]@);
                    }
                }
            }
            Some((opts, sel))
        }
        None => None,
    };
    let toggle = if string_equals(ptype, "toggle") || string_equals(ptype, "checkbox") {
        Some(toggle_on(value))
    } else {
        None
    };
    let color = color_seed(value, ptype);
    RowWidgets {
        slider: chars_start_with(&t, "slider"),
        float3: chars_start_with(&t, "float3"),
        spinbox,
        button: string_equals(ptype, "button"),
        choice,
        picker: textpick_options(ptype),
        text: if is_text_row(ptype) { Some(value.to_owned()) } else { None },
        toggle,
        color,
        ramp: if string_equals(ptype, "ramp") { Some(value.to_owned()) } else { None },
    }
}

/// A spinbox following a refreshed row value: while the user edits it, it keeps its own
/// value; otherwise it takes the row's text as an `i32`, the range's minimum when that
/// text is not one.
pub fn refresh_spinbox(value: &str, ptype: &str, editing: bool, current: i32) -> (v: i32)
    ensures
        v == if editing { current } else { spinbox_value_spec(value@, spinbox_range_spec(ptype@).0) },
{
    if editing {
        return current;
    }
    let (min, _max, _step) = parse_spinbox_range(ptype);
    let chars = to_chars(value);
    match parse_i32(&chars) {
        Some(x) => x,
        None => min,
    }
}

/// A dropdown following a refreshed row value: while open it stays as it is; otherwise
/// it takes the options the type names and selects the value when it is among them,
/// keeping its selection when it is not.
pub fn refresh_choice(value: &str, ptype: &str, open: bool, options: Vec<String>, selected: usize)
    -> (r: (Vec<String>, usize))
    ensures
        open || choice_options_spec(ptype@) is None ==> views(r.0@) == views(options@) && r.1 == selected,
        !open && choice_options_spec(ptype@) is Some ==> {
            let o = choice_options_spec(ptype@)->0;
            &&& views(r.0@) == o
            &&& r.1 == if o.contains(value@) { selected_option_spec(o, value@) as usize } else { selected }
        },
{
    if open {
        return (options, selected);
    }
    match choice_options(ptype) {
        Some(opts) => {
            let sel = match position_of(&opts, value) {
                Some(i) => i,
                None => selected,
            };
            proof {
                let o = views(opts@);
                if o.contains(value@) {
                    let i = choose|i: int| 0 <= i < o.len() && o[i] == value@
                        && forall|j: int| 0 <= j < i ==> o[j] != value@;
                    let w = choose|w: int| 0 <= w < o.len() && o[w] == value@;
                    assert(opts@[w]@ == value@);
                    assert(o[sel as int] == opts@[sel as int]@);
                    if (sel as int) < i {
                        assert(o[sel as int] != value@);
                    }
                    if (sel as int) > i {
                        assert(opts@[i]@ == o[i]);
                    }
                } else {
                    assert forall|j: int| 0 <= j < opts@.len() implies opts@[j]@ != value@ by {
                        assert(o[j] == opts@[j]@);
                    }
                }
            }
            (opts, sel)
        }
        None => (options, selected),
    }
}

/// A copy of a row's widgets.
fn copy_widgets(w: &RowWidgets) -> (r: RowWidgets)
    ensures
        r@ == w@,
{
    let choice = match &w.choice {
        Some((o, sel)) => Some((clone_strings(o), *sel)),
        None => None,
    };
    let picker = match &w.picker {
        Some(o) => Some(clone_strings(o)),
        None => None,
    };
    let text = match &w.text {
        Some(t) => Some(t.clone()),
        None => None,
    };
    let ramp = match &w.ramp {
        Some(t) => Some(t.clone()),
        None => None,
    };
    let r = RowWidgets {
        slider: w.slider,
        float3: w.float3,
        spinbox: w.spinbox,
        button: w.button,
        choice,
        picker,
        text,
        toggle: w.toggle,
        color: w.color,
        ramp,
    };
    proof {
        assert(r@ =~= w@);
    }
    r
}

/// Row `(_, value, ptype)`'s widgets after the host refreshed the row's value to
/// `value`, as `refreshed_widgets_spec` says; `editing` tells whether the row's widget
/// is being edited.
pub fn refresh_row_widgets(w: &RowWidgets, value: &str, ptype: &str, editing: bool) -> (r: RowWidgets)
    ensures
        r@ == refreshed_widgets_spec(w@, value@, ptype@, editing),
{
    let mut r = copy_widgets(w);
    if w.slider || w.float3 {
    } else if let Some((v, min, max, step)) = w.spinbox {
        let nv = refresh_spinbox(value, ptype, editing, v);
        r.spinbox = Some((nv, min, max, step));
    } else if let Some((opts, sel)) = &w.choice {
        let (o2, s2) = refresh_choice(value, ptype, editing, clone_strings(opts), *sel);
        r.choice = Some((o2, s2));
    } else if w.picker.is_some() {
    } else if w.text.is_some() {
        if !editing {
            r.text = Some(value.to_owned());
        }
    } else if w.toggle.is_some() {
        r.toggle = Some(toggle_on(value));
    } else if w.color.is_some() {
        if !editing {
            r.color = color_seed(value, ptype);
        }
    } else if w.ramp.is_some() {
        if !editing {
            r.ramp = Some(value.to_owned());
        }
    }
    proof {
        assert(r@ =~= refreshed_widgets_spec(w@, value@, ptype@, editing));
    }
    r
}

/// The color a picker for row `(_, value, ptype)` starts from.
fn color_seed(value: &str, ptype: &str) -> (c: Option<ColorSeed>)
    ensures
        c == color_seed_spec(value@, ptype@),
{
    let t = to_chars(ptype);
    if string_equals(ptype, "rgba") {
        match parse_hex_to_rgba(value) {
            Some(b) => Some(ColorSeed::Rgba(b)),
            None => Some(ColorSeed::Rgba([255, 255, 255, 255])),
        }
    } else if chars_start_with(&t, "color") || string_equals(ptype, "rgb") {
        match parse_hex_to_rgb(value) {
            Some(b) => Some(ColorSeed::Rgb(b)),
            None => Some(ColorSeed::Rgb([255, 255, 255])),
        }
    } else {
        None
    }
}

} // verus!
