use widget_containers::editor::EditorKey;
use widget_containers::param_panel::{ParametersBg, RowText};
use widget_containers::row_widgets::ColorSeed;
use widget_containers::param_spec::{
    choice_options, is_text_row, parse_hex_to_rgb, parse_hex_to_rgba, parse_spinbox_range,
    position_of, row_height_px, row_kind, slider_decimals, textpick_options, toggle_on, RowKind,
};

fn rows(spec: &[(&str, &str, &str)]) -> Vec<(String, String, String)> {
    spec.iter().map(|(a, b, c)| (a.to_string(), b.to_string(), c.to_string())).collect()
}

fn panel_with(spec: &[(&str, &str, &str)]) -> ParametersBg {
    let mut p = ParametersBg::new().inner;
    p.set_display_params(&rows(spec));
    p
}

#[test]
fn textpick_rows_carry_a_picker() {
    let p = panel_with(&[
        ("Attribute Name", "mass", "textpick:Norm,UV,Pos,Col"),
        ("Plain", "x", "text"),
        ("Empty", "y", "textpick:"),
    ]);
    assert_eq!(p.widget(0).text, Some("mass".to_string()), "textpick keeps its text box");
    let picker = p.widget(0).picker.as_ref().expect("textpick builds the picker");
    assert_eq!(picker, &vec!["Norm".to_string(), "UV".to_string(), "Pos".to_string(), "Col".to_string()]);
    assert!(p.widget(1).picker.is_none(), "plain text has no picker");
    assert!(p.widget(1).text.is_some());
    assert!(p.widget(2).text.is_some() && p.widget(2).picker.is_none(), "no options, no picker");
    // Both text variants lay out at the same row height.
    assert_eq!(p.row_height(0), p.row_height(1));
    // The type strings name the same.
    assert!(is_text_row("textpick:Norm,UV,Pos,Col") && is_text_row("text") && is_text_row("textpick:"));
    assert_eq!(textpick_options("textpick:"), None);
}

#[test]
fn textpick_skips_empty_pieces() {
    assert_eq!(textpick_options("textpick:,a,,b,"), Some(vec!["a".to_string(), "b".to_string()]));
    assert_eq!(textpick_options("textpick:,,"), None);
}

#[test]
fn param_controller_roundtrip_and_row_widgets() {
    let spec = [
        ("Size", "1.00", "slider:0:2"),
        ("Mode", "b", "choice:a,b,c"),
        ("On", "true", "checkbox"),
    ];
    let p = panel_with(&spec);
    assert_eq!(p.node_params(), rows(&spec));
    assert_eq!(p.node_params().len(), 3);
    assert!(p.widget(0).slider && p.widget(1).choice.is_some() && p.widget(2).toggle.is_some());
    let (options, selected) = p.widget(1).choice.clone().unwrap();
    assert_eq!(options, vec!["a".to_string(), "b".to_string(), "c".to_string()]);
    assert_eq!(selected, 1);
    assert_eq!(p.widget(2).toggle, Some(true));
    assert!(row_kind("slider:0:2") == RowKind::Slider);
    assert_eq!(position_of(&options, "b"), Some(1));
    assert_eq!(choice_options("choice:a,b,c"), Some(options));
    assert!(toggle_on("true"));
}

#[test]
fn toggle_click_commits_value_and_unfocus_commits_editor() {
    // Code editor: focus it (the click lands on line 0, column 0), type, then unfocus
    // commits the buffer.
    let mut p = panel_with(&[("Src", "let x = 1;", "code")]);
    p.focus_code_row(0, 0, 0);
    assert_eq!(p.focused_param, Some(0), "code row focused");
    assert!(p.code_editor.is_some());
    p.code_editor.as_mut().unwrap().insert_text("y");
    p.commit_and_unfocus(None);
    assert_eq!(p.focused_param, None);
    assert!(p.code_editor.is_none());
    assert!(p.node_params()[0].1.contains('y'), "editor buffer committed on unfocus");
    assert_eq!(p.node_params()[0].1, "ylet x = 1;");
}

#[test]
fn clicking_a_section_title_collapses_its_rows() {
    let mut p = panel_with(&[
        ("Transform", "", "section"),
        ("Size", "1.00", "slider:0:2"),
        ("Shading", "", "section"),
        ("On", "true", "checkbox"),
    ]);
    assert_eq!(p.hidden_rows(), vec![false, false, false, false]);
    let expanded_h = p.content_height();
    let below_before = p.row_boxes()[2].0;

    // Press the first section's title box.
    assert!(p.press_section_title(0, None));
    assert!(p.section_collapsed("Transform"));
    // The collapsed section's row is hidden and has no height; the next section is not
    // hidden and moves up; the column gets shorter.
    assert_eq!(p.hidden_rows(), vec![false, true, false, false]);
    assert_eq!(p.row_boxes()[1].1, 0, "the collapsed section's row has no height");
    assert!(p.row_boxes()[2].0 < below_before, "the next section moves up");
    assert!(p.content_height() < expanded_h);
    // The header keeps its title.
    assert!(matches!(p.row_texts(0).as_slice(), [RowText::Title(t)] if t == "Transform"));

    // Pressing it again restores the section.
    assert!(p.press_section_title(0, None));
    assert!(!p.section_collapsed("Transform"));
    assert_eq!(p.hidden_rows(), vec![false, false, false, false]);
    assert_eq!(p.content_height(), expanded_h);
}

#[test]
fn collapse_survives_a_param_rebuild_and_swallows_row_clicks() {
    let mut p = panel_with(&[("Shading", "", "section"), ("On", "false", "checkbox")]);
    assert!(p.set_section_collapsed("Shading", true));
    assert_eq!(p.hidden_rows(), vec![false, true]);

    // A press where the toggle used to sit must not reach it.
    assert!(!p.widget_pressed(1, Some("true".to_string()), None));
    assert_eq!(p.node_params()[1].1, "false", "hidden row ignores clicks");

    // The host re-syncs the panel (node change): collapse is keyed by title, so it holds.
    let changed = p.set_display_params(&rows(&[
        ("Shading", "", "section"),
        ("On", "false", "checkbox"),
        ("Extra", "1", "int"),
    ]));
    assert!(changed);
    assert!(p.section_collapsed("Shading"));
    assert_eq!(p.hidden_rows(), vec![false, true, true]);
    assert_eq!(p.row_boxes()[1].1, 0);
}

#[test]
fn collapse_is_reported_once_and_expand_undoes_it() {
    let mut p = panel_with(&[("A", "", "section"), ("x", "1", "int")]);
    assert!(p.set_section_collapsed("A", true));
    assert!(!p.set_section_collapsed("A", true));
    assert!(p.set_section_collapsed("A", false));
    assert!(!p.section_collapsed("A"));
    assert!(!p.set_section_collapsed("A", false));
}

#[test]
fn sections_list_their_rows() {
    let p = panel_with(&[
        ("Loose", "1", "int"),
        ("A", "", "section"),
        ("x", "1", "int"),
        ("y", "2", "int"),
        ("B", "", "section"),
        ("C", "", "section"),
        ("z", "3", "int"),
    ]);
    assert_eq!(p.sections(), vec![(1, Some((2, 3))), (4, None), (5, Some((6, 6)))]);
    // Rows above the first header are never hidden.
    assert_eq!(p.hidden_rows(), vec![false; 7]);
}

#[test]
fn value_refresh_spares_the_focused_row() {
    let mut p = panel_with(&[("Src", "a", "code"), ("N", "1", "int")]);
    p.focus_code_row(0, 0, 0);
    // Same names and types: only values refresh, and the focused row keeps its text.
    let changed = p.set_display_params(&rows(&[("Src", "b", "code"), ("N", "2", "int")]));
    assert!(!changed);
    let now = p.node_params();
    assert_eq!(now[0].1, "a");
    assert_eq!(now[1].1, "2");
    assert_eq!(p.focused_param, Some(0));
    // A changed type rebuilds the rows and drops the focus.
    let changed = p.set_display_params(&rows(&[("Src", "c", "text"), ("N", "3", "int")]));
    assert!(changed);
    assert_eq!(p.focused_param, None);
    assert_eq!(p.node_params()[0].1, "c");
}

#[test]
fn spinbox_ranges() {
    assert_eq!(parse_spinbox_range("spinbox:-5:5:2"), (-5, 5, 2));
    assert_eq!(parse_spinbox_range("spinbox:1:9"), (1, 9, 1));
    assert_eq!(parse_spinbox_range("spinbox:1:x"), (0, 10000, 1));
    assert_eq!(parse_spinbox_range("spinbox:+3:7:1"), (3, 7, 1));
    assert_eq!(parse_spinbox_range("slider:0:1"), (0, 10000, 1));
    assert_eq!(parse_spinbox_range("spinbox:1:2:3:4"), (1, 2, 3));
    assert_eq!(parse_spinbox_range("spinbox:99999999999:1"), (0, 10000, 1));
}

#[test]
fn slider_decimal_places() {
    assert_eq!(slider_decimals("slider:0:1:3"), 3);
    assert_eq!(slider_decimals("slider:0:1"), 2);
    assert_eq!(slider_decimals("slider:0:1:-1"), 2);
    assert_eq!(slider_decimals("slider:0:1:0"), 0);
}

#[test]
fn hex_colors() {
    assert_eq!(parse_hex_to_rgb("#ff8000"), Some([255, 128, 0]));
    assert_eq!(parse_hex_to_rgb("FF8000"), Some([255, 128, 0]));
    assert_eq!(parse_hex_to_rgba("#ff800080"), Some([255, 128, 0, 128]));
    assert_eq!(parse_hex_to_rgba("#102030"), Some([16, 32, 48, 255]));
    assert_eq!(parse_hex_to_rgb("#12345"), None);
    assert_eq!(parse_hex_to_rgb("#gg0000"), None);
}

#[test]
fn toggle_values() {
    assert!(toggle_on("true"));
    assert!(toggle_on("  TRUE\n"));
    assert!(toggle_on("True"));
    assert!(!toggle_on("false"));
    assert!(!toggle_on("1"));
    assert!(!toggle_on("t rue"));
}

#[test]
fn row_heights() {
    assert_eq!(row_height_px(RowKind::Code, 1), 200);
    assert_eq!(row_height_px(RowKind::Code, 20), 34 + 16 * 20);
    assert_eq!(row_height_px(RowKind::Section, 0), 24);
    assert_eq!(row_height_px(RowKind::Plain, 0), 20);
    let p = panel_with(&[("Src", "a\nb\nc", "code"), ("N", "1", "int")]);
    assert_eq!(p.row_height(0), 200);
    assert_eq!(p.row_height(1), 20);
}

#[test]
fn unfocus_commits_the_widget_value_of_other_rows() {
    let mut p = panel_with(&[("Name", "old", "text"), ("Src", "x", "code")]);
    p.focused_param = Some(0);
    p.commit_and_unfocus(Some("new".to_string()));
    assert_eq!(p.node_params()[0].1, "new");
    assert_eq!(p.focused_param, None);
    // A code row ignores the widget value: its editor's buffer is what commits.
    p.focus_code_row(1, 0, 1);
    p.code_editor.as_mut().unwrap().insert_text("y");
    p.commit_and_unfocus(Some("ignored".to_string()));
    assert_eq!(p.node_params()[1].1, "xy");
}

#[test]
fn widget_keys_commit_and_release_the_row() {
    let mut p = panel_with(&[("Count", "3", "spinbox:0:10")]);
    p.focused_param = Some(0);
    p.widget_key_taken(Some("4".to_string()), true);
    assert_eq!(p.node_params()[0].1, "4");
    assert_eq!(p.focused_param, Some(0));
    p.widget_key_taken(None, false);
    assert_eq!(p.node_params()[0].1, "4");
    assert_eq!(p.focused_param, None);
    // Without a focused row nothing happens.
    p.widget_key_taken(Some("9".to_string()), false);
    assert_eq!(p.node_params()[0].1, "4");
}

#[test]
fn rows_draw_their_own_texts() {
    let mut p = panel_with(&[
        ("Look", "", "section"),
        ("Src", "a = 1\n\nb = 2", "code"),
        ("Curve", "smooth;", "ramp"),
        ("Mass", "2", "float"),
        ("Size", "1.0", "slider:0:2"),
        ("Mode", "a", "choice:a,b"),
    ]);
    assert!(matches!(p.row_texts(0).as_slice(), [RowText::Title(t)] if t == "Look"));
    let code = p.row_texts(1);
    assert_eq!(code.len(), 3);
    assert!(matches!(&code[0], RowText::Caption(t) if t == "Src:"));
    assert!(matches!(&code[1], RowText::Line(0, t) if t == "a = 1"));
    assert!(matches!(&code[2], RowText::Line(2, t) if t == "b = 2"));
    assert!(matches!(p.row_texts(2).as_slice(), [RowText::Name(t)] if t == "Curve"));
    assert!(matches!(p.row_texts(3).as_slice(), [RowText::Plain(t)] if t == "Mass: 2"));
    assert!(p.row_texts(4).is_empty());
    assert!(p.row_texts(5).is_empty());
    // While edited, a code row shows its editor's buffer.
    p.focus_code_row(1, 0, 0);
    p.code_editor.as_mut().unwrap().insert_text("x");
    let code = p.row_texts(1);
    assert!(matches!(&code[1], RowText::Line(0, t) if t == "xa = 1"));
}

#[test]
fn widget_presses_claim_and_release_the_focus() {
    let mut p = panel_with(&[("Mode", "a", "choice:a,b"), ("Count", "3", "spinbox:0:10")]);
    // An opening dropdown claims the focus; picking closes it and hands it back.
    assert!(p.widget_pressed(0, None, Some(true)));
    assert_eq!(p.focused_param, Some(0));
    assert!(p.widget_pressed(0, Some("b".to_string()), Some(false)));
    assert_eq!(p.node_params()[0].1, "b");
    assert_eq!(p.focused_param, None);
    // A spinner's press writes its value; typing into it holds the focus.
    assert!(p.spinbox_pressed(1, -7, true));
    assert_eq!(p.node_params()[1].1, "-7");
    assert_eq!(p.focused_param, Some(1));
    // A press on another row that stops editing leaves this row's focus alone.
    assert!(p.widget_pressed(0, None, Some(false)));
    assert_eq!(p.focused_param, Some(1));
    // A widget that never edits leaves the focus where it is.
    assert!(p.widget_pressed(0, Some("a".to_string()), None));
    assert_eq!(p.focused_param, Some(1));
    assert_eq!(p.node_params()[0].1, "a");
}

#[test]
fn rows_in_a_collapsed_section_take_no_press() {
    let mut p = panel_with(&[
        ("Look", "", "section"),
        ("On", "false", "checkbox"),
        ("Go", "", "button"),
    ]);
    assert!(p.set_section_collapsed("Look", true));
    assert!(!p.widget_pressed(1, Some("true".to_string()), None));
    assert!(!p.button_pressed(2, true));
    assert_eq!(p.node_params()[1].1, "false");
    assert_eq!(p.node_params()[2].1, "");
    // Expanded again, the same presses land.
    assert!(p.set_section_collapsed("Look", false));
    assert!(p.widget_pressed(1, Some("true".to_string()), None));
    assert!(p.button_pressed(2, true));
    assert_eq!(p.node_params()[1].1, "true");
    assert_eq!(p.node_params()[2].1, "clicked");
    // A press that did not complete a click leaves the row as it was.
    p.take_widget_value(2, String::new());
    assert!(p.button_pressed(2, false));
    assert_eq!(p.node_params()[2].1, "");
}

#[test]
fn a_hidden_panel_takes_no_press_or_wheel() {
    let mut p = panel_with(&[("Count", "3", "spinbox:0:10")]);
    p.visibility_changed(false);
    assert!(!p.widget_pressed(0, Some("5".to_string()), Some(true)));
    assert_eq!(p.wheel_spinbox(0, 3, 0, 10, 1, 1), None);
    assert!(!p.grab_scrollbar());
    assert_eq!(p.node_params()[0].1, "3");
    assert_eq!(p.focused_param, None);
    // Keys reach no row of a hidden panel either.
    p.focused_param = Some(0);
    p.widget_key_taken(Some("8".to_string()), false);
    assert_eq!(p.node_params()[0].1, "3");
    assert_eq!(p.focused_param, Some(0));
}

#[test]
fn wheel_steps_a_spinbox_within_its_range() {
    let mut p = panel_with(&[("Count", "3", "spinbox:0:10:2")]);
    assert_eq!(p.wheel_spinbox(0, 3, 0, 10, 2, 1), Some(5));
    assert_eq!(p.node_params()[0].1, "5");
    // Clamped at the top of the range.
    assert_eq!(p.wheel_spinbox(0, 9, 0, 10, 2, 3), Some(10));
    assert_eq!(p.node_params()[0].1, "10");
    // Already at the top: nothing moves.
    assert_eq!(p.wheel_spinbox(0, 10, 0, 10, 2, 1), None);
    assert_eq!(p.node_params()[0].1, "10");
    // Down past the bottom.
    assert_eq!(p.wheel_spinbox(0, 1, 0, 10, 2, -4), Some(0));
    assert_eq!(p.node_params()[0].1, "0");
}

#[test]
fn drags_run_on_the_scrollbar_or_a_row() {
    let mut p = panel_with(&[("Name", "x", "text"), ("Size", "1.00", "slider:0:2")]);
    assert!(p.draggable());
    assert!(!p.is_dragging());
    p.begin_row_drag(1);
    assert!(p.is_dragging());
    assert_eq!(p.end_drag(), Some(1));
    assert!(!p.is_dragging());
    // With the scrollbar held, a row drag does not start, and the drag's end lets go of
    // the bar.
    assert!(p.grab_scrollbar());
    p.begin_row_drag(1);
    assert!(p.is_dragging());
    assert_eq!(p.end_drag(), None);
    assert!(!p.is_dragging());
    // The button's release lets go of a held bar, once.
    assert!(p.grab_scrollbar());
    assert!(p.release_scrollbar());
    assert!(!p.release_scrollbar());
    // A panel of text rows only has nothing to drag.
    let q = panel_with(&[("Name", "x", "text")]);
    assert!(!q.draggable());
}

#[test]
fn code_row_keys_edit_the_value_and_escape_commits() {
    let mut p = panel_with(&[("Src", "ab", "code"), ("N", "1", "int")]);
    // Nothing is being edited yet: keys go elsewhere.
    assert!(!p.code_keyboard_input(&EditorKey::Character("x".to_string()), false));
    p.focus_code_row(0, 0, 2);
    assert!(p.code_keyboard_input(&EditorKey::Character("c".to_string()), false));
    assert_eq!(p.node_params()[0].1, "abc");
    assert!(p.code_keyboard_input(&EditorKey::Enter, false));
    assert_eq!(p.node_params()[0].1, "abc\n");
    assert!(p.code_keyboard_input(&EditorKey::Backspace, false));
    assert_eq!(p.node_params()[0].1, "abc");
    // Ctrl+A goes to the line start; typing lands there.
    assert!(p.code_keyboard_input(&EditorKey::Character("a".to_string()), true));
    assert!(p.code_keyboard_input(&EditorKey::Character(">".to_string()), false));
    assert_eq!(p.node_params()[0].1, ">abc");
    // Escape leaves the row with its text committed.
    assert!(p.code_keyboard_input(&EditorKey::Escape, false));
    assert_eq!(p.focused_param, None);
    assert!(p.code_editor.is_none());
    assert_eq!(p.node_params()[0].1, ">abc");
    assert_eq!(p.node_params()[1].1, "1");
}

#[test]
fn rows_pack_on_the_channel_and_sections_separate_wider() {
    let p = panel_with(&[
        ("Transform", "", "section"),
        ("Size", "1.00", "slider:0:2"),
        ("Shading", "", "section"),
        ("On", "true", "checkbox"),
    ]);
    let rects = p.row_boxes();
    // Content boxes overhang their rows by one 3px channel; title boxes overhang
    // their header rows by 2px.
    let content_bottom = |i: usize| rects[i].0 + rects[i].1 + 3;
    let title_top = |i: usize| rects[i].0 - 2;

    // Inside a section everything packs on the channel: each tab (28px tall) sits
    // flush on its content box, and the rows keep one channel from the box's top wall.
    for (_, title, content) in p.section_spans() {
        let content = content.expect("both sections have content");
        assert_eq!(title + 28, content.0, "tab flush on its body");
    }
    let (_, _, content0) = p.section_spans()[0];
    let content0 = content0.unwrap();
    assert_eq!(rects[1].0 - content0.0, 3, "row -> its box's top wall");

    // Section to section stays far wider (16px), so the blocks still read apart.
    assert_eq!(title_top(2) - content_bottom(1), 16, "section -> next section");
}

#[test]
fn a_collapsed_section_keeps_the_same_gap_to_the_next_one() {
    // With no content box under it, the collapsed section's bottom edge is its own title
    // box — a fixed row-pitch bump would leave a double gap here.
    let mut p = panel_with(&[
        ("Transform", "", "section"),
        ("Size", "1.00", "slider:0:2"),
        ("Shading", "", "section"),
        ("On", "true", "checkbox"),
    ]);
    p.set_section_collapsed("Transform", true);
    let rects = p.row_boxes();
    let collapsed_bottom = rects[0].0 - 2 + 28;
    let next_title_top = rects[2].0 - 2;
    assert_eq!(next_title_top - collapsed_bottom, 16);
}

#[test]
fn the_row_column_lays_out_in_whole_pixels() {
    let mut p = panel_with(&[
        ("Transform", "", "section"),
        ("Size", "1.00", "slider:0:2"),
        ("Shading", "", "section"),
        ("On", "true", "checkbox"),
    ]);
    assert_eq!(p.row_boxes(), vec![(30, 24), (62, 38), (121, 24), (153, 24)]);
    assert_eq!(p.content_height(), 195);
    assert_eq!(
        p.section_spans(),
        vec![(0, 31, Some((59, 44))), (2, 122, Some((150, 30)))]
    );
    // Collapsed, the section's row is an empty box and takes no space; its title box
    // stays over where its first row would be.
    p.set_section_collapsed("Transform", true);
    assert_eq!(p.row_boxes(), vec![(30, 24), (62, 0), (74, 24), (106, 24)]);
    assert_eq!(p.content_height(), 148);
    assert_eq!(p.section_spans(), vec![(0, 31, None), (2, 75, Some((103, 30)))]);
    // No rows: the top offset and the padding.
    let empty = panel_with(&[]);
    assert_eq!(empty.content_height(), 40);
    assert!(empty.row_boxes().is_empty());
    // A header with no rows of its own overhangs its row by 2px.
    let bare = panel_with(&[("Solo", "", "section")]);
    assert_eq!(bare.section_spans(), vec![(0, 28, None)]);
}

#[test]
fn a_rebuild_seeds_the_row_widgets_and_a_refresh_follows_the_values() {
    let mut p = panel_with(&[
        ("Count", "3", "spinbox:0:10"),
        ("Mode", "a", "choice:a,b"),
        ("Name", "x", "text"),
        ("On", "false", "toggle"),
        ("Tint", "#ff0000", "rgb"),
        ("Curve", "lin", "ramp"),
    ]);
    assert_eq!(p.widget(0).spinbox, Some((3, 0, 10, 1)));
    assert_eq!(p.widget(2).text, Some("x".to_string()));
    assert_eq!(p.widget(3).toggle, Some(false));
    assert_eq!(p.widget(5).ramp, Some("lin".to_string()));
    assert!((0..6).all(|i| !p.widget_editing(i)));

    // The text box is being typed into: a refresh spares it, the rest follow.
    assert!(p.widget_pressed(2, None, Some(true)));
    assert!(p.widget_editing(2));
    let changed = p.set_display_params(&rows(&[
        ("Count", "7", "spinbox:0:10"),
        ("Mode", "b", "choice:a,b"),
        ("Name", "y", "text"),
        ("On", "TRUE", "toggle"),
        ("Tint", "#00ff00", "rgb"),
        ("Curve", "smooth", "ramp"),
    ]));
    assert!(!changed);
    assert_eq!(p.widget(0).spinbox, Some((7, 0, 10, 1)));
    assert_eq!(p.widget(1).choice.clone().unwrap().1, 1);
    // The focused row keeps its text; its box, being edited, too.
    assert_eq!(p.node_params()[2].1, "x");
    assert_eq!(p.widget(2).text, Some("x".to_string()));
    assert_eq!(p.widget(3).toggle, Some(true));
    assert!(matches!(p.widget(4).color, Some(ColorSeed::Rgb([0, 255, 0]))));
    assert_eq!(p.widget(5).ramp, Some("smooth".to_string()));

    // Committing ends the edit; a new layout rebuilds every widget.
    p.commit_and_unfocus(Some("x".to_string()));
    assert!(!p.widget_editing(2));
    assert!(p.set_display_params(&rows(&[("Go", "", "button")])));
    assert!(p.widget(0).button && p.widget(0).text.is_none());
    assert!(!p.widget_editing(0));
}
