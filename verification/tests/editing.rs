use widget_containers::cursor::{get_cursor_line_col, get_line_end, get_line_start, map_2d_to_1d};
use widget_containers::editor::{ctrl_command, CodeEditor, CtrlCommand, EditorKey};

#[test]
fn cursor_line_and_column() {
    let text = "ab\ncde\n\nf";
    assert_eq!(get_cursor_line_col(text, 0), (0, 0));
    assert_eq!(get_cursor_line_col(text, 2), (0, 2));
    assert_eq!(get_cursor_line_col(text, 3), (1, 0));
    assert_eq!(get_cursor_line_col(text, 5), (1, 2));
    assert_eq!(get_cursor_line_col(text, 7), (2, 0));
    assert_eq!(get_cursor_line_col(text, 8), (3, 0));
    assert_eq!(get_cursor_line_col(text, 9), (3, 1));
    // Past the end: the buffer's end.
    assert_eq!(get_cursor_line_col(text, 40), (3, 1));
}

#[test]
fn line_and_column_to_index() {
    let text = "ab\ncde\n\nf";
    assert_eq!(map_2d_to_1d(text, 1, 1), 4);
    // Column clamped to the line, line clamped to the last.
    assert_eq!(map_2d_to_1d(text, 0, 9), 2);
    assert_eq!(map_2d_to_1d(text, 9, 0), 8);
    assert_eq!(map_2d_to_1d(text, 2, 5), 7);
    // Every cursor position survives the round trip.
    for i in 0..=text.chars().count() {
        let (l, c) = get_cursor_line_col(text, i);
        assert_eq!(map_2d_to_1d(text, l, c), i);
    }
}

#[test]
fn line_bounds() {
    let text = "ab\ncde\n\nf";
    assert_eq!(get_line_start(text, 5), 3);
    assert_eq!(get_line_end(text, 5), 6);
    assert_eq!(get_line_start(text, 7), 7);
    assert_eq!(get_line_end(text, 7), 7);
    assert_eq!(get_line_start(text, 1), 0);
    assert_eq!(get_line_end(text, 1), 2);
    assert_eq!(get_line_end(text, 9), 9);
}

fn chars(e: &CodeEditor) -> String {
    e.buffer_string()
}

#[test]
fn typing_and_deleting() {
    let mut e = CodeEditor::new("let x;");
    e.cursor_idx = 4;
    let out = e.handle_key(&EditorKey::Character("y".to_string()), false);
    assert!(out.changed && out.handled && !out.unfocus);
    assert_eq!(chars(&e), "let yx;");
    assert_eq!(e.cursor_idx, 5);
    let out = e.handle_key(&EditorKey::Backspace, false);
    assert!(out.changed);
    assert_eq!(chars(&e), "let x;");
    assert_eq!(e.cursor_idx, 4);
    let out = e.handle_key(&EditorKey::Delete, false);
    assert!(out.changed);
    assert_eq!(chars(&e), "let ;");
    e.cursor_idx = 0;
    let out = e.handle_key(&EditorKey::Backspace, false);
    assert!(!out.changed && out.handled);
    assert_eq!(chars(&e), "let ;");
}

#[test]
fn enter_then_backspace_restores() {
    let mut e = CodeEditor::new("ab");
    e.cursor_idx = 1;
    e.handle_key(&EditorKey::Enter, false);
    assert_eq!(chars(&e), "a\nb");
    assert_eq!(e.cursor_idx, 2);
    e.handle_key(&EditorKey::Backspace, false);
    assert_eq!(chars(&e), "ab");
    assert_eq!(e.cursor_idx, 1);
}

#[test]
fn arrows_and_line_ends() {
    let mut e = CodeEditor::new("abcd\nxy\nlonger");
    e.cursor_idx = 3;
    e.handle_key(&EditorKey::ArrowDown, false);
    // Column 3 clamps to the end of "xy".
    assert_eq!(e.cursor_idx, 7);
    e.handle_key(&EditorKey::ArrowDown, false);
    assert_eq!(e.cursor_idx, 10);
    e.handle_key(&EditorKey::ArrowDown, false);
    assert_eq!(e.cursor_idx, 10);
    e.handle_key(&EditorKey::ArrowUp, false);
    assert_eq!(e.cursor_idx, 7);
    e.handle_key(&EditorKey::Home, false);
    assert_eq!(e.cursor_idx, 5);
    e.handle_key(&EditorKey::End, false);
    assert_eq!(e.cursor_idx, 7);
    e.handle_key(&EditorKey::ArrowLeft, false);
    assert_eq!(e.cursor_idx, 6);
    e.handle_key(&EditorKey::ArrowRight, false);
    e.handle_key(&EditorKey::ArrowRight, false);
    assert_eq!(e.cursor_idx, 8);
}

#[test]
fn control_chords() {
    assert!(ctrl_command("f") == Some(CtrlCommand::Forward));
    assert!(ctrl_command("K") == Some(CtrlCommand::KillLine));
    // The Kelvin sign lowercases to `k`.
    assert!(ctrl_command("\u{212a}") == Some(CtrlCommand::KillLine));
    assert!(ctrl_command("z").is_none());
    assert!(ctrl_command("ff").is_none());

    let mut e = CodeEditor::new("one two\nthree");
    e.cursor_idx = 4;
    let out = e.handle_key(&EditorKey::Character("k".to_string()), true);
    assert!(out.changed);
    assert_eq!(chars(&e), "one \nthree");
    // On the newline itself, the kill joins the lines.
    let out = e.handle_key(&EditorKey::Character("k".to_string()), true);
    assert!(out.changed);
    assert_eq!(chars(&e), "one three");
    e.handle_key(&EditorKey::Character("a".to_string()), true);
    assert_eq!(e.cursor_idx, 0);
    e.handle_key(&EditorKey::Character("e".to_string()), true);
    assert_eq!(e.cursor_idx, 9);
    e.handle_key(&EditorKey::Character("b".to_string()), true);
    e.handle_key(&EditorKey::Character("h".to_string()), true);
    assert_eq!(chars(&e), "one thre");
    e.handle_key(&EditorKey::Character("d".to_string()), true);
    assert_eq!(chars(&e), "one thr");
    // At the end of the buffer a kill changes nothing.
    e.cursor_idx = 7;
    let out = e.handle_key(&EditorKey::Character("k".to_string()), true);
    assert!(!out.changed);
    // An unknown chord is left unhandled.
    let out = e.handle_key(&EditorKey::Character("z".to_string()), true);
    assert!(!out.handled);
}

#[test]
fn escape_asks_to_leave() {
    let mut e = CodeEditor::new("x");
    let out = e.handle_key(&EditorKey::Escape, false);
    assert!(out.unfocus && out.handled && !out.changed);
    let out = e.handle_key(&EditorKey::Other, false);
    assert!(!out.handled);
}

#[test]
fn forward_then_backward_keeps_the_cursor() {
    let mut e = CodeEditor::new("abc");
    e.cursor_idx = 1;
    e.handle_key(&EditorKey::Character("f".to_string()), true);
    assert_eq!(e.cursor_idx, 2);
    e.handle_key(&EditorKey::Character("b".to_string()), true);
    assert_eq!(e.cursor_idx, 1);
    // At the end, forward stops; at the start, backward stops.
    e.cursor_idx = 3;
    e.handle_key(&EditorKey::Character("F".to_string()), true);
    assert_eq!(e.cursor_idx, 3);
    e.cursor_idx = 0;
    e.handle_key(&EditorKey::Character("B".to_string()), true);
    assert_eq!(e.cursor_idx, 0);
    assert_eq!(e.buffer_string(), "abc");
}

#[test]
fn a_line_and_column_lead_back_to_themselves() {
    let text = "ab\n\ncdef\ng";
    let lines: Vec<&str> = text.split('\n').collect();
    for (line, l) in lines.iter().enumerate() {
        for col in 0..=l.chars().count() {
            assert_eq!(get_cursor_line_col(text, map_2d_to_1d(text, line, col)), (line, col));
        }
    }
}
