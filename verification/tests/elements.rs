use widget_containers::editor::EditorKey;
use widget_containers::elements::breadcrumb::Breadcrumb as FlatBreadcrumb;
use widget_containers::elements::menu::{Menu, MenuBar as PlainMenuBar};
use widget_containers::elements::paginator::{tab_label, Paginator as PlatePaginator};
use widget_containers::elements::params::{ParametersBg as FlatParams, SpinboxState};

#[test]
fn test_menubar_vertical_horizontal_labels() {
    let menubar = PlainMenuBar::new()
        .with_title("App")
        .with_item_vh("FileH", "FileV", &["Open", "Save"])
        .with_item("Edit", &["Undo"]);

    // Horizontal mode (the default): title "App", then "FileH" and "Edit".
    assert!(!menubar.vertical);
    assert_eq!(menubar.title, "App");
    assert_eq!(menubar.menus[0].active_title(), "FileH");
    assert_eq!(menubar.menus[1].active_title(), "Edit");

    // The pointer inside "FileH" hovers menu 0.
    let mut menubar = menubar;
    menubar.cursor_moved(&[(true, None), (false, None)]);
    assert_eq!(menubar.hovered_menu, Some(0));

    // Vertical mode: "FileV" and "Edit".
    let mut menubar_v = menubar.with_vertical(true);
    assert!(menubar_v.vertical);
    assert_eq!(menubar_v.title, "App");
    assert_eq!(menubar_v.menus[0].active_title(), "FileV");
    assert_eq!(menubar_v.menus[1].active_title(), "Edit");
    menubar_v.cursor_moved(&[(true, None), (false, None)]);
    assert_eq!(menubar_v.hovered_menu, Some(0));
}

#[test]
fn plain_menu_opens_clicks_and_closes() {
    let mut bar = PlainMenuBar::new().with_item("File", &["New", "Save"]).with_item("Edit", &["Undo"]);
    assert_eq!(bar.z_level, 100);
    // Press "File": its dropdown opens.
    assert!(bar.press(true, &[(true, None), (false, None)]));
    assert!(bar.is_menu_open());
    assert!(bar.focused());
    // Press its second row: the click is recorded and everything closes.
    assert!(bar.press(true, &[(true, Some(1)), (false, None)]));
    assert!(!bar.is_menu_open());
    assert!(!bar.focused);
    assert_eq!(bar.menu_click(), Some((0, 1)));
    assert_eq!(bar.menu_click(), None);
    // A press elsewhere is not taken.
    assert!(!bar.press(true, &[(false, None), (false, None)]));
    // Other buttons are ignored.
    assert!(!bar.press(false, &[(true, None), (true, None)]));
}

#[test]
fn focus_loss_does_not_reopen_on_the_same_press() {
    let mut m = Menu::new("File", "File", &["New".to_string()]);
    assert!(m.press(true, true, None));
    assert!(m.open);
    m.unfocus();
    assert!(!m.open);
    assert_eq!(m.was_open, Some(0));
    assert!(m.press(true, true, None));
    assert!(!m.open);
    assert!(m.press(true, true, None));
    assert!(m.open);
}

#[test]
fn plain_menu_checks_and_listing() {
    let mut bar = PlainMenuBar::new().with_item("View", &["Grid", "Axes"]);
    bar.set_item_checked(0, 1, true);
    assert_eq!(bar.menu_dropdown_checked[0], vec![None, Some(true)]);
    assert_eq!(bar.menus[0].item_checked, vec![None, Some(true)]);
    let (i, title, items) = bar.menu_listing(0).unwrap();
    assert_eq!((i, title.as_str()), (0, "View"));
    assert_eq!(items, vec!["Grid".to_string(), "\u{2713} Axes".to_string()]);
    bar.set_menu_items(0, &["A".to_string()]);
    assert_eq!(bar.menus[0].item_checked, vec![Some(false)]);
    bar.trigger_menu_click(0, 0);
    assert_eq!(bar.menu_click(), Some((0, 0)));
    assert_eq!(bar.menu_names(), vec!["View".to_string()]);
    bar.visible = false;
    assert!(bar.menu_listing(0).is_none());
    assert!(!bar.is_menu_bar());
}

#[test]
fn plain_menu_focus_and_selection() {
    let mut bar = PlainMenuBar::new().with_item("A", &["x"]).with_item("B", &["y"]);
    bar.focus();
    assert!(!bar.focused);
    bar.press(true, &[(false, None), (true, None)]);
    bar.focus();
    assert!(bar.focused);
    assert!(bar.menus[1].focused);
    bar.set_selected(false);
    assert!(!bar.is_menu_open());
    assert!(!bar.menus[1].focused);
}

#[test]
fn flat_breadcrumb_segments() {
    let mut b = FlatBreadcrumb::new();
    b.set_path(&["home".to_string(), "me".to_string()]);
    assert_eq!(b.path, vec!["/".to_string(), " \u{203a} home".to_string(), " \u{203a} me".to_string()]);
    // The last segment is the current directory.
    assert!(b.press(true, Some(1)));
    assert_eq!(b.path_click(), Some(1));
    assert!(!b.press(true, Some(2)));
    assert!(!b.press(false, Some(0)));
    assert_eq!(b.path_click(), None);
    b.set_path(&[]);
    assert_eq!(b.path, vec!["/".to_string()]);
    b.set_path(&["".to_string()]);
    assert_eq!(b.path, vec!["/".to_string()]);
    assert!(b.cursor_moved(true, Some(0)));
    assert!(!b.cursor_moved(true, Some(0)));
    assert!(b.cursor_moved(false, Some(0)));
    assert_eq!(b.hovered_seg, None);
}

#[test]
fn test_paginator_rotated_tabs() {
    let pages = vec!["📁 Browse".to_string(), "🌐 Network".to_string()];
    let mut paginator = PlatePaginator::new(pages).with_tabs_rotated(true);

    paginator.set_selected_page(1);
    assert_eq!(paginator.selected_page, 1);

    // Hovering tab 0, then tab 1.
    assert!(paginator.hover_tab(Some(0)));
    assert_eq!(paginator.hovered_tab, Some(0));
    assert!(paginator.hover_tab(Some(1)));
    assert_eq!(paginator.hovered_tab, Some(1));

    // Clicking tab 0 selects it.
    assert!(paginator.press_tab(Some(0)));
    assert_eq!(paginator.pressed_tab, Some(0));
    assert!(paginator.release_tab(true));
    assert_eq!(paginator.selected_page, 0);

    // The tabs' icons.
    let (icon0, i0, _) = tab_label("📁 Browse");
    let (icon1, i1, _) = tab_label("🌐 Network");
    assert!(icon0 && icon1);
    assert_eq!(i0, Some("📁".to_string()));
    assert_eq!(i1, Some("🌐".to_string()));
}

#[test]
fn tab_labels_split_icon_and_text() {
    assert_eq!(tab_label("  📁   Browse files "), (true, Some("📁".to_string()), "Browse files".to_string()));
    assert_eq!(tab_label("Audio"), (false, None, "Audio".to_string()));
    assert_eq!(tab_label("   "), (false, None, "".to_string()));
}

#[test]
fn plate_paginator_pages_and_clicks() {
    let mut p = PlatePaginator::new(vec!["A".to_string(), "B".to_string(), "C".to_string()]);
    assert_eq!(p.plates.iter().filter(|s| s.visible).count(), 1);
    assert!(p.plates[0].visible);
    assert!(p.sidebar_menu.menus[0].focused);
    // A click on tab 2 selects it and is reported once.
    p.press_tab(Some(2));
    assert!(p.release_tab(true));
    assert_eq!(p.selected_page(), 2);
    assert!(p.plates[2].visible && !p.plates[0].visible);
    assert!(p.sidebar_menu.menus[2].focused && !p.sidebar_menu.menus[0].focused);
    assert!(p.take_click());
    assert!(!p.take_click());
    assert_eq!(p.value(), 2);
    // A release off the pressed tab does nothing.
    p.press_tab(Some(0));
    assert!(!p.release_tab(false));
    assert_eq!(p.selected_page(), 2);
    // Fewer pages: the selection falls back to the first.
    p.set_pages(vec!["X".to_string()]);
    assert_eq!(p.selected_page(), 0);
    assert_eq!(p.plates.len(), 1);
    assert!(p.plates[0].visible);
    assert_eq!(p.menu_names(), vec!["X".to_string()]);
    let p = p.with_column_layout(true);
    assert!(p.plates[0].column_layout);
}

fn rows(spec: &[(&str, &str, &str)]) -> Vec<(String, String, String)> {
    spec.iter().map(|(a, b, c)| (a.to_string(), b.to_string(), c.to_string())).collect()
}

#[test]
fn flat_params_text_and_code_keys() {
    let mut p = FlatParams::new();
    p.set_display_params(&rows(&[("Name", "ab", "text"), ("Src", "x", "code"), ("N", "1", "int")]));
    p.focus_row(0);
    assert!(p.text_key(&EditorKey::Character("c".to_string())));
    assert!(p.text_key(&EditorKey::Backspace));
    assert!(p.text_key(&EditorKey::Backspace));
    assert_eq!(p.node_params()[0].1, "a");
    assert!(p.text_key(&EditorKey::Enter));
    assert_eq!(p.focused_param, None);
    p.focus_row(1);
    assert!(p.text_key(&EditorKey::Enter));
    assert_eq!(p.node_params()[1].1, "x\n");
    assert_eq!(p.focused_param, Some(1));
    assert!(!p.text_key(&EditorKey::ArrowUp));
    assert!(p.text_key(&EditorKey::Escape));
    assert_eq!(p.focused_param, None);
    // An empty value takes no Backspace.
    p.set_display_params(&rows(&[("Name", "", "text"), ("Src", "x", "code"), ("N", "1", "int")]));
    p.focus_row(0);
    assert!(!p.text_key(&EditorKey::Backspace));
}

#[test]
fn flat_params_spinboxes() {
    let mut p = FlatParams::new();
    let changed = p.set_display_params(&rows(&[("Count", "4", "spinbox:0:10:3"), ("Speed", "0.5", "slider:0:1")]));
    assert!(changed);
    assert_eq!(p.spinboxes[0], Some(SpinboxState { value: 4, min: 0, max: 10, step: 3, editing: false }));
    assert_eq!(p.spinboxes[1], None);
    // Two notches up: 4 + 6 = 10.
    assert!(p.spin_row(0, 2));
    assert_eq!(p.node_params()[0].1, "10");
    // Clamped at the top.
    assert!(!p.spin_row(0, 1));
    assert!(p.spin_row(0, -5));
    assert_eq!(p.node_params()[0].1, "0");
    // A host refresh moves the idle spinner.
    let changed = p.set_display_params(&rows(&[("Count", "7", "spinbox:0:10:3"), ("Speed", "0.6", "slider:0:1")]));
    assert!(!changed);
    assert_eq!(p.spinboxes[0].unwrap().value, 7);
    assert_eq!(p.node_params()[1].1, "0.6");
    // Leaving a focused spinbox row writes its value; a slider row takes the widget's text.
    p.focus_row(0);
    p.unfocus(None);
    assert_eq!(p.node_params()[0].1, "7");
    p.focus_row(1);
    p.unfocus(Some("0.75".to_string()));
    assert_eq!(p.node_params()[1].1, "0.75");
    assert!(p.draggable());
    p.begin_drag(1);
    assert!(p.is_dragging());
    assert_eq!(p.end_drag(), Some(1));
}

#[test]
fn flat_params_sections_and_heights() {
    let mut p = FlatParams::new();
    p.set_display_params(&rows(&[
        ("Loose", "1", "int"),
        ("A", "", "section"),
        ("x", "1", "int"),
        ("y", "", "code"),
        ("B", "", "section"),
        ("C", "", "section"),
        ("z", "", "float3:0:1"),
        ("t", "", "text"),
    ]));
    assert_eq!(p.section_ranges(), vec![(2, 3), (6, 7)]);
    assert_eq!(p.row_height(0), 20);
    assert_eq!(p.row_height(1), 24);
    assert_eq!(p.row_height(3), 200);
    assert_eq!(p.row_height(6), 108);
    assert_eq!(p.row_height(7), 24);
    // Rows stack from 30px down with an 8px gap after each.
    assert_eq!(p.row_tops(), vec![30, 58, 90, 118, 326, 358, 390, 506]);
    assert!(p.draggable());
    let mut q = FlatParams::new();
    q.set_display_params(&rows(&[("A", "", "section"), ("B", "", "section")]));
    assert_eq!(q.section_ranges(), Vec::new());
    assert!(!q.draggable());
}

#[test]
fn flat_params_row_texts() {
    let mut p = FlatParams::new();
    p.set_display_params(&rows(&[
        ("Size", "1.0", "slider:0:2"),
        ("Pos", "0:0:0", "float3:0:1"),
        ("Look", "", "section"),
        ("Src", "a = 1", "code"),
        ("Count", "3", "spinbox:0:9"),
        ("Name", "box", "text"),
        ("Mass", "2", "float"),
    ]));
    assert_eq!(p.row_texts(0), vec!["Size".to_string()]);
    assert!(p.row_texts(1).is_empty());
    assert_eq!(p.row_texts(2), vec!["Look".to_string()]);
    assert_eq!(p.row_texts(3), vec!["Src:\na = 1".to_string()]);
    assert_eq!(p.row_texts(4), vec!["Count".to_string()]);
    assert_eq!(p.row_texts(5), vec!["Name".to_string(), "box".to_string()]);
    assert_eq!(p.row_texts(6), vec!["Mass: 2".to_string()]);
    p.focus_row(5);
    assert_eq!(p.row_texts(5), vec!["Name".to_string(), "box|".to_string()]);
}

#[test]
fn flat_params_widget_commits() {
    let mut p = FlatParams::new();
    p.set_display_params(&rows(&[("Count", "3", "spinbox:0:9"), ("Size", "1.0", "slider:0:2")]));
    p.focus_row(0);
    p.spinbox_key_taken(3, true, "12".to_string());
    assert_eq!(p.node_params()[0].1, "12");
    assert_eq!(p.focused_param, Some(0));
    p.spinbox_key_taken(9, false, "12".to_string());
    assert_eq!(p.node_params()[0].1, "9");
    assert_eq!(p.focused_param, None);
    assert_eq!(p.spinboxes[0].unwrap().value, 9);
    p.focus_row(1);
    p.float_key_taken("1.50".to_string(), true);
    assert_eq!(p.node_params()[1].1, "1.50");
    assert_eq!(p.focused_param, Some(1));
    // A press on the spinner while the slider is focused: the slider commits, the
    // spinner's value is written, and nothing stays focused.
    p.spinbox_pressed(0, 5, false, Some("1.75".to_string()));
    assert_eq!(p.node_params()[0].1, "5");
    assert_eq!(p.node_params()[1].1, "1.75");
    assert_eq!(p.focused_param, None);
    p.spinbox_pressed(0, 6, true, None);
    assert_eq!(p.focused_param, Some(0));
    assert_eq!(p.node_params()[0].1, "6");
}
