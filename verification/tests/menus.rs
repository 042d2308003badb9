use widget_containers::adapted::Adapted;
use widget_containers::menu_bar::{MenuBar, MenuKey};
use widget_containers::paginator::{tab_icon, Paginator};

fn bar() -> Adapted<MenuBar> {
    MenuBar::new()
        .with_title("Test")
        .with_item("File", &["New", "Save"])
        .with_item("Edit", &["Undo"])
}

#[test]
fn menu_open_click_and_controller_roundtrip() {
    let mut mb = bar();
    // The strip commits the "File" button: the dropdown opens and the bar claims focus.
    mb.inner.menus.set_selected(Some(0));
    assert!(mb.inner.sync_focus());
    assert!(mb.inner.is_menu_open(), "dropdown open");
    assert!(mb.inner.is_focused(), "bar holds focus while open");

    // Press the second item ("Save"): menu_click reports (0, 1) and everything closes.
    assert!(mb.inner.press_dropdown_item(1));
    assert_eq!(mb.inner.menu_click(), Some((0, 1)));
    assert!(!mb.inner.is_menu_open());
    assert!(!mb.inner.is_focused(), "focus released after the click");
    // The click is drained.
    assert_eq!(mb.inner.menu_click(), None);
}

#[test]
fn hidden_menubar_reports_no_menu_and_rejects_hits() {
    let mut mb = bar();
    mb.inner.visible = false;
    assert!(!mb.inner.is_menu_bar(), "hidden bar is not a menu bar");
    assert!(mb.inner.menu_entry(0).is_none());
}

#[test]
fn adapted_menubar_vertical_horizontal_labels() {
    let menubar = MenuBar::new()
        .with_title("App")
        .with_item_vh("FileH", "FileV", &["Open", "Save"])
        .with_item("Edit", &["Undo"]);

    // Horizontal mode (the default).
    assert!(!menubar.inner.vertical);
    assert_eq!(menubar.inner.display_title(), "App");
    assert_eq!(menubar.inner.menu_names(), vec!["FileH".to_string(), "Edit".to_string()]);

    // Vertical mode.
    let menubar_v = menubar.with_vertical(true);
    assert!(menubar_v.inner.vertical);
    assert_eq!(menubar_v.inner.display_title(), "App");
    assert_eq!(menubar_v.inner.menu_names(), vec!["FileV".to_string(), "Edit".to_string()]);
}

#[test]
fn checked_items_are_listed_with_marks() {
    let mut mb = bar();
    mb.inner.set_item_checked(0, 1, true);
    mb.inner.set_item_checked(0, 7, true);
    mb.inner.set_item_checked(5, 0, true);
    assert_eq!(mb.inner.menu_item_checked(), vec![None, Some(true), None]);
    let (idx, title, items) = mb.inner.menu_entry(0).unwrap();
    assert_eq!(idx, 0);
    assert_eq!(title, "File");
    assert_eq!(items, vec!["New".to_string(), "\u{2713} Save".to_string()]);
    mb.inner.set_menu_items(1, &["Redo".to_string(), "Cut".to_string()]);
    let (_, _, items) = mb.inner.menu_entry(1).unwrap();
    assert_eq!(items, vec!["  Redo".to_string(), "  Cut".to_string()]);
    assert_eq!(mb.inner.menu_checked_list(), vec![vec![None, Some(true)], vec![Some(false), Some(false)]]);
    assert!(mb.inner.menu_entry(2).is_none());
}

#[test]
fn context_options_choose_and_report_once() {
    let mut mb = MenuBar::new()
        .with_title("View")
        .with_context_options(vec!["A".to_string(), "B".to_string(), "C".to_string()], 0);
    assert_eq!(mb.inner.display_title(), "View \u{25bc}");
    mb.inner.press_context_title();
    assert!(mb.inner.context_dropdown_open);
    assert!(mb.inner.is_focused());
    // Arrow keys walk the options, wrapping.
    assert!(mb.inner.context_key_input(&MenuKey::ArrowUp));
    assert_eq!(mb.inner.context_hovered_item, Some(2));
    assert!(mb.inner.context_key_input(&MenuKey::ArrowDown));
    assert_eq!(mb.inner.context_hovered_item, Some(0));
    assert!(mb.inner.context_key_input(&MenuKey::ArrowDown));
    assert!(mb.inner.context_key_input(&MenuKey::Enter));
    assert!(!mb.inner.context_dropdown_open);
    assert_eq!(mb.inner.take_context_change(), Some(1));
    assert_eq!(mb.inner.take_context_change(), None);
    // Closed: keys go elsewhere.
    assert!(!mb.inner.context_key_input(&MenuKey::Enter));
    // A press on an option picks it directly.
    mb.inner.press_context_title();
    assert!(mb.inner.press_context_option(2));
    assert_eq!(mb.inner.context_selected, 2);
    assert!(!mb.inner.press_context_option(3));
    // In a vertical bar the marker sits right after the title.
    let v = mb.with_vertical(true);
    assert_eq!(v.inner.display_title(), "View\u{25bc}");
}

#[test]
fn trigger_then_click() {
    let mut mb = bar();
    mb.inner.trigger_menu_click(1, 0);
    assert_eq!(mb.inner.menu_click(), Some((1, 0)));
    assert_eq!(mb.inner.menu_click(), None);
}

#[test]
fn pages_through_the_menu_bar() {
    let mut mb = bar();
    assert_eq!(mb.inner.selected_page(), 0);
    mb.inner.set_selected_page(1);
    assert_eq!(mb.inner.selected_page(), 1);
    mb.inner.set_pages(vec!["P".to_string(), "Q".to_string()]);
    assert_eq!(mb.inner.menu_names(), vec!["P".to_string(), "Q".to_string()]);
    mb.inner.set_sidebar_label(Some("Side".to_string()));
    assert_eq!(mb.inner.label, Some("Side".to_string()));
    let mut v = mb.with_vertical(true);
    v.inner.set_sidebar_label(Some("Side".to_string()));
    assert_eq!(v.inner.title, "Side");
    assert_eq!(v.inner.label, None);
}

fn paginator() -> Adapted<Paginator> {
    Paginator::new(vec!["One".to_string(), "Two".to_string()])
}

#[test]
fn sidebar_click_switches_page_and_drains_menu_click() {
    let mut p = paginator();
    assert_eq!(p.inner.sidebar_menu.inner.selected, Some(0));
    // The strip took a press on the second tab.
    p.inner.sidebar_menu.inner.clicked = Some(1);
    assert_eq!(p.inner.drain_tab_click(), Some(1));
    assert_eq!(p.inner.selected_page, 1);
    assert_eq!(p.inner.menu_click(), Some((1, 0)));
    assert_eq!(p.inner.menu_click(), None, "click drained");
    assert_eq!(p.inner.selected_page(), 1);
}

#[test]
fn selecting_a_missing_page_changes_nothing() {
    let mut p = paginator();
    assert!(!p.inner.set_selected_page(2));
    assert_eq!(p.inner.selected_page(), 0);
    assert!(p.inner.set_selected_page(1));
    assert_eq!(p.inner.sidebar_menu.inner.selected, Some(1));
    // A click on a tab past the pages is kept for menu_click but selects nothing.
    p.inner.sidebar_menu.inner.clicked = Some(5);
    assert_eq!(p.inner.drain_tab_click(), None);
    assert_eq!(p.inner.selected_page(), 1);
    assert_eq!(p.inner.menu_click(), Some((5, 0)));
    let empty = Paginator::new(Vec::new());
    assert_eq!(empty.inner.sidebar_menu.inner.selected, None);
    assert!(p.inner.is_vertical() && !p.inner.is_menu_bar() && !p.inner.is_menu_open());
}

#[test]
fn tab_icons_are_single_characters() {
    assert_eq!(tab_icon("📁 Browse"), Some("📁".to_string()));
    assert_eq!(tab_icon("  🌐  Network "), Some("🌐".to_string()));
    assert_eq!(tab_icon("Two words"), None);
    assert_eq!(tab_icon("Audio"), None);
}

#[test]
fn pages_with_items_and_builder_flags() {
    let mut mb = bar().with_blur(true).with_right_aligned_title(true);
    assert!(mb.inner.blur);
    assert!(mb.inner.right_align_title);
    mb.inner.set_pages_with_items(
        vec!["A".to_string(), "B".to_string()],
        vec![vec!["a1".to_string()], vec![]],
    );
    assert_eq!(mb.inner.menu_names(), vec!["A".to_string(), "B".to_string()]);
    assert_eq!(mb.inner.menu_items_list(), vec![vec!["a1".to_string()], vec![]]);
    assert_eq!(mb.inner.menu_checked_list(), vec![Vec::<Option<bool>>::new(), vec![]]);
    mb.inner.set_center_items(true);
    assert!(mb.inner.center_items);
    mb.inner.set_context_selected(4);
    assert_eq!(mb.inner.context_selected, 4);
    assert_eq!(mb.inner.take_context_change(), None);
}

#[test]
fn pointer_moves_track_the_hovered_title_option_and_item() {
    let mut mb = MenuBar::new()
        .with_title("View")
        .with_context_options(vec!["A".to_string(), "B".to_string()], 0)
        .with_item("File", &["New", "Save"]);
    assert!(mb.inner.pointer_moved(true, None, None));
    assert!(mb.inner.context_title_hovered);
    // Nothing new: no change reported.
    assert!(!mb.inner.pointer_moved(true, None, None));
    // Over the open popover's second option, then past its last.
    mb.inner.press_context_title();
    assert!(mb.inner.pointer_moved(false, Some(1), None));
    assert_eq!(mb.inner.context_hovered_item, Some(1));
    assert!(!mb.inner.context_title_hovered);
    assert!(mb.inner.pointer_moved(false, Some(2), None));
    assert_eq!(mb.inner.context_hovered_item, None);
    // Enter acts on the hovered option.
    assert!(!mb.inner.pointer_moved(false, Some(5), None));
    mb.inner.pointer_moved(false, Some(1), None);
    assert!(mb.inner.context_key_input(&MenuKey::Enter));
    assert_eq!(mb.inner.take_context_change(), Some(1));
    // A dropdown row counts only while its menu is open and the row is an item.
    assert!(!mb.inner.pointer_moved(false, None, Some(0)));
    mb.inner.menus.set_selected(Some(0));
    assert!(mb.inner.pointer_moved(false, None, Some(1)));
    assert_eq!(mb.inner.hovered_dropdown_item, Some(1));
    assert!(mb.inner.pointer_moved(false, None, Some(2)));
    assert_eq!(mb.inner.hovered_dropdown_item, None);
    // A hidden bar takes no move.
    mb.inner.visible = false;
    assert!(!mb.inner.pointer_moved(true, Some(0), Some(0)));
    assert!(!mb.inner.context_title_hovered);
}
