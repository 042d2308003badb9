use widget_containers::breadcrumb::Breadcrumb;

fn home_path() -> Vec<String> {
    vec!["home".to_string(), "lsgalante".to_string()]
}

#[test]
fn test_breadcrumb_clicks() {
    let mut breadcrumb = Breadcrumb::new();
    breadcrumb.inner.set_path(&home_path());

    // Segment 0 (/) and segment 1 (home) are links.
    assert!(breadcrumb.inner.press_segment(Some(0)));
    assert_eq!(breadcrumb.inner.path_click(), Some(0));
    assert!(breadcrumb.inner.press_segment(Some(1)));
    assert_eq!(breadcrumb.inner.path_click(), Some(1));

    // Segment 2 (lsgalante) is the current directory, not a link.
    assert!(!breadcrumb.inner.press_segment(Some(2)));
    assert_eq!(breadcrumb.inner.path_click(), None);
}

#[test]
fn test_breadcrumb_right_clicks() {
    let mut breadcrumb = Breadcrumb::new();
    breadcrumb.inner.set_path(&home_path());

    let handled = breadcrumb.inner.right_press_segment(Some(1));
    assert!(handled);
    assert_eq!(breadcrumb.inner.right_clicked_seg, Some(1));

    assert_eq!(breadcrumb.inner.path_to_seg(0), "/");
    assert_eq!(breadcrumb.inner.path_to_seg(1), "/home");
    assert_eq!(breadcrumb.inner.path_to_seg(2), "/home/lsgalante");
}

#[test]
fn short_path_is_not_elided() {
    let mut breadcrumb = Breadcrumb::new();
    breadcrumb.inner.set_path(&home_path());
    let segs = breadcrumb.inner.virtual_segs();
    // Root + two components.
    assert_eq!(segs.len(), 3);
    assert_eq!(segs[0], "/");
}

#[test]
fn path_controller_reachable_through_element() {
    let mut breadcrumb = Breadcrumb::new();
    breadcrumb.inner.set_path(&["a".to_string()]);
    assert_eq!(breadcrumb.inner.path, vec!["a".to_string()]);
}

#[test]
fn path_to_seg_past_the_end_is_the_whole_path() {
    let mut breadcrumb = Breadcrumb::new();
    breadcrumb.inner.set_path(&home_path());
    assert_eq!(breadcrumb.inner.path_to_seg(7), "/home/lsgalante");
    let empty = Breadcrumb::new();
    assert_eq!(empty.inner.path_to_seg(3), "/");
}

#[test]
fn path_to_seg_follows_an_empty_first_segment() {
    let mut breadcrumb = Breadcrumb::new();
    breadcrumb.inner.set_path(&["".to_string(), "a".to_string(), "b".to_string()]);
    // An empty first component leaves the bare root, so no separator follows it.
    assert_eq!(breadcrumb.inner.path_to_seg(1), "/");
    assert_eq!(breadcrumb.inner.path_to_seg(2), "/a");
    assert_eq!(breadcrumb.inner.path_to_seg(3), "/a/b");
}

#[test]
fn path_text_splits_back_into_its_segments() {
    let mut breadcrumb = Breadcrumb::new();
    breadcrumb.inner.set_path(&["usr".to_string(), "local".to_string(), "bin".to_string()]);
    let text = breadcrumb.inner.path_to_seg(3);
    let pieces: Vec<&str> = text.split('/').collect();
    assert_eq!(pieces, vec!["", "usr", "local", "bin"]);
    // Each shorter path is a prefix of the longer one.
    assert!(breadcrumb.inner.path_to_seg(3).starts_with(&breadcrumb.inner.path_to_seg(2)));
    assert!(breadcrumb.inner.path_to_seg(2).starts_with(&breadcrumb.inner.path_to_seg(1)));
}

#[test]
fn copy_path_uses_the_right_pressed_segment() {
    let mut breadcrumb = Breadcrumb::new();
    breadcrumb.inner.set_path(&home_path());
    // A right press between segments copies the whole path.
    breadcrumb.inner.right_press_segment(None);
    assert_eq!(breadcrumb.inner.copy_path_text(), "/home/lsgalante");
    breadcrumb.inner.right_press_segment(Some(1));
    assert_eq!(breadcrumb.inner.copy_path_text(), "/home");
    breadcrumb.inner.right_press_segment(Some(0));
    assert_eq!(breadcrumb.inner.copy_path_text(), "/");
}

#[test]
fn hover_tracks_the_pointer_and_leaves() {
    let mut breadcrumb = Breadcrumb::new();
    breadcrumb.inner.set_path(&home_path());
    assert!(breadcrumb.inner.pointer_moved(true, Some(1)));
    // The same position again changes nothing.
    assert!(!breadcrumb.inner.pointer_moved(true, Some(1)));
    assert!(breadcrumb.inner.pointer_moved(true, Some(2)));
    // Outside the box the segment is forgotten.
    assert!(breadcrumb.inner.pointer_moved(false, Some(2)));
    assert!(!breadcrumb.inner.mouse_leave());
    assert!(breadcrumb.inner.pointer_moved(true, None));
    assert!(breadcrumb.inner.mouse_leave());
}

#[test]
fn raised_stance_and_segments() {
    let mut breadcrumb = Breadcrumb::new();
    assert!(!breadcrumb.inner.raised);
    breadcrumb.inner.set_raised(true);
    assert!(breadcrumb.inner.raised);
    breadcrumb.inner.set_path(&home_path());
    let segs = breadcrumb.inner.virtual_segs();
    assert_eq!(segs, vec!["/".to_string(), "home".to_string(), "lsgalante".to_string()]);
    // A press on no segment falls through.
    assert!(!breadcrumb.inner.press_segment(None));
}
