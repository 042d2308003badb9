use widget_containers::container::{Container, LayoutKind};
use widget_containers::element::{Container as LinkContainer, WidgetId};
use widget_containers::group::Group;
use widget_containers::ring_layout::ring_slot;

#[test]
fn container_links_children_in_order() {
    let mut c = Container::new();
    assert!(c.layout == LayoutKind::Overlay);
    c.add_child(WidgetId(3));
    c.add_child(WidgetId(1));
    assert_eq!(c.children(), vec![WidgetId(3), WidgetId(1)]);
    c.set_parent(Some(WidgetId(9)));
    assert_eq!(c.parent(), Some(WidgetId(9)));
    c.clear_children();
    assert!(c.children().is_empty());
    assert_eq!(c.parent(), Some(WidgetId(9)));
    let c = c.with_layout(LayoutKind::Grid { columns: 3 });
    assert!(c.layout == LayoutKind::Grid { columns: 3 });
}

#[test]
fn plain_container_links() {
    let mut c = LinkContainer::new();
    assert_eq!(c.parent(), None);
    c.add_child(WidgetId(7));
    assert_eq!(c.children(), vec![WidgetId(7)]);
    c.set_parent(Some(WidgetId(1)));
    c.clear_children();
    assert_eq!(c.children(), Vec::new());
    assert_eq!(c.parent(), Some(WidgetId(1)));
}

#[test]
fn group_membership_and_fit() {
    let g = Group::new(vec![WidgetId(1), WidgetId(2)]);
    assert_eq!(g.inner.members(), &[WidgetId(1), WidgetId(2)]);
    let mut g = g.with_fit(true);
    g.inner.set_members(vec![WidgetId(5)]);
    assert_eq!(g.inner.members(), &[WidgetId(5)]);
    g.inner.sync_label("Group");
    g.inner.set_fit(false);
    assert_eq!(g.inner.members().len(), 1);
}

#[test]
fn plate_rings_hold_six_children_per_ring_step() {
    // Ring 1 takes children 1..=6, ring 2 the next twelve, ring 3 opens at child 19.
    assert_eq!(ring_slot(1), (1, 0));
    assert_eq!(ring_slot(6), (1, 5));
    assert_eq!(ring_slot(7), (2, 0));
    assert_eq!(ring_slot(18), (2, 11));
    assert_eq!(ring_slot(19), (3, 0));
    assert_eq!(ring_slot(37), (4, 0));
    // Every child of the first few rings gets its own slot, in order.
    let mut last = (1usize, 0usize);
    for i in 2..200usize {
        let s = ring_slot(i);
        assert!(s == (last.0, last.1 + 1) || s == (last.0 + 1, 0));
        assert!(s.1 < 6 * s.0);
        last = s;
    }
}
