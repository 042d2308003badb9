//! The plain menu bar: a title and a row (or column) of menus, each a button that opens
//! a dropdown of items, some carrying a check state. A click on an item waits, per menu,
//! until the host reads it.
use vstd::prelude::*;
use crate::element::WidgetId;
use crate::param_spec::views;
use crate::menu_bar::{str_views, views2, checks2, strs_to_strings, clone_strings, repeat_check, MenuBar as AdaptedMenuBar};

verus! {

/// One menu: its titles for either orientation, its items and their check states, and
/// whether its dropdown is open.
pub struct Menu {
    pub title: String,
    pub vertical_title: String,
    pub items: Vec<String>,
    pub item_checked: Vec<Option<bool>>,
    pub open: bool,
    pub vertical: bool,
    pub hovered: bool,
    pub focused: bool,
    pub hovered_item: Option<usize>,
    pub clicked_item: Option<usize>,
    /// Set when focus loss closed the dropdown, so the press that caused it does not
    /// reopen it.
    pub was_open: Option<usize>,
    pub parent: Option<WidgetId>,
    pub children: Vec<WidgetId>,
}

/// The state after a left press (`left_press` false for any other button or a release)
/// that landed on the menu or not (`hit`), `row` being the dropdown row under the
/// pointer when it is inside the open dropdown; and whether the press was taken.
pub open spec fn menu_press(m: Menu, left_press: bool, hit: bool, row: Option<usize>) -> (Menu, bool) {
    if !left_press || !hit {
        (m, false)
    } else if m.open && (row matches Some(di) && di < m.items@.len()) {
        (Menu { clicked_item: row, open: false, ..m }, true)
    } else if m.was_open == Some(0usize) || m.open {
        (Menu { open: false, was_open: None, ..m }, true)
    } else {
        (Menu { open: true, was_open: None, ..m }, true)
    }
}

/// The state after a pointer move, and whether the hover changed.
pub open spec fn menu_cursor(m: Menu, hit: bool, row: Option<usize>) -> (Menu, bool) {
    let item = if m.open && (row matches Some(di) && di < m.items@.len()) { row } else { None };
    (Menu { was_open: None, hovered: hit, hovered_item: item, ..m }, m.hovered != hit || m.hovered_item != item)
}

/// The state after losing the focus: the dropdown closes, remembering it was open.
pub open spec fn menu_unfocused(m: Menu) -> Menu {
    Menu {
        was_open: if m.open { Some(0usize) } else { m.was_open },
        open: false,
        focused: false,
        hovered_item: None,
        ..m
    }
}

/// The state after being selected or deselected.
pub open spec fn menu_selected(m: Menu, selected: bool) -> Menu {
    if selected {
        Menu { focused: true, ..m }
    } else {
        Menu { focused: false, open: false, was_open: None, hovered_item: None, ..m }
    }
}

fn same_item(a: Option<usize>, b: Option<usize>) -> (r: bool)
    ensures
        r == (a == b),
{
    match (a, b) {
        (Some(x), Some(y)) => x == y,
        (None, None) => true,
        _ => false,
    }
}

impl Menu {
    /// A closed menu titled `title` (`vertical_title` in a vertical bar) over `items`,
    /// none checked.
    pub fn new(title: &str, vertical_title: &str, items: &[String]) -> (m: Menu)
        ensures
            m.title@ == title@,
            m.vertical_title@ == vertical_title@,
            views(m.items@) == views(items@),
            m.item_checked@ == Seq::new(items@.len(), |_i: int| None::<bool>),
            !m.open && !m.vertical && !m.hovered && !m.focused,
            m.hovered_item is None && m.clicked_item is None && m.was_open is None,
            m.parent is None && m.children@.len() == 0,
    {
        let mut copy: Vec<String> = Vec::new();
        let mut k: usize = 0;
        while k < items.len()
            invariant
                k <= items@.len(),
                views(copy@) == views(items@).take(k as int),
            decreases items.len() - k,
        {
            let s = items[k].clone();
            let ghost before = copy@;
            copy.push(s);
            proof {
                assert(views(copy@) =~= views(before).push(s@));
                assert(views(copy@) =~= views(items@).take(k + 1));
            }
            k = k + 1;
        }
        proof {
            assert(views(items@).take(k as int) =~= views(items@));
        }
        Menu {
            title: title.to_owned(),
            vertical_title: vertical_title.to_owned(),
            items: copy,
            item_checked: repeat_check(None, items.len()),
            open: false,
            vertical: false,
            hovered: false,
            focused: false,
            hovered_item: None,
            clicked_item: None,
            was_open: None,
            parent: None,
            children: Vec::new(),
        }
    }

    /// The title for the bar's orientation.
    pub fn active_title(&self) -> (t: &str)
        ensures
            t@ == if self.vertical { self.vertical_title@ } else { self.title@ },
    {
        if self.vertical {
            self.vertical_title.as_str()
        } else {
            self.title.as_str()
        }
    }

    /// The menu's label: its active title.
    pub fn label(&self) -> (l: Option<String>)
        ensures
            l matches Some(s) && s@ == if self.vertical { self.vertical_title@ } else { self.title@ },
    {
        Some(self.active_title().to_owned())
    }

    /// A press: an item of the open dropdown becomes the click and the dropdown closes;
    /// otherwise a press on the menu toggles the dropdown, except that a press which
    /// just closed it through focus loss does not reopen it. Reports whether the press
    /// was taken. (The host registers the focus when the dropdown opens.)
    pub fn press(&mut self, left_press: bool, hit: bool, row: Option<usize>) -> (taken: bool)
        ensures
            (*final(self), taken) == menu_press(*old(self), left_press, hit, row),
    {
        if !left_press || !hit {
            return false;
        }
        if self.open {
            match row {
                Some(di) => {
                    if di < self.items.len() {
                        self.clicked_item = Some(di);
                        self.open = false;
                        return true;
                    }
                },
                None => {},
            }
        }
        let was = match self.was_open {
            Some(w) => w == 0,
            None => false,
        };
        if was || self.open {
            self.open = false;
            self.was_open = None;
        } else {
            self.open = true;
            self.was_open = None;
        }
        true
    }

    /// A pointer move: `hit` tells whether it is over the menu, `row` which dropdown row
    /// it is in when inside the dropdown. Reports whether the hover changed.
    pub fn cursor_moved(&mut self, hit: bool, row: Option<usize>) -> (changed: bool)
        ensures
            (*final(self), changed) == menu_cursor(*old(self), hit, row),
    {
        self.was_open = None;
        let was_hovering = self.hovered;
        self.hovered = hit;
        let old_item = self.hovered_item;
        self.hovered_item = None;
        if self.open {
            match row {
                Some(di) => {
                    if di < self.items.len() {
                        self.hovered_item = Some(di);
                    }
                },
                None => {},
            }
        }
        was_hovering != self.hovered || !same_item(old_item, self.hovered_item)
    }

    /// Takes the focus: the dropdown opens.
    pub fn focus(&mut self)
        ensures
            *final(self) == (Menu { open: true, focused: true, ..*old(self) }),
    {
        self.open = true;
        self.focused = true;
    }

    /// Loses the focus: the dropdown closes, remembering it was open.
    pub fn unfocus(&mut self)
        ensures
            *final(self) == menu_unfocused(*old(self)),
    {
        if self.open {
            self.was_open = Some(0);
        }
        self.open = false;
        self.focused = false;
        self.hovered_item = None;
    }

    /// Selects or deselects the menu; deselecting closes it and forgets the hover.
    pub fn set_selected(&mut self, selected: bool)
        ensures
            *final(self) == menu_selected(*old(self), selected),
    {
        self.focused = selected;
        if !selected {
            self.open = false;
            self.was_open = None;
            self.hovered_item = None;
        }
    }

    /// The pending item click as (0, item), drained.
    pub fn menu_click(&mut self) -> (r: Option<(usize, usize)>)
        ensures
            r == match old(self).clicked_item { Some(i) => Some((0usize, i)), None => None },
            *final(self) == (Menu { clicked_item: None, ..*old(self) }),
    {
        match self.clicked_item {
            Some(i) => {
                self.clicked_item = None;
                Some((0, i))
            }
            None => None,
        }
    }

    /// Marks item `item_idx` checked or unchecked; an out-of-range index changes nothing.
    pub fn set_item_checked(&mut self, item_idx: usize, checked: bool)
        ensures
            *final(self) == (Menu { item_checked: final(self).item_checked, ..*old(self) }),
            final(self).item_checked@ == if item_idx < old(self).item_checked@.len() {
                old(self).item_checked@.update(item_idx as int, Some(checked))
            } else {
                old(self).item_checked@
            },
    {
        if item_idx < self.item_checked.len() {
            self.item_checked.set(item_idx, Some(checked));
        }
    }

    /// Whether the dropdown is open.
    pub fn is_menu_open(&self) -> (r: bool)
        ensures
            r == self.open,
    {
        self.open
    }
}

/// Two presses on a closed menu's button open its dropdown and close it again.
pub proof fn lemma_press_toggles(m: Menu)
    requires
        !m.open,
        m.was_open != Some(0usize),
    ensures
        ({
            let (m1, t1) = menu_press(m, true, true, None);
            let (m2, t2) = menu_press(m1, true, true, None);
            &&& t1 && t2
            &&& m1.open
            &&& !m2.open
            &&& m2.was_open is None
        }),
{
}

/// A dropdown closed by focus loss stays closed on the press that took the focus away
/// (and the press after that opens it again).
pub proof fn lemma_focus_loss_does_not_reopen(m: Menu)
    requires
        m.open,
    ensures
        ({
            let u = menu_unfocused(m);
            let (m1, t1) = menu_press(u, true, true, None);
            let (m2, _) = menu_press(m1, true, true, None);
            &&& !u.open && u.was_open == Some(0usize)
            &&& t1 && !m1.open && m1.was_open is None
            &&& m2.open
        }),
{
}

/// Pressing an item of an open dropdown records exactly that item and closes the
/// dropdown, leaving the items and their check states as they were.
pub proof fn lemma_item_press_records_item(m: Menu, di: usize)
    requires
        m.open,
        di < m.items@.len(),
    ensures
        ({
            let (m1, t) = menu_press(m, true, true, Some(di));
            &&& t && !m1.open
            &&& m1.clicked_item == Some(di)
            &&& m1.items == m.items && m1.item_checked == m.item_checked
        }),
{
}

/// Every menu after the same press, `hits[i]` telling where it fell for menu `i`.
pub open spec fn menus_pressed(ms: Seq<Menu>, left_press: bool, hits: Seq<(bool, Option<usize>)>) -> Seq<Menu> {
    Seq::new(ms.len(), |i: int| menu_press(ms[i], left_press, hits[i].0, hits[i].1).0)
}

/// Every menu after the same pointer move.
pub open spec fn menus_cursor(ms: Seq<Menu>, hits: Seq<(bool, Option<usize>)>) -> Seq<Menu> {
    Seq::new(ms.len(), |i: int| menu_cursor(ms[i], hits[i].0, hits[i].1).0)
}

/// Every menu after losing the focus.
pub open spec fn menus_unfocused(ms: Seq<Menu>) -> Seq<Menu> {
    Seq::new(ms.len(), |i: int| menu_unfocused(ms[i]))
}

/// Every menu after being deselected.
pub open spec fn menus_deselected(ms: Seq<Menu>) -> Seq<Menu> {
    Seq::new(ms.len(), |i: int| menu_selected(ms[i], false))
}

/// Whether some menu's dropdown is open.
pub open spec fn any_open(ms: Seq<Menu>) -> bool {
    exists|i: int| 0 <= i < ms.len() && #[trigger] ms[i].open
}

/// The first menu with a pending click, if any.
pub open spec fn first_clicked(ms: Seq<Menu>) -> Option<int> {
    if exists|i: int| 0 <= i < ms.len() && (#[trigger] ms[i]).clicked_item is Some {
        Some(choose|i: int| 0 <= i < ms.len() && (#[trigger] ms[i]).clicked_item is Some
            && forall|j: int| 0 <= j < i ==> (#[trigger] ms[j]).clicked_item is None)
    } else {
        None
    }
}

/// The last menu under the pointer, if any.
pub open spec fn last_hovered(ms: Seq<Menu>) -> Option<usize>
    decreases ms.len(),
{
    if ms.len() == 0 {
        None
    } else if ms.last().hovered {
        Some((ms.len() - 1) as usize)
    } else {
        last_hovered(ms.drop_last())
    }
}

/// Appending a menu makes it the last hovered one when it is hovered.
proof fn lemma_last_hovered_push(before: Seq<Menu>, m: Menu)
    ensures
        last_hovered(before.push(m)) == if m.hovered { Some(before.len() as usize) } else { last_hovered(before) },
{
    assert(before.push(m).drop_last() =~= before);
}

/// The plain menu bar.
pub struct MenuBar {
    pub hovering: bool,
    pub title: String,
    pub menus: Vec<Menu>,
    pub menu_items: Vec<String>,
    pub vertical_items: Vec<String>,
    pub menu_dropdowns: Vec<Vec<String>>,
    pub menu_dropdown_checked: Vec<Vec<Option<bool>>>,
    pub hovered_menu: Option<usize>,
    pub open_menu: Option<usize>,
    pub hovered_dropdown: Option<usize>,
    pub clicked_dropdown: Option<(usize, usize)>,
    pub was_open: Option<usize>,
    pub vertical: bool,
    pub visible: bool,
    pub focused: bool,
    pub z_level: i32,
    pub center_items: bool,
}

impl MenuBar {
    /// Each menu has its item list and its check list, menu for menu.
    pub open spec fn wf(&self) -> bool {
        self.menu_dropdowns@.len() == self.menu_dropdown_checked@.len()
    }

    /// A visible, horizontal bar with no title and no menus, drawn above its
    /// neighbours.
    pub fn new() -> (b: MenuBar)
        ensures
            b.wf(),
            b.visible && !b.vertical && !b.focused && !b.center_items && !b.hovering,
            b.z_level == 100,
            b.title@.len() == 0,
            b.menus@.len() == 0,
            b.menu_items@.len() == 0 && b.vertical_items@.len() == 0,
            b.menu_dropdowns@.len() == 0,
            b.hovered_menu is None && b.open_menu is None && b.hovered_dropdown is None,
            b.clicked_dropdown is None && b.was_open is None,
    {
        MenuBar {
            hovering: false,
            title: String::new(),
            menus: Vec::new(),
            menu_items: Vec::new(),
            vertical_items: Vec::new(),
            menu_dropdowns: Vec::new(),
            menu_dropdown_checked: Vec::new(),
            hovered_menu: None,
            open_menu: None,
            hovered_dropdown: None,
            clicked_dropdown: None,
            was_open: None,
            vertical: false,
            visible: true,
            focused: false,
            z_level: 100,
            center_items: false,
        }
    }

    pub fn with_center_items(self, center: bool) -> (r: MenuBar)
        ensures
            r == (MenuBar { center_items: center, ..self }),
    {
        let mut s = self;
        s.center_items = center;
        s
    }

    pub fn with_title(self, title: &str) -> (r: MenuBar)
        ensures
            r == (MenuBar { title: r.title, ..self }),
            r.title@ == title@,
    {
        let mut s = self;
        s.title = title.to_owned();
        s
    }

    /// Adds a menu with the same label in both orientations.
    pub fn with_item(self, label: &str, items: &[&str]) -> (r: MenuBar)
        requires
            self.wf(),
        ensures
            r.wf(),
            views(r.menu_items@) == views(self.menu_items@).push(label@),
            views(r.vertical_items@) == views(self.vertical_items@).push(label@),
            views2(r.menu_dropdowns@) == views2(self.menu_dropdowns@).push(str_views(items@)),
            checks2(r.menu_dropdown_checked@) == checks2(self.menu_dropdown_checked@).push(
                Seq::new(items@.len(), |_i: int| None::<bool>)),
            r.menus@.len() == self.menus@.len() + 1,
            r.menus@.drop_last() == self.menus@,
            ({
                let m = r.menus@.last();
                &&& m.title@ == label@ && m.vertical_title@ == label@
                &&& views(m.items@) == str_views(items@)
                &&& m.item_checked@ == Seq::new(items@.len(), |_i: int| None::<bool>)
                &&& m.vertical == self.vertical
                &&& !m.open && !m.hovered && !m.focused
                &&& m.hovered_item is None && m.clicked_item is None && m.was_open is None
            }),
            r == (MenuBar {
                menus: r.menus,
                menu_items: r.menu_items,
                vertical_items: r.vertical_items,
                menu_dropdowns: r.menu_dropdowns,
                menu_dropdown_checked: r.menu_dropdown_checked,
                ..self
            }),
    {
        self.with_item_vh(label, label, items)
    }

    /// Adds a menu with a horizontal and a vertical label.
    pub fn with_item_vh(self, horizontal_label: &str, vertical_label: &str, items: &[&str]) -> (r: MenuBar)
        requires
            self.wf(),
        ensures
            r.wf(),
            views(r.menu_items@) == views(self.menu_items@).push(horizontal_label@),
            views(r.vertical_items@) == views(self.vertical_items@).push(vertical_label@),
            views2(r.menu_dropdowns@) == views2(self.menu_dropdowns@).push(str_views(items@)),
            checks2(r.menu_dropdown_checked@) == checks2(self.menu_dropdown_checked@).push(
                Seq::new(items@.len(), |_i: int| None::<bool>)),
            r.menus@.len() == self.menus@.len() + 1,
            r.menus@.drop_last() == self.menus@,
            ({
                let m = r.menus@.last();
                &&& m.title@ == horizontal_label@ && m.vertical_title@ == vertical_label@
                &&& views(m.items@) == str_views(items@)
                &&& m.item_checked@ == Seq::new(items@.len(), |_i: int| None::<bool>)
                &&& m.vertical == self.vertical
                &&& !m.open && !m.hovered && !m.focused
                &&& m.hovered_item is None && m.clicked_item is None && m.was_open is None
            }),
            r == (MenuBar {
                menus: r.menus,
                menu_items: r.menu_items,
                vertical_items: r.vertical_items,
                menu_dropdowns: r.menu_dropdowns,
                menu_dropdown_checked: r.menu_dropdown_checked,
                ..self
            }),
    {
        let mut s = self;
        let ghost m0 = s.menu_items@;
        let ghost v0 = s.vertical_items@;
        let ghost d0 = s.menu_dropdowns@;
        let ghost c0 = s.menu_dropdown_checked@;
        let ghost ms0 = s.menus@;
        s.menu_items.push(horizontal_label.to_owned());
        s.vertical_items.push(vertical_label.to_owned());
        let list = strs_to_strings(items);
        let item_strs = clone_strings(&list);
        s.menu_dropdowns.push(list);
        s.menu_dropdown_checked.push(repeat_check(None, items.len()));
        let sl = item_strs.as_slice();
        let mut menu = Menu::new(horizontal_label, vertical_label, sl);
        menu.vertical = s.vertical;
        proof {
            assert(sl@ == item_strs@);
            assert(views(menu.items@) == str_views(items@));
            assert(views(sl@).len() == str_views(items@).len());
            assert(menu.item_checked@ =~= Seq::new(items@.len(), |_i: int| None::<bool>));
        }
        s.menus.push(menu);
        proof {
            assert(s.menus@.last() == menu);
            assert(views(s.menu_items@) =~= views(m0).push(horizontal_label@));
            assert(views(s.vertical_items@) =~= views(v0).push(vertical_label@));
            assert(views2(s.menu_dropdowns@) =~= views2(d0).push(str_views(items@)));
            assert(checks2(s.menu_dropdown_checked@) =~= checks2(c0).push(
                Seq::new(items@.len(), |_i: int| None::<bool>)));
            assert(s.menus@.drop_last() =~= ms0);
        }
        s
    }

    /// Lays the bar out vertically (or not), its menus with it.
    pub fn with_vertical(self, vertical: bool) -> (r: MenuBar)
        ensures
            r == (MenuBar { vertical, menus: r.menus, ..self }),
            r.menus@ == Seq::new(self.menus@.len(), |i: int| Menu { vertical, ..self.menus@[i] }),
    {
        let mut s = self;
        s.vertical = vertical;
        let ghost ms0 = s.menus@;
        let ghost s0 = s;
        let mut i: usize = 0;
        while i < s.menus.len()
            invariant
                s == (MenuBar { menus: s.menus, ..s0 }),
                s0 == (MenuBar { vertical, ..self }),
                i <= s.menus@.len(),
                s.menus@.len() == ms0.len(),
                forall|j: int| 0 <= j < i ==> s.menus@[j] == (Menu { vertical, ..ms0[j] }),
                forall|j: int| i <= j < ms0.len() ==> s.menus@[j] == ms0[j],
            decreases s.menus.len() - i,
        {
            let mut m = s.menus.remove(i);
            m.vertical = vertical;
            s.menus.insert(i, m);
            i = i + 1;
        }
        proof {
            assert(s.menus@ =~= Seq::new(ms0.len(), |j: int| Menu { vertical, ..ms0[j] }));
        }
        s
    }

    pub fn with_z_index(self, z: i32) -> (r: MenuBar)
        ensures
            r == (MenuBar { z_level: z, ..self }),
    {
        let mut s = self;
        s.z_level = z;
        s
    }

    /// The menus' horizontal labels.
    pub fn menu_names(&self) -> (r: Vec<String>)
        ensures
            views(r@) == views(self.menu_items@),
    {
        clone_strings(&self.menu_items)
    }

    /// The first menu's pending click, as (menu, item), drained from that menu.
    pub fn menu_click(&mut self) -> (r: Option<(usize, usize)>)
        ensures
            match first_clicked(old(self).menus@) {
                Some(i) => {
                    &&& r == Some((i as usize, old(self).menus@[i].clicked_item->0))
                    &&& *final(self) == (MenuBar { menus: final(self).menus, ..*old(self) })
                    &&& final(self).menus@ == old(self).menus@.update(i,
                        Menu { clicked_item: None, ..old(self).menus@[i] })
                },
                None => r is None && *final(self) == *old(self),
            },
    {
        let ghost ms0 = self.menus@;
        let mut i: usize = 0;
        while i < self.menus.len()
            invariant
                i <= self.menus@.len(),
                self.menus@ == ms0,
                *self == *old(self),
                ms0 == old(self).menus@,
                forall|j: int| 0 <= j < i ==> (#[trigger] ms0[j]).clicked_item is None,
            decreases self.menus.len() - i,
        {
            if self.menus[i].clicked_item.is_some() {
                let mut m = self.menus.remove(i);
                let c = m.menu_click();
                self.menus.insert(i, m);
                proof {
                    assert(self.menus@ =~= ms0.update(i as int, Menu { clicked_item: None, ..ms0[i as int] }));
                    let k = choose|k: int| 0 <= k < ms0.len() && (#[trigger] ms0[k]).clicked_item is Some
                        && forall|j: int| 0 <= j < k ==> (#[trigger] ms0[j]).clicked_item is None;
                    if k < i {
                        assert(ms0[k].clicked_item is None);
                    }
                    if k > i {
                        assert(ms0[i as int].clicked_item is None);
                    }
                }
                return match c {
                    Some((_, item)) => Some((i, item)),
                    None => None,
                };
            }
            i = i + 1;
        }
        proof {
            if exists|k: int| 0 <= k < ms0.len() && (#[trigger] ms0[k]).clicked_item is Some {
                let k = choose|k: int| 0 <= k < ms0.len() && (#[trigger] ms0[k]).clicked_item is Some;
                assert(ms0[k].clicked_item is None);
            }
        }
        None
    }

    /// Marks an item checked or unchecked, in the bar's table and in the menu itself;
    /// out-of-range indices change nothing.
    pub fn set_item_checked(&mut self, menu_idx: usize, item_idx: usize, checked: bool)
        requires
            old(self).wf(),
        ensures
            final(self).wf(),
            checks2(final(self).menu_dropdown_checked@) == if menu_idx < old(self).menu_dropdown_checked@.len()
                && item_idx < old(self).menu_dropdown_checked@[menu_idx as int]@.len() {
                checks2(old(self).menu_dropdown_checked@).update(menu_idx as int,
                    old(self).menu_dropdown_checked@[menu_idx as int]@.update(item_idx as int, Some(checked)))
            } else {
                checks2(old(self).menu_dropdown_checked@)
            },
            final(self).menus@.len() == old(self).menus@.len(),
            forall|j: int| 0 <= j < old(self).menus@.len() && j != menu_idx ==> final(self).menus@[j] == old(self).menus@[j],
            menu_idx < old(self).menus@.len() ==> ({
                let m = old(self).menus@[menu_idx as int];
                let n = final(self).menus@[menu_idx as int];
                &&& n == (Menu { item_checked: n.item_checked, ..m })
                &&& n.item_checked@ == if item_idx < m.item_checked@.len() {
                    m.item_checked@.update(item_idx as int, Some(checked))
                } else {
                    m.item_checked@
                }
            }),
            *final(self) == (MenuBar {
                menus: final(self).menus,
                menu_dropdown_checked: final(self).menu_dropdown_checked,
                ..*old(self)
            }),
    {
        if menu_idx < self.menu_dropdown_checked.len() && item_idx < self.menu_dropdown_checked[menu_idx].len() {
            let ghost before = self.menu_dropdown_checked@;
            let mut row = self.menu_dropdown_checked[menu_idx].clone();
            row.set(item_idx, Some(checked));
            self.menu_dropdown_checked.set(menu_idx, row);
            proof {
                assert(checks2(self.menu_dropdown_checked@) =~= checks2(before).update(menu_idx as int,
                    before[menu_idx as int]@.update(item_idx as int, Some(checked))));
            }
        }
        if menu_idx < self.menus.len() {
            let ghost ms0 = self.menus@;
            let mut m = self.menus.remove(menu_idx);
            m.set_item_checked(item_idx, checked);
            self.menus.insert(menu_idx, m);
            proof {
                assert forall|j: int| 0 <= j < ms0.len() && j != menu_idx implies self.menus@[j] == ms0[j] by {
                    if j < menu_idx {
                        assert(self.menus@[j] == ms0[j]);
                    } else {
                        assert(self.menus@[j] == ms0[j]);
                    }
                }
            }
        }
    }

    /// Replaces menu `menu_idx`'s items, all unchecked, in the bar's table and in the
    /// menu; out-of-range indices change nothing.
    pub fn set_menu_items(&mut self, menu_idx: usize, items: &[String])
        requires
            old(self).wf(),
        ensures
            final(self).wf(),
            menu_idx < old(self).menu_dropdowns@.len() ==> {
                &&& views2(final(self).menu_dropdowns@) == views2(old(self).menu_dropdowns@).update(menu_idx as int, views(items@))
                &&& checks2(final(self).menu_dropdown_checked@) == checks2(old(self).menu_dropdown_checked@).update(
                    menu_idx as int, Seq::new(items@.len(), |_i: int| Some(false)))
            },
            menu_idx >= old(self).menu_dropdowns@.len() ==> final(self).menu_dropdowns == old(self).menu_dropdowns
                && final(self).menu_dropdown_checked == old(self).menu_dropdown_checked,
            final(self).menus@.len() == old(self).menus@.len(),
            forall|j: int| 0 <= j < old(self).menus@.len() && j != menu_idx ==> final(self).menus@[j] == old(self).menus@[j],
            menu_idx < old(self).menus@.len() ==> ({
                let m = old(self).menus@[menu_idx as int];
                let n = final(self).menus@[menu_idx as int];
                &&& n == (Menu { items: n.items, item_checked: n.item_checked, ..m })
                &&& views(n.items@) == views(items@)
                &&& n.item_checked@ == Seq::new(items@.len(), |_i: int| Some(false))
            }),
            *final(self) == (MenuBar {
                menus: final(self).menus,
                menu_dropdowns: final(self).menu_dropdowns,
                menu_dropdown_checked: final(self).menu_dropdown_checked,
                ..*old(self)
            }),
    {
        if menu_idx < self.menu_dropdowns.len() {
            let ghost d0 = self.menu_dropdowns@;
            let ghost c0 = self.menu_dropdown_checked@;
            let copy = clone_slice(items);
            self.menu_dropdowns.set(menu_idx, copy);
            self.menu_dropdown_checked.set(menu_idx, repeat_check(Some(false), items.len()));
            proof {
                assert(views2(self.menu_dropdowns@) =~= views2(d0).update(menu_idx as int, views(items@)));
                assert(checks2(self.menu_dropdown_checked@) =~= checks2(c0).update(
                    menu_idx as int, Seq::new(items@.len(), |_i: int| Some(false))));
            }
        }
        if menu_idx < self.menus.len() {
            let ghost ms0 = self.menus@;
            let mut m = self.menus.remove(menu_idx);
            m.items = clone_slice(items);
            m.item_checked = repeat_check(Some(false), items.len());
            self.menus.insert(menu_idx, m);
            proof {
                assert forall|j: int| 0 <= j < ms0.len() && j != menu_idx implies self.menus@[j] == ms0[j] by {}
            }
        }
    }

    /// Whether the bar counts as a menu bar: while it is shown.
    pub fn is_menu_bar(&self) -> (r: bool)
        ensures
            r == self.visible,
    {
        self.visible
    }

    /// Records a click on item `item_idx` of menu `menu_idx` as if the user made it; an
    /// out-of-range menu changes nothing.
    pub fn trigger_menu_click(&mut self, menu_idx: usize, item_idx: usize)
        ensures
            *final(self) == (MenuBar { menus: final(self).menus, ..*old(self) }),
            final(self).menus@ == if menu_idx < old(self).menus@.len() {
                old(self).menus@.update(menu_idx as int,
                    Menu { clicked_item: Some(item_idx), ..old(self).menus@[menu_idx as int] })
            } else {
                old(self).menus@
            },
    {
        if menu_idx < self.menus.len() {
            let ghost ms0 = self.menus@;
            let mut m = self.menus.remove(menu_idx);
            m.clicked_item = Some(item_idx);
            self.menus.insert(menu_idx, m);
            proof {
                assert(self.menus@ =~= ms0.update(menu_idx as int,
                    Menu { clicked_item: Some(item_idx), ..ms0[menu_idx as int] }));
            }
        }
    }

    /// Whether a dropdown is open: the bar is shown and one of its menus is open.
    pub fn is_menu_open(&self) -> (r: bool)
        ensures
            r == (self.visible && any_open(self.menus@)),
    {
        if !self.visible {
            return false;
        }
        let mut i: usize = 0;
        while i < self.menus.len()
            invariant
                self.visible,
                i <= self.menus@.len(),
                forall|j: int| 0 <= j < i ==> !(#[trigger] self.menus@[j]).open,
            decreases self.menus.len() - i,
        {
            if self.menus[i].open {
                proof {
                    assert(self.menus@[i as int].open);
                }
                return true;
            }
            i = i + 1;
        }
        false
    }

    /// Whether the bar holds the focus: its own flag, or an open dropdown.
    pub fn focused(&self) -> (r: bool)
        ensures
            r == (self.focused || (self.visible && any_open(self.menus@))),
    {
        self.focused || self.is_menu_open()
    }

    /// Loses the focus: every menu closes.
    pub fn unfocus(&mut self)
        ensures
            *final(self) == (MenuBar { focused: false, menus: final(self).menus, ..*old(self) }),
            final(self).menus@ == menus_unfocused(old(self).menus@),
    {
        self.focused = false;
        let ghost ms0 = self.menus@;
        let mut i: usize = 0;
        while i < self.menus.len()
            invariant
                *self == (MenuBar { focused: false, menus: self.menus, ..*old(self) }),
                ms0 == old(self).menus@,
                i <= self.menus@.len(),
                self.menus@.len() == ms0.len(),
                forall|j: int| 0 <= j < i ==> self.menus@[j] == menu_unfocused(ms0[j]),
                forall|j: int| i <= j < ms0.len() ==> self.menus@[j] == ms0[j],
            decreases self.menus.len() - i,
        {
            let mut m = self.menus.remove(i);
            m.unfocus();
            self.menus.insert(i, m);
            i = i + 1;
        }
        proof {
            assert(self.menus@ =~= menus_unfocused(ms0));
        }
    }

    /// Takes the focus, which the bar keeps only while a dropdown is open: then the
    /// first open menu takes it too.
    pub fn focus(&mut self)
        ensures
            old(self).visible && any_open(old(self).menus@) ==> {
                let i = choose|i: int| 0 <= i < old(self).menus@.len() && (#[trigger] old(self).menus@[i]).open
                    && forall|j: int| 0 <= j < i ==> !(#[trigger] old(self).menus@[j]).open;
                &&& *final(self) == (MenuBar { focused: true, menus: final(self).menus, ..*old(self) })
                &&& final(self).menus@ == old(self).menus@.update(i,
                    Menu { open: true, focused: true, ..old(self).menus@[i] })
            },
            !(old(self).visible && any_open(old(self).menus@)) ==> *final(self) == (MenuBar {
                focused: false,
                ..*old(self)
            }),
    {
        if self.is_menu_open() {
            self.focused = true;
            let ghost ms0 = self.menus@;
            let mut i: usize = 0;
            while i < self.menus.len()
                invariant
                    *self == (MenuBar { focused: true, ..*old(self) }),
                    old(self).visible,
                    ms0 == old(self).menus@,
                    i <= self.menus@.len(),
                    self.menus@ == ms0,
                    any_open(ms0),
                    forall|j: int| 0 <= j < i ==> !(#[trigger] ms0[j]).open,
                decreases self.menus.len() - i,
            {
                if self.menus[i].open {
                    let mut m = self.menus.remove(i);
                    m.focus();
                    self.menus.insert(i, m);
                    proof {
                        let k = choose|k: int| 0 <= k < ms0.len() && (#[trigger] ms0[k]).open
                            && forall|j: int| 0 <= j < k ==> !(#[trigger] ms0[j]).open;
                        if k < i {
                            assert(!ms0[k].open);
                        }
                        if k > i {
                            assert(!ms0[i as int].open);
                        }
                        assert(self.menus@ =~= ms0.update(i as int, Menu { open: true, focused: true, ..ms0[i as int] }));
                    }
                    return;
                }
                i = i + 1;
            }
            proof {
                let k = choose|k: int| 0 <= k < ms0.len() && #[trigger] ms0[k].open;
                assert(!ms0[k].open);
            }
        } else {
            self.focused = false;
        }
    }

    /// Selects or deselects the bar; deselecting deselects every menu.
    pub fn set_selected(&mut self, selected: bool)
        ensures
            *final(self) == (MenuBar { focused: selected, menus: final(self).menus, ..*old(self) }),
            final(self).menus@ == if selected { old(self).menus@ } else { menus_deselected(old(self).menus@) },
    {
        self.focused = selected;
        if !selected {
            let ghost ms0 = self.menus@;
            let mut i: usize = 0;
            while i < self.menus.len()
                invariant
                    *self == (MenuBar { focused: false, menus: self.menus, ..*old(self) }),
                    ms0 == old(self).menus@,
                    i <= self.menus@.len(),
                    self.menus@.len() == ms0.len(),
                    forall|j: int| 0 <= j < i ==> self.menus@[j] == menu_selected(ms0[j], false),
                    forall|j: int| i <= j < ms0.len() ==> self.menus@[j] == ms0[j],
                decreases self.menus.len() - i,
            {
                let mut m = self.menus.remove(i);
                m.set_selected(false);
                self.menus.insert(i, m);
                i = i + 1;
            }
            proof {
                assert(self.menus@ =~= menus_deselected(ms0));
            }
        }
    }

    /// A press, `hits[i]` telling whether it landed on menu `i` and which of its
    /// dropdown rows it is in: every menu takes it in turn, and the bar drops the focus
    /// (closing everything) when no dropdown is left open. Reports whether a menu took
    /// it; a hidden bar takes nothing.
    pub fn press(&mut self, left_press: bool, hits: &[(bool, Option<usize>)]) -> (changed: bool)
        requires
            hits@.len() == old(self).menus@.len(),
        ensures
            !old(self).visible ==> !changed && *final(self) == *old(self),
            old(self).visible ==> {
                let p = menus_pressed(old(self).menus@, left_press, hits@);
                &&& changed == exists|i: int| 0 <= i < hits@.len()
                    && #[trigger] menu_press(old(self).menus@[i], left_press, hits@[i].0, hits@[i].1).1
                &&& any_open(p) ==> *final(self) == (MenuBar { menus: final(self).menus, ..*old(self) })
                    && final(self).menus@ == p
                &&& !any_open(p) ==> *final(self) == (MenuBar { focused: false, menus: final(self).menus, ..*old(self) })
                    && final(self).menus@ == menus_unfocused(p)
            },
    {
        if !self.visible {
            return false;
        }
        let ghost ms0 = self.menus@;
        let mut changed = false;
        let mut i: usize = 0;
        while i < self.menus.len()
            invariant
                i <= self.menus@.len(),
                self.menus@.len() == ms0.len(),
                hits@.len() == ms0.len(),
                self.visible,
                *self == (MenuBar { menus: self.menus, ..*old(self) }),
                ms0 == old(self).menus@,
                forall|j: int| 0 <= j < i ==> self.menus@[j] == menu_press(ms0[j], left_press, hits@[j].0, hits@[j].1).0,
                forall|j: int| i <= j < ms0.len() ==> self.menus@[j] == ms0[j],
                changed == exists|j: int| 0 <= j < i
                    && #[trigger] menu_press(ms0[j], left_press, hits@[j].0, hits@[j].1).1,
            decreases self.menus.len() - i,
        {
            let (h, row) = hits[i];
            let mut m = self.menus.remove(i);
            let r = m.press(left_press, h, row);
            self.menus.insert(i, m);
            proof {
                if r {
                    assert(menu_press(ms0[i as int], left_press, hits@[i as int].0, hits@[i as int].1).1);
                }
            }
            changed = changed || r;
            i = i + 1;
        }
        proof {
            assert(self.menus@ =~= menus_pressed(ms0, left_press, hits@));
        }
        if !self.is_menu_open() {
            self.unfocus();
        }
        changed
    }

    /// A pointer move, `hits[i]` telling whether it is over menu `i` and which of its
    /// dropdown rows it is in: every menu follows it, and the bar records the last menu
    /// under the pointer. Reports whether a menu's hover changed; a hidden bar does
    /// nothing.
    pub fn cursor_moved(&mut self, hits: &[(bool, Option<usize>)]) -> (changed: bool)
        requires
            hits@.len() == old(self).menus@.len(),
        ensures
            !old(self).visible ==> !changed && *final(self) == *old(self),
            old(self).visible ==> {
                let p = menus_cursor(old(self).menus@, hits@);
                &&& changed == exists|i: int| 0 <= i < hits@.len()
                    && #[trigger] menu_cursor(old(self).menus@[i], hits@[i].0, hits@[i].1).1
                &&& final(self).menus@ == p
                &&& final(self).hovered_menu == last_hovered(p)
                &&& *final(self) == (MenuBar {
                    menus: final(self).menus,
                    hovered_menu: final(self).hovered_menu,
                    ..*old(self)
                })
            },
    {
        if !self.visible {
            return false;
        }
        let ghost ms0 = self.menus@;
        let mut changed = false;
        self.hovered_menu = None;
        let mut i: usize = 0;
        while i < self.menus.len()
            invariant
                i <= self.menus@.len(),
                self.menus@.len() == ms0.len(),
                hits@.len() == ms0.len(),
                self.visible,
                *self == (MenuBar { menus: self.menus, hovered_menu: self.hovered_menu, ..*old(self) }),
                ms0 == old(self).menus@,
                forall|j: int| 0 <= j < i ==> self.menus@[j] == menu_cursor(ms0[j], hits@[j].0, hits@[j].1).0,
                forall|j: int| i <= j < ms0.len() ==> self.menus@[j] == ms0[j],
                changed == exists|j: int| 0 <= j < i
                    && #[trigger] menu_cursor(ms0[j], hits@[j].0, hits@[j].1).1,
                self.hovered_menu == last_hovered(self.menus@.take(i as int)),
            decreases self.menus.len() - i,
        {
            let (h, row) = hits[i];
            let ghost prev = self.menus@;
            let mut m = self.menus.remove(i);
            let r = m.cursor_moved(h, row);
            let hov = m.hovered;
            self.menus.insert(i, m);
            proof {
                assert(self.menus@.take(i as int) =~= prev.take(i as int));
                assert(self.menus@[i as int].hovered == hov);
                if r {
                    assert(menu_cursor(ms0[i as int], hits@[i as int].0, hits@[i as int].1).1);
                }
                assert(self.menus@.take(i + 1) =~= self.menus@.take(i as int).push(self.menus@[i as int]));
                lemma_last_hovered_push(self.menus@.take(i as int), self.menus@[i as int]);
            }
            if hov {
                self.hovered_menu = Some(i);
            }
            changed = changed || r;
            i = i + 1;
        }
        proof {
            assert(self.menus@ =~= menus_cursor(ms0, hits@));
            assert(self.menus@.take(i as int) =~= self.menus@);
        }
        changed
    }

    /// Menu `i` as a listing for the host's context view: its index, its active title,
    /// and its items with their check marks. `None` while the bar is hidden or when
    /// there is no such menu.
    pub fn menu_listing(&self, i: usize) -> (r: Option<(usize, String, Vec<String>)>)
        ensures
            !self.visible || i >= self.menus@.len() ==> r is None,
            self.visible && i < self.menus@.len() ==> ({
                let m = self.menus@[i as int];
                r matches Some(e) && e.0 == i
                    && e.1@ == (if m.vertical { m.vertical_title@ } else { m.title@ })
                    && views(e.2@) == Seq::new(m.items@.len(), |j: int| AdaptedMenuBar::item_display(
                        m.items@[j]@, if j < m.item_checked@.len() { m.item_checked@[j] } else { None }))
            }),
    {
        if !self.visible || i >= self.menus.len() {
            return None;
        }
        let m = &self.menus[i];
        let title = m.active_title().to_owned();
        let ghost target = Seq::new(m.items@.len(), |j: int| AdaptedMenuBar::item_display(
            m.items@[j]@, if j < m.item_checked@.len() { m.item_checked@[j] } else { None }));
        let mut formatted: Vec<String> = Vec::new();
        let mut j: usize = 0;
        while j < m.items.len()
            invariant
                j <= m.items@.len(),
                target == Seq::new(m.items@.len(), |j: int| AdaptedMenuBar::item_display(
                    m.items@[j]@, if j < m.item_checked@.len() { m.item_checked@[j] } else { None })),
                views(formatted@) == target.take(j as int),
            decreases m.items.len() - j,
        {
            let checked: Option<bool> = if j < m.item_checked.len() { m.item_checked[j] } else { None };
            let mut line = String::new();
            match checked {
                Some(true) => line.append("\u{2713} "),
                Some(false) => line.append("  "),
                None => {},
            }
            line.append(m.items[j].as_str());
            let ghost before = formatted@;
            formatted.push(line);
            proof {
                assert(line@ == AdaptedMenuBar::item_display(m.items@[j as int]@, checked));
                assert(views(formatted@) =~= views(before).push(line@));
                assert(views(formatted@) =~= target.take(j + 1));
            }
            j = j + 1;
        }
        proof {
            assert(target.take(j as int) =~= target);
        }
        Some((i, title, formatted))
    }
}

/// Owned copies of `v`.
fn clone_slice(v: &[String]) -> (r: Vec<String>)
    ensures
        views(r@) == views(v@),
{
    let mut r: Vec<String> = Vec::new();
    let mut i: usize = 0;
    while i < v.len()
        invariant
            i <= v@.len(),
            views(r@) == views(v@).take(i as int),
        decreases v.len() - i,
    {
        let s = v[i].clone();
        let ghost before = r@;
        r.push(s);
        proof {
            assert(views(r@) =~= views(before).push(s@));
            assert(views(r@) =~= views(v@).take(i + 1));
        }
        i = i + 1;
    }
    proof {
        assert(views(v@).take(i as int) =~= views(v@));
    }
    r
}

} // verus!
