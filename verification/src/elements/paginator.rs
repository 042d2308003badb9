//! The plate paginator: a sidebar of page tabs (a vertical plain menu bar) over one
//! plate per page, the selected page's plate alone shown. A tab is chosen by pressing
//! and releasing on it.
use vstd::prelude::*;
use crate::param_spec::{views, trimmed, trim_chars};
use crate::text::{to_chars, chars_to_string};
use crate::menu_bar::str_views;
use crate::elements::menu::{Menu, MenuBar, menu_selected};

verus! {

/// A page's plate, as far as the paginator drives it.
#[derive(Clone, Copy, PartialEq, Eq, Structural, Debug)]
pub struct PlateState {
    pub visible: bool,
    pub column_layout: bool,
}

pub struct Paginator {
    pub sidebar_menu: MenuBar,
    pub plates: Vec<PlateState>,
    pub selected_page: usize,
    pub page_changed: bool,
    pub sidebar_label: Option<String>,
    pub sidebar_mode: bool,
    pub page_hidden: bool,
    pub pages: Vec<String>,
    pub tabs_at_top: bool,
    pub tabs_rotated: bool,
    pub hovered_tab: Option<usize>,
    pub pressed_tab: Option<usize>,
}

/// The sidebar menus for `pages`: one per page, titled by it, vertical, with no items,
/// the one at `selected` (when there is one) selected.
pub open spec fn sidebar_for(m: MenuBar, pages: Seq<Seq<char>>, selected: int) -> bool {
    &&& m.wf()
    &&& m.vertical
    &&& m.visible
    &&& views(m.menu_items@) == pages
    &&& m.menus@.len() == pages.len()
    &&& forall|i: int| 0 <= i < pages.len() ==> {
        let mi = #[trigger] m.menus@[i];
        &&& mi.title@ == pages[i]
        &&& mi.vertical_title@ == pages[i]
        &&& mi.items@.len() == 0
        &&& mi.vertical
        &&& !mi.open
        &&& mi.focused == (i == selected)
        &&& mi.clicked_item is None
    }
}

/// The tab's label parts: whether the trimmed name holds a space (an icon before it),
/// the icon (the trimmed text before the first space, when not empty), and the label
/// (the trimmed text from that space on; the whole trimmed name when there is none).
pub open spec fn tab_label_spec(name: Seq<char>) -> (bool, Option<Seq<char>>, Seq<char>) {
    let t = trimmed(name);
    if exists|i: int| 0 <= i < t.len() && t[i] == ' ' {
        let i = choose|i: int| 0 <= i < t.len() && t[i] == ' ' && forall|j: int| 0 <= j < i ==> t[j] != ' ';
        let icon = trimmed(t.take(i));
        (true, if icon.len() > 0 { Some(icon) } else { None }, trimmed(t.skip(i)))
    } else {
        (false, None, t)
    }
}

/// Exactly the selected page's plate is shown, and selecting another page keeps it so:
/// after `set_selected_page`'s update, only the new page's plate is visible.
pub proof fn lemma_one_plate_shown(plates: Seq<PlateState>, selected: int, page: int)
    requires
        0 <= selected < plates.len(),
        0 <= page < plates.len(),
        forall|i: int| 0 <= i < plates.len() ==> (#[trigger] plates[i]).visible == (i == selected),
    ensures
        ({
            let after = plates
                .update(selected, PlateState { visible: false, ..plates[selected] })
                .update(page, PlateState { visible: true, ..plates[page] });
            forall|i: int| 0 <= i < after.len() ==> (#[trigger] after[i]).visible == (i == page)
        }),
{
}

/// A tab's label: whether its page name carries an icon, the icon, and the text.
pub fn tab_label(name: &str) -> (r: (bool, Option<String>, String))
    ensures
        r.0 == tab_label_spec(name@).0,
        match tab_label_spec(name@).1 {
            Some(i) => r.1 matches Some(s) && s@ == i,
            None => r.1 is None,
        },
        r.2@ == tab_label_spec(name@).2,
{
    let v = to_chars(name);
    let t = trim_chars(&v);
    let mut i: usize = 0;
    while i < t.len() && t[i] != ' '
        invariant
            i <= t@.len(),
            forall|j: int| 0 <= j < i ==> t@[j] != ' ',
        decreases t.len() - i,
    {
        i = i + 1;
    }
    if i == t.len() {
        return (false, None, chars_to_string(&t));
    }
    proof {
        let k = choose|k: int| 0 <= k < t@.len() && t@[k] == ' ' && forall|j: int| 0 <= j < k ==> t@[j] != ' ';
        if k < i {
            assert(t@[k] != ' ');
        }
        if k > i {
            assert(t@[i as int] == ' ');
        }
    }
    let mut head: Vec<char> = Vec::new();
    let mut k: usize = 0;
    while k < i
        invariant
            k <= i < t@.len(),
            head@ == t@.take(k as int),
        decreases i - k,
    {
        head.push(t[k]);
        proof {
            assert(t@.take(k + 1) =~= t@.take(k as int).push(t@[k as int]));
        }
        k = k + 1;
    }
    let mut tail: Vec<char> = Vec::new();
    let mut m: usize = i;
    while m < t.len()
        invariant
            i <= m <= t@.len(),
            tail@ == t@.subrange(i as int, m as int),
        decreases t.len() - m,
    {
        tail.push(t[m]);
        proof {
            assert(t@.subrange(i as int, m + 1) =~= t@.subrange(i as int, m as int).push(t@[m as int]));
        }
        m = m + 1;
    }
    proof {
        assert(t@.subrange(i as int, m as int) =~= t@.skip(i as int));
    }
    let icon = trim_chars(&head);
    let text = trim_chars(&tail);
    let icon_out = if icon.len() > 0 { Some(chars_to_string(&icon)) } else { None };
    (true, icon_out, chars_to_string(&text))
}

/// Every plate hidden, laid out in rows.
fn hidden_plates(n: usize) -> (r: Vec<PlateState>)
    ensures
        r@ == Seq::new(n as nat, |_i: int| PlateState { visible: false, column_layout: false }),
{
    let mut r: Vec<PlateState> = Vec::new();
    let mut i: usize = 0;
    while i < n
        invariant
            i <= n,
            r@ == Seq::new(i as nat, |_i: int| PlateState { visible: false, column_layout: false }),
        decreases n - i,
    {
        r.push(PlateState { visible: false, column_layout: false });
        proof {
            assert(r@ =~= Seq::new((i + 1) as nat, |_i: int| PlateState { visible: false, column_layout: false }));
        }
        i = i + 1;
    }
    r
}

/// A vertical sidebar with one empty menu per page, the page at `selected` selected.
fn build_sidebar(pages: &Vec<String>, selected: usize) -> (m: MenuBar)
    ensures
        sidebar_for(m, views(pages@), if selected < pages@.len() { selected as int } else { -1 }),
{
    let mut m = MenuBar::new().with_vertical(true);
    let no_items: Vec<&str> = Vec::new();
    let ghost p = views(pages@);
    let mut i: usize = 0;
    proof {
        assert(views(m.menu_items@) =~= p.take(0));
    }
    while i < pages.len()
        invariant
            i <= pages@.len(),
            p == views(pages@),
            no_items@.len() == 0,
            m.wf(),
            m.vertical,
            m.visible,
            views(m.menu_items@) == p.take(i as int),
            m.menus@.len() == i,
            forall|j: int| 0 <= j < i ==> {
                let mj = #[trigger] m.menus@[j];
                &&& mj.title@ == p[j]
                &&& mj.vertical_title@ == p[j]
                &&& mj.items@.len() == 0
                &&& mj.vertical
                &&& !mj.open
                &&& !mj.focused
                &&& mj.clicked_item is None
            },
        decreases pages.len() - i,
    {
        let ghost before = m.menus@;
        m = m.with_item(pages[i].as_str(), no_items.as_slice());
        proof {
            assert(p[i as int] == pages@[i as int]@);
            assert(p.take(i + 1) =~= p.take(i as int).push(p[i as int]));
            assert forall|j: int| 0 <= j < i + 1 implies {
                let mj = #[trigger] m.menus@[j];
                &&& mj.title@ == p[j]
                &&& mj.vertical_title@ == p[j]
                &&& mj.items@.len() == 0
                &&& mj.vertical
                &&& !mj.open
                &&& !mj.focused
                &&& mj.clicked_item is None
            } by {
                if j < i {
                    assert(m.menus@.drop_last()[j] == before[j]);
                } else {
                    assert(views(m.menus@.last().items@).len() == 0);
                }
            }
        }
        i = i + 1;
    }
    proof {
        assert(p.take(i as int) =~= p);
    }
    if selected < m.menus.len() {
        let ghost ms0 = m.menus@;
        let mut menu: Menu = m.menus.remove(selected);
        menu.set_selected(true);
        m.menus.insert(selected, menu);
        proof {
            assert forall|j: int| 0 <= j < p.len() implies {
                let mj = #[trigger] m.menus@[j];
                &&& mj.title@ == p[j]
                &&& mj.vertical_title@ == p[j]
                &&& mj.items@.len() == 0
                &&& mj.vertical
                &&& !mj.open
                &&& mj.focused == (j == selected)
                &&& mj.clicked_item is None
            } by {
                if j != selected {
                    assert(m.menus@[j] == ms0[j]);
                }
            }
        }
    }
    m
}

impl Paginator {
    /// The paginator is well formed: one plate per tab position, a valid selection
    /// when there are plates.
    pub open spec fn wf(&self) -> bool {
        &&& self.plates@.len() == 0 || self.selected_page < self.plates@.len()
        &&& self.sidebar_menu.wf()
    }

    /// A paginator over `pages`: a rotated sidebar tab per page, the first page shown.
    pub fn new(pages: Vec<String>) -> (p: Paginator)
        ensures
            p.wf(),
            views(p.pages@) == views(pages@),
            sidebar_for(p.sidebar_menu, views(pages@), 0),
            p.plates@ == Seq::new(pages@.len(), |i: int| PlateState { visible: i == 0, column_layout: false }),
            p.selected_page == 0,
            !p.page_changed && p.sidebar_mode && !p.page_hidden && !p.tabs_at_top && p.tabs_rotated,
            p.sidebar_label is None && p.hovered_tab is None && p.pressed_tab is None,
    {
        let n = pages.len();
        let sidebar = build_sidebar(&pages, 0);
        let mut plates = hidden_plates(n);
        if n > 0 {
            plates.set(0, PlateState { visible: true, column_layout: false });
        }
        proof {
            assert(plates@ =~= Seq::new(pages@.len(), |i: int| PlateState { visible: i == 0, column_layout: false }));
            if n == 0 {
                assert(sidebar.menus@.len() == 0);
            }
        }
        Paginator {
            sidebar_menu: sidebar,
            plates,
            selected_page: 0,
            page_changed: false,
            sidebar_label: None,
            sidebar_mode: true,
            page_hidden: false,
            pages,
            tabs_at_top: false,
            tabs_rotated: true,
            hovered_tab: None,
            pressed_tab: None,
        }
    }

    /// Every plate laid out in columns (or rows).
    pub fn with_column_layout(self, enabled: bool) -> (r: Paginator)
        ensures
            r == (Paginator { plates: r.plates, ..self }),
            r.plates@ == Seq::new(self.plates@.len(), |i: int| PlateState { column_layout: enabled, ..self.plates@[i] }),
    {
        let mut s = self;
        let ghost p0 = s.plates@;
        let ghost s0 = s;
        let mut i: usize = 0;
        while i < s.plates.len()
            invariant
                s == (Paginator { plates: s.plates, ..s0 }),
                s0 == self,
                p0 == self.plates@,
                i <= s.plates@.len(),
                s.plates@.len() == p0.len(),
                forall|j: int| 0 <= j < i ==> s.plates@[j] == (PlateState { column_layout: enabled, ..p0[j] }),
                forall|j: int| i <= j < p0.len() ==> s.plates@[j] == p0[j],
            decreases s.plates.len() - i,
        {
            let cur = s.plates[i];
            s.plates.set(i, PlateState { column_layout: enabled, ..cur });
            i = i + 1;
        }
        proof {
            assert(s.plates@ =~= Seq::new(p0.len(), |i: int| PlateState { column_layout: enabled, ..p0[i] }));
        }
        s
    }

    pub fn with_sidebar_mode(self, enabled: bool) -> (r: Paginator)
        ensures
            r == (Paginator { sidebar_mode: enabled, ..self }),
    {
        let mut s = self;
        s.sidebar_mode = enabled;
        s
    }

    pub fn with_sidebar_label(self, label: &str) -> (r: Paginator)
        ensures
            r == (Paginator { sidebar_label: r.sidebar_label, ..self }),
            r.sidebar_label matches Some(l) && l@ == label@,
    {
        let mut s = self;
        s.sidebar_label = Some(label.to_owned());
        s
    }

    pub fn with_tabs_at_top(self, top: bool) -> (r: Paginator)
        ensures
            r == (Paginator { tabs_at_top: top, ..self }),
    {
        let mut s = self;
        s.tabs_at_top = top;
        s
    }

    pub fn with_tabs_rotated(self, rotated: bool) -> (r: Paginator)
        ensures
            r == (Paginator { tabs_rotated: rotated, ..self }),
    {
        let mut s = self;
        s.tabs_rotated = rotated;
        s
    }

    pub fn is_page_hidden(&self) -> (r: bool)
        ensures
            r == self.page_hidden,
    {
        self.page_hidden
    }

    pub fn set_page_hidden(&mut self, hidden: bool)
        ensures
            *final(self) == (Paginator { page_hidden: hidden, ..*old(self) }),
    {
        self.page_hidden = hidden;
    }

    pub fn set_sidebar_mode(&mut self, enabled: bool)
        ensures
            *final(self) == (Paginator { sidebar_mode: enabled, ..*old(self) }),
    {
        self.sidebar_mode = enabled;
    }

    pub fn set_sidebar_label(&mut self, label: Option<String>)
        ensures
            *final(self) == (Paginator { sidebar_label: label, ..*old(self) }),
    {
        self.sidebar_label = label;
    }

    pub fn selected_page(&self) -> (r: usize)
        ensures
            r == self.selected_page,
    {
        self.selected_page
    }

    /// The pages' names.
    pub fn menu_names(&self) -> (r: Vec<String>)
        ensures
            views(r@) == views(self.pages@),
    {
        crate::menu_bar::clone_strings(&self.pages)
    }

    /// Shows page `page` in place of the selected one, its tab alone selected; a page
    /// without a plate, or the selected page itself, changes nothing.
    pub fn set_selected_page(&mut self, page: usize)
        requires
            old(self).wf(),
        ensures
            final(self).wf(),
            page < old(self).plates@.len() && page != old(self).selected_page ==> {
                &&& final(self).selected_page == page
                &&& final(self).plates@ == old(self).plates@
                    .update(old(self).selected_page as int, PlateState { visible: false, ..old(self).plates@[old(self).selected_page as int] })
                    .update(page as int, PlateState { visible: true, ..old(self).plates@[page as int] })
                &&& final(self).sidebar_menu == (MenuBar { menus: final(self).sidebar_menu.menus, ..old(self).sidebar_menu })
                &&& final(self).sidebar_menu.menus@ == Seq::new(old(self).sidebar_menu.menus@.len(),
                    |i: int| menu_selected(old(self).sidebar_menu.menus@[i], i == page))
                &&& *final(self) == (Paginator {
                    selected_page: final(self).selected_page,
                    plates: final(self).plates,
                    sidebar_menu: final(self).sidebar_menu,
                    ..*old(self)
                })
            },
            !(page < old(self).plates@.len() && page != old(self).selected_page) ==> *final(self) == *old(self),
    {
        if page < self.plates.len() && self.selected_page != page {
            let cur = self.plates[self.selected_page];
            self.plates.set(self.selected_page, PlateState { visible: false, ..cur });
            self.selected_page = page;
            let nxt = self.plates[page];
            self.plates.set(page, PlateState { visible: true, ..nxt });
            let ghost ms0 = self.sidebar_menu.menus@;
            let ghost sm0 = self.sidebar_menu;
            let ghost pre = *self;
            let mut i: usize = 0;
            while i < self.sidebar_menu.menus.len()
                invariant
                    *self == (Paginator { sidebar_menu: self.sidebar_menu, ..pre }),
                    self.sidebar_menu == (MenuBar { menus: self.sidebar_menu.menus, ..sm0 }),
                    sm0 == old(self).sidebar_menu,
                    ms0 == sm0.menus@,
                    i <= self.sidebar_menu.menus@.len(),
                    self.sidebar_menu.menus@.len() == ms0.len(),
                    forall|j: int| 0 <= j < i ==> self.sidebar_menu.menus@[j] == menu_selected(ms0[j], j == page),
                    forall|j: int| i <= j < ms0.len() ==> self.sidebar_menu.menus@[j] == ms0[j],
                decreases self.sidebar_menu.menus.len() - i,
            {
                let mut m = self.sidebar_menu.menus.remove(i);
                m.set_selected(i == page);
                self.sidebar_menu.menus.insert(i, m);
                i = i + 1;
            }
            proof {
                assert(self.sidebar_menu.menus@ =~= Seq::new(ms0.len(), |j: int| menu_selected(ms0[j], j == page)));
            }
        }
    }

    /// Replaces the pages: a fresh sidebar and fresh, hidden plates, the selection kept
    /// when it still names a page (else the first), that page shown and its tab
    /// selected.
    pub fn set_pages(&mut self, pages: Vec<String>)
        ensures
            final(self).wf(),
            views(final(self).pages@) == views(pages@),
            final(self).selected_page == if old(self).selected_page >= pages@.len() { 0 } else { old(self).selected_page },
            sidebar_for(final(self).sidebar_menu, views(pages@),
                if pages@.len() > 0 { final(self).selected_page as int } else { -1 }),
            final(self).plates@ == Seq::new(pages@.len(),
                |i: int| PlateState { visible: i == final(self).selected_page, column_layout: false }),
            *final(self) == (Paginator {
                pages: final(self).pages,
                sidebar_menu: final(self).sidebar_menu,
                plates: final(self).plates,
                selected_page: final(self).selected_page,
                ..*old(self)
            }),
    {
        let n = pages.len();
        if self.selected_page >= n {
            self.selected_page = 0;
        }
        let sel = self.selected_page;
        self.sidebar_menu = build_sidebar(&pages, sel);
        let mut plates = hidden_plates(n);
        if n > 0 {
            plates.set(sel, PlateState { visible: true, column_layout: false });
        }
        proof {
            assert(plates@ =~= Seq::new(n as nat, |i: int| PlateState { visible: i == sel, column_layout: false }));
        }
        self.plates = plates;
        self.pages = pages;
    }

    /// Whether a tab was chosen since the last call; the report is drained.
    pub fn take_click(&mut self) -> (r: bool)
        ensures
            r == old(self).page_changed,
            *final(self) == (Paginator { page_changed: false, ..*old(self) }),
    {
        if self.page_changed {
            self.page_changed = false;
            true
        } else {
            false
        }
    }

    /// The selected page, as the control's value.
    pub fn value(&self) -> (v: i32)
        ensures
            v == self.selected_page as i32,
    {
        #[verifier::truncate]
        (self.selected_page as i32)
    }

    /// A pointer move, `tab` being the first tab under it: reports whether the hovered
    /// tab changed.
    pub fn hover_tab(&mut self, tab: Option<usize>) -> (changed: bool)
        ensures
            *final(self) == (Paginator { hovered_tab: tab, ..*old(self) }),
            changed == (old(self).hovered_tab != tab),
    {
        let was = self.hovered_tab;
        self.hovered_tab = tab;
        match (was, tab) {
            (Some(a), Some(b)) => a != b,
            (None, None) => false,
            _ => true,
        }
    }

    /// A left press, `tab` being the first tab under the pointer: the press is
    /// remembered against that tab and taken when there is one.
    pub fn press_tab(&mut self, tab: Option<usize>) -> (taken: bool)
        ensures
            *final(self) == (Paginator { pressed_tab: tab, ..*old(self) }),
            taken == tab is Some,
    {
        self.pressed_tab = tab;
        tab.is_some()
    }

    /// A left release, `on_pressed_tab` telling whether the pointer is still on the
    /// pressed tab: that tab becomes the selected page (reported once by `take_click`)
    /// unless it already is. Reports whether the release ended a tab click.
    pub fn release_tab(&mut self, on_pressed_tab: bool) -> (taken: bool)
        requires
            old(self).wf(),
        ensures
            final(self).wf(),
            final(self).pressed_tab is None,
            taken == (old(self).pressed_tab is Some && on_pressed_tab),
            !taken ==> *final(self) == (Paginator { pressed_tab: None, ..*old(self) }),
            taken && old(self).pressed_tab->0 == old(self).selected_page ==> *final(self) == (Paginator {
                pressed_tab: None,
                ..*old(self)
            }),
            taken && old(self).pressed_tab->0 != old(self).selected_page ==> {
                let i = old(self).pressed_tab->0;
                let sel = old(self).selected_page as int;
                &&& i < old(self).plates@.len() ==> {
                    &&& final(self).plates@ == old(self).plates@
                        .update(sel, PlateState { visible: false, ..old(self).plates@[sel] })
                        .update(i as int, PlateState { visible: true, ..old(self).plates@[i as int] })
                    &&& final(self).sidebar_menu == (MenuBar { menus: final(self).sidebar_menu.menus, ..old(self).sidebar_menu })
                    &&& final(self).sidebar_menu.menus@ == Seq::new(old(self).sidebar_menu.menus@.len(),
                        |j: int| menu_selected(old(self).sidebar_menu.menus@[j], j == i))
                    &&& *final(self) == (Paginator {
                        selected_page: i,
                        plates: final(self).plates,
                        sidebar_menu: final(self).sidebar_menu,
                        page_changed: true,
                        pressed_tab: None,
                        ..*old(self)
                    })
                }
                &&& i >= old(self).plates@.len() ==> *final(self) == (Paginator {
                    page_changed: true,
                    pressed_tab: None,
                    ..*old(self)
                })
            },
    {
        let pressed = self.pressed_tab;
        self.pressed_tab = None;
        match pressed {
            Some(i) => {
                if on_pressed_tab {
                    if self.selected_page != i {
                        self.set_selected_page(i);
                        self.page_changed = true;
                    }
                    true
                } else {
                    false
                }
            },
            None => false,
        }
    }
}

} // verus!
