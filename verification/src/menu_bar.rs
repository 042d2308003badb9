//! A titled bar of dropdown menus with an optional context selector on its title: which
//! menu is open, which items are checked, the context option chosen, and the clicks
//! waiting for the host.
use vstd::prelude::*;
use crate::adapted::Adapted;
use crate::param_spec::views;
use crate::strip::ButtonStrip;

verus! {

pub open spec fn str_views(v: Seq<&str>) -> Seq<Seq<char>> {
    v.map_values(|s: &str| s@)
}

pub open spec fn views2(v: Seq<Vec<String>>) -> Seq<Seq<Seq<char>>> {
    v.map_values(|x: Vec<String>| views(x@))
}

pub open spec fn checks2(v: Seq<Vec<Option<bool>>>) -> Seq<Seq<Option<bool>>> {
    v.map_values(|x: Vec<Option<bool>>| x@)
}

/// The strings `v`, owned.
/// Whether two optional indices are the same.
fn same_index(a: Option<usize>, b: Option<usize>) -> (r: bool)
    ensures
        r == (a == b),
{
    match (a, b) {
        (Some(x), Some(y)) => x == y,
        (None, None) => true,
        _ => false,
    }
}

pub fn strs_to_strings(v: &[&str]) -> (r: Vec<String>)
    ensures
        views(r@) == str_views(v@),
{
    let mut r: Vec<String> = Vec::new();
    let mut i: usize = 0;
    while i < v.len()
        invariant
            i <= v@.len(),
            views(r@) == str_views(v@).take(i as int),
        decreases v.len() - i,
    {
        let ghost before = r@;
        let s = v[i].to_owned();
        r.push(s);
        proof {
            assert(views(r@) =~= views(before).push(s@));
            assert(views(r@) =~= str_views(v@).take(i + 1));
        }
        i = i + 1;
    }
    proof {
        assert(str_views(v@).take(i as int) =~= str_views(v@));
    }
    r
}

/// A copy of the strings `v`.
pub fn clone_strings(v: &Vec<String>) -> (r: Vec<String>)
    ensures
        views(r@) == views(v@),
{
    let mut r: Vec<String> = Vec::new();
    let mut i: usize = 0;
    while i < v.len()
        invariant
            i <= v@.len(),
            views(r@) == views(v@).take(i as int),
        decreases v.len() - i,
    {
        let ghost before = r@;
        let s = v[i].clone();
        r.push(s);
        proof {
            assert(views(r@) =~= views(before).push(s@));
            assert(views(r@) =~= views(v@).take(i + 1));
        }
        i = i + 1;
    }
    proof {
        assert(views(v@).take(i as int) =~= views(v@));
    }
    r
}

/// `n` copies of `c`.
pub fn repeat_check(c: Option<bool>, n: usize) -> (r: Vec<Option<bool>>)
    ensures
        r@ == Seq::new(n as nat, |_i: int| c),
{
    let mut r: Vec<Option<bool>> = Vec::new();
    let mut i: usize = 0;
    while i < n
        invariant
            i <= n,
            r@ == Seq::new(i as nat, |_i: int| c),
        decreases n - i,
    {
        r.push(c);
        proof {
            assert(r@ =~= Seq::new((i + 1) as nat, |_i: int| c));
        }
        i = i + 1;
    }
    r
}

/// The keys the context dropdown answers while open.
pub enum MenuKey {
    ArrowDown,
    ArrowUp,
    Enter,
    Space,
    Escape,
    Other,
}

pub struct MenuBar {
    pub visible: bool,
    pub blur: bool,
    pub title: String,
    pub menus: ButtonStrip,
    pub menu_items: Vec<String>,
    pub vertical_items: Vec<String>,
    pub menu_dropdowns: Vec<Vec<String>>,
    pub menu_dropdown_checked: Vec<Vec<Option<bool>>>,
    pub vertical: bool,
    pub focused: bool,
    pub z_level: i32,
    pub center_items: bool,
    pub label: Option<String>,
    pub context_options: Vec<String>,
    pub context_selected: usize,
    pub context_dropdown_open: bool,
    pub context_just_changed: bool,
    pub context_hovered_item: Option<usize>,
    pub context_title_hovered: bool,
    pub right_align_title: bool,
    pub page_hidden: bool,
    pub layout_dirty: bool,
    pub hovered_dropdown_item: Option<usize>,
    pub clicked_dropdown_item: Option<(usize, usize)>,
}

impl MenuBar {
    /// Each menu has its item list and a checked-state list.
    pub open spec fn wf(&self) -> bool {
        self.menu_dropdowns@.len() == self.menu_dropdown_checked@.len()
    }

    /// A visible bar with no title, menus or context options.
    pub fn new() -> (b: Adapted<MenuBar>)
        ensures
            b.inner.wf(),
            b.inner.visible,
            b.inner.title@.len() == 0,
            b.inner.menus.buttons@.len() == 0,
            b.inner.menus.selected is None,
            b.inner.menu_items@.len() == 0,
            b.inner.vertical_items@.len() == 0,
            b.inner.menu_dropdowns@.len() == 0,
            b.inner.context_options@.len() == 0,
            b.inner.context_selected == 0,
            !b.inner.context_dropdown_open,
            !b.inner.vertical,
            !b.inner.focused,
            b.inner.z_level == 0,
            b.inner.layout_dirty,
            b.inner.clicked_dropdown_item is None,
    {
        Adapted::new(MenuBar {
            visible: true,
            blur: false,
            title: String::new(),
            menus: ButtonStrip::new(),
            menu_items: Vec::new(),
            vertical_items: Vec::new(),
            menu_dropdowns: Vec::new(),
            menu_dropdown_checked: Vec::new(),
            vertical: false,
            focused: false,
            z_level: 0,
            center_items: false,
            label: None,
            context_options: Vec::new(),
            context_selected: 0,
            context_dropdown_open: false,
            context_just_changed: false,
            context_hovered_item: None,
            context_title_hovered: false,
            right_align_title: false,
            page_hidden: false,
            layout_dirty: true,
            hovered_dropdown_item: None,
            clicked_dropdown_item: None,
        })
    }

    /// Selects context option `selected`.
    pub fn set_context_selected(&mut self, selected: usize)
        ensures
            *final(self) == (MenuBar { context_selected: selected, ..*old(self) }),
    {
        self.context_selected = selected;
    }

    /// The context option chosen since the last call, if one was.
    pub fn take_context_change(&mut self) -> (r: Option<usize>)
        ensures
            r == if old(self).context_just_changed { Some(old(self).context_selected) } else { None },
            *final(self) == (MenuBar { context_just_changed: false, ..*old(self) }),
    {
        if self.context_just_changed {
            self.context_just_changed = false;
            Some(self.context_selected)
        } else {
            None
        }
    }

    /// Closes every dropdown and drops the bar's focus.
    pub fn close_all(&mut self)
        ensures
            *final(self) == (MenuBar {
                focused: false,
                context_dropdown_open: false,
                context_hovered_item: None,
                hovered_dropdown_item: None,
                menus: ButtonStrip { selected: None, ..old(self).menus },
                ..*old(self)
            }),
    {
        self.focused = false;
        self.context_dropdown_open = false;
        self.context_hovered_item = None;
        self.hovered_dropdown_item = None;
        self.menus.set_selected(None);
    }

    /// Whether a dropdown (a menu or the context list) is open.
    pub fn is_menu_open(&self) -> (r: bool)
        ensures
            r == (self.context_dropdown_open || self.menus.selected is Some),
    {
        self.context_dropdown_open || self.menus.selected.is_some()
    }

    /// Whether the bar holds the focus: it claims it only while something is open.
    pub fn is_focused(&self) -> (r: bool)
        ensures
            r == (self.focused || self.context_dropdown_open || self.menus.selected is Some),
    {
        self.focused || self.context_dropdown_open || self.menus.selected.is_some()
    }

    /// Claims the focus while something is open, releases it otherwise; reports the
    /// claim.
    pub fn sync_focus(&mut self) -> (claimed: bool)
        ensures
            claimed == (old(self).context_dropdown_open || old(self).menus.selected is Some),
            *final(self) == (MenuBar { focused: claimed, ..*old(self) }),
    {
        let claimed = self.context_dropdown_open || self.menus.selected.is_some();
        self.focused = claimed;
        claimed
    }

    /// Selects (or deselects) the bar as a whole; deselecting closes its menus.
    pub fn set_selected(&mut self, selected: bool)
        ensures
            final(self).focused == selected,
            final(self).menus.selected == if selected { old(self).menus.selected } else { None },
            *final(self) == (MenuBar {
                focused: selected,
                menus: ButtonStrip { selected: final(self).menus.selected, ..old(self).menus },
                ..*old(self)
            }),
    {
        self.focused = selected;
        if !selected {
            self.menus.set_selected(None);
        }
    }

    /// The title as drawn: with a dropdown marker when there are context options.
    pub fn display_title(&self) -> (r: String)
        ensures
            r@ == if self.context_options@.len() == 0 {
                self.title@
            } else if self.vertical {
                self.title@ + "\u{25bc}"@
            } else {
                self.title@ + " \u{25bc}"@
            },
    {
        let mut t = self.title.clone();
        if self.context_options.len() > 0 {
            if self.vertical {
                t.append("\u{25bc}");
            } else {
                t.append(" \u{25bc}");
            }
        }
        t
    }

    /// A press on item `di` of the open menu's dropdown (the item under the pointer,
    /// from the dropdown's geometry): an existing item becomes the pending menu click
    /// and every dropdown closes. Reports whether the press was an item's.
    pub fn press_dropdown_item(&mut self, di: usize) -> (hit: bool)
        ensures
            hit == (old(self).menus.selected matches Some(m) && m < old(self).menu_dropdowns@.len()
                && di < old(self).menu_dropdowns@[m as int]@.len()),
            hit ==> *final(self) == (MenuBar {
                clicked_dropdown_item: Some((old(self).menus.selected->0, di)),
                focused: false,
                context_dropdown_open: false,
                context_hovered_item: None,
                hovered_dropdown_item: None,
                menus: ButtonStrip { selected: None, ..old(self).menus },
                ..*old(self)
            }),
            !hit ==> *final(self) == *old(self),
    {
        match self.menus.selected {
            Some(menu_idx) => {
                if menu_idx < self.menu_dropdowns.len() && di < self.menu_dropdowns[menu_idx].len() {
                    self.clicked_dropdown_item = Some((menu_idx, di));
                    self.close_all();
                    true
                } else {
                    false
                }
            }
            None => false,
        }
    }

    /// The pointer moved; the host measured where: `on_title` tells whether it is over
    /// the title, `context_row` is the row of the context popover under it and
    /// `dropdown_row` the row of the open menu's dropdown under it, `None` when the
    /// pointer is outside them. The title is hovered only when the bar has context
    /// options; a popover row only when it is an option; a dropdown row only when it is
    /// an item of the open menu. Reports whether anything hovered changed (the strip of
    /// menu titles reports its own hover); a hidden bar takes no move.
    #[verifier::rlimit(20)]
    pub fn pointer_moved(&mut self, on_title: bool, context_row: Option<usize>, dropdown_row: Option<usize>)
        -> (changed: bool)
        ensures
            !old(self).visible ==> !changed && *final(self) == *old(self),
            old(self).visible ==> {
                let t = on_title && old(self).context_options@.len() > 0;
                let c = if context_row is Some && context_row->0 < old(self).context_options@.len() {
                    context_row
                } else {
                    None
                };
                let d = if dropdown_row is Some && (old(self).menus.selected matches Some(m)
                    && m < old(self).menu_dropdowns@.len()
                    && dropdown_row->0 < old(self).menu_dropdowns@[m as int]@.len()) {
                    dropdown_row
                } else {
                    None
                };
                &&& *final(self) == (MenuBar {
                    context_title_hovered: t,
                    context_hovered_item: c,
                    hovered_dropdown_item: d,
                    ..*old(self)
                })
                &&& changed == (t != old(self).context_title_hovered || c != old(self).context_hovered_item
                    || d != old(self).hovered_dropdown_item)
            },
    {
        if !self.visible {
            return false;
        }
        let t = on_title && self.context_options.len() > 0;
        let c = match context_row {
            Some(di) => if di < self.context_options.len() { Some(di) } else { None },
            None => None,
        };
        let d = match dropdown_row {
            Some(di) => match self.menus.selected {
                Some(m) => if m < self.menu_dropdowns.len() && di < self.menu_dropdowns[m].len() {
                    Some(di)
                } else {
                    None
                },
                None => None,
            },
            None => None,
        };
        let changed = t != self.context_title_hovered || !same_index(c, self.context_hovered_item)
            || !same_index(d, self.hovered_dropdown_item);
        self.context_title_hovered = t;
        self.context_hovered_item = c;
        self.hovered_dropdown_item = d;
        changed
    }

    /// A press on context option `di` (from the popover's geometry): an existing option
    /// becomes the selection, reported once by `take_context_change`, and every dropdown
    /// closes. Reports whether an option was chosen — the host then runs its
    /// context-change handler with `di`.
    pub fn press_context_option(&mut self, di: usize) -> (chosen: bool)
        ensures
            chosen == (di < old(self).context_options@.len()),
            chosen ==> *final(self) == (MenuBar {
                context_selected: di,
                context_just_changed: true,
                focused: false,
                context_dropdown_open: false,
                context_hovered_item: None,
                hovered_dropdown_item: None,
                menus: ButtonStrip { selected: None, ..old(self).menus },
                ..*old(self)
            }),
            !chosen ==> *final(self) == *old(self),
    {
        if di < self.context_options.len() {
            self.context_selected = di;
            self.context_just_changed = true;
            self.close_all();
            true
        } else {
            false
        }
    }

    /// A press on the title when it carries context options: an open context list
    /// closes (with everything else); a closed one opens, the menus' selection is
    /// dropped, and the bar claims the focus.
    pub fn press_context_title(&mut self)
        ensures
            old(self).context_dropdown_open ==> *final(self) == (MenuBar {
                focused: false,
                context_dropdown_open: false,
                context_hovered_item: None,
                hovered_dropdown_item: None,
                menus: ButtonStrip { selected: None, ..old(self).menus },
                ..*old(self)
            }),
            !old(self).context_dropdown_open ==> *final(self) == (MenuBar {
                focused: true,
                context_dropdown_open: true,
                menus: ButtonStrip { selected: None, ..old(self).menus },
                ..*old(self)
            }),
    {
        if self.context_dropdown_open {
            self.close_all();
        } else {
            self.menus.set_selected(None);
            self.context_dropdown_open = true;
            self.sync_focus();
        }
    }

    /// A key while the context list is open: the arrows move the highlight (wrapping,
    /// starting from the selected option), Enter/Space choose the highlighted option
    /// and close, Escape closes. Reports whether the list took the key; any other key,
    /// or any key while the list is closed, goes on to the menus.
    pub fn context_key_input(&mut self, key: &MenuKey) -> (taken: bool)
        requires
            old(self).context_dropdown_open && *key is ArrowUp && (match old(self).context_hovered_item {
                Some(h) => h,
                None => old(self).context_selected,
            }) == 0 ==> old(self).context_options@.len() > 0,
        ensures
            ({
                let o = *old(self);
                let n = o.context_options@.len();
                let cur = match o.context_hovered_item { Some(h) => h as int, None => o.context_selected as int };
                let closed = MenuBar {
                    focused: false,
                    context_dropdown_open: false,
                    context_hovered_item: None,
                    hovered_dropdown_item: None,
                    menus: ButtonStrip { selected: None, ..o.menus },
                    ..o
                };
                &&& taken == (o.context_dropdown_open && !(*key is Other))
                &&& !taken ==> *final(self) == o
                &&& taken && *key is ArrowDown ==> *final(self) == (MenuBar {
                    context_hovered_item: Some((if cur + 1 < n { cur + 1 } else { 0 }) as usize),
                    ..o
                })
                &&& taken && *key is ArrowUp ==> *final(self) == (MenuBar {
                    context_hovered_item: Some((if cur > 0 { cur - 1 } else { n - 1 }) as usize),
                    ..o
                })
                &&& taken && (*key is Enter || *key is Space) ==> *final(self) == match o.context_hovered_item {
                    Some(h) => MenuBar { context_selected: h, context_just_changed: true, ..closed },
                    None => closed,
                }
                &&& taken && *key is Escape ==> *final(self) == closed
            }),
    {
        if !self.context_dropdown_open {
            return false;
        }
        match key {
            MenuKey::ArrowDown => {
                let current = match self.context_hovered_item {
                    Some(h) => h,
                    None => self.context_selected,
                };
                if current < self.context_options.len() && current + 1 < self.context_options.len() {
                    self.context_hovered_item = Some(current + 1);
                } else {
                    self.context_hovered_item = Some(0);
                }
                true
            }
            MenuKey::ArrowUp => {
                let current = match self.context_hovered_item {
                    Some(h) => h,
                    None => self.context_selected,
                };
                if current > 0 {
                    self.context_hovered_item = Some(current - 1);
                } else {
                    self.context_hovered_item = Some(self.context_options.len() - 1);
                }
                true
            }
            MenuKey::Enter | MenuKey::Space => {
                if let Some(idx) = self.context_hovered_item {
                    self.context_selected = idx;
                    self.context_just_changed = true;
                }
                self.close_all();
                true
            }
            MenuKey::Escape => {
                self.close_all();
                true
            }
            MenuKey::Other => false,
        }
    }

    /// The pending menu click as (menu, item), drained; the strip's own click is
    /// discarded. The host then runs its menu-click handler with the pair.
    pub fn menu_click(&mut self) -> (r: Option<(usize, usize)>)
        ensures
            r == old(self).clicked_dropdown_item,
            *final(self) == (MenuBar {
                clicked_dropdown_item: None,
                menus: ButtonStrip { clicked: None, ..old(self).menus },
                ..*old(self)
            }),
    {
        let _ = self.menus.take_click();
        let r = self.clicked_dropdown_item;
        self.clicked_dropdown_item = None;
        r
    }

    /// Records a click on item `item_idx` of menu `menu_idx` as if the user made it.
    pub fn trigger_menu_click(&mut self, menu_idx: usize, item_idx: usize)
        ensures
            *final(self) == (MenuBar { clicked_dropdown_item: Some((menu_idx, item_idx)), ..*old(self) }),
    {
        self.clicked_dropdown_item = Some((menu_idx, item_idx));
    }

    /// Marks an item checked or unchecked; out-of-range indices change nothing.
    pub fn set_item_checked(&mut self, menu_idx: usize, item_idx: usize, checked: bool)
        requires
            old(self).wf(),
        ensures
            final(self).wf(),
            checks2(final(self).menu_dropdown_checked@) == if menu_idx < old(self).menu_dropdown_checked@.len()
                && item_idx < old(self).menu_dropdown_checked@[menu_idx as int]@.len() {
                checks2(old(self).menu_dropdown_checked@).update(menu_idx as int,
                    old(self).menu_dropdown_checked@[menu_idx as int]@.update(item_idx as int, Some(checked)))
            } else {
                checks2(old(self).menu_dropdown_checked@)
            },
            *final(self) == (MenuBar { menu_dropdown_checked: final(self).menu_dropdown_checked, ..*old(self) }),
    {
        if menu_idx < self.menu_dropdown_checked.len() && item_idx < self.menu_dropdown_checked[menu_idx].len() {
            let ghost before = self.menu_dropdown_checked@;
            let mut row = self.menu_dropdown_checked[menu_idx].clone();
            row.set(item_idx, Some(checked));
            self.menu_dropdown_checked.set(menu_idx, row);
            proof {
                assert(checks2(self.menu_dropdown_checked@) =~= checks2(before).update(menu_idx as int,
                    before[menu_idx as int]@.update(item_idx as int, Some(checked))));
            }
        }
    }

    /// Replaces menu `menu_idx`'s items; all start unchecked, and the bar re-lays out.
    /// An out-of-range index changes nothing.
    pub fn set_menu_items(&mut self, menu_idx: usize, items: &[String])
        requires
            old(self).wf(),
        ensures
            final(self).wf(),
            menu_idx < old(self).menu_dropdowns@.len() ==> {
                &&& views2(final(self).menu_dropdowns@) == views2(old(self).menu_dropdowns@).update(menu_idx as int, views(items@))
                &&& checks2(final(self).menu_dropdown_checked@) == checks2(old(self).menu_dropdown_checked@).update(
                    menu_idx as int, Seq::new(items@.len(), |_i: int| Some(false)))
                &&& *final(self) == (MenuBar {
                    menu_dropdowns: final(self).menu_dropdowns,
                    menu_dropdown_checked: final(self).menu_dropdown_checked,
                    layout_dirty: true,
                    ..*old(self)
                })
            },
            menu_idx >= old(self).menu_dropdowns@.len() ==> *final(self) == *old(self),
    {
        if menu_idx < self.menu_dropdowns.len() {
            let ghost d0 = self.menu_dropdowns@;
            let ghost c0 = self.menu_dropdown_checked@;
            let mut copy: Vec<String> = Vec::new();
            let mut k: usize = 0;
            while k < items.len()
                invariant
                    k <= items@.len(),
                    views(copy@) == views(items@).take(k as int),
                decreases items.len() - k,
            {
                let ghost before = copy@;
                let s = items[k].clone();
                copy.push(s);
                proof {
                    assert(views(copy@) =~= views(before).push(s@));
                    assert(views(copy@) =~= views(items@).take(k + 1));
                }
                k = k + 1;
            }
            proof {
                assert(views(items@).take(k as int) =~= views(items@));
            }
            let n = items.len();
            self.menu_dropdowns.set(menu_idx, copy);
            let checks = repeat_check(Some(false), n);
            self.menu_dropdown_checked.set(menu_idx, checks);
            self.layout_dirty = true;
            proof {
                assert(views2(self.menu_dropdowns@) =~= views2(d0).update(menu_idx as int, views(items@)));
                assert(checks2(self.menu_dropdown_checked@) =~= checks2(c0).update(
                    menu_idx as int, Seq::new(items@.len(), |_i: int| Some(false))));
            }
        }
    }

    /// Whether the bar counts as a menu bar: while it is shown.
    pub fn is_menu_bar(&self) -> (r: bool)
        ensures
            r == self.visible,
    {
        self.visible
    }

    /// The menus' horizontal labels.
    pub fn menu_items(&self) -> (r: Vec<String>)
        ensures
            views(r@) == views(self.menu_items@),
    {
        clone_strings(&self.menu_items)
    }

    /// Every item's checked state, menu after menu.
    pub fn menu_item_checked(&self) -> (r: Vec<Option<bool>>)
        ensures
            r@ == checks2(self.menu_dropdown_checked@).flatten(),
    {
        let mut r: Vec<Option<bool>> = Vec::new();
        let mut i: usize = 0;
        while i < self.menu_dropdown_checked.len()
            invariant
                i <= self.menu_dropdown_checked@.len(),
                r@ == checks2(self.menu_dropdown_checked@).take(i as int).flatten(),
            decreases self.menu_dropdown_checked.len() - i,
        {
            let row = self.menu_dropdown_checked[i].clone();
            let ghost before = r@;
            let mut j: usize = 0;
            while j < row.len()
                invariant
                    j <= row@.len(),
                    r@ == before + row@.take(j as int),
                decreases row.len() - j,
            {
                r.push(row[j]);
                proof {
                    assert(r@ =~= before + row@.take(j + 1));
                }
                j = j + 1;
            }
            proof {
                let c = checks2(self.menu_dropdown_checked@);
                assert(row@.take(j as int) =~= row@);
                assert(c.take(i + 1) =~= c.take(i as int).push(row@));
                c.take(i as int).lemma_flatten_push(row@);
            }
            i = i + 1;
        }
        proof {
            assert(checks2(self.menu_dropdown_checked@).take(i as int) =~= checks2(self.menu_dropdown_checked@));
        }
        r
    }

    /// Whether the menus stand in a vertical column.
    pub fn is_vertical(&self) -> (r: bool)
        ensures
            r == self.vertical,
    {
        self.vertical
    }

    /// The labels of the menu buttons as shown.
    pub fn menu_names(&self) -> (r: Vec<String>)
        ensures
            views(r@) == views(self.menus.buttons@),
    {
        clone_strings(&self.menus.buttons)
    }

    /// Each menu's items.
    pub fn menu_items_list(&self) -> (r: Vec<Vec<String>>)
        ensures
            views2(r@) == views2(self.menu_dropdowns@),
    {
        let mut r: Vec<Vec<String>> = Vec::new();
        let mut i: usize = 0;
        while i < self.menu_dropdowns.len()
            invariant
                i <= self.menu_dropdowns@.len(),
                views2(r@) == views2(self.menu_dropdowns@).take(i as int),
            decreases self.menu_dropdowns.len() - i,
        {
            let ghost before = r@;
            let c = clone_strings(&self.menu_dropdowns[i]);
            r.push(c);
            proof {
                assert(views2(r@) =~= views2(before).push(views(c@)));
                assert(views2(r@) =~= views2(self.menu_dropdowns@).take(i + 1));
            }
            i = i + 1;
        }
        proof {
            assert(views2(self.menu_dropdowns@).take(i as int) =~= views2(self.menu_dropdowns@));
        }
        r
    }

    /// Each menu's checked states.
    pub fn menu_checked_list(&self) -> (r: Vec<Vec<Option<bool>>>)
        ensures
            checks2(r@) == checks2(self.menu_dropdown_checked@),
    {
        let mut r: Vec<Vec<Option<bool>>> = Vec::new();
        let mut i: usize = 0;
        while i < self.menu_dropdown_checked.len()
            invariant
                i <= self.menu_dropdown_checked@.len(),
                checks2(r@) == checks2(self.menu_dropdown_checked@).take(i as int),
            decreases self.menu_dropdown_checked.len() - i,
        {
            let ghost before = r@;
            let c = self.menu_dropdown_checked[i].clone();
            r.push(c);
            proof {
                assert(checks2(r@) =~= checks2(before).push(c@));
                assert(checks2(r@) =~= checks2(self.menu_dropdown_checked@).take(i + 1));
            }
            i = i + 1;
        }
        proof {
            assert(checks2(self.menu_dropdown_checked@).take(i as int) =~= checks2(self.menu_dropdown_checked@));
        }
        r
    }

    /// Takes `label` as the bar's label; the bar re-lays out.
    pub fn sync_label(&mut self, label: &str)
        ensures
            *final(self) == (MenuBar { label: final(self).label, layout_dirty: true, ..*old(self) }),
            final(self).label matches Some(l) && l@ == label@,
    {
        self.label = Some(label.to_owned());
        self.layout_dirty = true;
    }

    /// Shows or hides the bar; it re-lays out.
    pub fn visibility_changed(&mut self, visible: bool)
        ensures
            *final(self) == (MenuBar { visible, layout_dirty: true, ..*old(self) }),
    {
        self.visible = visible;
        self.layout_dirty = true;
    }

    /// Centres (or not) the title and menus in the bar.
    pub fn set_center_items(&mut self, center: bool)
        ensures
            *final(self) == (MenuBar { center_items: center, ..*old(self) }),
    {
        self.center_items = center;
    }

    /// An item label as a menu lists it: a check mark for a checked item, two spaces
    /// for an unchecked one, nothing for an item without a check state.
    pub open spec fn item_display(item: Seq<char>, checked: Option<bool>) -> Seq<char> {
        match checked {
            Some(true) => "\u{2713} "@ + item,
            Some(false) => "  "@ + item,
            None => item,
        }
    }

    /// The checked state recorded for item `j` of menu `i`, if any.
    pub open spec fn check_of(&self, i: int, j: int) -> Option<bool> {
        if 0 <= i < self.menu_dropdown_checked@.len() && 0 <= j < self.menu_dropdown_checked@[i]@.len() {
            self.menu_dropdown_checked@[i]@[j]
        } else {
            None
        }
    }

    /// Menu button `i` as a listing: its index, its label, and its items as displayed.
    /// `None` while the bar is hidden or when there is no such button.
    pub fn menu_entry(&self, i: usize) -> (r: Option<(usize, String, Vec<String>)>)
        ensures
            !self.visible || i >= self.menus.buttons@.len() ==> r is None,
            self.visible && i < self.menus.buttons@.len() ==> (r matches Some(e) && e.0 == i
                && e.1@ == self.menus.buttons@[i as int]@
                && views(e.2@) == (if i < self.menu_dropdowns@.len() {
                    Seq::new(self.menu_dropdowns@[i as int]@.len(), |j: int|
                        Self::item_display(self.menu_dropdowns@[i as int]@[j]@, self.check_of(i as int, j)))
                } else {
                    Seq::empty()
                })),
    {
        if !self.visible || i >= self.menus.buttons.len() {
            return None;
        }
        let title = self.menus.buttons[i].clone();
        let mut formatted: Vec<String> = Vec::new();
        if i < self.menu_dropdowns.len() {
            let items = &self.menu_dropdowns[i];
            let ghost target = Seq::new(items@.len(), |j: int|
                Self::item_display(items@[j]@, self.check_of(i as int, j)));
            let mut j: usize = 0;
            while j < items.len()
                invariant
                    j <= items@.len(),
                    i < self.menu_dropdowns@.len(),
                    *items == self.menu_dropdowns@[i as int],
                    target == Seq::new(items@.len(), |j: int|
                        Self::item_display(items@[j]@, self.check_of(i as int, j))),
                    views(formatted@) == target.take(j as int),
                decreases items.len() - j,
            {
                let checked: Option<bool> = if i < self.menu_dropdown_checked.len()
                    && j < self.menu_dropdown_checked[i].len() {
                    self.menu_dropdown_checked[i][j]
                } else {
                    None
                };
                let mut line = String::new();
                match checked {
                    Some(true) => line.append("\u{2713} "),
                    Some(false) => line.append("  "),
                    None => {}
                }
                line.append(items[j].as_str());
                let ghost before = formatted@;
                formatted.push(line);
                proof {
                    assert(checked == self.check_of(i as int, j as int));
                    assert(line@ == Self::item_display(items@[j as int]@, checked));
                    assert(views(formatted@) =~= views(before).push(line@));
                    assert(views(formatted@) =~= target.take(j + 1));
                }
                j = j + 1;
            }
            proof {
                assert(target.take(j as int) =~= target);
            }
        } else {
            proof {
                assert(views(formatted@) =~= Seq::<Seq<char>>::empty());
            }
        }
        Some((i, title, formatted))
    }

    /// The selected page: the selected menu, the first when none is.
    pub fn selected_page(&self) -> (r: usize)
        ensures
            r == match self.menus.selected { Some(p) => p, None => 0 },
    {
        match self.menus.selected {
            Some(p) => p,
            None => 0,
        }
    }

    /// Selects menu `page`.
    pub fn set_selected_page(&mut self, page: usize)
        ensures
            *final(self) == (MenuBar { menus: ButtonStrip { selected: Some(page), ..old(self).menus }, ..*old(self) }),
    {
        self.menus.set_selected(Some(page));
    }

    pub fn is_page_hidden(&self) -> (r: bool)
        ensures
            r == self.page_hidden,
    {
        self.page_hidden
    }

    pub fn set_page_hidden(&mut self, hidden: bool)
        ensures
            *final(self) == (MenuBar { page_hidden: hidden, ..*old(self) }),
    {
        self.page_hidden = hidden;
    }

    /// Uses `pages` as the menus' labels, both orientations.
    pub fn set_pages(&mut self, pages: Vec<String>)
        ensures
            views(final(self).menu_items@) == views(pages@),
            views(final(self).vertical_items@) == views(pages@),
            views(final(self).menus.buttons@) == views(pages@),
            *final(self) == (MenuBar {
                menu_items: final(self).menu_items,
                vertical_items: final(self).vertical_items,
                menus: ButtonStrip { buttons: final(self).menus.buttons, ..old(self).menus },
                ..*old(self)
            }),
    {
        self.menu_items = clone_strings(&pages);
        self.vertical_items = clone_strings(&pages);
        self.menus.buttons = pages;
    }

    /// Uses `pages` as the menus' labels and `items` as their item lists, none of them
    /// carrying a check state.
    pub fn set_pages_with_items(&mut self, pages: Vec<String>, items: Vec<Vec<String>>)
        ensures
            final(self).wf(),
            views(final(self).menu_items@) == views(pages@),
            views(final(self).vertical_items@) == views(pages@),
            views(final(self).menus.buttons@) == views(pages@),
            final(self).menu_dropdowns@ == items@,
            checks2(final(self).menu_dropdown_checked@) == Seq::new(items@.len(), |_i: int| Seq::<Option<bool>>::empty()),
            *final(self) == (MenuBar {
                menu_items: final(self).menu_items,
                vertical_items: final(self).vertical_items,
                menu_dropdowns: final(self).menu_dropdowns,
                menu_dropdown_checked: final(self).menu_dropdown_checked,
                menus: ButtonStrip { buttons: final(self).menus.buttons, ..old(self).menus },
                ..*old(self)
            }),
    {
        self.menu_items = clone_strings(&pages);
        self.vertical_items = clone_strings(&pages);
        let n = items.len();
        self.menu_dropdowns = items;
        let mut checked: Vec<Vec<Option<bool>>> = Vec::new();
        let mut k: usize = 0;
        while k < n
            invariant
                k <= n,
                checks2(checked@) == Seq::new(k as nat, |_i: int| Seq::<Option<bool>>::empty()),
            decreases n - k,
        {
            let ghost before = checked@;
            let e: Vec<Option<bool>> = Vec::new();
            checked.push(e);
            proof {
                assert(checks2(checked@) =~= checks2(before).push(e@));
                assert(checks2(checked@) =~= Seq::new((k + 1) as nat, |_i: int| Seq::<Option<bool>>::empty()));
            }
            k = k + 1;
        }
        self.menu_dropdown_checked = checked;
        self.menus.buttons = pages;
    }

    /// A label for the bar: in a vertical bar it becomes the title (and no label is
    /// kept), otherwise it is the label.
    pub fn set_sidebar_label(&mut self, label: Option<String>)
        ensures
            old(self).vertical ==> *final(self) == (MenuBar {
                title: final(self).title,
                label: None,
                ..*old(self)
            }) && final(self).title@ == match label { Some(l) => l@, None => Seq::<char>::empty() },
            !old(self).vertical ==> *final(self) == (MenuBar { label: label, ..*old(self) }),
    {
        if self.vertical {
            self.title = match label {
                Some(l) => l,
                None => String::new(),
            };
            self.label = None;
        } else {
            self.label = label;
        }
    }
}

impl Adapted<MenuBar> {
    pub fn with_blur(self, blur: bool) -> (r: Self)
        ensures
            r.inner == (MenuBar { blur, ..self.inner }),
    {
        let mut s = self;
        s.inner.blur = blur;
        s
    }

    pub fn with_right_aligned_title(self, right: bool) -> (r: Self)
        ensures
            r.inner == (MenuBar { right_align_title: right, ..self.inner }),
    {
        let mut s = self;
        s.inner.right_align_title = right;
        s
    }

    /// Context options under the title, with option `selected` chosen.
    pub fn with_context_options(self, options: Vec<String>, selected: usize) -> (r: Self)
        ensures
            r.inner == (MenuBar { context_options: options, context_selected: selected, ..self.inner }),
    {
        let mut s = self;
        s.inner.context_options = options;
        s.inner.context_selected = selected;
        s
    }

    pub fn with_center_items(self, center: bool) -> (r: Self)
        ensures
            r.inner == (MenuBar { center_items: center, ..self.inner }),
    {
        let mut s = self;
        s.inner.center_items = center;
        s
    }

    pub fn with_title(self, title: &str) -> (r: Self)
        ensures
            r.inner == (MenuBar { title: r.inner.title, ..self.inner }),
            r.inner.title@ == title@,
    {
        let mut s = self;
        s.inner.title = title.to_owned();
        s
    }

    /// Adds a menu labelled `label` (in both orientations) with `items`, none checked.
    pub fn with_item(self, label: &str, items: &[&str]) -> (r: Self)
        requires
            self.inner.wf(),
        ensures
            r.inner.wf(),
            views(r.inner.menu_items@) == views(self.inner.menu_items@).push(label@),
            views(r.inner.vertical_items@) == views(self.inner.vertical_items@).push(label@),
            views2(r.inner.menu_dropdowns@) == views2(self.inner.menu_dropdowns@).push(str_views(items@)),
            checks2(r.inner.menu_dropdown_checked@) == checks2(self.inner.menu_dropdown_checked@).push(
                Seq::new(items@.len(), |_i: int| None::<bool>)),
            views(r.inner.menus.buttons@) == views(self.inner.menus.buttons@).push(label@),
            r.inner == (MenuBar {
                menu_items: r.inner.menu_items,
                vertical_items: r.inner.vertical_items,
                menu_dropdowns: r.inner.menu_dropdowns,
                menu_dropdown_checked: r.inner.menu_dropdown_checked,
                menus: ButtonStrip { buttons: r.inner.menus.buttons, ..self.inner.menus },
                ..self.inner
            }),
    {
        self.with_item_vh(label, label, items)
    }

    /// Adds a menu with a horizontal and a vertical label; the strip shows the one for
    /// the bar's current orientation.
    pub fn with_item_vh(self, horizontal_label: &str, vertical_label: &str, items: &[&str]) -> (r: Self)
        requires
            self.inner.wf(),
        ensures
            r.inner.wf(),
            views(r.inner.menu_items@) == views(self.inner.menu_items@).push(horizontal_label@),
            views(r.inner.vertical_items@) == views(self.inner.vertical_items@).push(vertical_label@),
            views2(r.inner.menu_dropdowns@) == views2(self.inner.menu_dropdowns@).push(str_views(items@)),
            checks2(r.inner.menu_dropdown_checked@) == checks2(self.inner.menu_dropdown_checked@).push(
                Seq::new(items@.len(), |_i: int| None::<bool>)),
            views(r.inner.menus.buttons@) == views(self.inner.menus.buttons@).push(
                if self.inner.vertical { vertical_label@ } else { horizontal_label@ }),
            r.inner == (MenuBar {
                menu_items: r.inner.menu_items,
                vertical_items: r.inner.vertical_items,
                menu_dropdowns: r.inner.menu_dropdowns,
                menu_dropdown_checked: r.inner.menu_dropdown_checked,
                menus: ButtonStrip { buttons: r.inner.menus.buttons, ..self.inner.menus },
                ..self.inner
            }),
    {
        let mut s = self;
        let ghost m0 = s.inner.menu_items@;
        let ghost v0 = s.inner.vertical_items@;
        let ghost d0 = s.inner.menu_dropdowns@;
        let ghost c0 = s.inner.menu_dropdown_checked@;
        let h = horizontal_label.to_owned();
        let v = vertical_label.to_owned();
        s.inner.menu_items.push(h);
        s.inner.vertical_items.push(v);
        let list = strs_to_strings(items);
        s.inner.menu_dropdowns.push(list);
        let checks = repeat_check(None, items.len());
        s.inner.menu_dropdown_checked.push(checks);
        let label = if s.inner.vertical { vertical_label } else { horizontal_label };
        s.inner.menus.add_button(label);
        proof {
            assert(views(s.inner.menu_items@) =~= views(m0).push(horizontal_label@));
            assert(views(s.inner.vertical_items@) =~= views(v0).push(vertical_label@));
            assert(views2(s.inner.menu_dropdowns@) =~= views2(d0).push(str_views(items@)));
            assert(checks2(s.inner.menu_dropdown_checked@) =~= checks2(c0).push(
                Seq::new(items@.len(), |_i: int| None::<bool>)));
        }
        s
    }

    /// Lays the menus out vertically (or not): the strip switches orientation and
    /// shows that orientation's labels.
    pub fn with_vertical(self, vertical: bool) -> (r: Self)
        ensures
            views(r.inner.menus.buttons@) == if vertical {
                views(self.inner.vertical_items@)
            } else {
                views(self.inner.menu_items@)
            },
            r.inner == (MenuBar {
                vertical,
                menus: ButtonStrip { buttons: r.inner.menus.buttons, vertical, ..self.inner.menus },
                ..self.inner
            }),
    {
        let mut s = self;
        s.inner.vertical = vertical;
        s.inner.menus.vertical = vertical;
        let labels = if vertical {
            clone_strings(&s.inner.vertical_items)
        } else {
            clone_strings(&s.inner.menu_items)
        };
        s.inner.menus.buttons = labels;
        s
    }

    pub fn with_z_index(self, z: i32) -> (r: Self)
        ensures
            r.inner == (MenuBar { z_level: z, ..self.inner }),
    {
        let mut s = self;
        s.inner.z_level = z;
        s
    }
}

} // verus!
