//! A vertical strip of page tabs: which page is selected, and the tab click waiting for
//! the host.
use vstd::prelude::*;
use crate::adapted::Adapted;
use crate::param_spec::views;
use crate::strip::ButtonStrip;
use crate::menu_bar::clone_strings;
use crate::text::to_chars;
use crate::elements::paginator::{tab_label, tab_label_spec};

verus! {

/// The icon a tab label leads with: the trimmed text before the label's first space
/// (after trimming the label), when that is a single character.
pub open spec fn tab_icon_spec(label: Seq<char>) -> Option<Seq<char>> {
    match tab_label_spec(label).1 {
        Some(icon) => if icon.len() == 1 { Some(icon) } else { None },
        None => None,
    }
}

/// The icon a tab label leads with, if any: the sidebar is sized to fit it.
pub fn tab_icon(label: &str) -> (r: Option<String>)
    ensures
        match tab_icon_spec(label@) {
            Some(i) => r matches Some(s) && s@ == i,
            None => r is None,
        },
{
    let (_, icon, _) = tab_label(label);
    match icon {
        Some(s) => {
            let n = to_chars(s.as_str()).len();
            if n == 1 { Some(s) } else { None }
        },
        None => None,
    }
}

pub struct Paginator {
    pub sidebar_menu: Adapted<ButtonStrip>,
    pub selected_page: usize,
    pub page_labels: Vec<String>,
    pub just_clicked: Option<usize>,
}

impl Paginator {
    /// A paginator over `pages`: a vertical tab strip with one tab per page, the first
    /// selected when there is one.
    pub fn new(pages: Vec<String>) -> (p: Adapted<Paginator>)
        ensures
            views(p.inner.page_labels@) == views(pages@),
            views(p.inner.sidebar_menu.inner.buttons@) == views(pages@),
            p.inner.sidebar_menu.inner.vertical,
            p.inner.sidebar_menu.inner.selected == if pages@.len() > 0 { Some(0usize) } else { None },
            p.inner.sidebar_menu.inner.clicked is None,
            p.inner.selected_page == 0,
            p.inner.just_clicked is None,
    {
        let labels = clone_strings(&pages);
        let n = pages.len();
        let mut strip = ButtonStrip::new();
        strip.vertical = true;
        strip.buttons = pages;
        if n > 0 {
            strip.set_selected(Some(0));
        }
        Adapted::new(Paginator {
            sidebar_menu: Adapted::new(strip),
            selected_page: 0,
            page_labels: labels,
            just_clicked: None,
        })
    }

    /// The selected page.
    pub fn selected_page(&self) -> (r: usize)
        ensures
            r == self.selected_page,
    {
        self.selected_page
    }

    /// Selects page `page` — its tab too — when it exists; reports whether it did, and
    /// the host then runs its page-changed handler with `page`.
    pub fn set_selected_page(&mut self, page: usize) -> (selected: bool)
        ensures
            selected == (page < old(self).page_labels@.len()),
            selected ==> *final(self) == (Paginator {
                selected_page: page,
                sidebar_menu: Adapted { inner: ButtonStrip { selected: Some(page), ..old(self).sidebar_menu.inner } },
                ..*old(self)
            }),
            !selected ==> *final(self) == *old(self),
    {
        if page < self.page_labels.len() {
            self.selected_page = page;
            self.sidebar_menu.inner_mut().set_selected(Some(page));
            true
        } else {
            false
        }
    }

    /// After the tab strip took a press: its click, if any, selects that page and is
    /// kept for `menu_click`. Returns the page the host's page-changed handler is owed.
    pub fn drain_tab_click(&mut self) -> (notify: Option<usize>)
        ensures
            match old(self).sidebar_menu.inner.clicked {
                None => *final(self) == *old(self) && notify is None,
                Some(idx) => {
                    let sel = idx < old(self).page_labels@.len();
                    &&& final(self).sidebar_menu.inner.clicked is None
                    &&& final(self).just_clicked == Some(idx)
                    &&& final(self).selected_page == if sel { idx } else { old(self).selected_page }
                    &&& final(self).sidebar_menu.inner.selected == if sel {
                        Some(idx)
                    } else {
                        old(self).sidebar_menu.inner.selected
                    }
                    &&& final(self).sidebar_menu.inner.buttons == old(self).sidebar_menu.inner.buttons
                    &&& final(self).sidebar_menu.inner.vertical == old(self).sidebar_menu.inner.vertical
                    &&& final(self).page_labels == old(self).page_labels
                    &&& notify == if sel { Some(idx) } else { None }
                },
            },
    {
        match self.sidebar_menu.inner_mut().take_click() {
            Some(idx) => {
                let sel = self.set_selected_page(idx);
                self.just_clicked = Some(idx);
                if sel { Some(idx) } else { None }
            }
            None => None,
        }
    }

    /// The tab click as (page, 0), drained.
    pub fn menu_click(&mut self) -> (r: Option<(usize, usize)>)
        ensures
            r == match old(self).just_clicked { Some(i) => Some((i, 0usize)), None => None },
            *final(self) == (Paginator { just_clicked: None, ..*old(self) }),
    {
        match self.just_clicked {
            Some(i) => {
                self.just_clicked = None;
                Some((i, 0))
            }
            None => None,
        }
    }

    /// The tabs stand in a column.
    pub fn is_vertical(&self) -> (r: bool)
        ensures
            r,
    {
        true
    }

    /// A paginator is not a menu bar.
    pub fn is_menu_bar(&self) -> (r: bool)
        ensures
            !r,
    {
        false
    }

    /// A paginator never has a menu open.
    pub fn is_menu_open(&self) -> (r: bool)
        ensures
            !r,
    {
        false
    }
}

impl Adapted<Paginator> {
    /// Accepted for compatibility; the strip is always a sidebar.
    pub fn with_sidebar_mode(self, _enabled: bool) -> (r: Self)
        ensures
            r == self,
    {
        self
    }

    /// Accepted for compatibility; tab orientation is fixed.
    pub fn with_tabs_rotated(self, _rotated: bool) -> (r: Self)
        ensures
            r == self,
    {
        self
    }

    /// Accepted for compatibility; tabs always stand at the side.
    pub fn with_tabs_at_top(self, _top: bool) -> (r: Self)
        ensures
            r == self,
    {
        self
    }

    /// Accepted for compatibility; the paginator shows no title.
    pub fn with_title(self, _title: &str) -> (r: Self)
        ensures
            r == self,
    {
        self
    }

    /// Accepted for compatibility; the strip is always vertical.
    pub fn with_vertical(self, _vertical: bool) -> (r: Self)
        ensures
            r == self,
    {
        self
    }
}

} // verus!
