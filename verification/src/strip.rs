//! The selection state of a strip of labelled buttons (a menu bar's menus, a
//! paginator's tabs): the labels, the selected button, and a click awaiting its reader.
use vstd::prelude::*;
use crate::param_spec::views;

verus! {

pub struct ButtonStrip {
    pub buttons: Vec<String>,
    pub selected: Option<usize>,
    pub vertical: bool,
    pub clicked: Option<usize>,
}

impl ButtonStrip {
    /// An empty, horizontal strip with nothing selected.
    pub fn new() -> (s: ButtonStrip)
        ensures
            s.buttons@.len() == 0,
            s.selected is None,
            !s.vertical,
            s.clicked is None,
    {
        ButtonStrip { buttons: Vec::new(), selected: None, vertical: false, clicked: None }
    }

    /// Appends a button labelled `label`.
    pub fn add_button(&mut self, label: &str)
        ensures
            views(final(self).buttons@) == views(old(self).buttons@).push(label@),
            final(self).selected == old(self).selected,
            final(self).vertical == old(self).vertical,
            final(self).clicked == old(self).clicked,
    {
        let ghost before = self.buttons@;
        self.buttons.push(label.to_owned());
        proof {
            assert(views(self.buttons@) =~= views(before).push(label@));
        }
    }

    /// Selects a button, or none.
    pub fn set_selected(&mut self, selected: Option<usize>)
        ensures
            final(self).selected == selected,
            final(self).buttons == old(self).buttons,
            final(self).vertical == old(self).vertical,
            final(self).clicked == old(self).clicked,
    {
        self.selected = selected;
    }

    /// The click awaiting its reader, which it drains.
    pub fn take_click(&mut self) -> (c: Option<usize>)
        ensures
            c == old(self).clicked,
            final(self).clicked is None,
            final(self).buttons == old(self).buttons,
            final(self).selected == old(self).selected,
            final(self).vertical == old(self).vertical,
    {
        let c = self.clicked;
        self.clicked = None;
        c
    }
}

} // verus!
