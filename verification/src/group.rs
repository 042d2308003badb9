//! A group: a lasso around registered widgets, defined by membership alone. It owns and
//! lays out nothing; its frame is drawn, by the host, around where its members landed.
use vstd::prelude::*;
use crate::adapted::Adapted;
use crate::element::WidgetId;

verus! {

/// A group of widgets, by id, with an optional title.
pub struct Group {
    members: Vec<WidgetId>,
    label: Option<String>,
    fit: bool,
}

impl Group {
    /// The member ids, in order.
    pub closed spec fn member_ids(&self) -> Seq<WidgetId> {
        self.members@
    }

    /// The title, if one was given.
    pub closed spec fn title(&self) -> Option<Seq<char>> {
        match self.label {
            Some(l) => Some(l@),
            None => None,
        }
    }

    /// Whether the frame snaps to the edges of the plate it sits on.
    pub closed spec fn fits(&self) -> bool {
        self.fit
    }

    /// A group of `members`, untitled and not fitted to its plate.
    pub fn new(members: Vec<WidgetId>) -> (g: Adapted<Group>)
        ensures
            g.inner.member_ids() == members@,
            g.inner.title() is None,
            !g.inner.fits(),
    {
        Adapted::new(Group { members, label: None, fit: false })
    }

    /// The member ids, in order.
    pub fn members(&self) -> (m: &[WidgetId])
        ensures
            m@ == self.member_ids(),
    {
        self.members.as_slice()
    }

    /// Replaces the members.
    pub fn set_members(&mut self, members: Vec<WidgetId>)
        ensures
            final(self).member_ids() == members@,
            final(self).title() == old(self).title(),
            final(self).fits() == old(self).fits(),
    {
        self.members = members;
    }

    /// Fits the frame to the plate's edges, or not.
    pub fn set_fit(&mut self, fit: bool)
        ensures
            final(self).fits() == fit,
            final(self).member_ids() == old(self).member_ids(),
            final(self).title() == old(self).title(),
    {
        self.fit = fit;
    }

    /// Takes `label` as the title the frame's tab shows.
    pub fn sync_label(&mut self, label: &str)
        ensures
            final(self).title() == Some(label@),
            final(self).member_ids() == old(self).member_ids(),
            final(self).fits() == old(self).fits(),
    {
        self.label = Some(label.to_owned());
    }
}

impl Adapted<Group> {
    /// The same group, fitted to its plate or not.
    pub fn with_fit(self, fit: bool) -> (g: Adapted<Group>)
        ensures
            g.inner.fits() == fit,
            g.inner.member_ids() == self.inner.member_ids(),
            g.inner.title() == self.inner.title(),
    {
        let mut g = self;
        g.inner.fit = fit;
        g
    }
}

} // verus!
