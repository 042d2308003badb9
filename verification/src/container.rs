//! The laying-out container: a parent link, ordered children, and the strategy that
//! places the children (the placement itself is pixel arithmetic its host performs).
use vstd::prelude::*;
use crate::element::{WidgetId, copy_ids};

verus! {

/// The strategy a container lays its children out by.
#[derive(Clone, Copy, PartialEq, Eq, Debug, Structural)]
pub enum LayoutKind {
    /// Every child takes the container's whole box.
    Overlay,
    /// Children stacked top to bottom.
    Vertical,
    /// Children dropped into the shortest of a fixed number of columns.
    Grid { columns: usize },
    /// A grid with as many columns as fit at a minimum width.
    AdaptiveGrid,
    /// One equal-width column per child.
    Columns,
    /// Children packed into free rectangles, top-left first.
    Mosaic,
}

/// A container with a layout strategy.
pub struct Container {
    pub parent: Option<WidgetId>,
    pub children: Vec<WidgetId>,
    pub layout: LayoutKind,
}

impl Container {
    /// No parent, no children, every child overlaid on the whole box.
    pub fn new() -> (c: Container)
        ensures
            c.parent is None,
            c.children@.len() == 0,
            c.layout == LayoutKind::Overlay,
    {
        Container { parent: None, children: Vec::new(), layout: LayoutKind::Overlay }
    }

    /// The same container, laid out by `layout`.
    pub fn with_layout(self, layout: LayoutKind) -> (c: Container)
        ensures
            c.layout == layout,
            c.parent == self.parent,
            c.children@ == self.children@,
    {
        let mut c = self;
        c.layout = layout;
        c
    }

    /// The parent link.
    pub fn parent(&self) -> (p: Option<WidgetId>)
        ensures
            p == self.parent,
    {
        self.parent
    }

    /// Sets the parent link.
    pub fn set_parent(&mut self, parent: Option<WidgetId>)
        ensures
            final(self).parent == parent,
            final(self).children@ == old(self).children@,
            final(self).layout == old(self).layout,
    {
        self.parent = parent;
    }

    /// The children, in the order they were added.
    pub fn children(&self) -> (c: Vec<WidgetId>)
        ensures
            c@ == self.children@,
    {
        copy_ids(&self.children)
    }

    /// Appends a child.
    pub fn add_child(&mut self, child: WidgetId)
        ensures
            final(self).children@ == old(self).children@.push(child),
            final(self).parent == old(self).parent,
            final(self).layout == old(self).layout,
    {
        self.children.push(child);
    }

    /// Drops every child link.
    pub fn clear_children(&mut self)
        ensures
            final(self).children@.len() == 0,
            final(self).parent == old(self).parent,
            final(self).layout == old(self).layout,
    {
        self.children.clear();
    }
}

} // verus!
