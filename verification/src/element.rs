//! The links of the widget tree: the id by which a widget is registered, and the plain
//! container that holds nothing but its parent link and its children, in order.
use vstd::prelude::*;

verus! {

/// The id under which a widget is registered with its host.
#[derive(Clone, Copy, PartialEq, Eq, Debug, Structural)]
pub struct WidgetId(pub u64);

/// A container that only links: a parent and an ordered list of children.
pub struct Container {
    pub parent: Option<WidgetId>,
    pub children: Vec<WidgetId>,
}

/// A copy of `v`.
pub fn copy_ids(v: &Vec<WidgetId>) -> (r: Vec<WidgetId>)
    ensures
        r@ == v@,
{
    let mut r: Vec<WidgetId> = Vec::new();
    let mut i: usize = 0;
    while i < v.len()
        invariant
            i <= v@.len(),
            r@ == v@.take(i as int),
        decreases v.len() - i,
    {
        r.push(v[i]);
        proof {
            assert(v@.take(i + 1) =~= v@.take(i as int).push(v@[i as int]));
        }
        i = i + 1;
    }
    proof {
        assert(v@.take(i as int) =~= v@);
    }
    r
}

impl Container {
    /// No parent and no children.
    pub fn new() -> (c: Container)
        ensures
            c.parent is None,
            c.children@.len() == 0,
    {
        Container { parent: None, children: Vec::new() }
    }

    /// The parent link.
    pub fn parent(&self) -> (p: Option<WidgetId>)
        ensures
            p == self.parent,
    {
        self.parent
    }

    /// Sets the parent link; the children stay.
    pub fn set_parent(&mut self, parent: Option<WidgetId>)
        ensures
            final(self).parent == parent,
            final(self).children@ == old(self).children@,
    {
        self.parent = parent;
    }

    /// The children, in the order they were added.
    pub fn children(&self) -> (c: Vec<WidgetId>)
        ensures
            c@ == self.children@,
    {
        copy_ids(&self.children)
    }

    /// Appends a child.
    pub fn add_child(&mut self, child: WidgetId)
        ensures
            final(self).children@ == old(self).children@.push(child),
            final(self).parent == old(self).parent,
    {
        self.children.push(child);
    }

    /// Drops every child link; the parent stays.
    pub fn clear_children(&mut self)
        ensures
            final(self).children@.len() == 0,
            final(self).parent == old(self).parent,
    {
        self.children.clear();
    }
}

} // verus!
