//! `Adapted<W>`: a widget model wrapped for its host, the type the constructors hand
//! out and the builders chain on.
use vstd::prelude::*;

verus! {

/// A widget model `W` as handed to a host.
pub struct Adapted<W> {
    pub inner: W,
}

impl<W> Adapted<W> {
    /// Wraps a widget model.
    pub fn new(inner: W) -> (a: Adapted<W>)
        ensures
            a.inner == inner,
    {
        Adapted { inner }
    }

    /// The wrapped model.
    pub fn inner(&self) -> (w: &W)
        ensures
            *w == self.inner,
    {
        &self.inner
    }

    /// The wrapped model, mutably.
    pub fn inner_mut(&mut self) -> (w: &mut W)
        ensures
            *w == old(self).inner,
            final(self).inner == *final(w),
    {
        &mut self.inner
    }
}

} // verus!
