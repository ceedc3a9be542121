//! Two-level dirty tracking: one pair of flags per tree.  A layout
//! change always forces a redraw; a redraw does not force a layout.

use vstd::prelude::*;

verus! {

/// Whether the tree owes a re-layout, a re-render, or nothing.
#[derive(Debug)]
pub struct DirtyFlags {
    layout: bool,
    render: bool,
}

impl DirtyFlags {
    /// Whether a full measure-and-arrange pass is owed.
    pub closed spec fn spec_layout(&self) -> bool {
        self.layout
    }

    /// Whether a redraw is owed.
    pub closed spec fn spec_render(&self) -> bool {
        self.render
    }

    /// A fresh tree owes a first full layout.
    pub fn new() -> (r: DirtyFlags)
        ensures
            r.spec_layout(),
            r.spec_render(),
    {
        DirtyFlags { layout: true, render: true }
    }

    /// A layout change implies a render change.
    pub fn trigger_layout_change(&mut self)
        ensures
            final(self).spec_layout(),
            final(self).spec_render(),
    {
        self.layout = true;
        self.render = true;
    }

    /// A render-only change leaves the layout flag alone.
    pub fn trigger_render_change(&mut self)
        ensures
            final(self).spec_layout() == old(self).spec_layout(),
            final(self).spec_render(),
    {
        self.render = true;
    }

    pub fn is_layout_changed(&self) -> (r: bool)
        ensures
            r == self.spec_layout(),
    {
        self.layout
    }

    pub fn is_render_changed(&self) -> (r: bool)
        ensures
            r == self.spec_render(),
    {
        self.render
    }

    /// Read both flags and clear them, atomically with respect to the
    /// frame: the frame that reads them owes exactly the work read.
    pub fn replace(&mut self) -> (r: (bool, bool))
        ensures
            r.0 == old(self).spec_layout(),
            r.1 == old(self).spec_render(),
            !final(self).spec_layout(),
            !final(self).spec_render(),
    {
        let r = (self.layout, self.render);
        self.layout = false;
        self.render = false;
        r
    }
}

} // verus!
