//! The two areas of the screen.

use vstd::prelude::*;

verus! {

/// An area of the screen, from the top.
#[derive(Debug, Clone, Copy)]
pub enum LayoutSlot {
    MainCanvas,
    StatusBar,
}

impl LayoutSlot {
    pub open spec fn spec_index(self) -> usize {
        match self {
            LayoutSlot::MainCanvas => 0,
            LayoutSlot::StatusBar => 1,
        }
    }

    /// The place of the area among the areas of the screen.
    pub fn index(self) -> (i: usize)
        ensures
            i == self.spec_index(),
            i < 2,
    {
        match self {
            LayoutSlot::MainCanvas => 0,
            LayoutSlot::StatusBar => 1,
        }
    }
}

} // verus!
