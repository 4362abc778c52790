//! Space kept around a node of the layout.
use vstd::prelude::*;

verus! {

/// Space kept around a node, on each side.
#[derive(Clone, Copy, PartialEq, Eq, Structural, Debug)]
pub struct Margin {
    pub top: isize,
    pub bottom: isize,
    pub right: isize,
    pub left: isize,
}

impl Margin {
    /// No space on any side.
    pub fn none() -> (m: Margin)
        ensures
            m.top == 0 && m.bottom == 0 && m.right == 0 && m.left == 0,
    {
        Margin { top: 0, bottom: 0, right: 0, left: 0 }
    }

    /// The margin with the given space on each side.
    pub fn new(top: isize, bottom: isize, right: isize, left: isize) -> (m: Margin)
        ensures
            m.top == top && m.bottom == bottom && m.right == right && m.left == left,
    {
        Margin { top, bottom, right, left }
    }
}

} // verus!
