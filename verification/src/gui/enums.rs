//! How nodes are placed in their container.
use vstd::prelude::*;
use crate::geometry::Vector2;

verus! {

/// A point of the parent node that a detached node sticks to.
#[derive(Clone, Copy, PartialEq, Eq, Structural, Debug)]
pub enum Anchor {
    Center,
    Top,
    Bottom,
    Right,
    Left,
    TopLeft,
    TopRight,
    BottomLeft,
    BottomRight,
}

/// How a node takes part in its container's flow.
#[derive(Clone, Copy, Debug)]
pub enum Layout {
    /// Detach the element from the nodes flow and stick it to an anchor with the given offset. The anchor is placed on the parent node.
    Relative(Anchor, Vector2<isize>),
    /// Keeps the element in flow but removes its bounding box. Elements can flow over it. It can be used to stack elements in a div.
    Transparent,
    Default,
}

/// The direction in which a container lays its children out. `Unset` lays them out
/// downward, like `Down`.
#[derive(Clone, Copy, PartialEq, Eq, Structural, Debug)]
pub enum AlignDirection {
    Down,
    Up,
    Right,
    Left,
    Unset,
}

/// The children flow vertically (`Down`, `Up` and `Unset`) rather than horizontally.
pub open spec fn is_vertical(a: AlignDirection) -> bool {
    !(a is Right || a is Left)
}

} // verus!
