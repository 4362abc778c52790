//! Nodes that react to the keyboard, and handing them the keys pressed.
use vstd::prelude::*;

verus! {

/// The direction of an arrow key.
#[derive(Clone, Copy, PartialEq, Eq, Structural, Debug)]
pub enum NavigationDirection {
    Up,
    Down,
    Left,
    Right,
}

/// A node the user can select and send keys to. Keys are given by their code.
pub trait InteractiveNode {
    /// Called on the selected node each time the user presses down a key.
    /// The return value is the signal to be passed to the event handler;
    /// `None` triggers no event.
    fn handle_key_down(&mut self, key: u8) -> Option<usize>;

    /// Called on the selected node each time the user releases a key.
    /// The return value is the signal to be passed to the event handler;
    /// `None` triggers no event.
    fn handle_key_up(&mut self, key: u8) -> Option<usize>;

    /// Called on the selected node each time the user presses an arrow key.
    /// Returning true prevents the default behaviour, which is to select the next node
    /// in the direction of the arrow.
    fn handle_navigation(&mut self, direction: NavigationDirection) -> bool {
        false
    }

    /// The id set in the node tree.
    fn get_id(&self) -> usize;

    /// The internal marker for selection.
    fn get_is_selected(&self) -> bool;

    /// Sets the internal marker for selection.
    fn set_is_selected(&mut self, state: bool);
}

/// Hands the key pressed last, if any, to the selected node, if any, and returns the
/// signal it gives back. With no key or no selected node nothing happens.
pub fn update<N: InteractiveNode>(selected_node: Option<&mut N>, last_pressed: Option<u8>) -> (r: Option<usize>)
    ensures
        (selected_node is None || last_pressed is None) ==> r is None,
{
    match last_pressed {
        Some(key) => match selected_node {
            Some(node) => node.handle_key_down(key),
            None => None,
        },
        None => None,
    }
}

} // verus!
