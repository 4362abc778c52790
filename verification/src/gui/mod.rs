//! A small layout system: containers flow their children down, up, right or left,
//! with margins, detached (anchored) and transparent nodes, and expanding containers.
pub mod enums;
pub mod margin;
pub mod node;
pub mod layout;
pub mod render;
pub mod interactive;
