//! Shared description of the frame buffer being drawn.
pub mod drawing;
