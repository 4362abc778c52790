//! Drawing into caller-owned frame buffers of any size.
pub mod images;
pub mod shapes;
