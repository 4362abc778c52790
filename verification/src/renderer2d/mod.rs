//! The tiled 2D renderer: textures, sprites and the per-tile frame buffer.
pub mod elements;
pub mod sprite;
pub mod renderer;
pub mod nine_parts_rectangle;
pub mod draw_queue;
pub mod text;
pub mod draw;
