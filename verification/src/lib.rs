//! Integer rendering core of a small 2D toolkit for low-end hardware.
pub mod color;
pub mod constants;
pub mod draw_tools;
pub mod geometry;
pub mod gui;
pub mod ingame_ui;
pub mod renderer;
pub mod renderer2d;
