//! Layout, grid, cursor/viewport and frame-rendering logic of a terminal hex viewer.

pub mod layout;
pub mod grid;
pub mod viewer;
pub mod render;
