pub mod image;
pub mod kgfx;
pub mod laws;
pub mod terminal_canvas;
