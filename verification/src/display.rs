pub mod geometry;
pub mod text;
pub mod theme;
pub mod shell_buffer;
pub mod stroke_font;
pub mod windows;
