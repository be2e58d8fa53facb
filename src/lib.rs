//! Pixel buffers, their plain-text image form, and the colouring and render-pass
//! rules of an escape-time fractal renderer.
pub mod color;
pub mod image;
pub mod render;
pub mod text;
