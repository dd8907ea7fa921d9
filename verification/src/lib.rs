//! Wang tiles: a grid of four-bit tile identifiers whose neighbours agree on
//! every shared edge, and the shader that paints such a grid.

pub mod generator;
pub mod image;
pub mod matrix;
pub mod rgba;
pub mod shader;
pub mod text;
pub mod texture;
pub mod tile;
