//! A console of coloured glyphs: a layered grid of cells, the glyph atlas it
//! is drawn with, the vertex list of a frame and the colour rule of the
//! fragment stage, all in exact numbers.

pub mod console;
pub mod grid;
pub mod shader;
pub mod tileset;
pub mod vertex;
