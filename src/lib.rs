//! A small 2D rendering core: sprite batching, glyph atlas packing and text
//! layout, with the frame timer and input state that drive a game loop.

pub mod rect;
pub mod packer;
pub mod batch;
pub mod color;
pub mod text;
pub mod time;
pub mod ldtk;
pub mod image;
pub mod input;
pub mod scaling;
