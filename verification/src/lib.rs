//! A verified mosaic-GIF generator: it reduces an input picture to a small
//! grid, recolours a fixed set of six sprite templates per grid cell with an
//! HSV-based shader, composites six animation frames in a diagonal marching
//! pattern, and encodes them as one infinitely looping animated GIF.

pub mod codec;
pub mod colour;
pub mod compose;
pub mod filter;
pub mod grid;
pub mod img;
pub mod shader;
pub mod sus;
