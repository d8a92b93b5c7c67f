//! Procedural generation of raster patterns: a turtle-graphics rewriting
//! generator and a multi-seed escape-time fractal generator, together with
//! the colour, quadrant and scale primitives they share.

pub mod blocks;
pub mod canvas;
pub mod color;
pub mod julia;
pub mod lsystem;
pub mod quadrant;
pub mod random;
pub mod scale;
pub mod turtle;
