//! Interactive gradient editing for a vector graphics editor.
//!
//! The crate models the geometry and the pointer-interaction state machine
//! that let a user draw a linear or radial color gradient on a shape and
//! then move its endpoints and color stops directly on the canvas.
//! Coordinates are exact rational numbers, so every geometric statement in
//! the contracts is exact rather than approximate.

pub mod geom;
pub mod gradient;
pub mod rat;
pub mod tool;
