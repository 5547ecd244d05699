//! Rendering core for a rotating parametric surface drawn on a character grid.
//!
//! The crate holds the integer side of the renderer: the drawing area, the
//! parameter grids of the shapes, the depth-buffered compositor, the shading
//! ramps, the row-major frame renderer, the rotation state and the animation
//! driver. Trigonometry and terminal output stay with the caller, who hands in
//! projected samples and carries out the actions that the driver asks for.

pub mod canvas;
pub mod driver;
pub mod frame;
pub mod plot;
pub mod render;
pub mod rotation;
pub mod sampler;
pub mod shading;
pub mod visibility;
