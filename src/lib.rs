//! The verified core of a path-tracing renderer of spheres.
//!
//! The floating-point work of the renderer (vector algebra, ray-sphere
//! intersection, material scattering, the camera) is done by its caller. This
//! crate holds the logic around it: the scene's geometry and shared material
//! table with its nearest-hit scan (`scene`), the bounce budget that ends each
//! light path (`path`), the pixel grid in output order (`image`) and its
//! line-oriented text stream (`ppm`).

use vstd::prelude::*;

pub mod image;
pub mod path;
pub mod ppm;
pub mod scene;

verus! {

} // verus!
