//! Instanced-tiling mesh generation for a self-similar recursive structure.
//!
//! The library turns a subdivision rule (a list of affine child transforms),
//! a bounding rectangle and a level split into two renderer-ready buffers:
//! baked triangle vertices for the shallow levels and packed per-cell affine
//! transforms for the deeper, instanced levels.  All coordinates are exact
//! rationals; converting them to the GPU's floating-point layout is left to
//! the thin adapter around the library.

pub mod affine;
pub mod fitting;
pub mod mesh;
pub mod rational;
pub mod rect;
