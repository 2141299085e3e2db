//! The discrete core of a software rasterizer, each part with a
//! machine-checked contract: pixel grids and their byte encodings, the mesh
//! text format, the moving of entries in vectors and matrices, the walk
//! through a triangle's bounding box, the depth-buffered output stage, the
//! ambient-occlusion pass, and the viewer's reaction to messages.
//!
//! Scalars of geometry are a type parameter throughout: nothing here
//! computes with them, so the shading arithmetic lives with the caller.

pub mod color;
pub mod image;
pub mod la;
pub mod model;
pub mod occlusion;
pub mod raster;
pub mod shader;
pub mod text;
pub mod tga;
pub mod web;
pub mod wf;
