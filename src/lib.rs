//! Procedural mesh generation for an icosphere and a flat quad.
//!
//! The library holds the integer side of mesh construction: triangle
//! connectivity, midpoint subdivision, longitude-seam splitting over
//! fixed-point texture coordinates, tangent-averaging weights, flattening
//! of indexed meshes, the vertex layout and the draw selection. Callers
//! supply the floating-point geometry that those recipes describe.

mod draw;
mod error;
mod event;
mod layout;
mod packing;
mod quad;
mod seam;
mod tangent;
mod topology;

pub use draw::DrawCall;
pub use error::MeshError;
pub use event::GuiEvent;
pub use layout::{AttributeFormat, StepMode, VertexAttribute, VertexLayout};
pub use packing::{flatten, MeshData};
pub use quad::QuadLayout;
pub use seam::{extend_with_duplicates, resolve_seams, SeamSplit, TEX_HALF, TEX_ONE};
pub use tangent::incidence_counts;
pub use topology::{
    icosahedron_indices, subdivide, IcosphereTopology, Subdivision, BASE_VERTEX_COUNT,
    MAX_ITERATIONS,
};
