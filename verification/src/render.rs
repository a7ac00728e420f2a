//! The scene graph: carried numbers, the document model, geometry, meshes,
//! nodes and the scene that owns them.

pub mod document;
pub mod math;
pub mod mesh;
pub mod node;
pub mod primitive;
pub mod scene;
