//! Mesh loaders and the formats they read.
use vstd::prelude::*;

verus! {

/// Loads Wavefront OBJ meshes.
pub struct ObjLoader;

/// Loads glTF meshes.
pub struct GltfLoader;

/// The mesh formats that can be read from bytes.
#[derive(Debug, Clone, Copy, PartialEq, Eq, Structural)]
pub enum MeshFormat {
    Obj,
    Gltf,
}

} // verus!
