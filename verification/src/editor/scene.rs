//! What the editor reports of a scene.
use vstd::prelude::*;

verus! {

/// A scene's name, how many entities it holds, and whether it is active.
#[derive(Debug)]
pub struct SceneInfo {
    pub name: String,
    pub entity_count: usize,
    pub active: bool,
}

} // verus!
