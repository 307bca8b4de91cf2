//! Plugins: their load states, what the engine records of each, and the
//! built-in plugin sets.
use std::any::TypeId;
use vstd::prelude::*;

verus! {

/// Where a plugin is in loading.
#[derive(Debug, Clone, Copy, PartialEq, Eq, Structural)]
pub enum PluginState {
    Ready,
    Building,
    Built,
    Failed,
}

/// What the engine records of a plugin it was asked to add.
pub struct PluginMetadata {
    pub type_id: TypeId,
    pub name: String,
    pub state: PluginState,
    pub dependencies: Vec<TypeId>,
}

/// The core plugin: time, fixed time, the game tick and memory tracking.
pub struct CorePlugin {}

impl Default for CorePlugin {
    fn default() -> (r: Self) {
        CorePlugin {  }
    }
}

impl CorePlugin {
    /// The core plugin.
    pub fn new() -> (r: Self) {
        Self::default()
    }
}

/// The default plugin set: core, transform, assets, window, rendering, input,
/// audio and performance.
#[derive(Default)]
pub struct DefaultPlugins;

} // verus!
