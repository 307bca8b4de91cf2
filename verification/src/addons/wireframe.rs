//! Wireframe mode, toggled by F5.
use vstd::prelude::*;

verus! {

/// Whether meshes are drawn as wireframes.
pub struct WireframeState {
    pub enabled: bool,
}

impl Default for WireframeState {
    fn default() -> (r: Self)
        ensures
            !r.enabled,
    {
        WireframeState { enabled: false }
    }
}

impl WireframeState {
    /// Applies a frame's F5 key: a press toggles wireframe mode.
    pub fn handle_toggle(&mut self, f5_pressed: bool)
        ensures
            final(self).enabled == (old(self).enabled != f5_pressed),
    {
        if f5_pressed {
            self.enabled = !self.enabled;
        }
    }
}

/// Adds wireframe toggling; needs the render plugin. Client only.
#[derive(Default)]
pub struct WireframePlugin;

} // verus!
