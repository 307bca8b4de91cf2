//! Which debug panels are shown, toggled by function keys, and the UI plugins.
use vstd::prelude::*;

verus! {

/// Which debug panels are shown.
pub struct DebugUiState {
    pub show_profiler: bool,
    pub show_performance: bool,
    pub show_general_info: bool,
}

impl Default for DebugUiState {
    fn default() -> (r: Self)
        ensures
            !r.show_profiler,
            !r.show_performance,
            !r.show_general_info,
    {
        DebugUiState { show_profiler: false, show_performance: false, show_general_info: false }
    }
}

impl DebugUiState {
    /// Applies a frame's shortcut keys: F1 toggles the profiler panel, F2 the
    /// performance panel, F3 the general information panel.
    pub fn handle_shortcuts(&mut self, f1_pressed: bool, f2_pressed: bool, f3_pressed: bool)
        ensures
            final(self).show_profiler == (old(self).show_profiler != f1_pressed),
            final(self).show_performance == (old(self).show_performance != f2_pressed),
            final(self).show_general_info == (old(self).show_general_info != f3_pressed),
    {
        if f1_pressed {
            self.show_profiler = !self.show_profiler;
        }
        if f2_pressed {
            self.show_performance = !self.show_performance;
        }
        if f3_pressed {
            self.show_general_info = !self.show_general_info;
        }
    }
}

/// Shows the debug panels; needs the egui plugin. Client only.
#[derive(Default)]
pub struct DebugUiPlugin;

/// Sets up egui over the window and renderer. Client only.
#[derive(Default)]
pub struct EguiPlugin;

/// The render-graph node that draws egui's output after the main pass.
pub struct EguiRenderNode;

} // verus!
