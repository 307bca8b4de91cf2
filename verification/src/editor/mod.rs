pub mod readback;
pub mod scene;
pub mod state;
