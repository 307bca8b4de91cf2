pub mod debug_ui;
pub mod error;
pub mod logger;
pub mod memory_stats;
pub mod profiler;
