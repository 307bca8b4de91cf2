pub mod plugin;
pub mod registry;
pub mod runner;
pub mod stage;
