pub mod handle;
pub mod hot_reload;
pub mod load_states;
pub mod loader;
pub mod pak;
pub mod pak_lemmas;
pub mod pak_spec;
pub mod source;
