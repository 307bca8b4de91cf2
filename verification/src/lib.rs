pub mod addons;
pub mod app;
pub mod assets;
pub mod assoc;
pub mod audio;
pub mod build_utils;
pub mod engine_core;
pub mod editor;
pub mod net;
pub mod outside;
pub mod text;
