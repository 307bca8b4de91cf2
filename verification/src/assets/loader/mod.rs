//! What loading an asset can fail with, and the loaders' shared settings.
pub mod audio;
pub mod mesh;
pub mod shader;
pub mod texture;

use vstd::prelude::*;
use vstd::string::StringExecFns;

verus! {

/// Why an asset could not be loaded.
#[derive(Debug)]
pub enum LoadError {
    NotFound(String),
    LoadFailed(String),
    UnsupportedType(String),
}

/// The message that `LoadError::message` gives.
pub open spec fn load_error_text(e: &LoadError) -> Seq<char> {
    match e {
        LoadError::NotFound(m) => "Asset not found: "@ + m@,
        LoadError::LoadFailed(m) => "Failed to load asset: "@ + m@,
        LoadError::UnsupportedType(m) => "Unsupported asset type: "@ + m@,
    }
}

impl LoadError {
    /// The human-readable message for this failure.
    pub fn message(&self) -> (s: String)
        ensures
            s@ == load_error_text(self),
    {
        match self {
            LoadError::NotFound(m) => String::from_str("Asset not found: ").concat(m.as_str()),
            LoadError::LoadFailed(m) => String::from_str("Failed to load asset: ").concat(m.as_str()),
            LoadError::UnsupportedType(m) => String::from_str("Unsupported asset type: ").concat(
                m.as_str(),
            ),
        }
    }
}

/// Whether the cache keeps an asset alive or only refers to it.
#[derive(Clone, Copy, Debug, PartialEq, Eq, Structural)]
pub enum CachePolicy {
    Weak,
    Strong,
}

/// Loads images from disk, decoded as they are stored.
pub struct ImageLoader;

} // verus!
