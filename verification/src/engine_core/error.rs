//! The engine's error type for failures that users should handle.
use crate::assets::pak::IoFailure;
use vstd::prelude::*;
use vstd::string::StringExecFns;

verus! {

/// A failure the engine reports to its users.
#[derive(Debug)]
pub enum ResonanceError {
    Io(IoFailure),
    Serialization(String),
    AssetLoad(String),
    Network(String),
    Physics(String),
    Rendering(String),
    Audio(String),
    Scene(String),
    Config(String),
    NotFound(String),
    InvalidOperation(String),
    Custom(String),
}

/// The message that `ResonanceError::message` gives.
pub open spec fn resonance_error_text(e: &ResonanceError) -> Seq<char> {
    match e {
        ResonanceError::Io(f) => "IO error: "@ + f.message@,
        ResonanceError::Serialization(m) => "Serialization error: "@ + m@,
        ResonanceError::AssetLoad(m) => "Asset loading error: "@ + m@,
        ResonanceError::Network(m) => "Network error: "@ + m@,
        ResonanceError::Physics(m) => "Physics error: "@ + m@,
        ResonanceError::Rendering(m) => "Rendering error: "@ + m@,
        ResonanceError::Audio(m) => "Audio error: "@ + m@,
        ResonanceError::Scene(m) => "Scene error: "@ + m@,
        ResonanceError::Config(m) => "Configuration error: "@ + m@,
        ResonanceError::NotFound(m) => "Resource not found: "@ + m@,
        ResonanceError::InvalidOperation(m) => "Invalid operation: "@ + m@,
        ResonanceError::Custom(m) => m@,
    }
}

impl ResonanceError {
    /// A free-form failure with the given message.
    pub fn custom(msg: String) -> (r: Self)
        ensures
            r matches ResonanceError::Custom(m) && m@ == msg@,
    {
        ResonanceError::Custom(msg)
    }

    /// A failure to load an asset.
    pub fn asset_load(msg: String) -> (r: Self)
        ensures
            r matches ResonanceError::AssetLoad(m) && m@ == msg@,
    {
        ResonanceError::AssetLoad(msg)
    }

    /// A failure in scene handling.
    pub fn scene(msg: String) -> (r: Self)
        ensures
            r matches ResonanceError::Scene(m) && m@ == msg@,
    {
        ResonanceError::Scene(msg)
    }

    /// A failure to serialize or deserialize.
    pub fn serialization(msg: String) -> (r: Self)
        ensures
            r matches ResonanceError::Serialization(m) && m@ == msg@,
    {
        ResonanceError::Serialization(msg)
    }

    /// A resource that does not exist.
    pub fn not_found(msg: String) -> (r: Self)
        ensures
            r matches ResonanceError::NotFound(m) && m@ == msg@,
    {
        ResonanceError::NotFound(msg)
    }

    /// An operation that is not allowed now.
    pub fn invalid_operation(msg: String) -> (r: Self)
        ensures
            r matches ResonanceError::InvalidOperation(m) && m@ == msg@,
    {
        ResonanceError::InvalidOperation(msg)
    }

    /// The human-readable message for this failure.
    pub fn message(&self) -> (s: String)
        ensures
            s@ == resonance_error_text(self),
    {
        match self {
            ResonanceError::Io(f) => String::from_str("IO error: ").concat(f.message.as_str()),
            ResonanceError::Serialization(m) => String::from_str("Serialization error: ").concat(m.as_str()),
            ResonanceError::AssetLoad(m) => String::from_str("Asset loading error: ").concat(m.as_str()),
            ResonanceError::Network(m) => String::from_str("Network error: ").concat(m.as_str()),
            ResonanceError::Physics(m) => String::from_str("Physics error: ").concat(m.as_str()),
            ResonanceError::Rendering(m) => String::from_str("Rendering error: ").concat(m.as_str()),
            ResonanceError::Audio(m) => String::from_str("Audio error: ").concat(m.as_str()),
            ResonanceError::Scene(m) => String::from_str("Scene error: ").concat(m.as_str()),
            ResonanceError::Config(m) => String::from_str("Configuration error: ").concat(m.as_str()),
            ResonanceError::NotFound(m) => String::from_str("Resource not found: ").concat(m.as_str()),
            ResonanceError::InvalidOperation(m) => String::from_str("Invalid operation: ").concat(m.as_str()),
            ResonanceError::Custom(m) => m.clone(),
        }
    }
}

} // verus!
