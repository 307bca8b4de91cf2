//! Shader sources.
use crate::assets::loader::LoadError;
use crate::outside::{string_from_utf8, utf8_error_text};
use vstd::prelude::*;
use vstd::slice::slice_to_vec;
use vstd::string::StringExecFns;
use vstd::utf8::{decode_utf8, valid_utf8};

verus! {

/// The shading language of a source.
#[derive(Clone, Copy, Debug, PartialEq, Eq, Structural)]
pub enum ShaderType {
    Wgsl,
    Glsl,
}

/// A shader's source text and language.
#[derive(Debug)]
pub struct ShaderData {
    pub source: String,
    pub shader_type: ShaderType,
}

impl ShaderData {
    /// A shader with the given source and language.
    pub fn new(source: String, shader_type: ShaderType) -> (r: Self)
        ensures
            r.source@ == source@,
            r.shader_type == shader_type,
    {
        ShaderData { source, shader_type }
    }
}

/// Loads WGSL shaders from disk.
pub struct WgslLoader;

/// A shader whose source is `bytes` read as UTF-8. Fails, saying why, where
/// the bytes are not UTF-8.
pub fn load_shader_from_bytes(bytes: &[u8], shader_type: ShaderType) -> (r: Result<ShaderData, LoadError>)
    ensures
        valid_utf8(bytes@) ==> (r matches Ok(s) && s.source@ == decode_utf8(bytes@) && s.shader_type
            == shader_type),
        !valid_utf8(bytes@) ==> (r matches Err(LoadError::LoadFailed(m)) && m@
            == "Invalid UTF-8 in shader: "@ + utf8_error_text(bytes@)),
{
    match string_from_utf8(slice_to_vec(bytes)) {
        Ok(source) => Ok(ShaderData { source, shader_type }),
        Err(m) => Err(LoadError::LoadFailed(String::from_str("Invalid UTF-8 in shader: ").concat(m.as_str()))),
    }
}

} // verus!
