//! Where assets come from: a directory on disk, or a PAK archive.
use crate::assets::loader::LoadError;
use crate::assets::pak::{pak_error_text, PakArchive, PakError};
use crate::assets::pak_spec::{pak_get, PakErrorView};
use crate::outside::{join_path, joined_path};
use std::sync::Arc;
use vstd::prelude::*;
use vstd::string::StringExecFns;

verus! {

/// How to find the asset source: chosen by build profile, a directory, or an
/// archive file.
#[derive(Debug, Clone)]
pub enum AssetSourceConfig {
    Auto,
    FileSystem(String),
    PakFile(String),
}

impl Default for AssetSourceConfig {
    fn default() -> (r: Self)
        ensures
            r is Auto,
    {
        AssetSourceConfig::Auto
    }
}

/// An opened asset source.
pub enum AssetSource {
    FileSystem { root: String },
    PakArchive { pak: Arc<PakArchive> },
}

/// The failure that reading `path` from an archive turns into: a missing
/// asset is not found, anything else failed to load.
pub open spec fn pak_load_failure(e: PakErrorView, path: Seq<char>, m: Seq<char>) -> bool {
    match e {
        PakErrorView::AssetNotFound(_) => m == "Asset not found in PAK: "@ + path,
        _ => m == "Failed to read from PAK: "@ + pak_error_text(e),
    }
}

/// Turns a failure to read `path` from an archive into a load failure.
pub fn pak_load_error(e: PakError, path: &str) -> (r: LoadError)
    ensures
        match e@ {
            PakErrorView::AssetNotFound(_) => r matches LoadError::NotFound(m) && pak_load_failure(e@, path@, m@),
            _ => r matches LoadError::LoadFailed(m) && pak_load_failure(e@, path@, m@),
        },
{
    match e {
        PakError::AssetNotFound(_) => LoadError::NotFound(String::from_str("Asset not found in PAK: ").concat(path)),
        _ => LoadError::LoadFailed(String::from_str("Failed to read from PAK: ").concat(e.message().as_str())),
    }
}

/// Turns a failure to read `path` (found at `full_path`) from disk into a load
/// failure: a missing file is not found, anything else failed to load for
/// `reason`.
pub fn file_load_error(path: &str, full_path: &str, not_found: bool, reason: &str) -> (r: LoadError)
    ensures
        not_found ==> (r matches LoadError::NotFound(m) && m@ == "Asset not found: "@ + path@
            + " (full path: "@ + full_path@ + ")"@),
        !not_found ==> (r matches LoadError::LoadFailed(m) && m@ == "Failed to read "@ + path@ + ": "@
            + reason@),
{
    if not_found {
        LoadError::NotFound(String::from_str("Asset not found: ").concat(path).concat(" (full path: ").concat(full_path).concat(")"))
    } else {
        LoadError::LoadFailed(String::from_str("Failed to read ").concat(path).concat(": ").concat(reason))
    }
}

impl AssetSource {
    /// Whether the source holds `path`, where it can tell without the disk: an
    /// archive answers; a directory leaves it to a look at
    /// `get_filesystem_path(path)`.
    pub fn contains(&self, path: &str) -> (r: Option<bool>)
        ensures
            match self {
                AssetSource::FileSystem { .. } => r is None,
                AssetSource::PakArchive { pak } => r == Some(pak@.entries.contains_key(path@)),
            },
    {
        match self {
            AssetSource::FileSystem { .. } => None,
            AssetSource::PakArchive { pak } => Some(pak.contains(path)),
        }
    }

    /// Where `path` lies on disk: under the root for a directory; nowhere for
    /// an archive.
    pub fn get_filesystem_path(&self, path: &str) -> (r: Option<String>)
        ensures
            match self {
                AssetSource::FileSystem { root } => r matches Some(s) && s@ == joined_path(root@, path@),
                AssetSource::PakArchive { .. } => r is None,
            },
    {
        match self {
            AssetSource::FileSystem { root } => Some(join_path(root.as_str(), path)),
            AssetSource::PakArchive { .. } => None,
        }
    }

    /// Whether changed files can be reloaded: only from a directory.
    pub fn supports_hot_reload(&self) -> (r: bool)
        ensures
            r == (self is FileSystem),
    {
        match self {
            AssetSource::FileSystem { .. } => true,
            AssetSource::PakArchive { .. } => false,
        }
    }

    /// Reads `path` where the source can do so without the disk: an archive
    /// gives the asset or the load failure; a directory gives nothing.
    pub fn load_pak_bytes(&self, path: &str) -> (r: Option<Result<Vec<u8>, LoadError>>)
        ensures
            match self {
                AssetSource::FileSystem { .. } => r is None,
                AssetSource::PakArchive { pak } => match pak_get(pak@, path@) {
                    Ok(v) => r matches Some(Ok(d)) && d@ == v,
                    Err(x) => r matches Some(Err(le)) && match x {
                        PakErrorView::AssetNotFound(_) => le matches LoadError::NotFound(m) && pak_load_failure(x, path@, m@),
                        _ => le matches LoadError::LoadFailed(m) && pak_load_failure(x, path@, m@),
                    },
                },
            },
    {
        match self {
            AssetSource::FileSystem { .. } => None,
            AssetSource::PakArchive { pak } => match pak.get(path) {
                Ok(d) => Some(Ok(d)),
                Err(e) => Some(Err(pak_load_error(e, path))),
            },
        }
    }
}

} // verus!
