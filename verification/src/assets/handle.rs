//! Asset identifiers and handles.
use std::sync::Arc;
use vstd::prelude::*;
use vstd::utf8::encode_utf8;
use vstd::wrapping::u64_specs;

verus! {

/// Identifies an asset; ids made from paths hash the path.
#[derive(Debug, Clone, Copy, PartialEq, Eq, Hash, Structural)]
pub struct AssetId(pub u64);

/// The multiplicative hash of `bytes`: starting at 0, each byte updates the
/// hash to `hash * 31 + byte`, wrapping at 64 bits.
pub open spec fn path_hash(bytes: Seq<u8>) -> u64
    decreases bytes.len(),
{
    if bytes.len() == 0 {
        0
    } else {
        u64_specs::wrapping_add(
            u64_specs::wrapping_mul(path_hash(bytes.drop_last()), 31),
            bytes.last() as u64,
        )
    }
}

/// The id that `AssetId::from_path` gives the path `p`: the hash of its
/// UTF-8 bytes.
pub open spec fn path_id(p: Seq<char>) -> u64 {
    path_hash(encode_utf8(p))
}

impl AssetId {
    /// The id with the given number.
    pub fn new(id: u64) -> (r: Self)
        ensures
            r.0 == id,
    {
        AssetId(id)
    }

    /// The id of the asset at `path`.
    pub fn from_path(path: &str) -> (r: Self)
        ensures
            r.0 == path_id(path@),
    {
        let bytes = path.as_bytes();
        let mut hash: u64 = 0;
        let mut i: usize = 0;
        while i < bytes.len()
            invariant
                i <= bytes@.len(),
                bytes@ == encode_utf8(path@),
                hash == path_hash(bytes@.take(i as int)),
            decreases bytes@.len() - i,
        {
            proof {
                assert(bytes@.take(i + 1).drop_last() =~= bytes@.take(i as int));
            }
            hash = hash.wrapping_mul(31).wrapping_add(bytes[i] as u64);
            i = i + 1;
        }
        proof {
            assert(bytes@.take(i as int) =~= bytes@);
        }
        AssetId(hash)
    }
}

/// A loaded asset together with its id and path.
#[derive(Debug, Clone)]
pub struct AssetHandle<T> {
    pub asset: Arc<T>,
    pub id: AssetId,
    pub path: String,
}

impl<T> AssetHandle<T> {
    /// A handle with the given asset, id and path.
    pub fn new(asset: Arc<T>, id: AssetId, path: String) -> (r: Self)
        ensures
            r.asset == asset,
            r.id == id,
            r.path@ == path@,
    {
        AssetHandle { asset, id, path }
    }

    /// A handle whose id is made from `path`.
    pub fn from_path_and_asset(path: String, asset: Arc<T>) -> (r: Self)
        ensures
            r.asset == asset,
            r.id.0 == path_id(path@),
            r.path@ == path@,
    {
        let id = AssetId::from_path(path.as_str());
        AssetHandle::new(asset, id, path)
    }
}

} // verus!
