//! Calls into outside crates, each behind a contract that the rest of the
//! library relies on.
use flate2::read::DeflateDecoder;
use flate2::write::DeflateEncoder;
use flate2::Compression;
use std::io::{Read, Write};
use vstd::prelude::*;
use vstd::utf8::{decode_utf8, valid_utf8};

verus! {

/// One round of the reflected CRC-32 (IEEE 802.3) shift register.
pub open spec fn crc32_round(c: u32) -> u32 {
    if c & 1u32 == 1u32 {
        (c >> 1u32) ^ 0xEDB8_8320u32
    } else {
        c >> 1u32
    }
}

/// `k` rounds of the shift register.
pub open spec fn crc32_rounds(c: u32, k: nat) -> u32
    decreases k,
{
    if k == 0 {
        c
    } else {
        crc32_rounds(crc32_round(c), (k - 1) as nat)
    }
}

/// Register state after feeding `data`, starting from all ones.
pub open spec fn crc32_register(data: Seq<u8>) -> u32
    decreases data.len(),
{
    if data.len() == 0 {
        0xFFFF_FFFFu32
    } else {
        crc32_rounds(crc32_register(data.drop_last()) ^ (data.last() as u32), 8)
    }
}

/// The CRC-32 (IEEE) checksum of `data`.
pub open spec fn crc32(data: Seq<u8>) -> u32 {
    crc32_register(data) ^ 0xFFFF_FFFFu32
}

/// `crc32fast::hash`: the crate computes the standard CRC-32 (IEEE) checksum,
/// which `crc32` spells out bit by bit.
#[verifier::external_body]
pub fn crc32_of(data: &[u8]) -> (r: u32)
    ensures
        r == crc32(data@),
{
    crc32fast::hash(data)
}


/// What `String::from_utf8` reports, through `Display`, of bytes that are not
/// UTF-8.
pub uninterp spec fn utf8_error_text(bytes: Seq<u8>) -> Seq<char>;

/// `String::from_utf8`: std accepts exactly the well-formed UTF-8 sequences and
/// keeps the bytes; `valid_utf8` and `decode_utf8` are vstd's statement of the
/// standard. The error's text is named, not stated.
#[verifier::external_body]
pub fn string_from_utf8(bytes: Vec<u8>) -> (r: Result<String, String>)
    ensures
        match r {
            Ok(s) => valid_utf8(bytes@) && s@ == decode_utf8(bytes@),
            Err(m) => !valid_utf8(bytes@) && m@ == utf8_error_text(bytes@),
        },
{
    match String::from_utf8(bytes) {
        Ok(s) => Ok(s),
        Err(e) => Err(e.to_string()),
    }
}


/// What `flate2`'s `DeflateEncoder` at `Compression::best()` produces from
/// `data` (the compressed bytes, or the text of the I/O error it reports).
pub uninterp spec fn deflated(data: Seq<u8>) -> Result<Seq<u8>, Seq<char>>;

/// What `flate2`'s `DeflateDecoder` produces from `data` (the inflated
/// bytes, or the text of the I/O error it reports).
pub uninterp spec fn inflated(data: Seq<u8>) -> Result<Seq<u8>, Seq<char>>;

/// `flate2::write::DeflateEncoder` at `Compression::best()`, fed all of
/// `data` and finished. Its result is named; the contract adds that deflate
/// is lossless: what it produces inflates back to `data`.
#[verifier::external_body]
pub fn deflate_compress(data: &[u8]) -> (r: Result<Vec<u8>, String>)
    ensures
        match r {
            Ok(c) => deflated(data@) == Ok::<Seq<u8>, Seq<char>>(c@) && inflated(c@) == Ok::<
                Seq<u8>,
                Seq<char>,
            >(data@),
            Err(m) => deflated(data@) == Err::<Seq<u8>, Seq<char>>(m@),
        },
{
    let mut encoder = DeflateEncoder::new(Vec::new(), Compression::best());
    if let Err(e) = encoder.write_all(data) {
        return Err(e.to_string());
    }
    match encoder.finish() {
        Ok(v) => Ok(v),
        Err(e) => Err(e.to_string()),
    }
}

/// `flate2::read::DeflateDecoder` over `data`, read to the end. Its result is
/// named.
#[verifier::external_body]
pub fn deflate_decompress(data: &[u8]) -> (r: Result<Vec<u8>, String>)
    ensures
        match r {
            Ok(v) => inflated(data@) == Ok::<Seq<u8>, Seq<char>>(v@),
            Err(m) => inflated(data@) == Err::<Seq<u8>, Seq<char>>(m@),
        },
{
    let mut decoder = DeflateDecoder::new(data);
    let mut out = Vec::new();
    match decoder.read_to_end(&mut out) {
        Ok(_) => Ok(out),
        Err(e) => Err(e.to_string()),
    }
}


/// What `image::load_from_memory` decodes from `bytes`, converted to 8-bit
/// RGBA: width, height and pixel bytes, or the text of the error it reports.
pub uninterp spec fn decoded_image(bytes: Seq<u8>) -> Result<(u32, u32, Seq<u8>), Seq<char>>;

/// `image::load_from_memory`, then `to_rgba8`. Its result is named; the
/// contract adds what `image` documents of an RGBA buffer: four bytes per
/// pixel, row by row.
#[verifier::external_body]
pub fn decode_image_rgba(bytes: &[u8]) -> (r: Result<(u32, u32, Vec<u8>), String>)
    ensures
        match r {
            Ok((w, h, d)) => decoded_image(bytes@) == Ok::<(u32, u32, Seq<u8>), Seq<char>>(
                (w, h, d@),
            ) && d@.len() == w as int * h as int * 4,
            Err(m) => decoded_image(bytes@) == Err::<(u32, u32, Seq<u8>), Seq<char>>(m@),
        },
{
    match image::load_from_memory(bytes) {
        Ok(img) => {
            let rgba = img.to_rgba8();
            Ok((rgba.width(), rgba.height(), rgba.into_raw()))
        },
        Err(e) => Err(e.to_string()),
    }
}


/// What `Path::new(root).join(rel)`, rendered back through
/// `to_string_lossy`, gives for the build's target platform: `rel` itself
/// where it is absolute, else `rel` appended to `root` with the platform's
/// separator, with the normalisations std applies on some platforms (a
/// verbatim Windows root, for one). The result depends on the two texts and
/// the target alone.
pub uninterp spec fn joined_path(root: Seq<char>, rel: Seq<char>) -> Seq<char>;

/// `Path::join`, rendered back to a `String`. Its result is named: how the
/// parts are joined depends on the target platform's path rules, which are
/// not spelled out here.
#[verifier::external_body]
pub fn join_path(root: &str, rel: &str) -> (r: String)
    ensures
        r@ == joined_path(root@, rel@),
{
    std::path::Path::new(root).join(rel).to_string_lossy().into_owned()
}


/// `Arc::clone`: a second pointer to the same allocation, which Verus reads
/// as the same value.
#[verifier::external_body]
pub(crate) fn share_arc<T>(a: &std::sync::Arc<T>) -> (r: std::sync::Arc<T>)
    ensures
        r == *a,
{
    a.clone()
}


/// `std::any::TypeId`, carried through as an opaque value.
#[verifier::external_type_specification]
#[verifier::external_body]
pub struct ExTypeId(std::any::TypeId);

/// `TypeId`'s `==`: std documents that two ids are equal exactly when they
/// name the same type, that is, when they are the same value.
#[verifier::external_body]
pub fn same_type_id(a: &std::any::TypeId, b: &std::any::TypeId) -> (r: bool)
    ensures
        r == (*a == *b),
{
    *a == *b
}


/// Whether `Path::new(a) == Path::new(b)`: std compares paths component by
/// component, so texts that differ only in repeated separators, a trailing
/// separator or inner `.` parts name the same path. The result is named; the
/// contract adds that a text is the same path as itself, as `Path`'s `Eq`
/// documents.
pub uninterp spec fn same_path(a: Seq<char>, b: Seq<char>) -> bool;

/// `Path`'s `==` on two paths given as text.
#[verifier::external_body]
pub fn paths_equal(a: &str, b: &str) -> (r: bool)
    ensures
        r == same_path(a@, b@),
        a@ == b@ ==> r,
{
    std::path::Path::new(a) == std::path::Path::new(b)
}


/// `str`'s `==`: std compares the text, so it is true exactly when the two
/// strings hold the same characters.
#[verifier::external_body]
pub fn str_equals(a: &str, b: &str) -> (r: bool)
    ensures
        r == (a@ == b@),
{
    a == b
}


/// `dashmap::DashMap`, held by the library as a collection of its own.
#[verifier::external_type_specification]
#[verifier::external_body]
#[verifier::reject_recursive_types(K)]
#[verifier::reject_recursive_types(V)]
#[verifier::reject_recursive_types(S)]
pub struct ExDashMap<K, V, S>(dashmap::DashMap<K, V, S>);

/// Mesh buffer sizes (vertex bytes, index bytes) by asset id.
pub type MeshSizeMap = dashmap::DashMap<u64, (u64, u64)>;

/// What a `DashMap` of mesh buffer sizes holds: sizes by asset id.
pub uninterp spec fn mesh_table(m: MeshSizeMap) -> Map<u64, (u64, u64)>;

/// `DashMap::new`: an empty map.
#[verifier::external_body]
pub fn mesh_table_new() -> (r: MeshSizeMap)
    ensures
        mesh_table(r).dom() == Set::<u64>::empty(),
{
    dashmap::DashMap::new()
}

/// `DashMap::insert`: the key now maps to the value; the value it had, if
/// any, comes back.
#[verifier::external_body]
pub fn mesh_table_insert(m: &mut MeshSizeMap, k: u64, v: (u64, u64)) -> (r: Option<(u64, u64)>)
    ensures
        mesh_table(*final(m)) == mesh_table(*old(m)).insert(k, v),
        r == (if mesh_table(*old(m)).contains_key(k) {
            Some(mesh_table(*old(m))[k])
        } else {
            None
        }),
{
    m.insert(k, v)
}

/// `DashMap::remove`: the key is gone; its entry, if it had one, comes back.
#[verifier::external_body]
pub fn mesh_table_remove(m: &mut MeshSizeMap, k: u64) -> (r: Option<(u64, (u64, u64))>)
    ensures
        mesh_table(*final(m)) == mesh_table(*old(m)).remove(k),
        r == (if mesh_table(*old(m)).contains_key(k) {
            Some((k, mesh_table(*old(m))[k]))
        } else {
            None
        }),
{
    m.remove(&k)
}

/// `DashMap::len`: how many keys the map holds.
#[verifier::external_body]
pub fn mesh_table_len(m: &MeshSizeMap) -> (r: usize)
    ensures
        r == mesh_table(*m).len(),
{
    m.len()
}

} // verus!
