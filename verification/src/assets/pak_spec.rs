//! The PAK archive's byte layout, stated as spec functions: what a well-formed
//! archive holds, what reading one yields, and what building one writes.
//!
//! An archive is a header (`RESPAK`, a little-endian `u32` version, a
//! little-endian `u32` entry count), a table of entries, then the stored
//! blobs. Each table entry is the path's byte length (`u32`), the path in
//! UTF-8, the blob's offset and size (`u64`), the CRC-32 of the original data
//! (`u32`), a compression flag (one byte) and the original size (`u64`).
use crate::outside::{crc32, deflated, inflated, utf8_error_text};
use crate::text::decimal;
use vstd::bytes::{spec_u32_from_le_bytes, spec_u32_to_le_bytes, spec_u64_from_le_bytes, spec_u64_to_le_bytes};
use vstd::prelude::*;
use vstd::utf8::{decode_utf8, encode_utf8, valid_utf8};

verus! {

/// The format version this library reads and writes.
pub const PAK_VERSION: u32 = 1;

/// The largest original size of an asset that `get` hands out (one GiB).
pub const MAX_ASSET_SIZE: u64 = 1073741824;

/// Bytes of a table entry besides the length prefix and the path itself.
pub const ENTRY_FIXED_LEN: u64 = 29;

/// Bytes of the archive header.
pub const HEADER_LEN: u64 = 14;

/// The six magic bytes `RESPAK`.
pub open spec fn pak_magic() -> Seq<u8> {
    seq![82u8, 69u8, 83u8, 80u8, 65u8, 75u8]
}

/// The kinds of I/O failure that archive handling reports.
#[derive(Clone, Copy, Debug, PartialEq, Eq, Structural)]
pub enum IoErrorKind {
    NotFound,
    UnexpectedEof,
    InvalidData,
    Other,
}

/// A table entry, as plain values.
pub struct PakEntryView {
    pub path: Seq<char>,
    pub offset: u64,
    pub size: u64,
    pub checksum: u32,
    pub compressed: bool,
    pub original_size: u64,
}

/// A failure of archive handling, as plain values.
pub enum PakErrorView {
    InvalidMagic,
    UnsupportedVersion(u32),
    AssetNotFound(Seq<char>),
    Io(IoErrorKind, Seq<char>),
    CompressionFailed(Seq<char>),
    DecompressionFailed(Seq<char>),
}

/// An opened archive: its bytes, and its entries by path.
pub struct PakArchiveView {
    pub data: Seq<u8>,
    pub entries: Map<Seq<char>, PakEntryView>,
}

/// Input ran out before a field was complete.
pub open spec fn eof_failure() -> PakErrorView {
    PakErrorView::Io(IoErrorKind::UnexpectedEof, "failed to fill whole buffer"@)
}

/// The UTF-8 bytes of a path.
pub open spec fn path_bytes(p: Seq<char>) -> Seq<u8> {
    encode_utf8(p)
}

/// The byte that stands for the compression flag.
pub open spec fn flag_byte(b: bool) -> u8 {
    if b { 1u8 } else { 0u8 }
}

/// One table entry as written. The length prefix is the path's byte length
/// cut to 32 bits.
pub open spec fn encode_entry(e: PakEntryView) -> Seq<u8> {
    spec_u32_to_le_bytes(path_bytes(e.path).len() as u32) + path_bytes(e.path)
        + spec_u64_to_le_bytes(e.offset) + spec_u64_to_le_bytes(e.size)
        + spec_u32_to_le_bytes(e.checksum) + seq![flag_byte(e.compressed)]
        + spec_u64_to_le_bytes(e.original_size)
}

/// Reads one table entry from the front of `b`: the entry and the number of
/// bytes it took, or the failure.
pub open spec fn parse_entry(b: Seq<u8>) -> Result<(PakEntryView, int), PakErrorView> {
    if b.len() < 4 {
        Err(eof_failure())
    } else {
        let n = spec_u32_from_le_bytes(b.subrange(0, 4)) as int;
        if b.len() < 4 + n {
            Err(eof_failure())
        } else {
            let pb = b.subrange(4, 4 + n);
            if !valid_utf8(pb) {
                Err(PakErrorView::Io(IoErrorKind::InvalidData, utf8_error_text(pb)))
            } else if b.len() < 4 + n + 29 {
                Err(eof_failure())
            } else {
                let p = 4 + n;
                Ok((PakEntryView {
                    path: decode_utf8(pb),
                    offset: spec_u64_from_le_bytes(b.subrange(p, p + 8)),
                    size: spec_u64_from_le_bytes(b.subrange(p + 8, p + 16)),
                    checksum: spec_u32_from_le_bytes(b.subrange(p + 16, p + 20)),
                    compressed: b[p + 20] != 0u8,
                    original_size: spec_u64_from_le_bytes(b.subrange(p + 21, p + 29)),
                }, p + 29))
            }
        }
    }
}

/// Reads `n` table entries one after the other from the front of `b`.
pub open spec fn parse_entries(b: Seq<u8>, n: nat) -> Result<Seq<PakEntryView>, PakErrorView>
    decreases n,
{
    if n == 0 {
        Ok(Seq::empty())
    } else {
        match parse_entry(b) {
            Ok((e, k)) => match parse_entries(b.skip(k), (n - 1) as nat) {
                Ok(es) => Ok(seq![e] + es),
                Err(x) => Err(x),
            },
            Err(x) => Err(x),
        }
    }
}

/// Reads the header and the table of an archive.
pub open spec fn parse_pak(b: Seq<u8>) -> Result<Seq<PakEntryView>, PakErrorView> {
    if b.len() < 6 {
        Err(eof_failure())
    } else if b.subrange(0, 6) != pak_magic() {
        Err(PakErrorView::InvalidMagic)
    } else if b.len() < 10 {
        Err(eof_failure())
    } else if spec_u32_from_le_bytes(b.subrange(6, 10)) != PAK_VERSION {
        Err(PakErrorView::UnsupportedVersion(spec_u32_from_le_bytes(b.subrange(6, 10))))
    } else if b.len() < 14 {
        Err(eof_failure())
    } else {
        parse_entries(b.skip(14), spec_u32_from_le_bytes(b.subrange(10, 14)) as nat)
    }
}

/// Entries by path, a later entry replacing an earlier one of the same path.
pub open spec fn table(es: Seq<PakEntryView>) -> Map<Seq<char>, PakEntryView>
    decreases es.len(),
{
    if es.len() == 0 {
        Map::empty()
    } else {
        table(es.drop_last()).insert(es.last().path, es.last())
    }
}

/// What opening the bytes `b` as an archive gives.
pub open spec fn open_pak(b: Seq<u8>) -> Result<PakArchiveView, PakErrorView> {
    match parse_pak(b) {
        Ok(es) => Ok(PakArchiveView { data: b, entries: table(es) }),
        Err(x) => Err(x),
    }
}

/// The message of the failure for an asset over `MAX_ASSET_SIZE`.
pub open spec fn too_large_text(p: Seq<char>, size: u64) -> Seq<char> {
    "Asset "@ + p + " exceeds maximum size ("@ + decimal(size as nat) + " > "@ + decimal(
        MAX_ASSET_SIZE as nat,
    ) + " bytes)"@
}

/// The message of the failure for an entry that reaches past the archive.
pub open spec fn out_of_range_text() -> Seq<char> {
    "Entry offset/size exceeds PAK file size"@
}

/// What reading the asset at path `p` from the archive `a` gives.
pub open spec fn pak_get(a: PakArchiveView, p: Seq<char>) -> Result<Seq<u8>, PakErrorView> {
    if !a.entries.contains_key(p) {
        Err(PakErrorView::AssetNotFound(p))
    } else {
        let e = a.entries[p];
        if e.original_size > MAX_ASSET_SIZE {
            Err(PakErrorView::Io(IoErrorKind::InvalidData, too_large_text(p, e.original_size)))
        } else if e.offset + e.size > a.data.len() {
            Err(PakErrorView::Io(IoErrorKind::UnexpectedEof, out_of_range_text()))
        } else {
            let raw = a.data.subrange(e.offset as int, e.offset + e.size);
            if e.compressed {
                match inflated(raw) {
                    Ok(v) => Ok(v),
                    Err(m) => Err(PakErrorView::DecompressionFailed(m)),
                }
            } else {
                Ok(raw)
            }
        }
    }
}

/// A builder's list of (path, data) pairs and its compression switch.
pub struct PakBuilderView {
    pub entries: Seq<(Seq<char>, Seq<u8>)>,
    pub compress: bool,
}

/// The bytes stored for `d`, and whether they are compressed: the deflated
/// form where compression is on, succeeds and is shorter, else `d` itself.
pub open spec fn stored_form(d: Seq<u8>, compress: bool) -> (Seq<u8>, bool) {
    if compress {
        match deflated(d) {
            Ok(c) => if c.len() < d.len() {
                (c, true)
            } else {
                (d, false)
            },
            Err(_) => (d, false),
        }
    } else {
        (d, false)
    }
}

/// Bytes of the table for these pairs.
pub open spec fn table_len(es: Seq<(Seq<char>, Seq<u8>)>) -> nat
    decreases es.len(),
{
    if es.len() == 0 {
        0
    } else {
        table_len(es.drop_last()) + 4 + path_bytes(es.last().0).len() + ENTRY_FIXED_LEN as nat
    }
}

/// Bytes of the stored blobs for these pairs.
pub open spec fn blobs_len(es: Seq<(Seq<char>, Seq<u8>)>, compress: bool) -> nat
    decreases es.len(),
{
    if es.len() == 0 {
        0
    } else {
        blobs_len(es.drop_last(), compress) + stored_form(es.last().1, compress).0.len()
    }
}

/// Bytes of the original data of these pairs.
pub open spec fn data_len(es: Seq<(Seq<char>, Seq<u8>)>) -> nat
    decreases es.len(),
{
    if es.len() == 0 {
        0
    } else {
        data_len(es.drop_last()) + es.last().1.len()
    }
}

/// Where the blobs begin.
pub open spec fn data_start(es: Seq<(Seq<char>, Seq<u8>)>) -> nat {
    HEADER_LEN as nat + table_len(es)
}

/// The table entry written for pair `i`.
pub open spec fn built_entry(es: Seq<(Seq<char>, Seq<u8>)>, compress: bool, i: int) -> PakEntryView {
    let s = stored_form(es[i].1, compress);
    PakEntryView {
        path: es[i].0,
        offset: (data_start(es) + blobs_len(es.take(i), compress)) as u64,
        size: s.0.len() as u64,
        checksum: crc32(es[i].1),
        compressed: s.1,
        original_size: es[i].1.len() as u64,
    }
}

/// The table entries written for all pairs, in order.
pub open spec fn built_entries(es: Seq<(Seq<char>, Seq<u8>)>, compress: bool) -> Seq<PakEntryView> {
    Seq::new(es.len(), |i: int| built_entry(es, compress, i))
}

/// The table's bytes.
pub open spec fn encode_table(ents: Seq<PakEntryView>) -> Seq<u8>
    decreases ents.len(),
{
    if ents.len() == 0 {
        Seq::empty()
    } else {
        encode_table(ents.drop_last()) + encode_entry(ents.last())
    }
}

/// The stored blobs, one after the other.
pub open spec fn blobs(es: Seq<(Seq<char>, Seq<u8>)>, compress: bool) -> Seq<u8>
    decreases es.len(),
{
    if es.len() == 0 {
        Seq::empty()
    } else {
        blobs(es.drop_last(), compress) + stored_form(es.last().1, compress).0
    }
}

/// The header for `n` entries; the count is cut to 32 bits.
pub open spec fn header(n: nat) -> Seq<u8> {
    pak_magic() + spec_u32_to_le_bytes(PAK_VERSION) + spec_u32_to_le_bytes(n as u32)
}

/// The archive that a builder writes.
pub open spec fn pak_image(b: PakBuilderView) -> Seq<u8> {
    header(b.entries.len()) + encode_table(built_entries(b.entries, b.compress)) + blobs(
        b.entries,
        b.compress,
    )
}

/// The data last added under path `p`.
pub open spec fn latest_data(es: Seq<(Seq<char>, Seq<u8>)>, p: Seq<char>) -> Seq<u8>
    decreases es.len(),
{
    if es.len() == 0 {
        Seq::empty()
    } else if es.last().0 == p {
        es.last().1
    } else {
        latest_data(es.drop_last(), p)
    }
}

/// Whether some pair has path `p`.
pub open spec fn has_path(es: Seq<(Seq<char>, Seq<u8>)>, p: Seq<char>) -> bool {
    exists|i: int| 0 <= i < es.len() && #[trigger] es[i].0 == p
}

/// The limits within which a built archive reads back: the entry count and
/// every path's byte length fit their 32-bit fields, and the whole archive
/// fits in memory.
pub open spec fn within_format_limits(b: PakBuilderView) -> bool {
    &&& b.entries.len() <= u32::MAX
    &&& forall|i: int| 0 <= i < b.entries.len() ==> path_bytes(#[trigger] b.entries[i].0).len() <= u32::MAX
    &&& data_start(b.entries) + data_len(b.entries) <= usize::MAX
}


/// No two entries share a path.
pub open spec fn distinct_paths(es: Seq<PakEntryView>) -> bool {
    forall|i: int, j: int| 0 <= i < j < es.len() ==> es[i].path != es[j].path
}

/// With distinct paths, `table` holds every entry under its own path, and
/// nothing else.
pub proof fn lemma_table_lookup(es: Seq<PakEntryView>)
    requires
        distinct_paths(es),
    ensures
        forall|i: int|
            0 <= i < es.len() ==> table(es).contains_key(#[trigger] es[i].path) && table(es)[es[i].path]
                == es[i],
        forall|p: Seq<char>|
            #[trigger] table(es).contains_key(p) ==> exists|i: int| 0 <= i < es.len() && es[i].path == p,
        table(es).dom().finite(),
        table(es).len() == es.len(),
    decreases es.len(),
{
    if es.len() > 0 {
        let init = es.drop_last();
        let l = es.last();
        lemma_table_lookup(init);
        assert forall|i: int| 0 <= i < es.len() implies table(es).contains_key(#[trigger] es[i].path)
            && table(es)[es[i].path] == es[i] by {
            if i < es.len() - 1 {
                assert(init[i] == es[i]);
            }
        }
        assert forall|p: Seq<char>| #[trigger] table(es).contains_key(p) implies exists|i: int|
            0 <= i < es.len() && es[i].path == p by {
            if p != l.path {
                assert(table(init).contains_key(p));
                let i = choose|i: int| 0 <= i < init.len() && init[i].path == p;
                assert(es[i] == init[i]);
            } else {
                assert(es[es.len() - 1].path == p);
            }
        }
        assert(!table(init).contains_key(l.path)) by {
            if table(init).contains_key(l.path) {
                let i = choose|i: int| 0 <= i < init.len() && init[i].path == l.path;
                assert(es[i] == init[i]);
            }
        }
    }
}

/// Replacing an entry by one of the same path replaces it in the table.
pub proof fn lemma_table_replace(es: Seq<PakEntryView>, i: int, e: PakEntryView)
    requires
        distinct_paths(es),
        0 <= i < es.len(),
        es[i].path == e.path,
    ensures
        table(es.update(i, e)) == table(es).insert(e.path, e),
        distinct_paths(es.update(i, e)),
    decreases es.len(),
{
    let u = es.update(i, e);
    if i == es.len() - 1 {
        assert(u.drop_last() =~= es.drop_last());
        assert(table(u) =~= table(es).insert(e.path, e));
    } else {
        let init = es.drop_last();
        assert(u.drop_last() =~= init.update(i, e));
        lemma_table_replace(init, i, e);
        assert(es.last().path != e.path) by {
            assert(es[es.len() - 1] == es.last());
        }
        assert(table(u) =~= table(es).insert(e.path, e));
    }
}


/// What reading back data `d`, stored under the compression switch, gives:
/// `d` itself where it was stored as it is, else what inflating the stored
/// bytes gives.
pub open spec fn stored_read_back(d: Seq<u8>, compress: bool) -> Result<Seq<u8>, PakErrorView> {
    let s = stored_form(d, compress);
    if s.1 {
        match inflated(s.0) {
            Ok(v) => Ok(v),
            Err(m) => Err(PakErrorView::DecompressionFailed(m)),
        }
    } else {
        Ok(d)
    }
}

/// What reading path `p` from the archive that a builder writes gives.
pub open spec fn expected_get(b: PakBuilderView, p: Seq<char>) -> Result<Seq<u8>, PakErrorView> {
    if !has_path(b.entries, p) {
        Err(PakErrorView::AssetNotFound(p))
    } else {
        let d = latest_data(b.entries, p);
        if d.len() > MAX_ASSET_SIZE {
            Err(PakErrorView::Io(IoErrorKind::InvalidData, too_large_text(p, d.len() as u64)))
        } else {
            stored_read_back(d, b.compress)
        }
    }
}

/// Every compressed blob of the builder's data inflates back to that data.
pub open spec fn blobs_restore(b: PakBuilderView) -> bool {
    forall|i: int|
        0 <= i < b.entries.len() && (#[trigger] stored_form(b.entries[i].1, b.compress)).1
            ==> inflated(stored_form(b.entries[i].1, b.compress).0) == Ok::<Seq<u8>, Seq<char>>(
            b.entries[i].1,
        )
}

/// The bytes `image` open as an archive from which every path reads back
/// what the builder `b` last added under it: its data, or the failure for an
/// asset over `MAX_ASSET_SIZE`; and a path it never added is not found.
pub open spec fn reads_back(image: Seq<u8>, b: PakBuilderView) -> bool {
    &&& open_pak(image) is Ok
    &&& forall|p: Seq<char>|
        #[trigger] pak_get(open_pak(image)->Ok_0, p) == if !has_path(b.entries, p) {
            Err(PakErrorView::AssetNotFound(p))
        } else if latest_data(b.entries, p).len() > MAX_ASSET_SIZE {
            Err(
                PakErrorView::Io(
                    IoErrorKind::InvalidData,
                    too_large_text(p, latest_data(b.entries, p).len() as u64),
                ),
            )
        } else {
            Ok(latest_data(b.entries, p))
        }
}

} // verus!
