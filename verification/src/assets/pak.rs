//! PAK archives: many assets packed into one file, each found by its path,
//! optionally deflate-compressed and checksummed with CRC-32.
use crate::assets::pak_spec::{
    distinct_paths, encode_entry, eof_failure, lemma_table_lookup, lemma_table_replace, open_pak,
    pak_get, pak_magic, parse_entries, parse_entry, parse_pak, path_bytes, table, too_large_text,
    out_of_range_text, IoErrorKind, PakArchiveView, PakEntryView, PakErrorView, MAX_ASSET_SIZE,
    PAK_VERSION, PakBuilderView, pak_image, reads_back, within_format_limits, data_start, data_len,
    table_len, blobs, blobs_len, built_entries, built_entry, encode_table, header, stored_form,
    blobs_restore, ENTRY_FIXED_LEN, HEADER_LEN,
};
use crate::assets::pak_lemmas::{lemma_blobs_len, lemma_prefix_sums, lemma_reads_back};
use crate::outside::{crc32, deflated, inflated};
use crate::outside::{crc32_of, deflate_compress, deflate_decompress, string_from_utf8};
use crate::text::decimal_string;
use vstd::bytes::{u32_from_le_bytes, u32_to_le_bytes, u64_from_le_bytes, u64_to_le_bytes};
use vstd::prelude::*;
use vstd::slice::{slice_subrange, slice_to_vec};
use vstd::string::StringExecFns;
use vstd::utf8::encode_utf8;

verus! {

/// An I/O failure: its kind and its message.
#[derive(Debug)]
pub struct IoFailure {
    pub kind: IoErrorKind,
    pub message: String,
}

/// A failure to read, write or find something in an archive.
#[derive(Debug)]
pub enum PakError {
    InvalidMagic,
    UnsupportedVersion(u32),
    AssetNotFound(String),
    Io(IoFailure),
    CompressionFailed(String),
    DecompressionFailed(String),
}

impl View for PakError {
    type V = PakErrorView;

    open spec fn view(&self) -> PakErrorView {
        match self {
            PakError::InvalidMagic => PakErrorView::InvalidMagic,
            PakError::UnsupportedVersion(v) => PakErrorView::UnsupportedVersion(*v),
            PakError::AssetNotFound(p) => PakErrorView::AssetNotFound(p@),
            PakError::Io(f) => PakErrorView::Io(f.kind, f.message@),
            PakError::CompressionFailed(m) => PakErrorView::CompressionFailed(m@),
            PakError::DecompressionFailed(m) => PakErrorView::DecompressionFailed(m@),
        }
    }
}

/// The message that `PakError::message` gives.
pub open spec fn pak_error_text(e: PakErrorView) -> Seq<char> {
    match e {
        PakErrorView::InvalidMagic => "Invalid PAK magic header"@,
        PakErrorView::UnsupportedVersion(v) => "Unsupported PAK version: "@ + crate::text::decimal(
            v as nat,
        ),
        PakErrorView::AssetNotFound(p) => "Asset not found in PAK: "@ + p,
        PakErrorView::Io(_, m) => "IO error: "@ + m,
        PakErrorView::CompressionFailed(m) => "Failed to compress data: "@ + m,
        PakErrorView::DecompressionFailed(m) => "Failed to decompress data: "@ + m,
    }
}

impl PakError {
    /// The human-readable message for this failure.
    pub fn message(&self) -> (s: String)
        ensures
            s@ == pak_error_text(self@),
    {
        match self {
            PakError::InvalidMagic => String::from_str("Invalid PAK magic header"),
            PakError::UnsupportedVersion(v) => String::from_str("Unsupported PAK version: ").concat(
                decimal_string(*v as u64).as_str(),
            ),
            PakError::AssetNotFound(p) => String::from_str("Asset not found in PAK: ").concat(
                p.as_str(),
            ),
            PakError::Io(f) => String::from_str("IO error: ").concat(f.message.as_str()),
            PakError::CompressionFailed(m) => String::from_str("Failed to compress data: ").concat(
                m.as_str(),
            ),
            PakError::DecompressionFailed(m) => String::from_str(
                "Failed to decompress data: ",
            ).concat(m.as_str()),
        }
    }
}

/// The failure for input that ran out before a field was complete.
fn eof_error() -> (e: PakError)
    ensures
        e@ == eof_failure(),
{
    PakError::Io(IoFailure { kind: IoErrorKind::UnexpectedEof, message: String::from_str("failed to fill whole buffer") })
}

/// One asset's entry in an archive's table.
#[derive(Debug)]
pub struct PakEntry {
    pub path: String,
    pub offset: u64,
    pub size: u64,
    pub checksum: u32,
    pub compressed: bool,
    pub original_size: u64,
}

impl View for PakEntry {
    type V = PakEntryView;

    open spec fn view(&self) -> PakEntryView {
        PakEntryView {
            path: self.path@,
            offset: self.offset,
            size: self.size,
            checksum: self.checksum,
            compressed: self.compressed,
            original_size: self.original_size,
        }
    }
}

impl PakEntry {
    /// Appends this entry, as the table holds it, to `out`.
    pub fn write(&self, out: &mut Vec<u8>)
        ensures
            final(out)@ == old(out)@ + encode_entry(self@),
    {
        let pb = self.path.as_str().as_bytes();
        let mut len_bytes = u32_to_le_bytes(#[verifier::truncate] (pb.len() as u32));
        out.append(&mut len_bytes);
        out.extend_from_slice(pb);
        let mut offset_bytes = u64_to_le_bytes(self.offset);
        out.append(&mut offset_bytes);
        let mut size_bytes = u64_to_le_bytes(self.size);
        out.append(&mut size_bytes);
        let mut checksum_bytes = u32_to_le_bytes(self.checksum);
        out.append(&mut checksum_bytes);
        out.push(if self.compressed { 1u8 } else { 0u8 });
        let mut original_bytes = u64_to_le_bytes(self.original_size);
        out.append(&mut original_bytes);
        proof {
            assert(pb@ == path_bytes(self.path@));
            assert(final(out)@ =~= old(out)@ + encode_entry(self@));
        }
    }

    /// Reads the entry that starts at `pos` in `bytes`; on success also gives
    /// where the next one starts.
    pub fn read(bytes: &[u8], pos: usize) -> (r: Result<(PakEntry, usize), PakError>)
        requires
            pos <= bytes@.len(),
        ensures
            match parse_entry(bytes@.skip(pos as int)) {
                Ok((e, k)) => r matches Ok((pe, np)) && pe@ == e && np == pos + k,
                Err(x) => r matches Err(pe) && pe@ == x,
            },
    {
        let ghost b = bytes@.skip(pos as int);
        let rem = bytes.len() - pos;
        if rem < 4 {
            return Err(eof_error());
        }
        let len_slice = slice_subrange(bytes, pos, pos + 4);
        assert(len_slice@ =~= b.subrange(0, 4));
        let n = u32_from_le_bytes(len_slice) as usize;
        if rem - 4 < n {
            return Err(eof_error());
        }
        let path_slice = slice_subrange(bytes, pos + 4, pos + 4 + n);
        assert(path_slice@ =~= b.subrange(4, 4 + n as int));
        let path_vec = slice_to_vec(path_slice);
        let path = match string_from_utf8(path_vec) {
            Ok(s) => s,
            Err(m) => {
                return Err(PakError::Io(IoFailure { kind: IoErrorKind::InvalidData, message: m }));
            },
        };
        if rem - 4 - n < 29 {
            return Err(eof_error());
        }
        let p = pos + 4 + n;
        let offset_slice = slice_subrange(bytes, p, p + 8);
        let size_slice = slice_subrange(bytes, p + 8, p + 16);
        let checksum_slice = slice_subrange(bytes, p + 16, p + 20);
        let original_slice = slice_subrange(bytes, p + 21, p + 29);
        let ghost q = 4 + n as int;
        assert(offset_slice@ =~= b.subrange(q, q + 8));
        assert(size_slice@ =~= b.subrange(q + 8, q + 16));
        assert(checksum_slice@ =~= b.subrange(q + 16, q + 20));
        assert(original_slice@ =~= b.subrange(q + 21, q + 29));
        assert(bytes@[p + 20] == b[q + 20]);
        let entry = PakEntry {
            path,
            offset: u64_from_le_bytes(offset_slice),
            size: u64_from_le_bytes(size_slice),
            checksum: u32_from_le_bytes(checksum_slice),
            compressed: bytes[p + 20] != 0,
            original_size: u64_from_le_bytes(original_slice),
        };
        Ok((entry, p + 29))
    }
}


/// The entries of `v`, as plain values.
pub open spec fn entry_views(v: Seq<PakEntry>) -> Seq<PakEntryView> {
    v.map_values(|e: PakEntry| e@)
}

/// An opened archive: its bytes, and a table of entries with distinct paths.
pub struct PakArchive {
    data: Vec<u8>,
    entries: Vec<PakEntry>,
}

impl View for PakArchive {
    type V = PakArchiveView;

    closed spec fn view(&self) -> PakArchiveView {
        PakArchiveView { data: self.data@, entries: table(entry_views(self.entries@)) }
    }
}

impl PakArchive {
    #[verifier::type_invariant]
    spec fn paths_distinct(self) -> bool {
        distinct_paths(entry_views(self.entries@))
    }

    /// Opens the archive held in `data`: checks the header and reads the
    /// table. A later entry replaces an earlier one of the same path.
    pub fn from_bytes(data: Vec<u8>) -> (r: Result<Self, PakError>)
        ensures
            match open_pak(data@) {
                Ok(a) => r matches Ok(pa) && pa@ == a,
                Err(x) => r matches Err(e) && e@ == x,
            },
    {
        let len = data.len();
        if len < 6 {
            return Err(eof_error());
        }
        let magic_ok = data[0] == 82u8 && data[1] == 69u8 && data[2] == 83u8 && data[3] == 80u8
            && data[4] == 65u8 && data[5] == 75u8;
        proof {
            let m = data@.subrange(0, 6);
            assert(m[0] == data@[0] && m[1] == data@[1] && m[2] == data@[2] && m[3] == data@[3]
                && m[4] == data@[4] && m[5] == data@[5]);
            if magic_ok {
                assert(m =~= pak_magic());
            }
        }
        if !magic_ok {
            return Err(PakError::InvalidMagic);
        }
        if len < 10 {
            return Err(eof_error());
        }
        let version_slice = slice_subrange(data.as_slice(), 6, 10);
        let version = u32_from_le_bytes(version_slice);
        if version != PAK_VERSION {
            return Err(PakError::UnsupportedVersion(version));
        }
        if len < 14 {
            return Err(eof_error());
        }
        let count_slice = slice_subrange(data.as_slice(), 10, 14);
        let file_count = u32_from_le_bytes(count_slice);
        let mut entries: Vec<PakEntry> = Vec::new();
        let mut pos: usize = 14;
        let mut k: u32 = 0;
        let ghost mut done: Seq<PakEntryView> = Seq::empty();
        proof {
            assert(parse_pak(data@) == parse_entries(data@.skip(14), file_count as nat));
            assert(done + Seq::<PakEntryView>::empty() =~= done);
        }
        while k < file_count
            invariant
                14 <= pos <= data@.len(),
                k <= file_count,
                parse_pak(data@) == (match parse_entries(
                    data@.skip(pos as int),
                    (file_count - k) as nat,
                ) {
                    Ok(rest) => Ok(done + rest),
                    Err(x) => Err(x),
                }),
                distinct_paths(entry_views(entries@)),
                table(entry_views(entries@)) == table(done),
            decreases file_count - k,
        {
            let ghost b = data@.skip(pos as int);
            let (entry, next) = match PakEntry::read(data.as_slice(), pos) {
                Ok(v) => v,
                Err(e) => {
                    return Err(e);
                },
            };
            proof {
                let kk = next - pos;
                assert(b.skip(kk) =~= data@.skip(next as int));
                match parse_entries(data@.skip(next as int), (file_count - k - 1) as nat) {
                    Ok(rest) => {
                        assert(done + (seq![entry@] + rest) =~= done.push(entry@) + rest);
                    },
                    Err(x) => {},
                }
            }
            let mut j: usize = 0;
            let mut found = false;
            while j < entries.len()
                invariant_except_break
                    !found,
                invariant
                    j <= entries@.len(),
                    forall|i: int| 0 <= i < j ==> entries@[i].path@ != entry.path@,
                ensures
                    found ==> j < entries@.len() && entries@[j as int].path@ == entry.path@,
                    !found ==> j == entries@.len(),
                decreases entries@.len() - j,
            {
                if entries[j].path == entry.path {
                    found = true;
                    break;
                }
                j = j + 1;
            }
            let ghost old_views = entry_views(entries@);
            let ghost ev = entry@;
            if found {
                proof {
                    lemma_table_replace(old_views, j as int, ev);
                }
                entries[j] = entry;
                proof {
                    assert(entry_views(entries@) =~= old_views.update(j as int, ev));
                }
            } else {
                entries.push(entry);
                proof {
                    assert(entry_views(entries@) =~= old_views.push(ev));
                    assert(entry_views(entries@).drop_last() =~= old_views);
                }
            }
            proof {
                assert(done.push(ev).drop_last() =~= done);
                done = done.push(ev);
            }
            pos = next;
            k = k + 1;
        }
        proof {
            assert(done + Seq::<PakEntryView>::empty() =~= done);
        }
        Ok(PakArchive { data, entries })
    }

    /// Where the entry with path `key` stands in the table, if anywhere.
    fn find(&self, key: &String) -> (r: Option<usize>)
        ensures
            match r {
                Some(i) => i < self.entries@.len() && self.entries@[i as int].path@ == key@,
                None => forall|i: int| 0 <= i < self.entries@.len() ==> self.entries@[i].path@ != key@,
            },
    {
        let mut j: usize = 0;
        while j < self.entries.len()
            invariant
                j <= self.entries@.len(),
                forall|i: int| 0 <= i < j ==> self.entries@[i].path@ != key@,
            decreases self.entries@.len() - j,
        {
            if self.entries[j].path == *key {
                return Some(j);
            }
            j = j + 1;
        }
        None
    }

    /// Facts about the table that lookups use.
    proof fn lemma_view(&self)
        requires
            distinct_paths(entry_views(self.entries@)),
        ensures
            forall|i: int|
                0 <= i < self.entries@.len() ==> self@.entries.contains_key(
                    #[trigger] self.entries@[i].path@,
                ) && self@.entries[self.entries@[i].path@] == self.entries@[i]@,
            forall|p: Seq<char>|
                #[trigger] self@.entries.contains_key(p) ==> exists|i: int|
                    0 <= i < self.entries@.len() && self.entries@[i].path@ == p,
            self@.entries.dom().finite(),
            self@.entries.len() == self.entries@.len(),
            distinct_paths(entry_views(self.entries@)),
            self@.data == self.data@,
    {
        let ev = entry_views(self.entries@);
        lemma_table_lookup(ev);
        assert forall|i: int| 0 <= i < self.entries@.len() implies self@.entries.contains_key(
            #[trigger] self.entries@[i].path@,
        ) && self@.entries[self.entries@[i].path@] == self.entries@[i]@ by {
            assert(ev[i] == self.entries@[i]@);
        }
        assert forall|p: Seq<char>| #[trigger] self@.entries.contains_key(p) implies exists|i: int|
            0 <= i < self.entries@.len() && self.entries@[i].path@ == p by {
            let i = choose|i: int| 0 <= i < ev.len() && ev[i].path == p;
            assert(ev[i] == self.entries@[i]@);
        }
    }

    /// Whether the archive holds an asset at `path`.
    pub fn contains(&self, path: &str) -> (r: bool)
        ensures
            r == self@.entries.contains_key(path@),
    {
        proof {
            use_type_invariant(self);
            self.lemma_view();
        }
        let key = path.to_owned();
        match self.find(&key) {
            Some(_) => true,
            None => {
                proof {
                    if self@.entries.contains_key(path@) {
                        let i = choose|i: int|
                            0 <= i < self.entries@.len() && self.entries@[i].path@ == path@;
                    }
                }
                false
            },
        }
    }

    /// The paths of all assets in the archive, each once, in table order.
    pub fn list(&self) -> (r: Vec<String>)
        ensures
            r@.len() == self@.entries.len(),
            forall|i: int| 0 <= i < r@.len() ==> self@.entries.contains_key(#[trigger] r@[i]@),
            forall|i: int, j: int| 0 <= i < j < r@.len() ==> r@[i]@ != r@[j]@,
            forall|p: Seq<char>|
                #[trigger] self@.entries.contains_key(p) ==> exists|i: int| 0 <= i < r@.len() && r@[i]@ == p,
    {
        proof {
            use_type_invariant(self);
            self.lemma_view();
        }
        let mut out: Vec<String> = Vec::new();
        let mut j: usize = 0;
        while j < self.entries.len()
            invariant
                j <= self.entries@.len(),
                out@.len() == j,
                forall|i: int| 0 <= i < j ==> #[trigger] out@[i]@ == self.entries@[i].path@,
            decreases self.entries@.len() - j,
        {
            out.push(self.entries[j].path.clone());
            j = j + 1;
        }
        proof {
            let ev = entry_views(self.entries@);
            assert forall|i: int, j: int| 0 <= i < j < out@.len() implies out@[i]@ != out@[j]@ by {
                assert(ev[i] == self.entries@[i]@);
                assert(ev[j] == self.entries@[j]@);
            }
            assert forall|p: Seq<char>| #[trigger] self@.entries.contains_key(p) implies exists|i: int|
                0 <= i < out@.len() && out@[i]@ == p by {
                let i = choose|i: int| 0 <= i < self.entries@.len() && self.entries@[i].path@ == p;
                assert(out@[i]@ == p);
            }
        }
        out
    }

    /// The table entry for `path`, if the archive holds one.
    pub fn get_entry(&self, path: &str) -> (r: Option<&PakEntry>)
        ensures
            match r {
                Some(e) => self@.entries.contains_key(path@) && e@ == self@.entries[path@],
                None => !self@.entries.contains_key(path@),
            },
    {
        proof {
            use_type_invariant(self);
            self.lemma_view();
        }
        let key = path.to_owned();
        match self.find(&key) {
            Some(i) => Some(&self.entries[i]),
            None => {
                proof {
                    if self@.entries.contains_key(path@) {
                        let i = choose|i: int|
                            0 <= i < self.entries@.len() && self.entries@[i].path@ == path@;
                    }
                }
                None
            },
        }
    }

    /// How many assets the archive holds.
    pub fn entry_count(&self) -> (r: usize)
        ensures
            r == self@.entries.len(),
    {
        proof {
            use_type_invariant(self);
            self.lemma_view();
        }
        self.entries.len()
    }

    /// Reads the asset at `path`: its stored bytes, inflated where the entry
    /// says they are compressed. Fails for a missing path, an asset over
    /// `MAX_ASSET_SIZE`, an entry reaching past the archive, or data that does
    /// not inflate.
    pub fn get(&self, path: &str) -> (r: Result<Vec<u8>, PakError>)
        ensures
            match pak_get(self@, path@) {
                Ok(v) => r matches Ok(d) && d@ == v,
                Err(x) => r matches Err(e) && e@ == x,
            },
    {
        proof {
            use_type_invariant(self);
            self.lemma_view();
        }
        let key = path.to_owned();
        let i = match self.find(&key) {
            Some(i) => i,
            None => {
                proof {
                    if self@.entries.contains_key(path@) {
                        let i = choose|i: int|
                            0 <= i < self.entries@.len() && self.entries@[i].path@ == path@;
                    }
                }
                return Err(PakError::AssetNotFound(key));
            },
        };
        let entry = &self.entries[i];
        if entry.original_size > MAX_ASSET_SIZE {
            let message = String::from_str("Asset ").concat(path).concat(
                " exceeds maximum size (",
            ).concat(decimal_string(entry.original_size).as_str()).concat(" > ").concat(
                decimal_string(MAX_ASSET_SIZE).as_str(),
            ).concat(" bytes)");
            proof {
                assert(message@ =~= too_large_text(path@, entry.original_size));
            }
            return Err(PakError::Io(IoFailure { kind: IoErrorKind::InvalidData, message }));
        }
        let len = self.data.len() as u64;
        if entry.offset > len || entry.size > len - entry.offset {
            return Err(
                PakError::Io(
                    IoFailure {
                        kind: IoErrorKind::UnexpectedEof,
                        message: String::from_str("Entry offset/size exceeds PAK file size"),
                    },
                ),
            );
        }
        let start = entry.offset as usize;
        let end = (entry.offset + entry.size) as usize;
        let raw = slice_subrange(self.data.as_slice(), start, end);
        if entry.compressed {
            match deflate_decompress(raw) {
                Ok(v) => Ok(v),
                Err(m) => Err(PakError::DecompressionFailed(m)),
            }
        } else {
            Ok(slice_to_vec(raw))
        }
    }

    /// Checks `data`, read for `path`, against the checksum its entry
    /// records: where the path has an entry and the CRC-32 of `data` differs,
    /// the recorded and the actual checksum; else nothing.
    pub fn checksum_mismatch(&self, path: &str, data: &[u8]) -> (r: Option<(u32, u32)>)
        ensures
            r == (if self@.entries.contains_key(path@) && crc32(data@) != self@.entries[path@].checksum {
                Some((self@.entries[path@].checksum, crc32(data@)))
            } else {
                None
            }),
    {
        match self.get_entry(path) {
            Some(e) => {
                let actual = crc32_of(data);
                if actual != e.checksum {
                    Some((e.checksum, actual))
                } else {
                    None
                }
            },
            None => None,
        }
    }
}


/// The table and data of a prefix of the pairs are no longer than those of
/// all of them.
proof fn lemma_prefix_lens(es: Seq<(Seq<char>, Seq<u8>)>, k: int)
    requires
        0 <= k <= es.len(),
    ensures
        table_len(es.take(k)) <= table_len(es),
        data_len(es.take(k)) <= data_len(es),
    decreases es.len(),
{
    if k < es.len() {
        lemma_prefix_lens(es.drop_last(), k);
        assert(es.drop_last().take(k) =~= es.take(k));
    } else {
        assert(es.take(k) =~= es);
    }
}

/// The (path, data) pairs of `v`, as plain values.
pub open spec fn pair_views(v: Seq<(String, Vec<u8>)>) -> Seq<(Seq<char>, Seq<u8>)> {
    v.map_values(|e: (String, Vec<u8>)| (e.0@, e.1@))
}

/// Collects assets, then writes them out as one archive.
pub struct PakBuilder {
    entries: Vec<(String, Vec<u8>)>,
    compress: bool,
}

impl View for PakBuilder {
    type V = PakBuilderView;

    closed spec fn view(&self) -> PakBuilderView {
        PakBuilderView { entries: pair_views(self.entries@), compress: self.compress }
    }
}

impl Default for PakBuilder {
    fn default() -> (r: Self)
        ensures
            r@.entries.len() == 0,
            !r@.compress,
    {
        PakBuilder::new()
    }
}

impl PakBuilder {
    /// A builder with no assets, compression off.
    pub fn new() -> (r: Self)
        ensures
            r@.entries.len() == 0,
            !r@.compress,
    {
        PakBuilder { entries: Vec::new(), compress: false }
    }

    /// The same builder, with compression switched as given.
    pub fn with_compression(self, compress: bool) -> (r: Self)
        ensures
            r@.entries == self@.entries,
            r@.compress == compress,
    {
        PakBuilder { entries: self.entries, compress }
    }

    /// Adds `data` under `pak_path`. A later asset of the same path wins when
    /// the archive is read.
    pub fn add_bytes(&mut self, pak_path: String, data: Vec<u8>)
        ensures
            final(self)@.entries == old(self)@.entries.push((pak_path@, data@)),
            final(self)@.compress == old(self)@.compress,
    {
        self.entries.push((pak_path, data));
        proof {
            assert(pair_views(self.entries@) =~= pair_views(old(self).entries@).push(
                (pak_path@, data@),
            ));
        }
    }

    /// Whether the archive's header, table and data together fit the
    /// address space, which `build_to_bytes` needs.
    pub fn image_fits(&self) -> (r: bool)
        ensures
            r == (data_start(self@.entries) + data_len(self@.entries) <= usize::MAX),
    {
        let ghost es = self@.entries;
        let mut total: usize = 14;
        let mut i: usize = 0;
        while i < self.entries.len()
            invariant
                es == pair_views(self.entries@),
                i <= self.entries@.len(),
                total == data_start(es.take(i as int)) + data_len(es.take(i as int)),
            decreases self.entries@.len() - i,
        {
            proof {
                assert(es.take(i + 1).drop_last() =~= es.take(i as int));
                assert(es.take(i + 1).last() == es[i as int]);
                lemma_prefix_lens(es, i + 1);
            }
            let plen = self.entries[i].0.as_str().as_bytes().len();
            let dlen = self.entries[i].1.len();
            let step = match plen.checked_add(33) {
                Some(x) => x,
                None => return false,
            };
            let step = match step.checked_add(dlen) {
                Some(x) => x,
                None => return false,
            };
            total = match total.checked_add(step) {
                Some(x) => x,
                None => return false,
            };
            i = i + 1;
        }
        proof {
            assert(es.take(i as int) =~= es);
        }
        true
    }

    /// Writes the archive: the header, a table entry per asset in the order
    /// added, then the stored data. Each asset is stored deflated where
    /// compression is on and that makes it shorter; its checksum is the CRC-32
    /// of the original data. The bytes open again as an archive from which
    /// every path reads back what was last added under it.
    pub fn build_to_bytes(&self) -> (r: Result<Vec<u8>, PakError>)
        requires
            data_start(self@.entries) + data_len(self@.entries) <= usize::MAX,
        ensures
            r matches Ok(v) && v@ == pak_image(self@),
            r matches Ok(v) && (within_format_limits(self@) ==> reads_back(v@, self@)),
    {
        let ghost es = self@.entries;
        let ghost c = self.compress;
        let n = self.entries.len();
        let mut buffer: Vec<u8> = vec![82u8, 69u8, 83u8, 80u8, 65u8, 75u8];
        let mut version_bytes = u32_to_le_bytes(PAK_VERSION);
        buffer.append(&mut version_bytes);
        let mut count_bytes = u32_to_le_bytes(#[verifier::truncate] (n as u32));
        buffer.append(&mut count_bytes);
        proof {
            assert(buffer@ =~= header(es.len()));
            lemma_prefix_sums(es, c, 0);
            lemma_blobs_len(es, c);
        }
        let mut data_offset: u64 = HEADER_LEN;
        let mut i: usize = 0;
        while i < n
            invariant
                n == es.len(),
                es == self@.entries,
                i <= n,
                data_offset == HEADER_LEN + table_len(es.take(i as int)),
                data_start(es) + data_len(es) <= usize::MAX,
            decreases n - i,
        {
            proof {
                lemma_prefix_sums(es, c, i + 1);
                assert(es.take(i + 1).drop_last() =~= es.take(i as int));
                assert(es.take(i + 1).last() == es[i as int]);
            }
            let plen = self.entries[i].0.as_str().len();
            proof {
                assert(plen == path_bytes(es[i as int].0).len());
            }
            data_offset = data_offset + 4 + plen as u64 + ENTRY_FIXED_LEN;
            i = i + 1;
        }
        proof {
            assert(es.take(n as int) =~= es);
        }
        let mut pak_entries: Vec<PakEntry> = Vec::new();
        let mut data_buffer: Vec<u8> = Vec::new();
        let mut i: usize = 0;
        while i < n
            invariant
                n == es.len(),
                es == self@.entries,
                c == self.compress,
                i <= n,
                data_offset == data_start(es),
                data_start(es) + data_len(es) <= usize::MAX,
                entry_views(pak_entries@) == built_entries(es, c).take(i as int),
                data_buffer@ == blobs(es.take(i as int), c),
                forall|j: int|
                    0 <= j < i && (#[trigger] stored_form(es[j].1, c)).1 ==> inflated(
                        stored_form(es[j].1, c).0,
                    ) == Ok::<Seq<u8>, Seq<char>>(es[j].1),
            decreases n - i,
        {
            let ghost d = es[i as int].1;
            proof {
                lemma_prefix_sums(es, c, i + 1);
                lemma_blobs_len(es.take(i + 1), c);
                lemma_blobs_len(es.take(i as int), c);
                lemma_blobs_len(es, c);
                assert(es.take(i + 1).drop_last() =~= es.take(i as int));
                assert(es.take(i + 1).last() == es[i as int]);
            }
            let data = &self.entries[i].1;
            let original_size = data.len() as u64;
            let checksum = crc32_of(data.as_slice());
            let mut packed: Option<Vec<u8>> = None;
            if self.compress {
                match deflate_compress(data.as_slice()) {
                    Ok(cd) => {
                        if cd.len() < data.len() {
                            packed = Some(cd);
                        }
                    },
                    Err(_) => {},
                }
            }
            let ghost st = stored_form(d, c);
            proof {
                match &packed {
                    Some(cd) => {
                        assert(st.0 == cd@ && st.1);
                    },
                    None => {
                        assert(st.0 == d && !st.1);
                    },
                }
            }
            let size = match &packed {
                Some(cd) => cd.len(),
                None => data.len(),
            };
            let entry = PakEntry {
                path: self.entries[i].0.clone(),
                offset: data_offset + data_buffer.len() as u64,
                size: size as u64,
                checksum,
                compressed: packed.is_some(),
                original_size,
            };
            proof {
                assert(entry@ == built_entry(es, c, i as int));
            }
            let ghost before = pak_entries@;
            let ghost ev = entry@;
            pak_entries.push(entry);
            match packed {
                Some(cd) => data_buffer.extend_from_slice(cd.as_slice()),
                None => data_buffer.extend_from_slice(data.as_slice()),
            }
            proof {
                assert(entry_views(pak_entries@) =~= entry_views(before).push(ev));
                assert(built_entries(es, c).take(i + 1) =~= built_entries(es, c).take(i as int).push(ev));
                assert(data_buffer@ =~= blobs(es.take(i + 1), c));
            }
            i = i + 1;
        }
        let ghost ents = built_entries(es, c);
        proof {
            assert(es.take(n as int) =~= es);
            assert(ents.take(n as int) =~= ents);
        }
        let mut k: usize = 0;
        while k < n
            invariant
                n == es.len(),
                k <= n,
                entry_views(pak_entries@) == ents,
                ents.len() == n,
                buffer@ == header(es.len()) + encode_table(ents.take(k as int)),
            decreases n - k,
        {
            pak_entries[k].write(&mut buffer);
            proof {
                assert(ents.take(k + 1).drop_last() =~= ents.take(k as int));
                assert(ents.take(k + 1).last() == ents[k as int]);
                assert(ents[k as int] == pak_entries@[k as int]@);
            }
            k = k + 1;
        }
        buffer.append(&mut data_buffer);
        proof {
            assert(ents.take(n as int) =~= ents);
            assert(buffer@ =~= pak_image(self@));
            if within_format_limits(self@) {
                lemma_reads_back(self@);
            }
        }
        Ok(buffer)
    }
}

} // verus!
