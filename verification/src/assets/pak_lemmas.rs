//! Proofs about the PAK layout: that the table reads back as written, and
//! where each stored blob lies in a built archive.
use crate::assets::pak_spec::{
    blobs, blobs_len, built_entries, built_entry, data_len, data_start, encode_entry, encode_table,
    flag_byte, header, pak_magic, parse_entries, parse_entry, parse_pak, path_bytes, stored_form,
    table, table_len, PakEntryView, PAK_VERSION, PakBuilderView, within_format_limits, pak_image,
    open_pak, pak_get, expected_get, has_path, latest_data, stored_read_back, blobs_restore,
    reads_back, PakErrorView, PakArchiveView,
};
use vstd::bytes::{
    lemma_auto_spec_u32_to_from_le_bytes, lemma_auto_spec_u64_to_from_le_bytes,
    spec_u32_from_le_bytes, spec_u32_to_le_bytes, spec_u64_from_le_bytes, spec_u64_to_le_bytes,
};
use crate::outside::inflated;
use vstd::prelude::*;
use vstd::utf8::{decode_utf8, encode_utf8, encode_utf8_decode_utf8, encode_utf8_valid_utf8, valid_utf8};

verus! {

/// A table entry whose path fits the 32-bit length field reads back as
/// itself, taking exactly its encoded length.
pub proof fn lemma_entry_round_trip(e: PakEntryView, rest: Seq<u8>)
    requires
        path_bytes(e.path).len() <= u32::MAX,
    ensures
        parse_entry(encode_entry(e) + rest) == Ok::<(PakEntryView, int), crate::assets::pak_spec::PakErrorView>(
            (e, encode_entry(e).len() as int),
        ),
        encode_entry(e).len() == 4 + path_bytes(e.path).len() + 29,
{
    lemma_auto_spec_u32_to_from_le_bytes();
    lemma_auto_spec_u64_to_from_le_bytes();
    encode_utf8_valid_utf8(e.path);
    encode_utf8_decode_utf8(e.path);
    let pb = path_bytes(e.path);
    let n = pb.len() as int;
    let b = encode_entry(e) + rest;
    let l0 = spec_u32_to_le_bytes(pb.len() as u32);
    let l1 = spec_u64_to_le_bytes(e.offset);
    let l2 = spec_u64_to_le_bytes(e.size);
    let l3 = spec_u32_to_le_bytes(e.checksum);
    let l5 = spec_u64_to_le_bytes(e.original_size);
    assert(encode_entry(e) == l0 + pb + l1 + l2 + l3 + seq![flag_byte(e.compressed)] + l5);
    assert(b.subrange(0, 4) =~= l0);
    assert(spec_u32_from_le_bytes(b.subrange(0, 4)) as int == n);
    assert(b.subrange(4, 4 + n) =~= pb);
    let p = 4 + n;
    assert(b.subrange(p, p + 8) =~= l1);
    assert(b.subrange(p + 8, p + 16) =~= l2);
    assert(b.subrange(p + 16, p + 20) =~= l3);
    assert(b[p + 20] == flag_byte(e.compressed));
    assert(b.subrange(p + 21, p + 29) =~= l5);
}

/// The table splits at its first entry.
pub proof fn lemma_encode_table_front(ents: Seq<PakEntryView>)
    requires
        ents.len() > 0,
    ensures
        encode_table(ents) == encode_entry(ents[0]) + encode_table(ents.drop_first()),
    decreases ents.len(),
{
    if ents.len() == 1 {
        assert(ents.drop_last() =~= Seq::<PakEntryView>::empty());
        assert(ents.drop_first() =~= Seq::<PakEntryView>::empty());
        assert(encode_table(ents) =~= encode_entry(ents[0]) + encode_table(ents.drop_first()));
    } else {
        let init = ents.drop_last();
        lemma_encode_table_front(init);
        assert(init.drop_first() =~= ents.drop_first().drop_last());
        assert(ents.drop_first().last() == ents.last());
        assert(init[0] == ents[0]);
        assert(encode_table(ents) =~= encode_entry(ents[0]) + encode_table(ents.drop_first()));
    }
}

/// A table whose paths fit their length fields reads back as written.
pub proof fn lemma_table_round_trip(ents: Seq<PakEntryView>, rest: Seq<u8>)
    requires
        forall|i: int| 0 <= i < ents.len() ==> path_bytes(#[trigger] ents[i].path).len() <= u32::MAX,
    ensures
        parse_entries(encode_table(ents) + rest, ents.len()) == Ok::<
            Seq<PakEntryView>,
            crate::assets::pak_spec::PakErrorView,
        >(ents),
    decreases ents.len(),
{
    if ents.len() == 0 {
        assert(ents =~= Seq::<PakEntryView>::empty());
    } else {
        let tail = ents.drop_first();
        lemma_encode_table_front(ents);
        assert forall|i: int| 0 <= i < tail.len() implies path_bytes(#[trigger] tail[i].path).len()
            <= u32::MAX by {
            assert(tail[i] == ents[i + 1]);
        }
        lemma_table_round_trip(tail, rest);
        let first = encode_entry(ents[0]);
        assert(encode_table(ents) + rest =~= first + (encode_table(tail) + rest));
        lemma_entry_round_trip(ents[0], encode_table(tail) + rest);
        assert((first + (encode_table(tail) + rest)).skip(first.len() as int) =~= encode_table(tail)
            + rest);
        assert(seq![ents[0]] + tail =~= ents);
    }
}

/// The length of an encoded table follows the paths alone.
pub proof fn lemma_encode_table_len(ents: Seq<PakEntryView>, es: Seq<(Seq<char>, Seq<u8>)>)
    requires
        ents.len() == es.len(),
        forall|i: int| 0 <= i < ents.len() ==> #[trigger] ents[i].path == es[i].0,
    ensures
        encode_table(ents).len() == table_len(es),
    decreases ents.len(),
{
    if ents.len() > 0 {
        let a = ents.drop_last();
        let b = es.drop_last();
        assert forall|i: int| 0 <= i < a.len() implies #[trigger] a[i].path == b[i].0 by {
            assert(a[i] == ents[i]);
            assert(b[i] == es[i]);
        }
        lemma_encode_table_len(a, b);
        assert(ents.last().path == es.last().0) by {
            assert(ents[ents.len() - 1].path == es[es.len() - 1].0);
        }
        lemma_auto_spec_u32_to_from_le_bytes();
        lemma_auto_spec_u64_to_from_le_bytes();
    }
}

/// Sums over a prefix are at most the sums over the whole.
pub proof fn lemma_prefix_sums(es: Seq<(Seq<char>, Seq<u8>)>, compress: bool, i: int)
    requires
        0 <= i <= es.len(),
    ensures
        table_len(es.take(i)) <= table_len(es),
        data_len(es.take(i)) <= data_len(es),
        blobs_len(es.take(i), compress) <= blobs_len(es, compress),
    decreases es.len(),
{
    if i == es.len() {
        assert(es.take(i) =~= es);
    } else {
        let init = es.drop_last();
        assert(es.take(i) =~= init.take(i));
        lemma_prefix_sums(init, compress, i);
    }
}

/// The stored blobs are as long as `blobs_len` says, and no longer than the
/// original data.
pub proof fn lemma_blobs_len(es: Seq<(Seq<char>, Seq<u8>)>, compress: bool)
    ensures
        blobs(es, compress).len() == blobs_len(es, compress),
        blobs_len(es, compress) <= data_len(es),
    decreases es.len(),
{
    if es.len() > 0 {
        lemma_blobs_len(es.drop_last(), compress);
    }
}

/// Blob `j` lies in the stored blobs where the prefix before it ends.
pub proof fn lemma_blob_slice(es: Seq<(Seq<char>, Seq<u8>)>, compress: bool, j: int)
    requires
        0 <= j < es.len(),
    ensures
        blobs_len(es.take(j + 1), compress) == blobs_len(es.take(j), compress) + stored_form(
            es[j].1,
            compress,
        ).0.len(),
        blobs(es, compress).subrange(
            blobs_len(es.take(j), compress) as int,
            (blobs_len(es.take(j), compress) + stored_form(es[j].1, compress).0.len()) as int,
        ) == stored_form(es[j].1, compress).0,
    decreases es.len(),
{
    let init = es.drop_last();
    assert(es.take(j + 1).drop_last() =~= es.take(j));
    lemma_blobs_len(init, compress);
    if j == es.len() - 1 {
        assert(es.take(j) =~= init);
        assert(blobs(es, compress).subrange(
            blobs_len(es.take(j), compress) as int,
            (blobs_len(es.take(j), compress) + stored_form(es[j].1, compress).0.len()) as int,
        ) =~= stored_form(es[j].1, compress).0);
    } else {
        assert(es.take(j) =~= init.take(j));
        assert(es.take(j + 1) =~= init.take(j + 1));
        lemma_blob_slice(init, compress, j);
        lemma_prefix_sums(init, compress, j + 1);
        assert(init[j] == es[j]);
        assert(blobs(es, compress).subrange(
            blobs_len(es.take(j), compress) as int,
            (blobs_len(es.take(j), compress) + stored_form(es[j].1, compress).0.len()) as int,
        ) =~= blobs(init, compress).subrange(
            blobs_len(init.take(j), compress) as int,
            (blobs_len(init.take(j), compress) + stored_form(init[j].1, compress).0.len()) as int,
        ));
    }
}


/// A builder's archive opens, and its table is the entries it built.
pub proof fn lemma_image_opens(b: PakBuilderView)
    requires
        within_format_limits(b),
    ensures
        parse_pak(pak_image(b)) == Ok::<Seq<PakEntryView>, PakErrorView>(
            built_entries(b.entries, b.compress),
        ),
        open_pak(pak_image(b)) == Ok::<PakArchiveView, PakErrorView>(
            PakArchiveView { data: pak_image(b), entries: table(built_entries(b.entries, b.compress)) },
        ),
        pak_image(b).len() == data_start(b.entries) + blobs_len(b.entries, b.compress),
{
    lemma_auto_spec_u32_to_from_le_bytes();
    let es = b.entries;
    let ents = built_entries(es, b.compress);
    let img = pak_image(b);
    let t = encode_table(ents);
    let bl = blobs(es, b.compress);
    assert forall|i: int| 0 <= i < ents.len() implies path_bytes(#[trigger] ents[i].path).len()
        <= u32::MAX by {
        assert(ents[i].path == es[i].0);
    }
    assert forall|i: int| 0 <= i < ents.len() implies #[trigger] ents[i].path == es[i].0 by {}
    lemma_encode_table_len(ents, es);
    lemma_blobs_len(es, b.compress);
    lemma_table_round_trip(ents, bl);
    let h = header(es.len());
    assert(h.len() == 14);
    assert(img.subrange(0, 6) =~= pak_magic());
    assert(img.subrange(6, 10) =~= spec_u32_to_le_bytes(PAK_VERSION));
    assert(img.subrange(10, 14) =~= spec_u32_to_le_bytes(es.len() as u32));
    assert(img.skip(14) =~= t + bl);
}

/// A path some entry has: the table holds under it the last such entry.
pub proof fn lemma_table_last(ents: Seq<PakEntryView>, p: Seq<char>, j: int)
    requires
        0 <= j < ents.len(),
        ents[j].path == p,
        forall|k: int| j < k < ents.len() ==> #[trigger] ents[k].path != p,
    ensures
        table(ents).contains_key(p),
        table(ents)[p] == ents[j],
    decreases ents.len(),
{
    if j < ents.len() - 1 {
        let init = ents.drop_last();
        assert(ents[ents.len() - 1].path != p);
        assert forall|k: int| j < k < init.len() implies #[trigger] init[k].path != p by {
            assert(init[k] == ents[k]);
        }
        lemma_table_last(init, p, j);
    }
}

/// A path no entry has is not in the table.
pub proof fn lemma_table_absent(ents: Seq<PakEntryView>, p: Seq<char>)
    requires
        forall|k: int| 0 <= k < ents.len() ==> #[trigger] ents[k].path != p,
    ensures
        !table(ents).contains_key(p),
    decreases ents.len(),
{
    if ents.len() > 0 {
        let init = ents.drop_last();
        assert(ents[ents.len() - 1].path != p);
        assert forall|k: int| 0 <= k < init.len() implies #[trigger] init[k].path != p by {
            assert(init[k] == ents[k]);
        }
        lemma_table_absent(init, p);
    }
}

/// The last pair with path `p`, and that its data is `latest_data`.
pub proof fn lemma_last_index(es: Seq<(Seq<char>, Seq<u8>)>, p: Seq<char>) -> (j: int)
    requires
        has_path(es, p),
    ensures
        0 <= j < es.len(),
        es[j].0 == p,
        forall|k: int| j < k < es.len() ==> #[trigger] es[k].0 != p,
        latest_data(es, p) == es[j].1,
    decreases es.len(),
{
    if es.last().0 == p {
        (es.len() - 1) as int
    } else {
        let init = es.drop_last();
        let i = choose|i: int| 0 <= i < es.len() && #[trigger] es[i].0 == p;
        assert(i < es.len() - 1);
        assert(init[i].0 == p);
        let j = lemma_last_index(init, p);
        assert(init[j] == es[j]);
        assert forall|k: int| j < k < es.len() implies #[trigger] es[k].0 != p by {
            if k < es.len() - 1 {
                assert(init[k] == es[k]);
            }
        }
        j
    }
}

/// Reading a path back from the archive a builder writes gives what
/// `expected_get` says: its latest data where it is stored as it is, what
/// inflating the stored bytes gives where it is compressed, the failure for
/// an asset over `MAX_ASSET_SIZE`, and not-found for a path never added.
pub proof fn lemma_read_back(b: PakBuilderView, p: Seq<char>)
    requires
        within_format_limits(b),
    ensures
        open_pak(pak_image(b)) is Ok,
        pak_get(open_pak(pak_image(b))->Ok_0, p) == expected_get(b, p),
{
    let es = b.entries;
    let c = b.compress;
    let ents = built_entries(es, c);
    let img = pak_image(b);
    lemma_image_opens(b);
    let a = open_pak(img)->Ok_0;
    if !has_path(es, p) {
        assert forall|k: int| 0 <= k < ents.len() implies #[trigger] ents[k].path != p by {
            assert(ents[k].path == es[k].0);
        }
        lemma_table_absent(ents, p);
    } else {
        let j = lemma_last_index(es, p);
        assert forall|k: int| j < k < ents.len() implies #[trigger] ents[k].path != p by {
            assert(ents[k].path == es[k].0);
        }
        lemma_table_last(ents, p, j);
        let e = a.entries[p];
        assert(e == built_entry(es, c, j));
        let d = es[j].1;
        lemma_prefix_sums(es, c, j);
        lemma_prefix_sums(es, c, j + 1);
        lemma_blobs_len(es, c);
        lemma_blob_slice(es, c, j);
        assert(d.len() <= data_len(es)) by {
            lemma_data_len_item(es, j);
        }
        let s = stored_form(d, c);
        let off = data_start(es) + blobs_len(es.take(j), c);
        assert(e.offset == off);
        assert(e.size == s.0.len());
        assert(e.original_size == d.len());
        if d.len() <= crate::assets::pak_spec::MAX_ASSET_SIZE {
            assert(e.offset + e.size <= img.len());
            let hdr_t = header(es.len()) + encode_table(ents);
            assert(hdr_t.len() == data_start(es)) by {
                assert forall|i: int| 0 <= i < ents.len() implies #[trigger] ents[i].path == es[i].0 by {}
                lemma_encode_table_len(ents, es);
                lemma_auto_spec_u32_to_from_le_bytes();
            }
            assert(img =~= hdr_t + blobs(es, c));
            assert(img.subrange(off as int, (off + s.0.len()) as int) =~= blobs(es, c).subrange(
                blobs_len(es.take(j), c) as int,
                (blobs_len(es.take(j), c) + s.0.len()) as int,
            ));
        }
    }
}

/// One item's data is no longer than all of it.
pub proof fn lemma_data_len_item(es: Seq<(Seq<char>, Seq<u8>)>, j: int)
    requires
        0 <= j < es.len(),
    ensures
        es[j].1.len() <= data_len(es),
    decreases es.len(),
{
    if j < es.len() - 1 {
        let init = es.drop_last();
        assert(init[j] == es[j]);
        lemma_data_len_item(init, j);
    }
}

/// Where every compressed blob inflates back, the archive a builder writes
/// reads back exactly what was added.
pub proof fn lemma_reads_back(b: PakBuilderView)
    requires
        within_format_limits(b),
        blobs_restore(b),
    ensures
        reads_back(pak_image(b), b),
{
    lemma_image_opens(b);
    assert forall|p: Seq<char>| #[trigger] pak_get(open_pak(pak_image(b))->Ok_0, p) == (
    if !has_path(b.entries, p) {
        Err(PakErrorView::AssetNotFound(p))
    } else if latest_data(b.entries, p).len() > crate::assets::pak_spec::MAX_ASSET_SIZE {
        Err(
            PakErrorView::Io(
                crate::assets::pak_spec::IoErrorKind::InvalidData,
                crate::assets::pak_spec::too_large_text(p, latest_data(b.entries, p).len() as u64),
            ),
        )
    } else {
        Ok(latest_data(b.entries, p))
    }) by {
        lemma_read_back(b, p);
        if has_path(b.entries, p) {
            let j = lemma_last_index(b.entries, p);
            assert(stored_form(b.entries[j].1, b.compress).1 ==> inflated(
                stored_form(b.entries[j].1, b.compress).0,
            ) == Ok::<Seq<u8>, Seq<char>>(b.entries[j].1));
        }
    }
}

} // verus!
