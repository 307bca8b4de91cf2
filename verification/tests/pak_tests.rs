use resonance::assets::pak::{PakArchive, PakBuilder, PakError};
use resonance::assets::pak_spec::IoErrorKind;

fn build(entries: &[(&str, Vec<u8>)], compress: bool) -> Vec<u8> {
    let mut b = PakBuilder::new().with_compression(compress);
    for (p, d) in entries {
        b.add_bytes(p.to_string(), d.clone());
    }
    b.build_to_bytes().unwrap()
}

#[test]
fn round_trip_uncompressed() {
    let bytes = build(&[("a.txt", b"hello".to_vec()), ("dir/b.bin", vec![1, 2, 3])], false);
    assert_eq!(&bytes[0..6], b"RESPAK");
    let pak = PakArchive::from_bytes(bytes).unwrap();
    assert_eq!(pak.entry_count(), 2);
    assert_eq!(pak.get("a.txt").unwrap(), b"hello".to_vec());
    assert_eq!(pak.get("dir/b.bin").unwrap(), vec![1, 2, 3]);
    assert!(pak.contains("a.txt"));
    assert!(!pak.contains("c.txt"));
    let mut list = pak.list();
    list.sort();
    assert_eq!(list, vec!["a.txt".to_string(), "dir/b.bin".to_string()]);
}

#[test]
fn round_trip_compressed() {
    let data = vec![7u8; 4096];
    let bytes = build(&[("zeros", data.clone()), ("tiny", vec![9])], true);
    let pak = PakArchive::from_bytes(bytes).unwrap();
    let e = pak.get_entry("zeros").unwrap();
    assert!(e.compressed);
    assert!(e.size < 4096);
    assert_eq!(e.original_size, 4096);
    assert!(!pak.get_entry("tiny").unwrap().compressed);
    assert_eq!(pak.get("zeros").unwrap(), data);
    assert_eq!(pak.get("tiny").unwrap(), vec![9]);
}

#[test]
fn layout_of_single_entry() {
    let bytes = build(&[("ab", vec![5, 6])], false);
    // header 14, entry 4 + 2 + 29, then data
    assert_eq!(bytes.len(), 14 + 35 + 2);
    assert_eq!(&bytes[6..10], &1u32.to_le_bytes());
    assert_eq!(&bytes[10..14], &1u32.to_le_bytes());
    let pak = PakArchive::from_bytes(bytes).unwrap();
    let e = pak.get_entry("ab").unwrap();
    assert_eq!(e.offset, 49);
    assert_eq!(e.size, 2);
}

#[test]
fn checksum_is_crc32() {
    let bytes = build(&[("c", b"123456789".to_vec())], false);
    let pak = PakArchive::from_bytes(bytes).unwrap();
    assert_eq!(pak.get_entry("c").unwrap().checksum, 0xCBF4_3926);
}

#[test]
fn later_entry_wins() {
    let bytes = build(&[("x", vec![1]), ("y", vec![2]), ("x", vec![3])], false);
    let pak = PakArchive::from_bytes(bytes).unwrap();
    assert_eq!(pak.entry_count(), 2);
    assert_eq!(pak.get("x").unwrap(), vec![3]);
}

#[test]
fn empty_archive() {
    let bytes = build(&[], true);
    assert_eq!(bytes.len(), 14);
    let pak = PakArchive::from_bytes(bytes).unwrap();
    assert_eq!(pak.entry_count(), 0);
    assert!(pak.list().is_empty());
}

#[test]
fn bad_magic() {
    let mut bytes = build(&[], false);
    bytes[0] = b'X';
    assert!(matches!(PakArchive::from_bytes(bytes), Err(PakError::InvalidMagic)));
}

#[test]
fn unsupported_version() {
    let mut bytes = build(&[], false);
    bytes[6] = 2;
    match PakArchive::from_bytes(bytes) {
        Err(e) => {
            assert!(matches!(e, PakError::UnsupportedVersion(2)));
            assert_eq!(e.message(), "Unsupported PAK version: 2");
        }
        Ok(_) => panic!("accepted version 2"),
    }
}

#[test]
fn truncated_input() {
    for n in [0usize, 3, 8, 12] {
        let bytes = build(&[], false)[..n].to_vec();
        match PakArchive::from_bytes(bytes) {
            Err(PakError::Io(f)) => assert_eq!(f.kind, IoErrorKind::UnexpectedEof),
            _ => panic!("truncated header accepted"),
        }
    }
    let bytes = build(&[("abc", vec![1, 2, 3])], false);
    let cut = bytes[..20].to_vec();
    match PakArchive::from_bytes(cut) {
        Err(PakError::Io(f)) => {
            assert_eq!(f.kind, IoErrorKind::UnexpectedEof);
            assert_eq!(f.message, "failed to fill whole buffer");
        }
        _ => panic!("truncated table accepted"),
    }
}

#[test]
fn invalid_utf8_path() {
    let mut bytes = build(&[("ab", vec![1])], false);
    bytes[18] = 0xFF;
    match PakArchive::from_bytes(bytes) {
        Err(PakError::Io(f)) => assert_eq!(f.kind, IoErrorKind::InvalidData),
        _ => panic!("invalid path accepted"),
    }
}

#[test]
fn missing_asset() {
    let pak = PakArchive::from_bytes(build(&[("a", vec![1])], false)).unwrap();
    match pak.get("b") {
        Err(e) => {
            assert!(matches!(&e, PakError::AssetNotFound(p) if p == "b"));
            assert_eq!(e.message(), "Asset not found in PAK: b");
        }
        Ok(_) => panic!("found a missing asset"),
    }
    assert!(pak.get_entry("b").is_none());
}

fn with_u64_field(mut bytes: Vec<u8>, at: usize, v: u64) -> Vec<u8> {
    bytes[at..at + 8].copy_from_slice(&v.to_le_bytes());
    bytes
}

#[test]
fn asset_too_large() {
    // entry for path "a": prefix 14, len 4, path 1, offset 8, size 8, crc 4, flag 1, original at 14+4+1+21
    let bytes = with_u64_field(build(&[("a", vec![1])], false), 14 + 4 + 1 + 21, (1u64 << 30) + 1);
    let pak = PakArchive::from_bytes(bytes).unwrap();
    match pak.get("a") {
        Err(PakError::Io(f)) => {
            assert_eq!(f.kind, IoErrorKind::InvalidData);
            assert_eq!(f.message, "Asset a exceeds maximum size (1073741825 > 1073741824 bytes)");
        }
        _ => panic!("oversized asset read"),
    }
}

#[test]
fn entry_out_of_range() {
    let bytes = with_u64_field(build(&[("a", vec![1])], false), 14 + 4 + 1, 1000);
    let pak = PakArchive::from_bytes(bytes).unwrap();
    match pak.get("a") {
        Err(PakError::Io(f)) => {
            assert_eq!(f.kind, IoErrorKind::UnexpectedEof);
            assert_eq!(f.message, "Entry offset/size exceeds PAK file size");
        }
        _ => panic!("entry past the end read"),
    }
    let bytes = with_u64_field(build(&[("a", vec![1])], false), 14 + 4 + 1, u64::MAX);
    let pak = PakArchive::from_bytes(bytes).unwrap();
    assert!(matches!(pak.get("a"), Err(PakError::Io(_))));
}

#[test]
fn corrupt_compressed_data() {
    let mut bytes = build(&[("a", vec![0xFF, 0xFF, 0xFF])], false);
    // set the compression flag
    bytes[14 + 4 + 1 + 20] = 1;
    let pak = PakArchive::from_bytes(bytes).unwrap();
    match pak.get("a") {
        Err(e) => {
            assert!(matches!(e, PakError::DecompressionFailed(_)));
            assert!(e.message().starts_with("Failed to decompress data: "));
        }
        Ok(_) => panic!("garbage inflated"),
    }
}

#[test]
fn builder_default_and_unicode_path() {
    let mut b = PakBuilder::default();
    b.add_bytes("ünï/ç.txt".to_string(), vec![42]);
    let pak = PakArchive::from_bytes(b.build_to_bytes().unwrap()).unwrap();
    assert_eq!(pak.get("ünï/ç.txt").unwrap(), vec![42]);
    assert_eq!(pak.get_entry("ünï/ç.txt").unwrap().path, "ünï/ç.txt");
}

#[test]
fn error_messages() {
    assert_eq!(PakError::InvalidMagic.message(), "Invalid PAK magic header");
    assert_eq!(
        PakError::CompressionFailed("x".to_string()).message(),
        "Failed to compress data: x"
    );
}

#[test]
fn checksum_checks() {
    let mut b = PakBuilder::new();
    b.add_bytes("a.txt".to_string(), b"hello".to_vec());
    let pak = PakArchive::from_bytes(b.build_to_bytes().unwrap()).unwrap();
    let data = pak.get("a.txt").unwrap();
    assert_eq!(pak.checksum_mismatch("a.txt", &data), None);
    // CRC-32 of "hello" is 0x3610a686; of "hellp" something else.
    assert_eq!(pak.get_entry("a.txt").unwrap().checksum, 0x3610_a686);
    match pak.checksum_mismatch("a.txt", b"hellp") {
        Some((expected, got)) => {
            assert_eq!(expected, 0x3610_a686);
            assert_ne!(got, expected);
        }
        None => panic!("mismatch not found"),
    }
    assert_eq!(pak.checksum_mismatch("missing", b"x"), None);
}

#[test]
fn small_archives_fit() {
    let mut b = PakBuilder::new();
    assert!(b.image_fits());
    b.add_bytes("a.txt".to_string(), vec![1, 2, 3]);
    assert!(b.image_fits());
    assert_eq!(b.build_to_bytes().unwrap().len(), 14 + 4 + 5 + 29 + 3);
}
