use resonance::assets::handle::{AssetHandle, AssetId};
use resonance::assets::loader::shader::{load_shader_from_bytes, ShaderData, ShaderType};
use resonance::assets::loader::texture::{load_texture_from_bytes, TextureData, TextureFormat};
use resonance::assets::loader::LoadError;
use resonance::assets::pak::{PakArchive, PakBuilder, PakError};
use resonance::assets::source::{file_load_error, pak_load_error, AssetSource, AssetSourceConfig};
use std::sync::Arc;

#[test]
fn asset_id_hash() {
    assert_eq!(AssetId::new(5), AssetId(5));
    assert_eq!(AssetId::from_path(""), AssetId(0));
    assert_eq!(AssetId::from_path("a"), AssetId(97));
    assert_eq!(AssetId::from_path("ab"), AssetId(97 * 31 + 98));
    // wraps at 64 bits
    let long = "z".repeat(40);
    let mut h: u64 = 0;
    for b in long.bytes() {
        h = h.wrapping_mul(31).wrapping_add(b as u64);
    }
    assert_eq!(AssetId::from_path(&long), AssetId(h));
}

#[test]
fn handles() {
    let h = AssetHandle::from_path_and_asset("models/tree.obj".to_string(), Arc::new(3u8));
    assert_eq!(h.id, AssetId::from_path("models/tree.obj"));
    assert_eq!(h.path, "models/tree.obj");
    assert_eq!(*h.asset, 3);
    let g = AssetHandle::new(Arc::new(1u8), AssetId(9), "p".to_string());
    assert_eq!(g.id, AssetId(9));
}

#[test]
fn shader_from_bytes() {
    let s = load_shader_from_bytes(b"@vertex fn main() {}", ShaderType::Wgsl).unwrap();
    assert_eq!(s.source, "@vertex fn main() {}");
    assert_eq!(s.shader_type, ShaderType::Wgsl);
    match load_shader_from_bytes(&[0x66, 0xFF], ShaderType::Glsl) {
        Err(LoadError::LoadFailed(m)) => assert!(m.starts_with("Invalid UTF-8 in shader: ")),
        _ => panic!("invalid shader accepted"),
    }
    let d = ShaderData::new("x".to_string(), ShaderType::Glsl);
    assert_eq!(d.shader_type, ShaderType::Glsl);
}

#[test]
fn texture_basics() {
    assert_eq!(TextureFormat::Rgba8.channels(), 4);
    assert_eq!(TextureFormat::Rgb8.channels(), 3);
    assert_eq!(TextureFormat::R8.channels(), 1);
    let w = TextureData::white();
    assert_eq!((w.width, w.height, w.data.clone()), (1, 1, vec![255, 255, 255, 255]));
    let b = TextureData::black();
    assert_eq!(b.data, vec![0, 0, 0, 255]);
    let c = TextureData::solid_color(1, 2, 3, 4);
    assert_eq!(c.format, TextureFormat::Rgba8);
    assert_eq!(c.texel_rgb(0, 0), Some((1, 2, 3)));
    // clamped to the last pixel
    assert_eq!(c.texel_rgb(10, 10), Some((1, 2, 3)));
}

#[test]
fn texel_lookup() {
    let t = TextureData {
        width: 2,
        height: 2,
        data: vec![1, 2, 3, 4, 5, 6, 7, 8, 9, 10, 11, 12],
        format: TextureFormat::Rgb8,
    };
    assert_eq!(t.texel_rgb(0, 0), Some((1, 2, 3)));
    assert_eq!(t.texel_rgb(1, 0), Some((4, 5, 6)));
    assert_eq!(t.texel_rgb(0, 1), Some((7, 8, 9)));
    assert_eq!(t.texel_rgb(5, 5), Some((10, 11, 12)));
    let short = TextureData { width: 2, height: 1, data: vec![1, 2, 3, 4], format: TextureFormat::Rgba8 };
    assert_eq!(short.texel_rgb(1, 0), None);
}

#[test]
fn texture_from_png_bytes() {
    let img = image::RgbaImage::from_raw(2, 1, vec![1, 2, 3, 4, 5, 6, 7, 8]).unwrap();
    let mut png = std::io::Cursor::new(Vec::new());
    img.write_to(&mut png, image::ImageFormat::Png).unwrap();
    let t = load_texture_from_bytes(png.get_ref()).unwrap();
    assert_eq!((t.width, t.height), (2, 1));
    assert_eq!(t.data, vec![1, 2, 3, 4, 5, 6, 7, 8]);
    match load_texture_from_bytes(b"not an image") {
        Err(LoadError::LoadFailed(m)) => assert!(m.starts_with("Failed to decode image: ")),
        _ => panic!("garbage decoded"),
    }
}

#[test]
fn load_error_messages() {
    assert_eq!(LoadError::NotFound("x".into()).message(), "Asset not found: x");
    assert_eq!(LoadError::LoadFailed("y".into()).message(), "Failed to load asset: y");
    assert_eq!(LoadError::UnsupportedType("z".into()).message(), "Unsupported asset type: z");
}

fn pak_source() -> AssetSource {
    let mut b = PakBuilder::new();
    b.add_bytes("a.txt".to_string(), b"A".to_vec());
    let pak = PakArchive::from_bytes(b.build_to_bytes().unwrap()).unwrap();
    AssetSource::PakArchive { pak: Arc::new(pak) }
}

#[test]
fn sources() {
    let fs = AssetSource::FileSystem { root: "assets".to_string() };
    assert!(fs.supports_hot_reload());
    assert_eq!(fs.contains("a.txt"), None);
    let p = fs.get_filesystem_path("tex/a.png").unwrap();
    assert!(p.ends_with("tex/a.png"));
    assert_eq!(p, std::path::Path::new("assets").join("tex/a.png").to_string_lossy());
    assert_ne!(p, "tex/a.png");
    assert!(fs.load_pak_bytes("a").is_none());
    let pak = pak_source();
    assert!(!pak.supports_hot_reload());
    assert_eq!(pak.contains("a.txt"), Some(true));
    assert_eq!(pak.contains("b.txt"), Some(false));
    assert!(pak.get_filesystem_path("a.txt").is_none());
    assert_eq!(pak.load_pak_bytes("a.txt").unwrap().unwrap(), b"A".to_vec());
    match pak.load_pak_bytes("b.txt") {
        Some(Err(LoadError::NotFound(m))) => assert_eq!(m, "Asset not found in PAK: b.txt"),
        _ => panic!("missing asset read"),
    }
    assert!(matches!(AssetSourceConfig::default(), AssetSourceConfig::Auto));
}

#[test]
fn load_error_mapping() {
    match pak_load_error(PakError::InvalidMagic, "x") {
        LoadError::LoadFailed(m) => assert_eq!(m, "Failed to read from PAK: Invalid PAK magic header"),
        _ => panic!("wrong mapping"),
    }
    match file_load_error("a.png", "assets/a.png", true, "gone") {
        LoadError::NotFound(m) => assert_eq!(m, "Asset not found: a.png (full path: assets/a.png)"),
        _ => panic!("wrong mapping"),
    }
    match file_load_error("a.png", "assets/a.png", false, "denied") {
        LoadError::LoadFailed(m) => assert_eq!(m, "Failed to read a.png: denied"),
        _ => panic!("wrong mapping"),
    }
}
