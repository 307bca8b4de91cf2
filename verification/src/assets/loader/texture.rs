//! Textures held as pixel bytes.
use crate::assets::loader::LoadError;
use crate::outside::{decode_image_rgba, decoded_image};
use vstd::prelude::*;
use vstd::string::StringExecFns;

verus! {

/// How a texture's pixels are laid out.
#[derive(Debug, Clone, Copy, PartialEq, Eq, Structural)]
pub enum TextureFormat {
    Rgba8,
    Rgb8,
    R8,
}

/// Bytes per pixel of a format.
pub open spec fn format_channels(f: TextureFormat) -> u32 {
    match f {
        TextureFormat::Rgba8 => 4,
        TextureFormat::Rgb8 => 3,
        TextureFormat::R8 => 1,
    }
}

impl TextureFormat {
    /// Bytes per pixel.
    pub fn channels(&self) -> (r: u32)
        ensures
            r == format_channels(*self),
    {
        match self {
            TextureFormat::Rgba8 => 4,
            TextureFormat::Rgb8 => 3,
            TextureFormat::R8 => 1,
        }
    }
}

/// A texture: its size, pixel bytes row by row, and layout.
#[derive(Debug)]
pub struct TextureData {
    pub width: u32,
    pub height: u32,
    pub data: Vec<u8>,
    pub format: TextureFormat,
}

/// Where the pixel nearest column `x`, row `y` begins in the data: the
/// coordinates are clamped to the last column and row.
pub open spec fn texel_index(t: &TextureData, x: u32, y: u32) -> int {
    let cx = if x < t.width - 1 { x as int } else { t.width - 1 };
    let cy = if y < t.height - 1 { y as int } else { t.height - 1 };
    (cy * t.width + cx) * format_channels(t.format)
}

/// Pixels lie row after row, each row `width` pixels long: the first pixel
/// starts the data, the next pixel in a row starts one pixel's bytes later,
/// the pixel below starts a whole row's bytes later, and coordinates past
/// the last column or row read the last one.
pub proof fn lemma_texel_layout(t: &TextureData, x: u32, y: u32)
    requires
        t.width >= 1,
        t.height >= 1,
    ensures
        texel_index(t, 0, 0) == 0,
        x + 1 < t.width && y < t.height ==> texel_index(t, (x + 1) as u32, y) == texel_index(t, x, y)
            + format_channels(t.format),
        x < t.width && y + 1 < t.height ==> texel_index(t, x, (y + 1) as u32) == texel_index(t, x, y)
            + t.width * format_channels(t.format),
        x < t.width && y < t.height ==> texel_index(t, x, y) == (y * t.width + x) * format_channels(t.format),
        x >= t.width ==> texel_index(t, x, y) == texel_index(t, (t.width - 1) as u32, y),
        y >= t.height ==> texel_index(t, x, y) == texel_index(t, x, (t.height - 1) as u32),
{
    let w = t.width as int;
    let ch = format_channels(t.format) as int;
    let xi = x as int;
    let yi = y as int;
    assert((0int * w + 0) * ch == 0) by (nonlinear_arith);
    assert((yi * w + (xi + 1)) * ch == (yi * w + xi) * ch + ch) by (nonlinear_arith);
    assert(((yi + 1) * w + xi) * ch == (yi * w + xi) * ch + w * ch) by (nonlinear_arith);
}

impl TextureData {
    /// A one-pixel RGBA texture of the given colour.
    pub fn solid_color(r: u8, g: u8, b: u8, a: u8) -> (t: Self)
        ensures
            t.width == 1,
            t.height == 1,
            t.data@ == seq![r, g, b, a],
            t.format == TextureFormat::Rgba8,
    {
        TextureData { width: 1, height: 1, data: vec![r, g, b, a], format: TextureFormat::Rgba8 }
    }

    /// A one-pixel opaque white texture.
    pub fn white() -> (t: Self)
        ensures
            t.width == 1,
            t.height == 1,
            t.data@ == seq![255u8, 255u8, 255u8, 255u8],
            t.format == TextureFormat::Rgba8,
    {
        Self::solid_color(255, 255, 255, 255)
    }

    /// A one-pixel opaque black texture.
    pub fn black() -> (t: Self)
        ensures
            t.width == 1,
            t.height == 1,
            t.data@ == seq![0u8, 0u8, 0u8, 255u8],
            t.format == TextureFormat::Rgba8,
    {
        Self::solid_color(0, 0, 0, 255)
    }

    /// The first three bytes of the pixel nearest column `x`, row `y`
    /// (clamped to the texture), where the data holds them.
    pub fn texel_rgb(&self, x: u32, y: u32) -> (r: Option<(u8, u8, u8)>)
        requires
            self.width >= 1,
            self.height >= 1,
            texel_index(self, x, y) <= u32::MAX,
        ensures
            ({
                let i = texel_index(self, x, y);
                if i + 2 < self.data@.len() {
                    r == Some((self.data@[i], self.data@[i + 1], self.data@[i + 2]))
                } else {
                    r is None
                }
            }),
    {
        let cx = if x < self.width - 1 { x } else { self.width - 1 };
        let cy = if y < self.height - 1 { y } else { self.height - 1 };
        let ch = self.format.channels();
        proof {
            assert(cy as int * self.width as int + cx as int <= (cy as int * self.width as int + cx as int) * ch as int) by (nonlinear_arith)
                requires ch >= 1, cy >= 0, self.width >= 1, cx >= 0;
            assert(cy as int * self.width as int <= cy as int * self.width as int + cx as int);
        }
        let idx = ((cy * self.width + cx) * ch) as usize;
        if idx < self.data.len() && self.data.len() - idx > 2 {
            Some((self.data[idx], self.data[idx + 1], self.data[idx + 2]))
        } else {
            None
        }
    }
}

/// Loads images from disk as RGBA textures.
pub struct TextureLoader;

/// Decodes an image held in memory into an RGBA texture. Fails, saying why,
/// where the bytes do not decode.
pub fn load_texture_from_bytes(bytes: &[u8]) -> (r: Result<TextureData, LoadError>)
    ensures
        match decoded_image(bytes@) {
            Ok((w, h, d)) => r matches Ok(t) && t.width == w && t.height == h && t.data@ == d
                && t.format == TextureFormat::Rgba8,
            Err(m) => r matches Err(LoadError::LoadFailed(s)) && s@ == "Failed to decode image: "@ + m,
        },
{
    match decode_image_rgba(bytes) {
        Ok((width, height, data)) => Ok(TextureData { width, height, data, format: TextureFormat::Rgba8 }),
        Err(m) => Err(LoadError::LoadFailed(String::from_str("Failed to decode image: ").concat(m.as_str()))),
    }
}

} // verus!
