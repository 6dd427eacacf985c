//! Pixel data in 8-bit RGBA, four bytes per pixel, rows top to bottom.

use vstd::prelude::*;

verus! {

/// The color layout of a decoded PNG frame.
#[derive(Copy, Clone, Debug, PartialEq, Eq, Structural)]
pub enum ColorKind {
    Grayscale,
    Rgb,
    Indexed,
    GrayscaleAlpha,
    Rgba,
}

/// The bits per sample of a decoded PNG frame.
#[derive(Copy, Clone, Debug, PartialEq, Eq, Structural)]
pub enum DepthKind {
    One,
    Two,
    Four,
    Eight,
    Sixteen,
}

/// Why an image could not be loaded.
#[derive(Copy, Clone, Debug, PartialEq, Eq, Structural)]
pub enum ImageError {
    /// The image is not 8-bit RGBA.
    UnsupportedFormat,
    /// The decoded bytes do not hold exactly four bytes per pixel.
    SizeMismatch,
}

/// An RGBA image with four bytes per pixel.
pub struct Image {
    pub width: u32,
    pub height: u32,
    pub pixels: Vec<u8>,
}

/// A channel scaled by its pixel's alpha: cleared when the pixel is fully
/// transparent, kept when it is opaque, and scaled by `a / 256` between.
pub open spec fn premultiplied_channel(c: u8, a: u8) -> u8 {
    if a == 0 {
        0
    } else if a < 255 {
        ((c as int * a as int) / 256) as u8
    } else {
        c
    }
}

fn premultiply_channel(c: u8, a: u8) -> (r: u8)
    ensures
        r == premultiplied_channel(c, a),
{
    if a == 0 {
        0
    } else if a < 255 {
        assert(c as int * a as int <= 255 * 255) by (nonlinear_arith)
            requires
                c <= 255,
                a <= 255,
        ;
        let product = c as u16 * a as u16;
        (product / 256) as u8
    } else {
        c
    }
}

/// Each byte of RGBA pixels with straight alpha, premultiplied: alpha bytes
/// stay, color bytes are scaled by their pixel's alpha.
pub open spec fn premultiplied(p: Seq<u8>) -> Seq<u8> {
    Seq::new(
        p.len(),
        |k: int|
            if k % 4 == 3 {
                p[k]
            } else {
                premultiplied_channel(p[k], p[k - k % 4 + 3])
            },
    )
}

/// Turns straight alpha into premultiplied alpha, in place: the color
/// channels of each pixel are scaled by its alpha, which stays as it was.
pub fn premultiply(pixels: &mut Vec<u8>)
    requires
        old(pixels)@.len() % 4 == 0,
    ensures
        final(pixels)@.len() == old(pixels)@.len(),
        final(pixels)@ == premultiplied(old(pixels)@),
{
    let n = pixels.len() / 4;
    let ghost orig = pixels@;
    assert(orig.len() == pixels.len());
    let mut i: usize = 0;
    while i < n
        invariant
            n == orig.len() / 4,
            orig.len() % 4 == 0,
            orig.len() <= usize::MAX,
            pixels@.len() == orig.len(),
            i <= n,
            forall|k: int| 0 <= k < 4 * i ==> #[trigger] pixels@[k] == premultiplied(orig)[k],
            forall|k: int| 4 * i <= k < orig.len() ==> #[trigger] pixels@[k] == orig[k],
        decreases n - i,
    {
        let base = 4 * i;
        let a = pixels[base + 3];
        let r = premultiply_channel(pixels[base], a);
        let g = premultiply_channel(pixels[base + 1], a);
        let b = premultiply_channel(pixels[base + 2], a);
        pixels.set(base, r);
        pixels.set(base + 1, g);
        pixels.set(base + 2, b);
        proof {
            assert forall|k: int| 0 <= k < 4 * i + 4 implies #[trigger] pixels@[k] == premultiplied(orig)[k] by {
                if k >= 4 * i {
                    assert(k - k % 4 + 3 == 4 * i + 3);
                }
            }
        }
        i = i + 1;
    }
    assert(pixels@ =~= premultiplied(orig));
}

/// Spreads a one-byte-per-pixel coverage bitmap over all four channels.
pub fn gray_to_rgba(coverage: &[u8]) -> (r: Vec<u8>)
    requires
        coverage@.len() * 4 <= usize::MAX,
    ensures
        r@.len() == coverage@.len() * 4,
        forall|i: int, c: int| 0 <= i < coverage@.len() && 0 <= c < 4 ==> #[trigger] r@[4 * i + c] == coverage@[i],
{
    let mut out: Vec<u8> = Vec::new();
    let mut i: usize = 0;
    while i < coverage.len()
        invariant
            i <= coverage@.len(),
            coverage@.len() * 4 <= usize::MAX,
            out@.len() == 4 * i,
            forall|j: int, c: int| 0 <= j < i && 0 <= c < 4 ==> #[trigger] out@[4 * j + c] == coverage@[j],
        decreases coverage@.len() - i,
    {
        let x = coverage[i];
        out.push(x);
        out.push(x);
        out.push(x);
        out.push(x);
        i = i + 1;
    }
    out
}

/// What loading a decoded frame gives: an error unless it is 8-bit RGBA
/// with exactly four bytes per pixel; else the image, its pixels
/// premultiplied when asked.
pub open spec fn rgba8_image(
    width: u32,
    height: u32,
    color: ColorKind,
    depth: DepthKind,
    data: Seq<u8>,
    premultiply_alpha: bool,
) -> Result<(u32, u32, Seq<u8>), ImageError> {
    if color != ColorKind::Rgba || depth != DepthKind::Eight {
        Err(ImageError::UnsupportedFormat)
    } else if data.len() != width * height * 4 {
        Err(ImageError::SizeMismatch)
    } else if premultiply_alpha {
        Ok((width, height, premultiplied(data)))
    } else {
        Ok((width, height, data))
    }
}

/// Checks a decoded frame and turns it into an image.
pub fn frame_to_image(
    width: u32,
    height: u32,
    color: ColorKind,
    depth: DepthKind,
    data: Vec<u8>,
    premultiply_alpha: bool,
) -> (r: Result<Image, ImageError>)
    ensures
        match (r, rgba8_image(width, height, color, depth, data@, premultiply_alpha)) {
            (Ok(img), Ok((w, h, pixels))) => img.width == w && img.height == h && img.pixels@ == pixels,
            (Err(e), Err(f)) => e == f,
            _ => false,
        },
{
    if color != ColorKind::Rgba || depth != DepthKind::Eight {
        return Err(ImageError::UnsupportedFormat);
    }
    assert(width as int * height as int <= u32::MAX as int * u32::MAX as int) by (nonlinear_arith)
        requires
            width <= u32::MAX,
            height <= u32::MAX,
    ;
    let expected: u128 = width as u128 * height as u128 * 4;
    if data.len() as u128 != expected {
        return Err(ImageError::SizeMismatch);
    }
    let mut pixels = data;
    if premultiply_alpha {
        premultiply(&mut pixels);
    }
    Ok(Image { width, height, pixels })
}

} // verus!
