//! Small PNG previews of clipboard images, as data URLs.
use vstd::prelude::*;

use base64::Engine;
use std::io::Cursor;

use crate::clipboard::{ClipboardImage, ImageData};

verus! {

/// Neither side of a preview is longer than this many pixels.
pub const THUMBNAIL_MAX_SIZE: u32 = 20;

/// The preview size of a `width` x `height` image: small images keep their
/// size; larger ones are scaled so that their longer side is the maximum,
/// with the shorter side rounded down but at least one pixel.
pub open spec fn thumbnail_size(width: u32, height: u32) -> (u32, u32) {
    if width > THUMBNAIL_MAX_SIZE || height > THUMBNAIL_MAX_SIZE {
        if width > height {
            let h = max1(height * THUMBNAIL_MAX_SIZE) / (width as int);
            (THUMBNAIL_MAX_SIZE, max1(h) as u32)
        } else if height > width {
            let w = max1(width * THUMBNAIL_MAX_SIZE) / (height as int);
            (max1(w) as u32, THUMBNAIL_MAX_SIZE)
        } else {
            (THUMBNAIL_MAX_SIZE, THUMBNAIL_MAX_SIZE)
        }
    } else {
        (width, height)
    }
}

pub open spec fn max1(x: int) -> int {
    if x < 1 {
        1
    } else {
        x
    }
}

/// The scaling arithmetic of a preview stays within `u32`.
pub open spec fn thumbnail_arithmetic_fits(width: u32, height: u32) -> bool {
    (width > THUMBNAIL_MAX_SIZE || height > THUMBNAIL_MAX_SIZE) ==> (
    if width > height {
        height * THUMBNAIL_MAX_SIZE <= u32::MAX
    } else if height > width {
        width * THUMBNAIL_MAX_SIZE <= u32::MAX
    } else {
        true
    })
}

/// The preview size of an image, or `None` when its scaling arithmetic would
/// leave `u32`.
pub fn thumbnail_dimensions(width: u32, height: u32) -> (size: Option<(u32, u32)>)
    ensures
        size is Some <==> thumbnail_arithmetic_fits(width, height),
        size matches Some(s) ==> s == thumbnail_size(width, height),
        size matches Some(s) ==> 1 <= s.0 <= THUMBNAIL_MAX_SIZE || (s.0 == width && width
            <= THUMBNAIL_MAX_SIZE),
        size matches Some(s) ==> 1 <= s.1 <= THUMBNAIL_MAX_SIZE || (s.1 == height && height
            <= THUMBNAIL_MAX_SIZE),
{
    if width > THUMBNAIL_MAX_SIZE || height > THUMBNAIL_MAX_SIZE {
        if width > height {
            let scaled = match height.checked_mul(THUMBNAIL_MAX_SIZE) {
                Some(scaled) => scaled,
                None => return None,
            };
            let numerator = if scaled < 1 {
                1
            } else {
                scaled
            };
            let h = numerator / width;
            assert(h <= THUMBNAIL_MAX_SIZE) by (nonlinear_arith)
                requires
                    h == numerator / width,
                    numerator <= 1 || numerator == height * 20,
                    height < width,
                    width > 20,
            ;
            Some((THUMBNAIL_MAX_SIZE, if h < 1 { 1 } else { h }))
        } else if height > width {
            let scaled = match width.checked_mul(THUMBNAIL_MAX_SIZE) {
                Some(scaled) => scaled,
                None => return None,
            };
            let numerator = if scaled < 1 {
                1
            } else {
                scaled
            };
            let w = numerator / height;
            assert(w <= THUMBNAIL_MAX_SIZE) by (nonlinear_arith)
                requires
                    w == numerator / height,
                    numerator <= 1 || numerator == width * 20,
                    width < height,
                    height > 20,
            ;
            Some((if w < 1 { 1 } else { w }, THUMBNAIL_MAX_SIZE))
        } else {
            Some((THUMBNAIL_MAX_SIZE, THUMBNAIL_MAX_SIZE))
        }
    } else {
        Some((width, height))
    }
}

/// The PNG bytes of `rgba` (a `width` x `height` RGBA image) resized to
/// `new_width` x `new_height` with nearest-neighbour sampling, as the image
/// crate encodes them; `None` when the image crate refuses the buffer or the
/// encoding.
pub uninterp spec fn png_thumbnail_bytes(
    rgba: Seq<u8>,
    width: u32,
    height: u32,
    new_width: u32,
    new_height: u32,
) -> Option<Seq<u8>>;

/// Calls `RgbaImage::from_raw`, `imageops::resize` with `FilterType::Nearest`
/// and `write_to` with `ImageFormat::Png` (image crate). Claimed: the result
/// is a function of the arguments alone, named `png_thumbnail_bytes`;
/// nothing is stated of the PNG bytes themselves.
#[verifier::external_body]
fn png_thumbnail(rgba: &[u8], width: u32, height: u32, new_width: u32, new_height: u32) -> (png:
    Option<Vec<u8>>)
    ensures
        png matches Some(bytes) ==> png_thumbnail_bytes(rgba@, width, height, new_width, new_height)
            == Some(bytes@),
        png is None ==> png_thumbnail_bytes(rgba@, width, height, new_width, new_height) is None,
{
    let image = image::RgbaImage::from_raw(width, height, rgba.to_vec())?;
    let thumb = image::imageops::resize(&image, new_width, new_height, image::imageops::FilterType::Nearest);
    let mut bytes = Vec::new();
    thumb.write_to(&mut Cursor::new(&mut bytes), image::ImageFormat::Png).ok()?;
    Some(bytes)
}

/// The standard (padded) base64 encoding of a byte sequence, as the base64
/// crate produces it.
pub uninterp spec fn base64_standard(bytes: Seq<u8>) -> Seq<char>;

/// Calls `base64::engine::general_purpose::STANDARD.encode` (base64 crate).
/// Claimed: the text returned is a function of the bytes alone, named
/// `base64_standard`; its characters are not stated.
#[verifier::external_body]
fn base64_encode(bytes: &[u8]) -> (text: String)
    ensures
        text@ == base64_standard(bytes@),
{
    base64::engine::general_purpose::STANDARD.encode(bytes)
}

/// The preview of an image: a PNG data URL of its thumbnail, when the image
/// crate can encode it.
pub open spec fn image_preview(image: ImageData) -> Option<Seq<char>> {
    if !thumbnail_arithmetic_fits(image.width, image.height) {
        None
    } else {
        let size = thumbnail_size(image.width, image.height);
        match png_thumbnail_bytes(image.rgba, image.width, image.height, size.0, size.1) {
            Some(png) => Some("data:image/png;base64,"@ + base64_standard(png)),
            None => None,
        }
    }
}

/// A PNG data URL of the image's thumbnail.
pub fn generate_preview(image: &ClipboardImage) -> (preview: Option<String>)
    ensures
        preview matches Some(p) ==> image_preview(image.data()) == Some(p@),
        preview is None ==> image_preview(image.data()) is None,
{
    let (new_width, new_height) = match thumbnail_dimensions(image.width, image.height) {
        Some(size) => size,
        None => return None,
    };
    let png = match png_thumbnail(image.rgba.as_slice(), image.width, image.height, new_width, new_height) {
        Some(png) => png,
        None => return None,
    };
    let encoded = base64_encode(png.as_slice());
    let mut preview = String::from_str("data:image/png;base64,");
    preview.append(encoded.as_str());
    Some(preview)
}

} // verus!
