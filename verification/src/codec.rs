//! Trusted boundary to the byte-level codecs: base64 decoding, image
//! decoding, and the fixed 9x8 grayscale resample that feeds the
//! perceptual hash.

use vstd::prelude::*;

use base64::Engine;

use crate::image_data::{ImageView, RgbImage};

verus! {

/// What the standard-alphabet base64 decoder returns for a given input:
/// `None` when the input is not valid base64.
pub uninterp spec fn base64_decoded(data: Seq<u8>) -> Option<Seq<u8>>;

/// What the image decoder returns for a given byte stream: the RGB pixel
/// grid, or `None` when the bytes are not a supported image format.
pub uninterp spec fn image_of_bytes(data: Seq<u8>) -> Option<ImageView>;

/// The fixed 9-wide, 8-tall grayscale resample of an image: 72 luma bytes
/// in row-major order.
pub uninterp spec fn gray_9x8(v: ImageView) -> Seq<u8>;

/// Relies on base64's standard-alphabet `Engine::decode`: the result is a
/// function of the input bytes alone.
#[verifier::external_body]
pub fn base64_decode(data: &[u8]) -> (r: Option<Vec<u8>>)
    ensures
        match r {
            Some(v) => base64_decoded(data@) == Some(v@),
            None => base64_decoded(data@) is None,
        },
{
    match base64::engine::general_purpose::STANDARD.decode(data) {
        Ok(v) => Some(v),
        Err(_) => None,
    }
}

/// Relies on `image::load_from_memory` and `DynamicImage::to_rgb8`: decoding
/// is a function of the bytes alone, and the RGB buffer holds exactly three
/// bytes per pixel.
#[verifier::external_body]
pub fn decode_image(data: &[u8]) -> (r: Result<RgbImage, String>)
    ensures
        match r {
            Ok(img) => image_of_bytes(data@) == Some(img@) && img@.wf(),
            Err(_) => image_of_bytes(data@) is None,
        },
{
    match image::load_from_memory(data) {
        Ok(decoded) => {
            let rgb = decoded.to_rgb8();
            let (width, height) = rgb.dimensions();
            Ok(RgbImage { width, height, pixels: rgb.into_raw() })
        },
        Err(e) => Err(format!("Failed to load image: {}", e)),
    }
}

/// Relies on `DynamicImage::resize_exact(9, 8, Lanczos3)` and `to_luma8`:
/// the resample is a function of the pixel grid alone and always yields a
/// 9x8 luma buffer of 72 bytes.
#[verifier::external_body]
pub fn resize_gray_9x8(img: &RgbImage) -> (g: Vec<u8>)
    requires
        img@.wf(),
    ensures
        g@ == gray_9x8(img@),
        g@.len() == 72,
{
    let buffer = image::RgbImage::from_raw(img.width, img.height, img.pixels.clone())
        .expect("buffer length matches dimensions");
    let resized = image::DynamicImage::ImageRgb8(buffer)
        .resize_exact(9, 8, image::imageops::FilterType::Lanczos3);
    resized.to_luma8().into_raw()
}

} // verus!
