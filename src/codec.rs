//! Decoding, resampling and PNG encoding of bitmaps, through the `image` crate.
use vstd::prelude::*;
use crate::bitmap::Bitmap;
use crate::error::AppError;

verus! {

/// The `(width, height, RGBA bytes)` that `image` decodes from `bytes`, if any.
pub uninterp spec fn decoded_of(bytes: Seq<u8>) -> Option<(u32, u32, Seq<u8>)>;

/// The RGBA bytes of a `width` x `height` bitmap resampled with a triangle
/// filter to `new_width` x `new_height`.
pub uninterp spec fn resized_of(
    width: u32,
    height: u32,
    data: Seq<u8>,
    new_width: u32,
    new_height: u32,
) -> Seq<u8>;

/// The PNG file that `image` writes for a `width` x `height` RGBA bitmap.
pub uninterp spec fn png_of(width: u32, height: u32, data: Seq<u8>) -> Seq<u8>;

/// Relies on `image::load_from_memory` (format guessed from the bytes) and
/// `DynamicImage::into_rgba8`: the outcome depends on the bytes alone.
#[verifier::external_body]
fn load_rgba(bytes: &[u8]) -> (r: Result<(u32, u32, Vec<u8>), String>)
    ensures
        r matches Ok(v) ==> decoded_of(bytes@) == Some((v.0, v.1, v.2@)),
        r is Err ==> decoded_of(bytes@) is None,
{
    match image::load_from_memory(bytes) {
        Ok(img) => {
            let rgba = img.into_rgba8();
            Ok((rgba.width(), rgba.height(), rgba.into_raw()))
        },
        Err(e) => Err(e.to_string()),
    }
}

/// Relies on `image::imageops::resize` with `FilterType::Triangle`: the result
/// has exactly the requested size. A source without pixels is left out.
#[verifier::external_body]
fn resize_triangle(image: &Bitmap, new_width: u32, new_height: u32) -> (r: Bitmap)
    requires
        image.wf(),
        image.width > 0,
        image.height > 0,
    ensures
        r.wf(),
        r.width == new_width,
        r.height == new_height,
        r.data@ == resized_of(image.width, image.height, image.data@, new_width, new_height),
{
    let src = image::RgbaImage::from_raw(image.width, image.height, image.data.clone()).unwrap();
    let out = image::imageops::resize(&src, new_width, new_height, image::imageops::FilterType::Triangle);
    Bitmap { width: new_width, height: new_height, data: out.into_raw() }
}

/// Relies on `image::codecs::png::PngEncoder::write_image` for 8-bit RGBA,
/// which panics unless the buffer holds four bytes per pixel, and fails only
/// on a zero width or height (the writer is a `Vec`, which cannot fail).
#[verifier::external_body]
fn write_png(image: &Bitmap) -> (r: Result<Vec<u8>, String>)
    requires
        image.wf(),
    ensures
        r matches Ok(v) ==> v@ == png_of(image.width, image.height, image.data@),
        image.width > 0 && image.height > 0 ==> r is Ok,
{
    let mut out: Vec<u8> = Vec::new();
    let encoder = image::codecs::png::PngEncoder::new(&mut out);
    match image::ImageEncoder::write_image(encoder, &image.data, image.width, image.height, image::ColorType::Rgba8) {
        Ok(()) => Ok(out),
        Err(e) => Err(e.to_string()),
    }
}

/// Decodes an uploaded file into an RGBA bitmap. Bytes that are not a
/// supported image, or that decode to no pixels, are an invalid file.
pub fn decode_image(bytes: &[u8]) -> (r: Result<Bitmap, AppError>)
    ensures
        r is Ok <==> (decoded_of(bytes@) matches Some(d) && d.0 > 0 && d.1 > 0 && d.2.len() == 4
            * (d.0 as int * d.1 as int)),
        r matches Ok(b) ==> b.wf() && decoded_of(bytes@) == Some((b.width, b.height, b.data@)),
        r matches Err(e) ==> e == AppError::InvalidFileFormat,
{
    match load_rgba(bytes) {
        Ok((width, height, data)) => {
            if width == 0 || height == 0 {
                return Err(AppError::InvalidFileFormat);
            }
            proof {
                assert(width as int * height as int <= u32::MAX as int * u32::MAX as int)
                    by (nonlinear_arith)
                    requires
                        width <= u32::MAX,
                        height <= u32::MAX,
                ;
            }
            let n: u128 = (width as u128) * (height as u128);
            if (data.len() as u128) == 4 * n {
                Ok(Bitmap { width, height, data })
            } else {
                Err(AppError::InvalidFileFormat)
            }
        },
        Err(_) => Err(AppError::InvalidFileFormat),
    }
}

/// Resamples a bitmap to `new_width` x `new_height` with a triangle filter.
pub fn resize(image: &Bitmap, new_width: u32, new_height: u32) -> (r: Bitmap)
    requires
        image.wf(),
        image.width > 0,
        image.height > 0,
    ensures
        r.wf(),
        r.width == new_width,
        r.height == new_height,
        r.data@ == resized_of(image.width, image.height, image.data@, new_width, new_height),
{
    resize_triangle(image, new_width, new_height)
}

/// Encodes a bitmap as PNG, which keeps the alpha channel.
pub fn encode_png(image: &Bitmap) -> (r: Result<Vec<u8>, AppError>)
    requires
        image.wf(),
    ensures
        r matches Ok(v) ==> v@ == png_of(image.width, image.height, image.data@),
        image.width > 0 && image.height > 0 ==> r is Ok,
        r matches Err(e) ==> e is ImageProcessing,
{
    match write_png(image) {
        Ok(v) => Ok(v),
        Err(msg) => Err(AppError::ImageProcessing(msg)),
    }
}

} // verus!
