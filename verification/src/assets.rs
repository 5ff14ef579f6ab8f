//! The compute step of the asynchronous asset pipeline.
//!
//! A texture job runs on a short-lived worker thread: the host shell reads
//! the file, calls `run_texture_job` on the bytes, and posts exactly one
//! result envelope back to the main thread. The job is a function from
//! plain values to plain values — it touches no runtime state, which is
//! what keeps every mutation on the main thread.

use vstd::prelude::*;
use crate::runtime::TexturePixels;

verus! {

/// What decoding a byte buffer as an image yields: the RGBA8 pixels and
/// the dimensions, or nothing when the bytes are not a readable image. The
/// decode depends on the bytes alone.
pub uninterp spec fn decoded_rgba(data: Seq<u8>) -> Option<(Seq<u8>, u32, u32)>;

/// Relies on image::load_from_memory, DynamicImage::to_rgba8,
/// ImageBuffer::dimensions and ImageBuffer::into_raw: the decode is a
/// function of the bytes alone, and a decoded image yields exactly four
/// bytes per pixel.
#[verifier::external_body]
fn decode_image_rgba(data: &Vec<u8>) -> (r: Result<TexturePixels, String>)
    ensures
        r matches Ok(px) ==> decoded_rgba(data@) == Some((px.rgba@, px.width, px.height))
            && px.rgba@.len() == 4 * px.width * px.height,
        r is Err ==> decoded_rgba(data@) is None,
{
    match image::load_from_memory(data) {
        Ok(img) => {
            let rgba = img.to_rgba8();
            let (width, height) = rgba.dimensions();
            Ok(TexturePixels { rgba: rgba.into_raw(), width, height })
        },
        Err(e) => Err(format!("Failed to decode image: {}", e)),
    }
}

/// The texture job, after the filesystem read: passes a read failure
/// through unchanged, and otherwise decodes the bytes. The result feeds
/// the main thread's `on_async_result` as a `Texture` envelope.
pub fn run_texture_job(read: Result<Vec<u8>, String>) -> (r: Result<TexturePixels, String>)
    ensures
        read matches Err(e) ==> (r matches Err(e2) && e2@ == e@),
        read matches Ok(data) ==> (match r {
            Ok(px) => decoded_rgba(data@) == Some((px.rgba@, px.width, px.height)) && px.rgba@.len()
                == 4 * px.width * px.height,
            Err(_) => decoded_rgba(data@) is None,
        }),
{
    match read {
        Ok(data) => decode_image_rgba(&data),
        Err(e) => Err(e),
    }
}

} // verus!
