//! The thumbnail pipeline: keyword extraction from raw metadata blocks,
//! pixel-format validation, resize and JPEG re-encode.

use vstd::prelude::*;
use vstd::pervasive::unreached;
use vstd::string::StringExecFns;
use crate::parse::{blocks_keywords, get_keywords, strings_view};

verus! {

/// The side of the square bounding box a thumbnail must fit in.
pub const THUMB_WIDTH: u32 = 600;

/// The other side of the bounding box.
pub const THUMB_HEIGHT: u32 = 600;

/// The quality the thumbnail is re-encoded at.
pub const JPEG_QUALITY: u8 = 96;

/// The pixel layout of a decoded image buffer, as reported by the codec.
#[derive(Clone, Copy, Debug, PartialEq, Eq, Structural)]
pub enum PixelFormat {
    /// Luminance, 8 bits per pixel.
    L8,
    /// Luminance, 16 bits per pixel.
    L16,
    /// Interleaved RGB, 8 bits per channel.
    Rgb24,
    /// Interleaved CMYK, 8 bits per channel.
    Cmyk32,
}

/// Why a pipeline run produced no thumbnail.
#[derive(Clone, Copy, Debug, PartialEq, Eq, Structural)]
pub enum PipelineError {
    /// The decoded buffer is not 3-channel 8-bit interleaved RGB.
    UnsupportedPixelFormat,
    /// The pixel buffer holds fewer bytes than the dimensions demand.
    BufferTooSmall,
}

/// What a successful pipeline run produced.
#[derive(Debug)]
pub struct ThumbnailInfo {
    /// The path the encoded thumbnail should be written to.
    pub filename: String,
    /// Every keyword found in the metadata blocks, in order of occurrence.
    pub keywords: Vec<String>,
}

/// Declares `image::DynamicImage`, the external codec's in-memory image, so
/// that it can be held in a field; its contents stay opaque.
#[verifier::external_type_specification]
#[verifier::external_body]
pub struct ExDynamicImage(image::DynamicImage);

/// Declares `image::ImageError`, the external codec's error, so that a
/// wrapper can return it.
#[verifier::external_type_specification]
#[verifier::external_body]
pub struct ExImageError(image::ImageError);

/// An 8-bit interleaved RGB image of the external codec, beside the plain
/// values the contracts speak of: its raw buffer and its dimensions. Only the
/// trusted wrappers below build one, so the plain fields always describe the
/// opaque image.
struct Photo {
    img: image::DynamicImage,
    pixels: Vec<u8>,
    width: u32,
    height: u32,
}

/// What `image::DynamicImage::thumbnail` produces from an 8-bit RGB image of
/// the given buffer and dimensions, downscaled to fit the given bounds: the
/// resulting buffer, width and height.
pub uninterp spec fn thumbnail_result_of(
    pixels: Seq<u8>,
    width: int,
    height: int,
    bound_w: int,
    bound_h: int,
) -> (Seq<u8>, int, int);

/// What `image::DynamicImage::write_to` encodes an 8-bit RGB image of the
/// given buffer and dimensions to, at the given JPEG quality.
pub uninterp spec fn jpeg_encoding_of(
    pixels: Seq<u8>,
    width: int,
    height: int,
    quality: int,
) -> Seq<u8>;

/// Relies on `image::RgbImage::from_raw`: it returns `Some` exactly when the
/// buffer holds at least `3 * width * height` bytes (and that count fits the
/// machine).
#[verifier::external_body]
fn rgb_image_of(width: u32, height: u32, pixels: Vec<u8>) -> (r: Option<Photo>)
    ensures
        r is Some <==> 3 * (width as int) * (height as int) <= pixels@.len(),
        r matches Some(p) ==> p.pixels@ == pixels@ && p.width == width && p.height == height,
{
    match image::RgbImage::from_raw(width, height, pixels.clone()) {
        Some(buf) => Some(Photo {
            img: image::DynamicImage::ImageRgb8(buf),
            pixels,
            width,
            height,
        }),
        None => None,
    }
}

/// Relies on `image::DynamicImage::thumbnail`: a deterministic,
/// aspect-preserving downscale whose result always fits within the (nonzero)
/// bounds and never has a zero dimension.
#[verifier::external_body]
fn thumbnail_of(img: &Photo, bound_w: u32, bound_h: u32) -> (r: Photo)
    requires
        bound_w >= 1,
        bound_h >= 1,
    ensures
        (r.pixels@, r.width as int, r.height as int) == thumbnail_result_of(
            img.pixels@,
            img.width as int,
            img.height as int,
            bound_w as int,
            bound_h as int,
        ),
        1 <= r.width <= bound_w,
        1 <= r.height <= bound_h,
{
    let t = img.img.thumbnail(bound_w, bound_h);
    Photo { pixels: t.as_bytes().to_vec(), width: t.width(), height: t.height(), img: t }
}

/// Relies on `image::DynamicImage::write_to` with the JPEG output format: a
/// deterministic encode that cannot fail into an in-memory stream when both
/// dimensions fit 16 bits.
#[verifier::external_body]
fn encode_jpeg(img: &Photo, quality: u8) -> (r: Result<Vec<u8>, image::ImageError>)
    ensures
        1 <= img.width <= 0xffff && 1 <= img.height <= 0xffff ==> r is Ok,
        r matches Ok(b) ==> b@ == jpeg_encoding_of(
            img.pixels@,
            img.width as int,
            img.height as int,
            quality as int,
        ),
{
    let mut cursor = std::io::Cursor::new(Vec::new());
    match img.img.write_to(&mut cursor, image::ImageOutputFormat::Jpeg(quality)) {
        Ok(()) => Ok(cursor.into_inner()),
        Err(e) => Err(e),
    }
}

/// The directory prefix every thumbnail path starts with: the bounding width,
/// then a slash.
pub open spec fn thumb_prefix() -> Seq<char> {
    seq!['6', '0', '0', '/']
}

/// Runs the pipeline on one decoded image: requires 3-channel 8-bit RGB,
/// extracts every keyword from the metadata blocks, resizes to fit the
/// bounding box, and re-encodes as JPEG. It succeeds exactly on a buffer
/// large enough for the dimensions; then the thumbnail path, the keywords in
/// order of occurrence, and the encoded bytes of the downscaled image come
/// back. Nothing is produced on failure.
pub fn render_thumbnail(
    pixels: Vec<u8>,
    width: u16,
    height: u16,
    format: PixelFormat,
    photoshop_irb: &[Vec<u8>],
    base_name: &str,
) -> (r: Result<(ThumbnailInfo, Vec<u8>), PipelineError>)
    ensures
        r is Ok <==> (format == PixelFormat::Rgb24 && pixels@.len() >= 3 * (width as int) * (
        height as int)),
        r == Err::<(ThumbnailInfo, Vec<u8>), PipelineError>(PipelineError::UnsupportedPixelFormat)
            <==> format != PixelFormat::Rgb24,
        r == Err::<(ThumbnailInfo, Vec<u8>), PipelineError>(PipelineError::BufferTooSmall) <==> (
        format == PixelFormat::Rgb24 && pixels@.len() < 3 * (width as int) * (height as int)),
        r matches Ok(ok) ==> ({
            let thumb = thumbnail_result_of(
                pixels@,
                width as int,
                height as int,
                THUMB_WIDTH as int,
                THUMB_HEIGHT as int,
            );
            &&& strings_view(ok.0.keywords@) == blocks_keywords(
                photoshop_irb@.map_values(|b: Vec<u8>| b@),
            )
            &&& ok.0.filename@ == thumb_prefix() + base_name@
            &&& ok.1@ == jpeg_encoding_of(thumb.0, thumb.1, thumb.2, JPEG_QUALITY as int)
            &&& 1 <= thumb.1 <= THUMB_WIDTH
            &&& 1 <= thumb.2 <= THUMB_HEIGHT
        }),
{
    if format != PixelFormat::Rgb24 {
        return Err(PipelineError::UnsupportedPixelFormat);
    }
    let keywords = get_keywords(photoshop_irb);
    proof {
        assert(3 * (width as int) * (height as int) <= 3 * 65535 * 65535) by (nonlinear_arith)
            requires
                width as int <= 65535,
                height as int <= 65535,
        ;
    }
    let need: u64 = 3u64 * (width as u64) * (height as u64);
    if (pixels.len() as u64) < need {
        return Err(PipelineError::BufferTooSmall);
    }
    let photo = match rgb_image_of(width as u32, height as u32, pixels) {
        Some(p) => p,
        None => unreached(),
    };
    let thumb = thumbnail_of(&photo, THUMB_WIDTH, THUMB_HEIGHT);
    let bytes = match encode_jpeg(&thumb, JPEG_QUALITY) {
        Ok(b) => b,
        Err(_) => unreached(),
    };
    let filename = String::from_str("600/").concat(base_name);
    proof {
        reveal_strlit("600/");
        assert("600/"@ =~= thumb_prefix());
    }
    Ok((ThumbnailInfo { filename, keywords }, bytes))
}

} // verus!
