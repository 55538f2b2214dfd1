//! The compositor: a canvas that tiles are pasted into, each at the place
//! its grid coordinate gives.
use vstd::prelude::*;
use image::{GenericImage, GenericImageView};
use crate::error::AppErr;
use crate::output_format::{OutputFormat, extension_of};

verus! {

#[verifier::external_type_specification]
#[verifier::external_body]
pub struct ExDynamicImage(image::DynamicImage);

#[verifier::external_type_specification]
#[verifier::external_body]
pub struct ExImageError(image::ImageError);

/// An RGBA image that tiles are pasted into, held in image's `RgbaImage`.
/// Its pixels and size are the names `canvas_pixels` and `canvas_extent`.
#[verifier::external_body]
pub struct Canvas {
    image: image::RgbaImage,
}

/// A pixel as red, green, blue and alpha.
pub type Rgba8 = (u8, u8, u8, u8);

/// The pixels of a canvas, by column and row.
pub uninterp spec fn canvas_pixels(c: Canvas) -> Map<(int, int), Rgba8>;

/// The width and height of a canvas.
pub uninterp spec fn canvas_extent(c: Canvas) -> (u32, u32);

/// The pixels of a decoded image, by column and row, as `get_pixel` gives
/// them in RGBA.
pub uninterp spec fn block_pixels(b: image::DynamicImage) -> Map<(int, int), Rgba8>;

/// The width and height of a decoded image.
pub uninterp spec fn block_extent(b: image::DynamicImage) -> (u32, u32);

/// The pixels (by column and row, in RGBA) and the size of the image that
/// image's PNG decoder reads from `bytes`, or none where it rejects them.
pub uninterp spec fn png_decoded(bytes: Seq<u8>) -> Option<(Map<(int, int), Rgba8>, (u32, u32))>;

/// The bytes that image's encoder for the file extension `extension` writes
/// for an RGBA image of these pixels and this size, or none where it fails.
pub uninterp spec fn encoded(
    pixels: Map<(int, int), Rgba8>,
    extent: (u32, u32),
    extension: Seq<char>,
) -> Option<Seq<u8>>;

/// A canvas of the given size, every pixel transparent black.
pub open spec fn blank(w: int, h: int) -> Map<(int, int), Rgba8> {
    Map::new(|p: (int, int)| 0 <= p.0 < w && 0 <= p.1 < h, |p: (int, int)| (0u8, 0u8, 0u8, 0u8))
}

/// `pixels` with a block of size `bw` by `bh` written over it at `(x, y)`.
pub open spec fn pasted(
    pixels: Map<(int, int), Rgba8>,
    block: Map<(int, int), Rgba8>,
    x: int,
    y: int,
    bw: int,
    bh: int,
) -> Map<(int, int), Rgba8> {
    Map::new(
        |p: (int, int)| pixels.dom().contains(p),
        |p: (int, int)|
            if x <= p.0 < x + bw && y <= p.1 < y + bh {
                block[(p.0 - x, p.1 - y)]
            } else {
                pixels[p]
            },
    )
}

/// Relies on `ImageBuffer::new`: a buffer of the given size with every
/// channel zero. It panics where the buffer length overflows `usize`.
#[verifier::external_body]
pub(crate) fn new_canvas(w: u32, h: u32) -> (r: Canvas)
    requires
        w as int * h as int * 4 <= usize::MAX,
    ensures
        canvas_extent(r) == (w, h),
        canvas_pixels(r) == blank(w as int, h as int),
{
    Canvas { image: image::ImageBuffer::new(w, h) }
}

/// Relies on `GenericImageView::dimensions` of `DynamicImage`.
#[verifier::external_body]
pub(crate) fn block_dimensions(b: &image::DynamicImage) -> (r: (u32, u32))
    ensures
        r == block_extent(*b),
{
    b.dimensions()
}

/// Relies on `load_from_memory_with_format` with the PNG decoder, which
/// reads the bytes alone: the image it returns has the pixels and size that
/// `png_decoded` names.
#[verifier::external_body]
pub(crate) fn decode_png(bytes: &[u8]) -> (r: Result<image::DynamicImage, image::ImageError>)
    ensures
        match r {
            Ok(img) => png_decoded(bytes@) == Some((block_pixels(img), block_extent(img))),
            Err(_) => png_decoded(bytes@) is None,
        },
{
    image::load_from_memory_with_format(bytes, image::ImageFormat::Png)
}

/// Relies on `GenericImage::copy_from`, which `ImageBuffer` does not
/// override: where the block fits at `(x, y)` its pixels overwrite the
/// canvas's there; else nothing is copied and a dimension error comes back.
/// The fit test adds `x` and `y` to the block's sides, so those sums must fit
/// in a `u32`.
#[verifier::external_body]
pub(crate) fn paste(canvas: &mut Canvas, block: &image::DynamicImage, x: u32, y: u32) -> (r: Result<(), image::ImageError>)
    requires
        x + block_extent(*block).0 <= u32::MAX,
        y + block_extent(*block).1 <= u32::MAX,
    ensures
        canvas_extent(*final(canvas)) == canvas_extent(*old(canvas)),
        r is Ok <==> (x + block_extent(*block).0 <= canvas_extent(*old(canvas)).0 && y
            + block_extent(*block).1 <= canvas_extent(*old(canvas)).1),
        r is Ok ==> canvas_pixels(*final(canvas)) == pasted(
            canvas_pixels(*old(canvas)),
            block_pixels(*block),
            x as int,
            y as int,
            block_extent(*block).0 as int,
            block_extent(*block).1 as int,
        ),
        r is Err ==> canvas_pixels(*final(canvas)) == canvas_pixels(*old(canvas)),
{
    canvas.image.copy_from(block, x, y)
}

/// Relies on `ImageBuffer::write_to` into memory, with the encoder of the
/// format's extension, as `save` picks it; the bytes depend on the pixels and
/// the size alone. Writing to a `Vec` does not fail, so the encoders' own
/// checks decide: the PNG writer refuses only a zero side
/// (png's `Writer::init`); the JPEG encoder refuses only a side that does not
/// fit in a `u16` (`JpegEncoder::encode_image`).
#[verifier::external_body]
pub(crate) fn encode_canvas(c: &Canvas, format: OutputFormat) -> (r: Result<Vec<u8>, image::ImageError>)
    ensures
        match r {
            Ok(b) => encoded(canvas_pixels(*c), canvas_extent(*c), extension_of(format)) == Some(b@),
            Err(_) => encoded(canvas_pixels(*c), canvas_extent(*c), extension_of(format)) is None,
        },
        format is PNG && canvas_extent(*c).0 >= 1 && canvas_extent(*c).1 >= 1 ==> r is Ok,
        format is JPEG && canvas_extent(*c).0 <= 65535 && canvas_extent(*c).1 <= 65535 ==> r is Ok,
{
    let target = match format {
        OutputFormat::PNG => image::ImageFormat::Png,
        OutputFormat::JPEG => image::ImageFormat::Jpeg,
    };
    let mut out = std::io::Cursor::new(Vec::new());
    match c.image.write_to(&mut out, target) {
        Ok(()) => Ok(out.into_inner()),
        Err(e) => Err(e),
    }
}

/// The tag of an error from the image crate.
pub const IMAGE_ERROR_KIND: &'static str = "image::ImageError";

impl Canvas {
    /// The canvas encoded as a file of the given format holds it. PNG always
    /// succeeds on a canvas with pixels; JPEG where both sides are at most
    /// 65535. Where the encoder fails, the error carries its message.
    pub fn encode(&self, format: OutputFormat) -> (r: Result<Vec<u8>, AppErr>)
        ensures
            match encoded(canvas_pixels(*self), canvas_extent(*self), extension_of(format)) {
                Some(b) => r matches Ok(v) && v@ == b,
                None => r matches Err(e) && e.kind@ == IMAGE_ERROR_KIND@ && e.cause is Some,
            },
            format is PNG && canvas_extent(*self).0 >= 1 && canvas_extent(*self).1 >= 1 ==> r is Ok,
            format is JPEG && canvas_extent(*self).0 <= 65535 && canvas_extent(*self).1 <= 65535
                ==> r is Ok,
    {
        match encode_canvas(self, format) {
            Ok(bytes) => Ok(bytes),
            Err(e) => Err(AppErr::from_err(IMAGE_ERROR_KIND, e.to_string())),
        }
    }
}

} // verus!
