//! The transformer: decodes raw bytes to an in-memory image, applies
//! operations in order, and encodes to the fixed output format (PNG).
//!
//! Pixel-level work is the `image` crate's, behind trusted wrappers. The
//! logic of this module is the part the pipeline depends on: which operations
//! succeed on an image of given dimensions, how the dimensions evolve, and
//! that operations are applied strictly in the order given, the output of one
//! being the input of the next. An `Image` carries its dimensions as plain
//! values beside the raw image, so that logic is verified.

use vstd::prelude::*;
use crate::ops::{FilterKind, Operation};
use crate::errors::ErrorKind;

verus! {

#[verifier::external_type_specification]
#[verifier::external_body]
pub struct ExDynamicImage(image::DynamicImage);

#[verifier::external_type_specification]
#[verifier::external_body]
pub struct ExFilterType(image::imageops::FilterType);

#[verifier::external_type_specification]
#[verifier::external_body]
pub struct ExImageError(image::ImageError);

/// The width and height, in pixels, of the square stamped onto an image by a
/// watermark operation.
pub const STAMP_SIZE: u32 = 16;

/// An in-memory image together with its dimensions as plain values: the part
/// of an image that the pipeline's logic reads.
#[derive(Debug)]
pub struct Image {
    raw: image::DynamicImage,
    width: u32,
    height: u32,
}

impl Image {
    /// The dimensions (width, height) of the image, in pixels.
    pub closed spec fn dims(&self) -> (u32, u32) {
        (self.width, self.height)
    }

    pub fn width(&self) -> (w: u32)
        ensures
            w == self.dims().0,
    {
        self.width
    }

    pub fn height(&self) -> (h: u32)
        ensures
            h == self.dims().1,
    {
        self.height
    }
}

/// The dimensions of the image the bytes decode to, or nothing when the
/// bytes are not a recognized image encoding. Decoding is a function of the
/// bytes alone.
pub uninterp spec fn decoded_dims(bytes: Seq<u8>) -> Option<(u32, u32)>;

/// Relies on image::load_from_memory and DynamicImage::width and height:
/// decoding guesses the format from the content and depends on the bytes
/// alone; it succeeds exactly when the bytes are a supported image encoding,
/// and the decoded image has the dimensions `decoded_dims` gives.
#[verifier::external_body]
fn decode_bytes(bytes: &Vec<u8>) -> (r: Result<Image, image::ImageError>)
    ensures
        r is Ok <==> decoded_dims(bytes@) is Some,
        (r matches Ok(img) ==> decoded_dims(bytes@) == Some(img.dims())),
{
    match image::load_from_memory(bytes.as_slice()) {
        Ok(raw) => {
            let width = raw.width();
            let height = raw.height();
            Ok(Image { raw, width, height })
        },
        Err(e) => Err(e),
    }
}

/// Relies on image::DynamicImage::resize_exact: the result has exactly the
/// requested dimensions; it does not preserve aspect ratio. Pixel content is
/// not modeled.
#[verifier::external_body]
fn resize_raw(
    raw: &image::DynamicImage,
    width: u32,
    height: u32,
    ft: image::imageops::FilterType,
) -> image::DynamicImage
    requires
        1 <= width,
        1 <= height,
{
    raw.resize_exact(width, height, ft)
}

/// Relies on image::imageops::overlay: draws `top` over `base` at the given
/// offset, clipping at the edges, never panicking; the dimensions of `base`
/// are unchanged.
#[verifier::external_body]
fn overlay_raw(base: &mut image::DynamicImage, top: &image::DynamicImage, x: i64, y: i64) {
    image::imageops::overlay(base, top, x, y);
}

/// Relies on image::RgbaImage::from_pixel: an image of the given dimensions
/// filled with one color.
#[verifier::external_body]
fn solid_image(width: u32, height: u32, red: u8, green: u8, blue: u8, alpha: u8) -> (r:
    image::DynamicImage)
    requires
        1 <= width,
        1 <= height,
{
    image::DynamicImage::ImageRgba8(
        image::RgbaImage::from_pixel(width, height, image::Rgba([red, green, blue, alpha])),
    )
}

/// Relies on image::DynamicImage::huerotate: rotates the hue of every pixel
/// by the given number of degrees; the dimensions are unchanged.
#[verifier::external_body]
fn huerotate_raw(raw: &image::DynamicImage, degrees: i32) -> image::DynamicImage {
    raw.huerotate(degrees)
}

/// Relies on image::DynamicImage::to_rgba8 and write_to with the PNG format:
/// encoding a non-degenerate rgba8 image to an in-memory buffer always
/// succeeds (the PNG encoder rejects only zero-dimension images) and writes
/// at least the PNG signature, so the output is never empty.
#[verifier::external_body]
fn encode_png_raw(img: &Image) -> (r: Vec<u8>)
    requires
        1 <= img.dims().0,
        1 <= img.dims().1,
    ensures
        r@.len() > 0,
{
    let rgba = img.raw.to_rgba8();
    let mut buf = std::io::Cursor::new(Vec::new());
    image::DynamicImage::ImageRgba8(rgba)
        .write_to(&mut buf, image::ImageFormat::Png)
        .expect("encoding a non-degenerate rgba8 image to an in-memory PNG cannot fail");
    buf.into_inner()
}

/// Relies on image::imageops::FilterType::Nearest being a plain unit variant.
#[verifier::external_body]
fn filter_nearest() -> image::imageops::FilterType {
    image::imageops::FilterType::Nearest
}

/// Relies on image::imageops::FilterType::Triangle being a plain unit variant.
#[verifier::external_body]
fn filter_triangle() -> image::imageops::FilterType {
    image::imageops::FilterType::Triangle
}

/// Relies on image::imageops::FilterType::CatmullRom being a plain unit variant.
#[verifier::external_body]
fn filter_catmull_rom() -> image::imageops::FilterType {
    image::imageops::FilterType::CatmullRom
}

/// Relies on image::imageops::FilterType::Gaussian being a plain unit variant.
#[verifier::external_body]
fn filter_gaussian() -> image::imageops::FilterType {
    image::imageops::FilterType::Gaussian
}

/// Relies on image::imageops::FilterType::Lanczos3 being a plain unit variant.
#[verifier::external_body]
fn filter_lanczos3() -> image::imageops::FilterType {
    image::imageops::FilterType::Lanczos3
}

/// The resampling algorithm a filter kind names, if it names one.
fn resample_filter(f: FilterKind) -> (r: Option<image::imageops::FilterType>)
    ensures
        r is Some <==> f.is_resampling(),
{
    match f {
        FilterKind::Nearest => Some(filter_nearest()),
        FilterKind::Triangle => Some(filter_triangle()),
        FilterKind::CatmullRom => Some(filter_catmull_rom()),
        FilterKind::Gaussian => Some(filter_gaussian()),
        FilterKind::Lanczos3 => Some(filter_lanczos3()),
        FilterKind::Marine => None,
        FilterKind::Oceanic => None,
        FilterKind::Islands => None,
    }
}

/// The hue rotation, in degrees, that realizes a stylistic color filter.
fn stylistic_degrees(f: FilterKind) -> (r: Option<i32>)
    ensures
        r is Some <==> f.is_stylistic(),
{
    match f {
        FilterKind::Marine => Some(180),
        FilterKind::Oceanic => Some(90),
        FilterKind::Islands => Some(270),
        FilterKind::Nearest => None,
        FilterKind::Triangle => None,
        FilterKind::CatmullRom => None,
        FilterKind::Gaussian => None,
        FilterKind::Lanczos3 => None,
    }
}

/// Decodes fetched bytes to an image. Fails, with the decode error, exactly
/// when the bytes are not a recognized image encoding or decode to a
/// degenerate image with a zero dimension (which no operation or encoder
/// could accept); succeeds, with the dimensions `decoded_dims` gives,
/// on everything else.
pub fn decode_image(bytes: &Vec<u8>) -> (r: Result<Image, ErrorKind>)
    ensures
        (match decoded_dims(bytes@) {
            Some(d) => {
                &&& (1 <= d.0 && 1 <= d.1 ==> (r matches Ok(img) && img.dims() == d))
                &&& (!(1 <= d.0 && 1 <= d.1) ==> r == Err::<Image, ErrorKind>(ErrorKind::Decode))
            },
            None => r == Err::<Image, ErrorKind>(ErrorKind::Decode),
        }),
{
    match decode_bytes(bytes) {
        Ok(img) => {
            if img.width() >= 1 && img.height() >= 1 {
                Ok(img)
            } else {
                Err(ErrorKind::Decode)
            }
        },
        Err(_) => Err(ErrorKind::Decode),
    }
}

/// What one operation does to an image of the given dimensions: the
/// dimensions of the result, or nothing when the operation fails.
///
/// A resize to degenerate (zero) dimensions or with a non-resampling filter
/// kind fails; a watermark whose stamp does not fit inside the image fails; a
/// color filter with a non-stylistic kind fails. Resize sets the dimensions
/// to its target; the other operations keep them.
pub open spec fn step_dims(dims: (u32, u32), op: Operation) -> Option<(u32, u32)> {
    match op {
        Operation::Resize { width, height, filter } => if filter.is_resampling() && 1 <= width && 1
            <= height {
            Some((width, height))
        } else {
            None
        },
        Operation::Watermark { x, y } => if x + STAMP_SIZE <= dims.0 && y + STAMP_SIZE <= dims.1 {
            Some(dims)
        } else {
            None
        },
        Operation::ColorFilter { kind } => if kind.is_stylistic() {
            Some(dims)
        } else {
            None
        },
    }
}

/// The dimensions after applying a whole operation list in order, or nothing
/// when some operation fails: the first failure aborts the fold.
pub open spec fn fold_dims(dims: (u32, u32), ops: Seq<Operation>) -> Option<(u32, u32)>
    decreases ops.len(),
{
    if ops.len() == 0 {
        Some(dims)
    } else {
        match step_dims(dims, ops[0]) {
            Some(d) => fold_dims(d, ops.skip(1)),
            None => None,
        }
    }
}

/// Operations keep dimensions positive: starting from an image with positive
/// dimensions, whatever dimensions a successful fold yields are positive too.
pub proof fn lemma_fold_dims_positive(dims: (u32, u32), ops: Seq<Operation>)
    requires
        1 <= dims.0,
        1 <= dims.1,
        fold_dims(dims, ops) is Some,
    ensures
        1 <= fold_dims(dims, ops).unwrap().0,
        1 <= fold_dims(dims, ops).unwrap().1,
    decreases ops.len(),
{
    if ops.len() > 0 {
        let d2 = step_dims(dims, ops[0]).unwrap();
        lemma_fold_dims_positive(d2, ops.skip(1));
    }
}

/// Applies one operation. Succeeds, with the dimensions `step_dims` gives,
/// exactly when `step_dims` allows the operation on this image's dimensions;
/// fails with the operation error otherwise.
pub fn apply_op(img: Image, op: &Operation) -> (r: Result<Image, ErrorKind>)
    ensures
        (match step_dims(img.dims(), *op) {
            Some(d) => r matches Ok(out) && out.dims() == d,
            None => r == Err::<Image, ErrorKind>(ErrorKind::Operation),
        }),
{
    match op {
        Operation::Resize { width, height, filter } => {
            match resample_filter(*filter) {
                Some(ft) => {
                    if *width >= 1 && *height >= 1 {
                        let resized = resize_raw(&img.raw, *width, *height, ft);
                        Ok(Image { raw: resized, width: *width, height: *height })
                    } else {
                        Err(ErrorKind::Operation)
                    }
                },
                None => Err(ErrorKind::Operation),
            }
        },
        Operation::Watermark { x, y } => {
            if img.width >= STAMP_SIZE && *x <= img.width - STAMP_SIZE && img.height >= STAMP_SIZE
                && *y <= img.height - STAMP_SIZE {
                let top = solid_image(STAMP_SIZE, STAMP_SIZE, 255, 255, 255, 128);
                let Image { raw, width, height } = img;
                let mut base = raw;
                overlay_raw(&mut base, &top, *x as i64, *y as i64);
                Ok(Image { raw: base, width, height })
            } else {
                Err(ErrorKind::Operation)
            }
        },
        Operation::ColorFilter { kind } => {
            match stylistic_degrees(*kind) {
                Some(degrees) => {
                    let rotated = huerotate_raw(&img.raw, degrees);
                    Ok(Image { raw: rotated, width: img.width, height: img.height })
                },
                None => Err(ErrorKind::Operation),
            }
        },
    }
}

/// Applies the operations strictly in the order given, the output of one
/// being the input of the next. The first failure aborts the whole
/// application: no partial image is returned.
#[verifier::loop_isolation(false)]
pub fn apply_all(img: Image, ops: &Vec<Operation>) -> (r: Result<Image, ErrorKind>)
    ensures
        (match fold_dims(img.dims(), ops@) {
            Some(d) => r matches Ok(out) && out.dims() == d,
            None => r == Err::<Image, ErrorKind>(ErrorKind::Operation),
        }),
{
    let ghost start: (u32, u32) = img.dims();
    let mut cur = img;
    let n = ops.len();
    let mut i: usize = 0;
    proof {
        assert(ops@.skip(0) =~= ops@);
    }
    while i < n
        invariant
            n == ops@.len(),
            0 <= i <= n,
            fold_dims(cur.dims(), ops@.skip(i as int)) == fold_dims(start, ops@),
        decreases n - i,
    {
        let ghost s = ops@.skip(i as int);
        proof {
            assert(s[0] == ops@[i as int]);
            assert(s.skip(1) =~= ops@.skip(i as int + 1));
        }
        let op = ops[i];
        match apply_op(cur, &op) {
            Ok(next) => {
                cur = next;
            },
            Err(_) => {
                proof {
                    assert(step_dims(cur.dims(), s[0]) is None);
                    assert(fold_dims(start, ops@) is None);
                }
                return Err(ErrorKind::Operation);
            },
        }
        i = i + 1;
    }
    proof {
        assert(ops@.skip(n as int) =~= Seq::<Operation>::empty());
    }
    Ok(cur)
}

/// The characters of the MIME type of the fixed output format.
pub open spec fn output_mime() -> Seq<char> {
    seq!['i', 'm', 'a', 'g', 'e', '/', 'p', 'n', 'g']
}

/// The content type every successful response carries: the pipeline always
/// encodes to PNG, regardless of the source format.
pub fn output_content_type() -> (r: &'static str)
    ensures
        r@ == output_mime(),
{
    proof {
        reveal_strlit("image/png");
        assert("image/png"@ =~= output_mime());
    }
    "image/png"
}

/// Encodes an image to the fixed output format. Infallible by contract for
/// every non-degenerate image, and the body is never empty. Images decoded
/// by this library always have positive dimensions, and every operation
/// keeps them positive.
pub fn encode_png(img: &Image) -> (r: Vec<u8>)
    requires
        1 <= img.dims().0,
        1 <= img.dims().1,
    ensures
        r@.len() > 0,
{
    encode_png_raw(img)
}

} // verus!
