//! The calls into the `image` crate: decoding with EXIF orientation,
//! cropping and re-encoding. Pixels never reach verified code; a decoded
//! image travels as a [`Picture`], whose size verified code can read and
//! whose view records how it was obtained (which bytes were decoded as which
//! format, and which cut-outs were taken). What `image` computes from a
//! picture is named as a function of that record.

use vstd::prelude::*;
use crate::error::AppError;
use crate::raster_format::RasterFormat;
use crate::text::{chars_of, push_str, string_of};
use image::ImageDecoder;

verus! {

#[verifier::external_type_specification]
#[verifier::external_body]
pub struct ExImageFormat(image::ImageFormat);

#[verifier::external_type_specification]
#[verifier::external_body]
pub struct ExDynamicImage(image::DynamicImage);

#[verifier::external_type_specification]
#[verifier::external_body]
pub struct ExImageError(image::ImageError);

/// How a picture was obtained: bytes decoded (and turned upright) as a
/// format, or a cut-out of another picture.
pub enum PictureOrigin {
    Decoded { bytes: Seq<u8>, format: Option<image::ImageFormat> },
    Cut { source: Box<PictureOrigin>, x: u32, y: u32, w: u32, h: u32 },
}

/// `ImageFormat::from_extension` of an extension.
pub uninterp spec fn format_named_by(ext: Seq<char>) -> Option<image::ImageFormat>;

/// What `ImageReader::with_guessed_format` yields for the bytes: `None`
/// when reading their first bytes fails, else `Some` of the format their
/// signature shows, if any.
pub uninterp spec fn format_shown_by(bytes: Seq<u8>) -> Option<Option<image::ImageFormat>>;

/// How `ImageReader::into_decoder` and then `DynamicImage::from_decoder`
/// end on the bytes read as this format: `None` when both succeed, else
/// `Some` of the failure's [`image_error_class`].
pub uninterp spec fn decode_outcome(bytes: Seq<u8>, format: Option<image::ImageFormat>) -> Option<bool>;

/// Whether an `image::ImageError` is of the `Unsupported` or `Decoding` kind.
pub uninterp spec fn image_error_class(err: image::ImageError) -> bool;

/// Whether the bytes decode as this format.
pub open spec fn decodes(bytes: Seq<u8>, format: Option<image::ImageFormat>) -> bool {
    decode_outcome(bytes, format) is None
}

/// `GenericImageView::dimensions` of the picture so obtained.
pub uninterp spec fn image_dimensions(p: PictureOrigin) -> (u32, u32);

/// What `JpegEncoder::encode_image` writes for the picture's RGB form at
/// this quality, or the [`image_error_class`] of its failure.
pub uninterp spec fn jpeg_encoding(p: PictureOrigin, quality: u8) -> Result<Seq<u8>, bool>;

/// What `DynamicImage::write_to` writes for the picture in this format, or
/// the [`image_error_class`] of its failure.
pub uninterp spec fn written_encoding(p: PictureOrigin, format: image::ImageFormat) -> Result<Seq<u8>, bool>;

/// `e` is the `AppError` of an image failure of this class:
/// `UnsupportedFormat` for an `Unsupported` or `Decoding` failure,
/// `ProcessingFailed` for any other.
pub open spec fn error_of_class(e: AppError, unsupported_or_decoding: bool) -> bool {
    if unsupported_or_decoding {
        e is UnsupportedFormat
    } else {
        e is ProcessingFailed
    }
}

/// The raw buffer of `DynamicImage::into_rgb8` of the picture.
pub uninterp spec fn rgb_rows(p: PictureOrigin) -> Seq<u8>;

/// The format handed to the decoder for these bytes and this extension:
/// the one the bytes show, else the one a non-empty extension names.
pub open spec fn chosen_format(bytes: Seq<u8>, ext: Seq<char>) -> Option<image::ImageFormat> {
    match format_shown_by(bytes) {
        Some(Some(f)) => Some(f),
        _ => if ext.len() > 0 {
            format_named_by(ext)
        } else {
            None
        },
    }
}

/// The record of the picture decoded from these bytes with this extension.
pub open spec fn decoded_origin(bytes: Seq<u8>, ext: Seq<char>) -> PictureOrigin {
    PictureOrigin::Decoded { bytes, format: chosen_format(bytes, ext) }
}

/// Whether the bytes decode: their signature can be read, and `image`
/// decodes them as the chosen format.
pub open spec fn decodes_upright(bytes: Seq<u8>, ext: Seq<char>) -> bool {
    format_shown_by(bytes) is Some && decodes(bytes, chosen_format(bytes, ext))
}

/// The class of the failure of bytes that do not decode: an unreadable
/// signature is a processing failure, a decoder failure has its own class.
pub open spec fn decode_failure_class(bytes: Seq<u8>, ext: Seq<char>) -> bool {
    format_shown_by(bytes) is Some && decode_outcome(bytes, chosen_format(bytes, ext)) == Some(true)
}

/// A decoded, upright image together with its size in pixels and the
/// record of how it was obtained. Only the functions of this module build
/// one, each from the image it holds, so `width` and `height` are the
/// image's own.
pub struct Picture {
    pixels: image::DynamicImage,
    width: u32,
    height: u32,
    origin: Ghost<PictureOrigin>,
}

impl View for Picture {
    type V = PictureOrigin;

    closed spec fn view(&self) -> PictureOrigin {
        self.origin@
    }
}

impl Picture {
    pub closed spec fn spec_width(&self) -> u32 {
        self.width
    }

    pub closed spec fn spec_height(&self) -> u32 {
        self.height
    }

    pub fn width(&self) -> (r: u32)
        ensures
            r == self.spec_width(),
    {
        self.width
    }

    pub fn height(&self) -> (r: u32)
        ensures
            r == self.spec_height(),
    {
        self.height
    }
}

/// `image::ImageFormat` for a raster format, variant for variant: the
/// format `ImageFormat::from_extension` gives for its canonical extension
/// (`png`, `jpg`, `webp`, `bmp`, `tif` map to `Png`, `Jpeg`, `WebP`, `Bmp`,
/// `Tiff` in that function's table).
#[verifier::external_body]
pub(crate) fn raster_image_format(f: RasterFormat) -> (r: image::ImageFormat)
    ensures
        Some(r) == format_named_by(crate::raster_format::extensions_of(f)[0]),
{
    match f {
        RasterFormat::Png => image::ImageFormat::Png,
        RasterFormat::Jpeg => image::ImageFormat::Jpeg,
        RasterFormat::Webp => image::ImageFormat::WebP,
        RasterFormat::Bmp => image::ImageFormat::Bmp,
        RasterFormat::Tiff => image::ImageFormat::Tiff,
    }
}

/// `image::ImageFormat` of a page format, variant for variant: the format
/// `ImageFormat::from_extension` gives for its extension (`png`, `jpg`).
#[verifier::external_body]
pub(crate) fn page_image_format(f: crate::tools::pdf_to_images::Format) -> (r: image::ImageFormat)
    ensures
        Some(r) == format_named_by(crate::tools::pdf_to_images::extension_of(f)),
{
    match f {
        crate::tools::pdf_to_images::Format::Png => image::ImageFormat::Png,
        crate::tools::pdf_to_images::Format::Jpeg => image::ImageFormat::Jpeg,
    }
}

/// `image::ImageFormat` of a converter target, variant for variant: the
/// format `ImageFormat::from_extension` gives for its extension (`png`,
/// `jpg`, `webp`, `bmp`, `tif`).
#[verifier::external_body]
pub(crate) fn target_image_format(f: crate::tools::image_format_converter::TargetFormat) -> (r: image::ImageFormat)
    ensures
        Some(r) == format_named_by(crate::tools::image_format_converter::extension_of(f)),
{
    match f {
        crate::tools::image_format_converter::TargetFormat::Png => image::ImageFormat::Png,
        crate::tools::image_format_converter::TargetFormat::Jpeg => image::ImageFormat::Jpeg,
        crate::tools::image_format_converter::TargetFormat::Webp => image::ImageFormat::WebP,
        crate::tools::image_format_converter::TargetFormat::Bmp => image::ImageFormat::Bmp,
        crate::tools::image_format_converter::TargetFormat::Tiff => image::ImageFormat::Tiff,
    }
}

/// `ImageReader::with_guessed_format` on the bytes: the format their
/// signature shows, if any (a function of the bytes, given that this
/// program registers no guessing hooks); `Err` carries the text of the
/// reader's I/O error, of which nothing is stated.
#[verifier::external_body]
fn guess_image_format(bytes: &[u8]) -> (r: Result<Option<image::ImageFormat>, String>)
    ensures
        match r {
            Ok(g) => format_shown_by(bytes@) == Some(g),
            Err(_) => format_shown_by(bytes@) is None,
        },
{
    match image::ImageReader::new(std::io::Cursor::new(bytes)).with_guessed_format() {
        Ok(reader) => Ok(reader.format()),
        Err(err) => Err(err.to_string()),
    }
}

/// `ImageFormat::from_extension`. Its table is not restated here.
#[verifier::external_body]
fn image_format_from_extension(ext: &str) -> (r: Option<image::ImageFormat>)
    ensures
        r == format_named_by(ext@),
{
    image::ImageFormat::from_extension(ext)
}

/// Decode `bytes` as `format` (or with no format, which `image` refuses)
/// and turn the result upright by the decoder's EXIF orientation. The
/// reader, decoder and orientation steps are one operation here because
/// the decoder's type cannot be named outside `image`. The returned
/// picture records the bytes and format it was decoded from, and its size
/// is the decoded image's own. Turning the image upright cannot fail (an
/// unreadable orientation counts as none), so it succeeds exactly when
/// the decoder is made and decodes.
#[verifier::external_body]
fn decode_upright(bytes: &[u8], format: Option<image::ImageFormat>) -> (r: Result<Picture, image::ImageError>)
    ensures
        match r {
            Ok(_) => decode_outcome(bytes@, format) is None,
            Err(e) => decode_outcome(bytes@, format) == Some(image_error_class(e)),
        },
        r matches Ok(p) ==> p@ == (PictureOrigin::Decoded { bytes: bytes@, format })
            && (p.spec_width(), p.spec_height()) == image_dimensions(p@),
{
    let mut reader = image::ImageReader::new(std::io::Cursor::new(bytes));
    if let Some(f) = format {
        reader.set_format(f);
    }
    let mut decoder = reader.into_decoder()?;
    let orientation = decoder.orientation().unwrap_or(image::metadata::Orientation::NoTransforms);
    let mut pixels = image::DynamicImage::from_decoder(decoder)?;
    pixels.apply_orientation(orientation);
    let origin = Ghost(PictureOrigin::Decoded { bytes: bytes@, format });
    Ok(Picture { width: pixels.width(), height: pixels.height(), pixels, origin })
}

/// `DynamicImage::crop_imm`: the cut-out at `(x, y)`, whose size `image`
/// limits to what lies inside the source.
#[verifier::external_body]
pub(crate) fn crop_picture(src: &Picture, x: u32, y: u32, w: u32, h: u32) -> (r: Picture)
    ensures
        r@ == (PictureOrigin::Cut { source: Box::new(src@), x, y, w, h }),
        (r.spec_width(), r.spec_height()) == image_dimensions(r@),
        r.spec_width() == (if w <= src.spec_width() - (if x <= src.spec_width() { x } else { src.spec_width() }) {
            w as int
        } else {
            src.spec_width() - (if x <= src.spec_width() { x } else { src.spec_width() })
        }),
        r.spec_height() == (if h <= src.spec_height() - (if y <= src.spec_height() { y } else { src.spec_height() }) {
            h as int
        } else {
            src.spec_height() - (if y <= src.spec_height() { y } else { src.spec_height() })
        }),
{
    let pixels = src.pixels.crop_imm(x, y, w, h);
    let origin = Ghost(PictureOrigin::Cut { source: Box::new(src@), x, y, w, h });
    Picture { width: pixels.width(), height: pixels.height(), pixels, origin }
}

/// `JpegEncoder::new_with_quality(.., quality).encode_image` over the
/// picture converted to 8-bit RGB (JPEG has no alpha).
#[verifier::external_body]
pub(crate) fn encode_jpeg(src: &Picture, quality: u8) -> (r: Result<Vec<u8>, image::ImageError>)
    ensures
        match r {
            Ok(b) => jpeg_encoding(src@, quality) == Ok::<Seq<u8>, bool>(b@),
            Err(e) => jpeg_encoding(src@, quality) == Err::<Seq<u8>, bool>(image_error_class(e)),
        },
{
    let mut bytes = Vec::new();
    let rgb = src.pixels.to_rgb8();
    image::codecs::jpeg::JpegEncoder::new_with_quality(&mut bytes, quality).encode_image(&rgb)?;
    Ok(bytes)
}

/// `DynamicImage::write_to` into memory in `format`.
#[verifier::external_body]
pub(crate) fn write_picture(src: &Picture, format: image::ImageFormat) -> (r: Result<Vec<u8>, image::ImageError>)
    ensures
        match r {
            Ok(b) => written_encoding(src@, format) == Ok::<Seq<u8>, bool>(b@),
            Err(e) => written_encoding(src@, format) == Err::<Seq<u8>, bool>(image_error_class(e)),
        },
{
    let mut bytes = Vec::new();
    src.pixels.write_to(&mut std::io::Cursor::new(&mut bytes), format)?;
    Ok(bytes)
}

/// `DynamicImage::into_rgb8` then `ImageBuffer::into_raw`: the picture's
/// pixels as 8-bit RGB rows, with its width and height.
#[verifier::external_body]
pub(crate) fn picture_rgb8(src: Picture) -> (r: (u32, u32, Vec<u8>))
    ensures
        r.0 == src.spec_width(),
        r.1 == src.spec_height(),
        r.2@.len() == 3 * src.spec_width() * src.spec_height(),
        r.2@ == rgb_rows(src@),
{
    let rgb = src.pixels.into_rgb8();
    let (w, h) = rgb.dimensions();
    (w, h, rgb.into_raw())
}

/// Whether an `image::ImageError` is of the `Unsupported` or `Decoding`
/// kind, and its `Display` text. Nothing is stated of the text: for an I/O
/// error it is the operating system's message.
#[verifier::external_body]
fn image_error_parts(err: image::ImageError) -> (r: (bool, String))
    ensures
        r.0 == image_error_class(err),
{
    let unsupported_or_decoding = match &err {
        image::ImageError::Unsupported(_) => true,
        image::ImageError::Decoding(_) => true,
        _ => false,
    };
    (unsupported_or_decoding, err.to_string())
}

/// The `AppError` of an image failure of the given class with the given
/// text: `Unsupported`/`Decoding` failures are `UnsupportedFormat`, any
/// other is `ProcessingFailed`.
pub fn app_err_of_image_failure(unsupported_or_decoding: bool, text: String) -> (e: AppError)
    ensures
        unsupported_or_decoding ==> e == (AppError::UnsupportedFormat { detail: text }),
        !unsupported_or_decoding ==> e == (AppError::ProcessingFailed { detail: text }),
{
    if unsupported_or_decoding {
        AppError::UnsupportedFormat { detail: text }
    } else {
        AppError::ProcessingFailed { detail: text }
    }
}

/// Map an `image::ImageError` to the right `AppError` variant:
/// `Unsupported` and `Decoding` failures are `UnsupportedFormat`, any other
/// is `ProcessingFailed`, each with the error's text.
pub fn image_to_app_err(err: image::ImageError) -> (e: AppError)
    ensures
        error_of_class(e, image_error_class(err)),
{
    let (class, text) = image_error_parts(err);
    app_err_of_image_failure(class, text)
}

/// The format handed to the decoder: the one the bytes show, else the
/// one the extension names (when there is an extension).
pub fn decoder_format(
    guessed: Option<image::ImageFormat>,
    source_ext: &str,
    from_ext: Option<image::ImageFormat>,
) -> (r: Option<image::ImageFormat>)
    ensures
        guessed is Some ==> r == guessed,
        guessed is None && source_ext@.len() > 0 ==> r == from_ext,
        guessed is None && source_ext@.len() == 0 ==> r is None,
{
    match guessed {
        Some(f) => Some(f),
        None => {
            if chars_of(source_ext).len() == 0 {
                None
            } else {
                from_ext
            }
        },
    }
}

/// Decode `bytes` into an upright picture. The bytes decide the format;
/// the extension (lower-case, no dot) is consulted only when they do not.
/// It succeeds exactly when `image` reads and decodes the bytes.
pub fn decode_oriented(source_ext: &str, bytes: &[u8]) -> (r: Result<Picture, AppError>)
    ensures
        r is Ok <==> decodes_upright(bytes@, source_ext@),
        r matches Ok(p) ==> p@ == decoded_origin(bytes@, source_ext@)
            && (p.spec_width(), p.spec_height()) == image_dimensions(p@),
        r matches Err(e) ==> error_of_class(e, decode_failure_class(bytes@, source_ext@)),
{
    let guessed = match guess_image_format(bytes) {
        Ok(g) => g,
        Err(text) => {
            let mut d = chars_of("decode: ");
            push_str(&mut d, text.as_str());
            return Err(AppError::ProcessingFailed { detail: string_of(d) });
        },
    };
    let from_ext = if guessed.is_none() && chars_of(source_ext).len() > 0 {
        image_format_from_extension(source_ext)
    } else {
        None
    };
    let format = decoder_format(guessed, source_ext, from_ext);
    match decode_upright(bytes, format) {
        Ok(p) => Ok(p),
        Err(err) => Err(image_to_app_err(err)),
    }
}

} // verus!
