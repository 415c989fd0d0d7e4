//! Image Format Converter: one image's bytes in, the same picture encoded
//! in the target raster format out. SVG input is refused for now; JPEG
//! quality is clamped to `1..=100`.

use vstd::prelude::*;
use crate::error::AppError;
use crate::image_io::{
    decode_failure_class, decode_oriented, decoded_origin, decodes_upright, encode_jpeg, error_of_class,
    format_named_by, image_to_app_err,
    jpeg_encoding, write_picture, written_encoding, Picture, PictureOrigin,
};
use crate::paths::{lemma_rename_differs, lemma_stem_rename_differs, stem_or, with_file_name_chars, with_file_name_of};
use crate::text::{chars_of, eq_ignore_case, eq_ignore_case_exec, push_str, string_of};
use crate::tools::audio_extractor::{stem_or_output, stem_or_output_chars};
pub use crate::tools::steps::SkippedFile;

verus! {

/// Raster format the converter writes.
#[derive(Clone, Copy, Debug, PartialEq, Eq, Structural)]
pub enum TargetFormat {
    Png,
    Jpeg,
    /// Lossless WebP.
    Webp,
    Bmp,
    Tiff,
}

/// What to do with alpha when the target cannot carry it.
#[derive(Clone, Copy, Debug, PartialEq, Eq, Structural)]
pub enum AlphaHandling {
    /// Skip a file with real alpha.
    Preserve,
    /// Composite onto white.
    FlattenWhite,
    /// Composite onto black.
    FlattenBlack,
}

/// Pixel size of a rasterised SVG input.
#[derive(Clone, Copy, Debug, PartialEq, Eq, Structural)]
pub enum SvgRasterSize {
    /// The SVG's own size.
    Natural,
    /// Longest side scaled to this many pixels.
    LongestEdgePx(u32),
}

/// User options.
#[derive(Clone, Copy, Debug, PartialEq, Eq, Structural)]
pub struct Opts {
    pub target_format: TargetFormat,
    /// 1..=100 (clamped); used for JPEG output.
    pub jpeg_quality: u8,
    pub alpha_handling: AlphaHandling,
    pub svg_raster_size: SvgRasterSize,
}

/// One converted file: its bytes and any non-fatal notes.
#[derive(Clone, Debug, PartialEq, Eq)]
pub struct EncodedFile {
    pub bytes: Vec<u8>,
    pub warnings: Vec<String>,
}

/// Result of a completed batch.
#[derive(Clone, Debug, PartialEq, Eq)]
pub struct JobResult {
    pub success_count: u32,
    pub skip_count: u32,
    pub skipped: Vec<SkippedFile>,
    /// Directory of the first successful output.
    pub first_output_dir: Option<String>,
    pub duration_ms: u64,
}

pub const QUALITY_MIN: u8 = 1;
pub const QUALITY_MAX: u8 = 100;

pub open spec fn extension_of(t: TargetFormat) -> Seq<char> {
    match t {
        TargetFormat::Png => "png"@,
        TargetFormat::Jpeg => "jpg"@,
        TargetFormat::Webp => "webp"@,
        TargetFormat::Bmp => "bmp"@,
        TargetFormat::Tiff => "tif"@,
    }
}

pub open spec fn supports_alpha_of(t: TargetFormat) -> bool {
    t is Png || t is Webp || t is Tiff
}

pub open spec fn clamp_quality_spec(q: u8) -> u8 {
    if q < 1 {
        1
    } else if q > 100 {
        100
    } else {
        q
    }
}

/// The `image` crate's format for a target: the one its extension names.
pub open spec fn target_image_format_of(t: TargetFormat) -> image::ImageFormat {
    format_named_by(extension_of(t))->0
}

/// What encoding a picture with record `p` under `opts` gives: JPEG at the
/// clamped quality over RGB, the other targets as `image` writes them (or
/// the class of the encoder's failure).
pub open spec fn encoding_for(p: PictureOrigin, opts: Opts) -> Result<Seq<u8>, bool> {
    match opts.target_format {
        TargetFormat::Jpeg => jpeg_encoding(p, clamp_quality_spec(opts.jpeg_quality)),
        t => written_encoding(p, target_image_format_of(t)),
    }
}

/// Where a converted image goes, before collision handling:
/// `{stem}_converted.{ext}` next to the source.
pub open spec fn converted_output_path(source: Seq<char>, t: TargetFormat) -> Seq<char> {
    with_file_name_of(source, stem_or_output(source) + "_converted."@ + extension_of(t))
}

pub open spec fn svg_refusal_detail() -> Seq<char> {
    "SVG input not yet wired (Phase A4 will rasterize via resvg)"@
}

impl TargetFormat {
    /// File extension (no dot) of outputs.
    pub fn extension(self) -> (r: &'static str)
        ensures
            r@ == extension_of(self),
    {
        match self {
            TargetFormat::Png => "png",
            TargetFormat::Jpeg => "jpg",
            TargetFormat::Webp => "webp",
            TargetFormat::Bmp => "bmp",
            TargetFormat::Tiff => "tif",
        }
    }

    /// Whether the format keeps an alpha channel (PNG, WebP, TIFF).
    pub fn supports_alpha(self) -> (r: bool)
        ensures
            r == supports_alpha_of(self),
    {
        match self {
            TargetFormat::Png => true,
            TargetFormat::Webp => true,
            TargetFormat::Tiff => true,
            _ => false,
        }
    }

    /// `image::ImageFormat` of this target: the one its extension names.
    pub fn image_format(self) -> (r: image::ImageFormat)
        ensures
            Some(r) == crate::image_io::format_named_by(extension_of(self)),
    {
        crate::image_io::target_image_format(self)
    }
}

/// JPEG quality moved into `[QUALITY_MIN, QUALITY_MAX]`.
pub fn clamp_quality(q: u8) -> (r: u8)
    ensures
        r == clamp_quality_spec(q),
        QUALITY_MIN <= r <= QUALITY_MAX,
{
    if q < QUALITY_MIN {
        QUALITY_MIN
    } else if q > QUALITY_MAX {
        QUALITY_MAX
    } else {
        q
    }
}

/// Encode a decoded picture in the target format: JPEG at the clamped
/// quality over RGB, the others as `image` writes them. No warnings arise.
pub fn encode_raster(picture: &Picture, opts: &Opts) -> (r: Result<EncodedFile, AppError>)
    ensures
        match r {
            Ok(f) => encoding_for(picture@, *opts) == Ok::<Seq<u8>, bool>(f.bytes@) && f.warnings@.len()
                == 0,
            Err(e) => encoding_for(picture@, *opts) matches Err(c) && error_of_class(e, c),
        },
{
    let encoded = match opts.target_format {
        TargetFormat::Jpeg => encode_jpeg(picture, clamp_quality(opts.jpeg_quality)),
        other => write_picture(picture, other.image_format()),
    };
    match encoded {
        Ok(bytes) => Ok(EncodedFile { bytes, warnings: Vec::new() }),
        Err(err) => Err(image_to_app_err(err)),
    }
}

/// Convert one image's bytes to `opts.target_format`. The extension
/// (lower-case, no dot) only routes SVG away and breaks ties for formats
/// without a signature.
pub fn convert_one(source_ext: &str, input_bytes: &[u8], opts: &Opts) -> (r: Result<EncodedFile, AppError>)
    ensures
        eq_ignore_case(source_ext@, "svg"@) ==> (r matches Err(AppError::UnsupportedFormat { detail })
            && detail@ == svg_refusal_detail()),
        !eq_ignore_case(source_ext@, "svg"@) && !decodes_upright(input_bytes@, source_ext@) ==> (r matches Err(
            e,
        ) && error_of_class(e, decode_failure_class(input_bytes@, source_ext@))),
        !eq_ignore_case(source_ext@, "svg"@) && decodes_upright(input_bytes@, source_ext@) ==> match r {
            Ok(f) => encoding_for(decoded_origin(input_bytes@, source_ext@), *opts) == Ok::<
                Seq<u8>,
                bool,
            >(f.bytes@),
            Err(e) => encoding_for(decoded_origin(input_bytes@, source_ext@), *opts) matches Err(c)
                && error_of_class(e, c),
        },
        r matches Ok(f) ==> f.warnings@.len() == 0,
        r is Err ==> (r->Err_0 is UnsupportedFormat || r->Err_0 is ProcessingFailed),
{
    let ext = chars_of(source_ext);
    let svg = chars_of("svg");
    if eq_ignore_case_exec(&ext, &svg) {
        return Err(
            AppError::UnsupportedFormat {
                detail: string_of(chars_of("SVG input not yet wired (Phase A4 will rasterize via resvg)")),
            },
        );
    }
    let img = decode_oriented(source_ext, input_bytes)?;
    encode_raster(&img, opts)
}

/// `{stem}_converted.{ext}` next to `source` (the suffix keeps the output
/// distinct from the input even for a same-format conversion).
pub fn derive_output_path(source: &str, target: TargetFormat) -> (r: String)
    ensures
        r@ == converted_output_path(source@, target),
{
    let v = chars_of(source);
    let mut name = stem_or_output_chars(&v);
    push_str(&mut name, "_converted.");
    push_str(&mut name, target.extension());
    string_of(with_file_name_chars(&v, &name))
}

/// The converted image never lands on its source, even for a same-format
/// conversion and before collision handling.
pub proof fn lemma_output_differs_from_source(source: Seq<char>, target: TargetFormat)
    ensures
        converted_output_path(source, target) != source,
{
    reveal_strlit("_converted.");
    reveal_strlit("output");
    reveal_strlit("png");
    reveal_strlit("jpg");
    reveal_strlit("webp");
    reveal_strlit("bmp");
    reveal_strlit("tif");
    let w = "_converted."@ + extension_of(target);
    assert(!w.contains('/'));
    assert(!"output"@.contains('/'));
    assert(stem_or_output(source) == stem_or(source, "output"@));
    lemma_stem_rename_differs(source, "output"@, w);
    assert(stem_or_output(source) + "_converted."@ + extension_of(target) =~= stem_or(
        source,
        "output"@,
    ) + w);
    lemma_rename_differs(source, stem_or(source, "output"@) + w);
}

} // verus!
