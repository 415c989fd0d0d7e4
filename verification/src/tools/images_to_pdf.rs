//! Images → PDF: one page per image, in the order picked, written to
//! `{first image's stem}.pdf` next to the first image. Page layout is
//! floating-point geometry and happens where the PDF is assembled; the
//! per-image loop is a [`crate::tools::steps::ItemLoop`].

use vstd::prelude::*;
use crate::paths::{extension_of, file_name_chars, file_stem_of, sibling_chars, sibling_of, stem_ext_chars};
use crate::error::AppError;
use crate::image_io::{decode_failure_class, decode_oriented, decoded_origin, error_of_class, decodes_upright, image_dimensions, picture_rgb8, rgb_rows};
use crate::text::{chars_of, push_str, string_of};

verus! {

/// Page-size policy of the assembled PDF.
#[derive(Clone, Copy, Debug, PartialEq, Eq, Structural)]
pub enum PageSize {
    /// Each page sized to its image at 72 DPI.
    AutoFit,
    /// 210 × 297 mm, image scaled to fit and centred.
    A4,
    /// 215.9 × 279.4 mm, image scaled to fit and centred.
    Letter,
}

/// User options.
#[derive(Clone, Copy, Debug, PartialEq, Eq, Structural)]
pub struct Opts {
    pub page_size: PageSize,
}

/// Per-image event: 0-based `index` of `total`.
#[derive(Clone, Copy, Debug, PartialEq, Eq, Structural)]
pub struct PageProgress {
    pub index: u32,
    pub total: u32,
}

/// Bookkeeping of an assembled PDF.
#[derive(Clone, Copy, Debug, PartialEq, Eq)]
pub struct JobSummary {
    pub page_count: u32,
    pub duration: std::time::Duration,
}

/// Progress event of a job: 1-based `image` of `total`.
#[derive(Clone, Copy, Debug, PartialEq, Eq, Structural)]
pub struct Progress {
    pub image: u32,
    pub total: u32,
}

/// Result of a finished job.
#[derive(Clone, Debug, PartialEq, Eq)]
pub struct JobResult {
    /// Where the PDF was written (after collision handling).
    pub output_path: String,
    pub page_count: u32,
    pub duration_ms: u64,
}

/// A decoded, upright page image as 8-bit RGB rows.
#[derive(Clone, Debug, PartialEq, Eq)]
pub struct RgbPage {
    pub width: u32,
    pub height: u32,
    pub pixels: Vec<u8>,
}

/// `{parent}/{stem}.pdf` of the first image.
pub open spec fn pdf_output_path(first: Seq<char>) -> Seq<char> {
    let stem = match file_stem_of(first) {
        Some(s) => s,
        None => Seq::<char>::empty(),
    };
    sibling_of(first, stem + ".pdf"@)
}

/// The extension of a path as written (no dot), or empty.
pub open spec fn source_ext_spec(path: Seq<char>) -> Seq<char> {
    match extension_of(path) {
        Some(e) => e,
        None => Seq::<char>::empty(),
    }
}

/// The progress event of the page with 0-based `index`: numbered from 1
/// (saturating).
pub open spec fn progress_of(p: PageProgress) -> Progress {
    Progress { image: if p.index == u32::MAX { u32::MAX } else { (p.index + 1) as u32 }, total: p.total }
}

/// Extension of `path` (no dot, case as written), or `""`; used only when
/// an image's bytes do not show their format.
pub fn source_ext_of(path: &str) -> (r: String)
    ensures
        r@ == source_ext_spec(path@),
{
    let v = chars_of(path);
    match file_name_chars(&v) {
        Some(n) => {
            let (_, ext) = stem_ext_chars(&n);
            match ext {
                Some(e) => string_of(e),
                None => string_of(Vec::new()),
            }
        },
        None => string_of(Vec::new()),
    }
}

/// `{first image's parent}/{first image's stem}.pdf`.
pub fn derive_output_path(first: &str) -> (r: String)
    ensures
        r@ == pdf_output_path(first@),
{
    let v = chars_of(first);
    let mut name: Vec<char> = match file_name_chars(&v) {
        Some(n) => {
            let (stem, _) = stem_ext_chars(&n);
            stem
        },
        None => Vec::new(),
    };
    push_str(&mut name, ".pdf");
    string_of(sibling_chars(&v, &name))
}

/// Decode one picked image (upright) into RGB rows for its page; the
/// extension (as written) only breaks ties for formats without a signature.
pub fn decode_page(path: &str, bytes: &[u8]) -> (r: Result<RgbPage, AppError>)
    ensures
        r is Ok <==> decodes_upright(bytes@, source_ext_spec(path@)),
        r matches Ok(p) ==> p.pixels@ == rgb_rows(decoded_origin(bytes@, source_ext_spec(path@)))
            && (p.width, p.height) == image_dimensions(decoded_origin(bytes@, source_ext_spec(path@))),
        r matches Ok(p) ==> p.pixels@.len() == 3 * p.width * p.height,
        r matches Err(e) ==> error_of_class(e, decode_failure_class(bytes@, source_ext_spec(path@))),
{
    let ext = source_ext_of(path);
    let picture = decode_oriented(ext.as_str(), bytes)?;
    let (width, height, pixels) = picture_rgb8(picture);
    Ok(RgbPage { width, height, pixels })
}

/// The job's progress event for a placed page.
pub fn job_progress(p: PageProgress) -> (r: Progress)
    ensures
        r == progress_of(p),
{
    Progress { image: if p.index == u32::MAX { u32::MAX } else { p.index + 1 }, total: p.total }
}

} // verus!
