//! Image Crop: clamp a user rectangle against the (upright) image, crop,
//! and re-encode in the source extension's format to `{stem}_cropped.{ext}`.
//! Multi-frame TIFFs are refused before decoding, since a crop would keep
//! only the first frame.

use vstd::prelude::*;
use crate::error::AppError;
use crate::image_io::{
    crop_picture, decode_failure_class, decode_oriented, decoded_origin, decodes_upright, encode_jpeg,
    error_of_class, image_dimensions, image_to_app_err, jpeg_encoding, write_picture,
    written_encoding, Picture, PictureOrigin,
};
use crate::paths::{lemma_rename_differs, lemma_suffixed_differs, sibling_chars, sibling_of, suffixed_name, suffixed_name_chars};
use crate::raster_format::{format_for_extension, image_format_of, RasterFormat};
use crate::text::{chars_of, push_str, string_of};

verus! {

/// Fixed JPEG quality of crop output.
pub const JPEG_QUALITY: u8 = 90;

/// Most IFDs walked when counting TIFF frames (guards a looping chain).
pub const MAX_IFDS: u32 = 1024;

/// Requested crop rectangle in upright pixel coordinates; the origin may
/// lie off the canvas.
#[derive(Clone, Copy, Debug, PartialEq, Eq, Structural)]
pub struct CropRect {
    pub x: i32,
    pub y: i32,
    pub width: u32,
    pub height: u32,
}

/// A non-empty region inside the image it was clamped against.
#[derive(Clone, Copy, Debug, PartialEq, Eq, Structural)]
pub struct PixelRect {
    pub x: u32,
    pub y: u32,
    pub width: u32,
    pub height: u32,
}

/// Result of a completed crop.
#[derive(Clone, Debug, PartialEq, Eq)]
pub struct JobResult {
    pub output: String,
    pub duration_ms: u64,
}

pub open spec fn imax(a: int, b: int) -> int {
    if a >= b { a } else { b }
}

pub open spec fn imin(a: int, b: int) -> int {
    if a <= b { a } else { b }
}

/// The rectangle (with zero sizes raised to one pixel) intersected with
/// an `img_w × img_h` image; `None` when they do not meet.
pub open spec fn clamp_spec(r: CropRect, img_w: u32, img_h: u32) -> Option<PixelRect> {
    if img_w == 0 || img_h == 0 {
        None
    } else {
        let w: int = if r.width == 0 { 1 } else { r.width as int };
        let h: int = if r.height == 0 { 1 } else { r.height as int };
        let left = imax(r.x as int, 0);
        let top = imax(r.y as int, 0);
        let right = imin(r.x + w, img_w as int);
        let bottom = imin(r.y + h, img_h as int);
        if right <= left || bottom <= top {
            None
        } else {
            Some(
                PixelRect {
                    x: left as u32,
                    y: top as u32,
                    width: (right - left) as u32,
                    height: (bottom - top) as u32,
                },
            )
        }
    }
}

/// Unsigned 16-bit value at `off`, in the given byte order.
pub open spec fn rd16(b: Seq<u8>, le: bool, off: int) -> Option<int> {
    if off < 0 || off + 2 > b.len() {
        None
    } else if le {
        Some(b[off] + 256 * b[off + 1])
    } else {
        Some(256 * b[off] + b[off + 1])
    }
}

/// Unsigned 32-bit value at `off`, in the given byte order.
pub open spec fn rd32(b: Seq<u8>, le: bool, off: int) -> Option<int> {
    if off < 0 || off + 4 > b.len() {
        None
    } else if le {
        Some(b[off] + 256 * b[off + 1] + 65536 * b[off + 2] + 16777216 * b[off + 3])
    } else {
        Some(16777216 * b[off] + 65536 * b[off + 1] + 256 * b[off + 2] + b[off + 3])
    }
}

/// Walk the IFD chain from `off` for at most `fuel` IFDs, counting them;
/// an offset of 0 ends the chain, a read past the end gives `None`.
pub open spec fn ifd_walk(b: Seq<u8>, le: bool, off: int, count: nat, fuel: nat) -> Option<nat>
    decreases fuel,
{
    if fuel == 0 || off == 0 {
        Some(count)
    } else {
        match rd16(b, le, off) {
            None => None,
            Some(n) => match rd32(b, le, off + 2 + 12 * n) {
                None => None,
                Some(next) => ifd_walk(b, le, next, count + 1, (fuel - 1) as nat),
            },
        }
    }
}

/// Byte order named by a TIFF header (`II` little, `MM` big).
pub open spec fn tiff_order(b: Seq<u8>) -> Option<bool> {
    if b.len() < 2 {
        None
    } else if b[0] == 73 && b[1] == 73 {
        Some(true)
    } else if b[0] == 77 && b[1] == 77 {
        Some(false)
    } else {
        None
    }
}

/// Number of top-level images of a classic TIFF, or `None` for anything
/// else (other magic, BigTIFF, a truncated chain).
pub open spec fn tiff_frames(b: Seq<u8>) -> Option<nat> {
    match tiff_order(b) {
        None => None,
        Some(le) => if rd16(b, le, 2) != Some(42int) {
            None
        } else {
            match rd32(b, le, 4) {
                None => None,
                Some(first) => ifd_walk(b, le, first, 0, 1024),
            }
        },
    }
}

pub open spec fn bad_extension_detail(ext: Seq<char>) -> Seq<char> {
    "image crop preserves the source format; '"@ + ext
        + "' is not an encodable raster format (png/jpg/webp/bmp/tif)"@
}

pub open spec fn multi_frame_detail() -> Seq<char> {
    "multi-frame TIFF is not supported; only single-frame TIFFs can be cropped while preserving the source format"@
}

pub open spec fn no_intersection_detail() -> Seq<char> {
    "crop rectangle does not intersect the image"@
}

pub open spec fn is_multi_frame(b: Seq<u8>) -> bool {
    tiff_frames(b) matches Some(n) && n > 1
}

/// `{stem}_cropped.{ext}` next to the source, before collision handling.
pub open spec fn cropped_output_path(source: Seq<char>) -> Seq<char> {
    sibling_of(source, suffixed_name(source, "_cropped"@))
}

impl CropRect {
    /// Clamp this rect against an `img_w × img_h` image: zero sizes become
    /// one pixel, the rest is cut to the image; `None` when nothing is left.
    pub fn clamp_to(self, img_w: u32, img_h: u32) -> (r: Option<PixelRect>)
        ensures
            r == clamp_spec(self, img_w, img_h),
    {
        if img_w == 0 || img_h == 0 {
            return None;
        }
        let w: i64 = if self.width == 0 { 1 } else { self.width as i64 };
        let h: i64 = if self.height == 0 { 1 } else { self.height as i64 };
        let x0: i64 = self.x as i64;
        let y0: i64 = self.y as i64;
        let iw: i64 = img_w as i64;
        let ih: i64 = img_h as i64;
        let left: i64 = if x0 >= 0 { x0 } else { 0 };
        let top: i64 = if y0 >= 0 { y0 } else { 0 };
        let right: i64 = if x0 + w <= iw { x0 + w } else { iw };
        let bottom: i64 = if y0 + h <= ih { y0 + h } else { ih };
        if right <= left || bottom <= top {
            return None;
        }
        Some(
            PixelRect {
                x: left as u32,
                y: top as u32,
                width: (right - left) as u32,
                height: (bottom - top) as u32,
            },
        )
    }
}

/// Clamping leaves a non-empty region that lies inside the image.
pub proof fn lemma_clamp_inside(r: CropRect, img_w: u32, img_h: u32)
    ensures
        clamp_spec(r, img_w, img_h) matches Some(p) ==> (p.width >= 1 && p.height >= 1 && p.x
            + p.width <= img_w && p.y + p.height <= img_h),
{
}

/// A rectangle that already lies inside the image, with non-zero sizes,
/// comes back unchanged.
pub proof fn lemma_clamp_keeps_inner_rect(r: CropRect, img_w: u32, img_h: u32)
    requires
        r.x >= 0,
        r.y >= 0,
        r.width >= 1,
        r.height >= 1,
        r.x + r.width <= img_w,
        r.y + r.height <= img_h,
    ensures
        clamp_spec(r, img_w, img_h) == Some(
            PixelRect { x: r.x as u32, y: r.y as u32, width: r.width, height: r.height },
        ),
{
}

/// Every pixel of the clamped region lies in both the (widened) request
/// and the image, and every such pixel is in the region.
pub proof fn lemma_clamp_is_intersection(r: CropRect, img_w: u32, img_h: u32, px: int, py: int)
    requires
        clamp_spec(r, img_w, img_h) is Some,
    ensures
        ({
            let p = clamp_spec(r, img_w, img_h)->Some_0;
            let w: int = if r.width == 0 { 1 } else { r.width as int };
            let h: int = if r.height == 0 { 1 } else { r.height as int };
            (p.x <= px < p.x + p.width && p.y <= py < p.y + p.height) <==> (r.x <= px < r.x + w
                && r.y <= py < r.y + h && 0 <= px < img_w && 0 <= py < img_h)
        }),
{
}

fn read16(b: &[u8], le: bool, off: u64) -> (r: Option<u64>)
    ensures
        match rd16(b@, le, off as int) {
            Some(v) => r == Some(v as u64),
            None => r is None,
        },
{
    let len = b.len() as u64;
    if len < 2 || off > len - 2 {
        return None;
    }
    let i = off as usize;
    let b0 = b[i] as u64;
    let b1 = b[i + 1] as u64;
    if le {
        Some(b0 + 256 * b1)
    } else {
        Some(256 * b0 + b1)
    }
}

fn read32(b: &[u8], le: bool, off: u64) -> (r: Option<u64>)
    ensures
        match rd32(b@, le, off as int) {
            Some(v) => r == Some(v as u64),
            None => r is None,
        },
{
    let len = b.len() as u64;
    if len < 4 || off > len - 4 {
        return None;
    }
    let i = off as usize;
    let b0 = b[i] as u64;
    let b1 = b[i + 1] as u64;
    let b2 = b[i + 2] as u64;
    let b3 = b[i + 3] as u64;
    if le {
        Some(b0 + 256 * b1 + 65536 * b2 + 16777216 * b3)
    } else {
        Some(16777216 * b0 + 65536 * b1 + 256 * b2 + b3)
    }
}

/// Count the top-level images of a classic TIFF by walking its IFD chain
/// (at most [`MAX_IFDS`] of them); `None` for anything that is not a
/// readable classic TIFF.
pub fn tiff_frame_count(bytes: &[u8]) -> (r: Option<u32>)
    ensures
        match tiff_frames(bytes@) {
            Some(n) => r == Some(n as u32) && n <= 1024,
            None => r is None,
        },
{
    if bytes.len() < 2 {
        return None;
    }
    let le = if bytes[0] == 73 && bytes[1] == 73 {
        true
    } else if bytes[0] == 77 && bytes[1] == 77 {
        false
    } else {
        return None;
    };
    assert(tiff_order(bytes@) == Some(le));
    match read16(bytes, le, 2) {
        Some(m) => {
            if m != 42 {
                return None;
            }
        },
        None => return None,
    }
    let first = match read32(bytes, le, 4) {
        Some(v) => v,
        None => return None,
    };
    let mut off: u64 = first;
    let mut count: u32 = 0;
    while count < MAX_IFDS && off != 0
        invariant
            count <= 1024,
            off < 0x1_0000_0000,
            tiff_frames(bytes@) == ifd_walk(bytes@, le, off as int, count as nat, (1024 - count) as nat),
        decreases 1024 - count,
    {
        let n = match read16(bytes, le, off) {
            Some(n) => n,
            None => return None,
        };
        let next = match read32(bytes, le, off + 2 + 12 * n) {
            Some(v) => v,
            None => return None,
        };
        off = next;
        count = count + 1;
    }
    Some(count)
}

/// The output format of a crop (the one the source extension names), or
/// the refusal: an extension outside the raster set, or a multi-frame TIFF.
pub fn crop_target(source_ext: &str, input_bytes: &[u8]) -> (r: Result<RasterFormat, AppError>)
    ensures
        format_for_extension(source_ext@) is None ==> (r matches Err(
            AppError::UnsupportedFormat { detail },
        ) && detail@ == bad_extension_detail(source_ext@)),
        format_for_extension(source_ext@) is Some && is_multi_frame(input_bytes@) ==> (r matches Err(
            AppError::UnsupportedFormat { detail },
        ) && detail@ == multi_frame_detail()),
        format_for_extension(source_ext@) is Some && !is_multi_frame(input_bytes@) ==> r == Ok::<
            RasterFormat,
            AppError,
        >(format_for_extension(source_ext@)->Some_0),
{
    let target = match RasterFormat::from_extension(source_ext) {
        Some(f) => f,
        None => {
            let mut d = chars_of("image crop preserves the source format; '");
            push_str(&mut d, source_ext);
            push_str(&mut d, "' is not an encodable raster format (png/jpg/webp/bmp/tif)");
            assert(d@ =~= bad_extension_detail(source_ext@));
            return Err(AppError::UnsupportedFormat { detail: string_of(d) });
        },
    };
    match tiff_frame_count(input_bytes) {
        Some(frames) => {
            if frames > 1 {
                return Err(
                    AppError::UnsupportedFormat {
                        detail: string_of(
                            chars_of(
                                "multi-frame TIFF is not supported; only single-frame TIFFs can be cropped while preserving the source format",
                            ),
                        ),
                    },
                );
            }
        },
        None => {},
    }
    Ok(target)
}

/// The region to cut from a `img_w × img_h` image, or the refusal of a
/// rectangle that misses it.
pub fn crop_region(rect: &CropRect, img_w: u32, img_h: u32) -> (r: Result<PixelRect, AppError>)
    ensures
        clamp_spec(*rect, img_w, img_h) matches Some(p) ==> r == Ok::<PixelRect, AppError>(p),
        clamp_spec(*rect, img_w, img_h) is None ==> (r matches Err(
            AppError::ProcessingFailed { detail },
        ) && detail@ == no_intersection_detail()),
{
    match rect.clamp_to(img_w, img_h) {
        Some(p) => Ok(p),
        None => Err(
            AppError::ProcessingFailed {
                detail: string_of(chars_of("crop rectangle does not intersect the image")),
            },
        ),
    }
}

/// What encoding a picture in a raster format gives: JPEG at
/// [`JPEG_QUALITY`] over RGB, the others as `image` writes them (or the
/// class of the encoder's failure).
pub open spec fn encoded_as(p: PictureOrigin, format: RasterFormat) -> Result<Seq<u8>, bool> {
    match format {
        RasterFormat::Jpeg => jpeg_encoding(p, JPEG_QUALITY),
        _ => written_encoding(p, image_format_of(format)),
    }
}

/// The record of the cut-out of a picture (with record `o`) under `p`.
pub open spec fn cut_of(o: PictureOrigin, p: PixelRect) -> PictureOrigin {
    PictureOrigin::Cut { source: Box::new(o), x: p.x, y: p.y, w: p.width, h: p.height }
}

/// `r` is the result of encoding as `enc` says: its bytes, or an error of
/// the encoder failure's class.
pub open spec fn encoded_result(r: Result<Vec<u8>, AppError>, enc: Result<Seq<u8>, bool>) -> bool {
    match r {
        Ok(b) => enc == Ok::<Seq<u8>, bool>(b@),
        Err(e) => enc matches Err(c) && error_of_class(e, c),
    }
}

/// Encode a cropped picture in `format`: JPEG at [`JPEG_QUALITY`] over
/// RGB, the others as `image` writes them.
pub fn encode_to(picture: &Picture, format: RasterFormat) -> (r: Result<Vec<u8>, AppError>)
    ensures
        encoded_result(r, encoded_as(picture@, format)),
{
    let encoded = match format {
        RasterFormat::Jpeg => encode_jpeg(picture, JPEG_QUALITY),
        other => write_picture(picture, other.image_format()),
    };
    match encoded {
        Ok(bytes) => Ok(bytes),
        Err(err) => Err(image_to_app_err(err)),
    }
}

/// Crop one image's bytes to `rect` and re-encode them in the format the
/// source extension (lower-case, no dot) names.
pub fn crop_one(source_ext: &str, input_bytes: &[u8], rect: &CropRect) -> (r: Result<Vec<u8>, AppError>)
    ensures
        format_for_extension(source_ext@) is None ==> (r matches Err(
            AppError::UnsupportedFormat { detail },
        ) && detail@ == bad_extension_detail(source_ext@)),
        format_for_extension(source_ext@) is Some && is_multi_frame(input_bytes@) ==> (r matches Err(
            AppError::UnsupportedFormat { detail },
        ) && detail@ == multi_frame_detail()),
        r is Ok ==> format_for_extension(source_ext@) is Some && !is_multi_frame(input_bytes@),
        format_for_extension(source_ext@) is Some && !is_multi_frame(input_bytes@) ==> {
            let f = format_for_extension(source_ext@)->0;
            let o = decoded_origin(input_bytes@, source_ext@);
            let clamped = clamp_spec(*rect, image_dimensions(o).0, image_dimensions(o).1);
            &&& (!decodes_upright(input_bytes@, source_ext@) ==> (r matches Err(e) && error_of_class(
                e,
                decode_failure_class(input_bytes@, source_ext@),
            )))
            &&& (decodes_upright(input_bytes@, source_ext@) && clamped is None ==> (r matches Err(
                AppError::ProcessingFailed { detail },
            ) && detail@ == no_intersection_detail()))
            &&& (decodes_upright(input_bytes@, source_ext@) && clamped is Some ==> encoded_result(
                r,
                encoded_as(cut_of(o, clamped->0), f),
            ))
        },
        r is Err ==> (r->Err_0 is UnsupportedFormat || r->Err_0 is ProcessingFailed),
{
    let target = crop_target(source_ext, input_bytes)?;
    let img = decode_oriented(source_ext, input_bytes)?;
    crop_decoded(&img, rect, target)
}

/// Crop a decoded picture to the clamped rectangle and encode the cut-out
/// in `target`. A rectangle that misses the picture is refused; otherwise
/// only the encoder can fail.
pub fn crop_decoded(img: &Picture, rect: &CropRect, target: RasterFormat) -> (r: Result<Vec<u8>, AppError>)
    ensures
        clamp_spec(*rect, img.spec_width(), img.spec_height()) is None ==> (r matches Err(
            AppError::ProcessingFailed { detail },
        ) && detail@ == no_intersection_detail()),
        clamp_spec(*rect, img.spec_width(), img.spec_height()) matches Some(p) ==> encoded_result(
            r,
            encoded_as(cut_of(img@, p), target),
        ),
        r is Err ==> (r->Err_0 is UnsupportedFormat || r->Err_0 is ProcessingFailed),
{
    let cropped = cut_region(img, rect)?;
    encode_to(&cropped, target)
}

/// The cut-out of a decoded picture under the clamped rectangle: exactly
/// the clamped region's size, or the refusal of a rectangle that misses.
pub fn cut_region(img: &Picture, rect: &CropRect) -> (r: Result<Picture, AppError>)
    ensures
        clamp_spec(*rect, img.spec_width(), img.spec_height()) matches Some(p) ==> (r matches Ok(c)
            && c@ == cut_of(img@, p) && c.spec_width() == p.width && c.spec_height() == p.height),
        clamp_spec(*rect, img.spec_width(), img.spec_height()) is None ==> (r matches Err(
            AppError::ProcessingFailed { detail },
        ) && detail@ == no_intersection_detail()),
{
    let pixels = crop_region(rect, img.width(), img.height())?;
    proof {
        lemma_clamp_inside(*rect, img.spec_width(), img.spec_height());
    }
    Ok(crop_picture(img, pixels.x, pixels.y, pixels.width, pixels.height))
}

/// `{stem}_cropped.{ext}` next to `source`, before collision handling.
pub fn derive_output_path(source: &str) -> (r: String)
    ensures
        r@ == cropped_output_path(source@),
{
    let v = chars_of(source);
    let name = suffixed_name_chars(&v, "_cropped");
    string_of(sibling_chars(&v, &name))
}

/// The cropped image never lands on its source, even before collision
/// handling: the `_cropped` suffix changes the file name.
pub proof fn lemma_output_differs_from_source(source: Seq<char>)
    ensures
        cropped_output_path(source) != source,
{
    reveal_strlit("_cropped");
    lemma_suffixed_differs(source, "_cropped"@);
    lemma_rename_differs(source, suffixed_name(source, "_cropped"@));
}

/// The unsigned 16-bit number stored at `o`: least significant byte
/// first when `le`, else most significant first.
pub open spec fn word16_at(b: Seq<u8>, le: bool, o: int) -> int {
    if le {
        b[o] + b[o + 1] * 256
    } else {
        b[o] * 256 + b[o + 1]
    }
}

/// The unsigned 32-bit number stored at `o`, in the same byte orders.
pub open spec fn word32_at(b: Seq<u8>, le: bool, o: int) -> int {
    if le {
        word16_at(b, true, o) + word16_at(b, true, o + 2) * 65536
    } else {
        word16_at(b, false, o) * 65536 + word16_at(b, false, o + 2)
    }
}

/// The IFDs at `offs` (with `ns` entries each) form a chain in `b`: each
/// lies inside `b` at a non-zero offset, and the u32 right after its `n`
/// 12-byte entries, at `offset + 2 + 12 * n`, is the offset of the next
/// one, or 0 for the last.
pub open spec fn ifd_chain(b: Seq<u8>, le: bool, offs: Seq<int>, ns: Seq<int>) -> bool {
    &&& offs.len() == ns.len()
    &&& forall|i: int|
        0 <= i < offs.len() ==> {
            &&& #[trigger] offs[i] > 0
            &&& offs[i] + 2 + 12 * ns[i] + 4 <= b.len()
            &&& ns[i] == word16_at(b, le, offs[i])
            &&& word32_at(b, le, offs[i] + 2 + 12 * ns[i]) == if i + 1 < offs.len() {
                offs[i + 1]
            } else {
                0int
            }
        }
}

proof fn lemma_walk_follows_chain(b: Seq<u8>, le: bool, offs: Seq<int>, ns: Seq<int>, j: int)
    requires
        ifd_chain(b, le, offs, ns),
        offs.len() <= 1024,
        0 <= j <= offs.len(),
    ensures
        ifd_walk(
            b,
            le,
            if j < offs.len() { offs[j] } else { 0int },
            j as nat,
            (1024 - j) as nat,
        ) == Some(offs.len() as nat),
    decreases offs.len() - j,
{
    if j < offs.len() {
        assert(offs[j] > 0);
        assert(ns[j] >= 0);
        assert(rd16(b, le, offs[j]) == Some(ns[j]));
        assert(rd32(b, le, offs[j] + 2 + 12 * ns[j]) == Some(
            if j + 1 < offs.len() { offs[j + 1] } else { 0int },
        ));
        lemma_walk_follows_chain(b, le, offs, ns, j + 1);
    }
}

/// A classic TIFF (`II` then 42 little-endian, or `MM` then 42
/// big-endian) whose first-IFD offset starts a chain of `k` IFDs (from
/// one to the walk's bound), each giving the next one's offset after its
/// 12-byte entries and the last giving 0, has exactly `k` frames; with two
/// or more it is multi-frame.
pub proof fn lemma_tiff_chain_counts_frames(b: Seq<u8>, le: bool, offs: Seq<int>, ns: Seq<int>)
    requires
        b.len() >= 8,
        le ==> b[0] == 73 && b[1] == 73,
        !le ==> b[0] == 77 && b[1] == 77,
        word16_at(b, le, 2) == 42,
        1 <= offs.len() <= 1024,
        word32_at(b, le, 4) == offs[0],
        ifd_chain(b, le, offs, ns),
    ensures
        tiff_frames(b) == Some(offs.len() as nat),
        is_multi_frame(b) <==> offs.len() >= 2,
{
    assert(tiff_order(b) == Some(le));
    assert(rd16(b, le, 2) == Some(42int));
    assert(rd32(b, le, 4) == Some(offs[0]));
    lemma_walk_follows_chain(b, le, offs, ns, 0);
}

} // verus!
