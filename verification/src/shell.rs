//! Decisions of the desktop shell's commands: which picked files may be
//! previewed, where a preview proxy lives and which files may be deleted as
//! one, and the small result types the commands return.

use vstd::prelude::*;
use crate::error::AppError;
use crate::paths::{extension_of, file_name_chars, file_name_of, is_plain, join_chars, join_of, lemma_join_sets_file_name, parent_chars, parent_of, path_key, path_key_chars, stem_ext_chars, lemma_path_key_strip_tail};
use crate::raster_format::{all_formats, RasterFormat, RasterFormatDescriptor};
use crate::text::{chars_eq, chars_of, ends_with, eq_ignore_case, eq_ignore_case_exec, has_prefix, has_suffix, push_str, starts_with, str_views, string_of};

verus! {

/// Image extensions whose previews may be granted.
pub open spec fn image_exts() -> Seq<Seq<char>> {
    seq![
        "png"@, "jpg"@, "jpeg"@, "webp"@, "bmp"@, "tif"@, "tiff"@, "gif"@, "ico"@, "tga"@, "pbm"@,
        "pgm"@, "ppm"@, "pnm"@, "qoi"@, "svg"@,
    ]
}

/// Audio extensions whose previews may be granted.
pub open spec fn audio_exts() -> Seq<Seq<char>> {
    seq!["mp3"@, "wav"@, "flac"@, "ogg"@, "oga"@]
}

/// The path has an extension that names an allowed image or audio type
/// (ASCII case-insensitively).
pub open spec fn is_media_spec(path: Seq<char>) -> bool {
    match extension_of(path) {
        None => false,
        Some(e) => exists|i: int|
            0 <= i < image_exts().len() + audio_exts().len() && eq_ignore_case(
                #[trigger] (image_exts() + audio_exts())[i],
                e,
            ),
    }
}

pub open spec fn proxy_prefix() -> Seq<char> {
    "multitool-preview-"@
}

/// `{temp}/multitool-preview-{job}.mp4`.
pub open spec fn proxy_path_of(temp_dir: Seq<char>, job_id: Seq<char>) -> Seq<char> {
    join_of(temp_dir, proxy_prefix() + job_id + ".mp4"@)
}

/// A deletable proxy sits directly in the temp directory (its parent and
/// the temp directory are equal as `Path`s: they have the same components)
/// and is named `multitool-preview-….mp4`.
pub open spec fn is_owned_proxy_spec(path: Seq<char>, temp_dir: Seq<char>) -> bool {
    &&& parent_of(path) matches Some(p) && path_key(p) == path_key(temp_dir)
    &&& file_name_of(path) matches Some(n) && starts_with(n, proxy_prefix()) && ends_with(n, ".mp4"@)
}

pub open spec fn media_refusal_detail(path: Seq<char>) -> Seq<char> {
    "asset-scope grant refused: "@ + path + " is not a supported media file"@
}

pub open spec fn cleanup_refusal_detail(path: Seq<char>) -> Seq<char> {
    "refusing to delete "@ + path + ": not a multitool preview proxy in the temp dir"@
}

/// Probed duration of a source, in milliseconds.
#[derive(Clone, Copy, Debug, PartialEq, Eq, Structural)]
pub struct DurationResult {
    pub duration_ms: u64,
}

/// Where the preview proxy of a source was written.
#[derive(Clone, Debug, PartialEq, Eq)]
pub struct ProxyResult {
    pub proxy_path: String,
}

/// Whether a picked file may get a preview grant: its extension is one of
/// the image or audio types the tools accept.
pub fn is_media_path(path: &str) -> (r: bool)
    ensures
        r == is_media_spec(path@),
{
    let v = chars_of(path);
    let ext = match file_name_chars(&v) {
        Some(n) => {
            let (_, e) = stem_ext_chars(&n);
            match e {
                Some(e) => e,
                None => return false,
            }
        },
        None => return false,
    };
    assert(extension_of(path@) == Some(ext@));
    let image: &[&str] = &[
        "png", "jpg", "jpeg", "webp", "bmp", "tif", "tiff", "gif", "ico", "tga", "pbm", "pgm",
        "ppm", "pnm", "qoi", "svg",
    ];
    let audio: &[&str] = &["mp3", "wav", "flac", "ogg", "oga"];
    assert(str_views(image@) =~= image_exts());
    assert(str_views(audio@) =~= audio_exts());
    let ghost all = image_exts() + audio_exts();
    let mut i: usize = 0;
    while i < image.len()
        invariant
            i <= image@.len(),
            str_views(image@) == image_exts(),
            all == image_exts() + audio_exts(),
            extension_of(path@) == Some(ext@),
            forall|k: int| 0 <= k < i ==> !eq_ignore_case(#[trigger] all[k], ext@),
        decreases image.len() - i,
    {
        let allowed = chars_of(image[i]);
        assert(allowed@ == all[i as int]);
        if eq_ignore_case_exec(&allowed, &ext) {
            assert(eq_ignore_case(all[i as int], ext@));
            return true;
        }
        i += 1;
    }
    let mut j: usize = 0;
    while j < audio.len()
        invariant
            j <= audio@.len(),
            str_views(audio@) == audio_exts(),
            all == image_exts() + audio_exts(),
            extension_of(path@) == Some(ext@),
            forall|k: int| 0 <= k < image_exts().len() + j ==> !eq_ignore_case(#[trigger] all[k], ext@),
        decreases audio.len() - j,
    {
        let allowed = chars_of(audio[j]);
        assert(allowed@ == all[image_exts().len() + j]);
        if eq_ignore_case_exec(&allowed, &ext) {
            assert(eq_ignore_case(all[image_exts().len() + j], ext@));
            return true;
        }
        j += 1;
    }
    false
}

/// Index of the first picked path that may not be previewed, if any. A
/// grant loop allows the paths before it, in order, and refuses it; with
/// `None` every path is allowed.
pub fn first_non_media(paths: &[String]) -> (r: Option<usize>)
    ensures
        match r {
            Some(i) => i < paths@.len() && !is_media_spec(paths@[i as int]@) && forall|j: int|
                0 <= j < i ==> is_media_spec(#[trigger] paths@[j]@),
            None => forall|j: int| 0 <= j < paths@.len() ==> is_media_spec(#[trigger] paths@[j]@),
        },
{
    let mut i: usize = 0;
    while i < paths.len()
        invariant
            i <= paths@.len(),
            forall|j: int| 0 <= j < i ==> is_media_spec(#[trigger] paths@[j]@),
        decreases paths.len() - i,
    {
        if !is_media_path(paths[i].as_str()) {
            return Some(i);
        }
        i += 1;
    }
    None
}

/// The refusal of a preview grant for `path`.
pub fn media_refusal(path: &str) -> (e: AppError)
    ensures
        e matches AppError::UnsupportedFormat { detail } && detail@ == media_refusal_detail(path@),
{
    let mut d = chars_of("asset-scope grant refused: ");
    push_str(&mut d, path);
    push_str(&mut d, " is not a supported media file");
    assert(d@ =~= media_refusal_detail(path@));
    AppError::UnsupportedFormat { detail: string_of(d) }
}

/// Where the preview proxy of job `job_id` is written inside `temp_dir`.
pub fn proxy_path(temp_dir: &str, job_id: &str) -> (r: String)
    ensures
        r@ == proxy_path_of(temp_dir@, job_id@),
{
    let mut name = chars_of("multitool-preview-");
    push_str(&mut name, job_id);
    push_str(&mut name, ".mp4");
    let t = chars_of(temp_dir);
    string_of(join_chars(&t, &name))
}

/// Whether `path` is a proxy this app may delete: directly inside
/// `temp_dir` and carrying the proxy name pattern.
pub fn is_owned_proxy(path: &str, temp_dir: &str) -> (r: bool)
    ensures
        r == is_owned_proxy_spec(path@, temp_dir@),
{
    let v = chars_of(path);
    let t = chars_of(temp_dir);
    let tk = path_key_chars(&t);
    let in_temp = match parent_chars(&v) {
        Some(p) => chars_eq(&path_key_chars(&p), &tk),
        None => false,
    };
    let named = match file_name_chars(&v) {
        Some(n) => {
            let pre = chars_of("multitool-preview-");
            let suf = chars_of(".mp4");
            has_prefix(&n, &pre) && has_suffix(&n, &suf)
        },
        None => false,
    };
    in_temp && named
}

/// The refusal to delete a file that is not an owned proxy.
pub fn cleanup_refusal(path: &str) -> (e: AppError)
    ensures
        e matches AppError::ProcessingFailed { detail } && detail@ == cleanup_refusal_detail(path@),
{
    let mut d = chars_of("refusing to delete ");
    push_str(&mut d, path);
    push_str(&mut d, ": not a multitool preview proxy in the temp dir");
    assert(d@ =~= cleanup_refusal_detail(path@));
    AppError::ProcessingFailed { detail: string_of(d) }
}

/// `d` is the descriptor of `f`.
pub open spec fn describes(d: RasterFormatDescriptor, f: RasterFormat) -> bool {
    &&& d.id@ == crate::raster_format::id_of(f)
    &&& d.name@ == crate::raster_format::display_name_of(f)
    &&& str_views(d.extensions@) == crate::raster_format::extensions_of(f)
    &&& d.supports_alpha == crate::raster_format::supports_alpha_of(f)
}

/// Descriptors of every raster format the pipeline can decode and encode,
/// in display order.
pub fn supported_raster_formats() -> (r: Vec<RasterFormatDescriptor>)
    ensures
        r@.len() == all_formats().len(),
        forall|i: int| 0 <= i < r@.len() ==> #[trigger] describes(r@[i], all_formats()[i]),
{
    let all = RasterFormat::all();
    let mut out: Vec<RasterFormatDescriptor> = Vec::new();
    let mut i: usize = 0;
    while i < all.len()
        invariant
            i <= all@.len(),
            all@ == all_formats(),
            out@.len() == i,
            forall|k: int| 0 <= k < i ==> #[trigger] describes(out@[k], all_formats()[k]),
        decreases all.len() - i,
    {
        out.push(all[i].descriptor());
        i += 1;
    }
    out
}

/// A proxy this app writes is one it may later delete: for any temp
/// directory (with or without a trailing separator) and a job id without
/// separators, the proxy path is owned.
pub proof fn lemma_own_proxy_is_deletable(temp_dir: Seq<char>, job_id: Seq<char>)
    requires
        !job_id.contains('/'),
    ensures
        is_owned_proxy_spec(proxy_path_of(temp_dir, job_id), temp_dir),
{
    reveal_strlit("multitool-preview-");
    reveal_strlit(".mp4");
    let name = proxy_prefix() + job_id + ".mp4"@;
    assert(!name.contains('/')) by {
        if name.contains('/') {
            let k = choose|k: int| 0 <= k < name.len() && name[k] == '/';
            if 18 <= k < 18 + job_id.len() {
                assert(name[k] == job_id[k - 18]);
            }
        }
    }
    assert(name.len() >= 22);
    assert(is_plain(name));
    lemma_join_sets_file_name(temp_dir, name);
    lemma_path_key_strip_tail(temp_dir);
    assert(name.take(proxy_prefix().len() as int) =~= proxy_prefix());
    assert(name.skip(name.len() - 4) =~= ".mp4"@);
}


/// Whether a picked file may be previewed does not depend on the case of
/// its extension.
pub proof fn lemma_media_ignores_case(a: Seq<char>, b: Seq<char>)
    requires
        extension_of(a) is Some,
        extension_of(b) is Some,
        eq_ignore_case(extension_of(a)->Some_0, extension_of(b)->Some_0),
    ensures
        is_media_spec(a) == is_media_spec(b),
{
    let ea = extension_of(a)->Some_0;
    let eb = extension_of(b)->Some_0;
    let all = image_exts() + audio_exts();
    if is_media_spec(a) {
        let i = choose|i: int| 0 <= i < all.len() && eq_ignore_case(#[trigger] all[i], ea);
        assert(eq_ignore_case(all[i], eb));
    }
    if is_media_spec(b) {
        let i = choose|i: int| 0 <= i < all.len() && eq_ignore_case(#[trigger] all[i], eb);
        assert(eq_ignore_case(all[i], ea));
    }
}

/// The picked file is a media file by its extension: `e` names the
/// list's `j`-th allowed type (ASCII case-insensitively).
proof fn lemma_media_by_index(path: Seq<char>, e: Seq<char>, j: int)
    requires
        extension_of(path) == Some(e),
        0 <= j < image_exts().len() + audio_exts().len(),
        eq_ignore_case((image_exts() + audio_exts())[j], e),
    ensures
        is_media_spec(path),
{
}

/// Every extension the raster image tools accept, in any ASCII letter
/// case, passes the preview check.
pub proof fn lemma_raster_extensions_are_media(path: Seq<char>, f: RasterFormat, i: int, e: Seq<char>)
    requires
        0 <= i < crate::raster_format::extensions_of(f).len(),
        eq_ignore_case(crate::raster_format::extensions_of(f)[i], e),
        extension_of(path) == Some(e),
    ensures
        is_media_spec(path),
{
    reveal_strlit("png");
    reveal_strlit("jpg");
    reveal_strlit("jpeg");
    reveal_strlit("webp");
    reveal_strlit("bmp");
    reveal_strlit("tif");
    reveal_strlit("tiff");
    reveal_strlit("gif");
    reveal_strlit("ico");
    reveal_strlit("tga");
    reveal_strlit("pbm");
    reveal_strlit("pgm");
    reveal_strlit("ppm");
    reveal_strlit("pnm");
    reveal_strlit("qoi");
    reveal_strlit("svg");
    reveal_strlit("mp3");
    reveal_strlit("wav");
    reveal_strlit("flac");
    reveal_strlit("ogg");
    reveal_strlit("oga");
    let all = image_exts() + audio_exts();
    let x = crate::raster_format::extensions_of(f)[i];
    let j: int = match f {
        RasterFormat::Png => 0,
        RasterFormat::Jpeg => if i == 0 { 1 } else { 2 },
        RasterFormat::Webp => 3,
        RasterFormat::Bmp => 4,
        RasterFormat::Tiff => if i == 0 { 5 } else { 6 },
    };
    assert(all[j] =~= x);
    lemma_media_by_index(path, e, j);
}

/// The other image types the previews show (GIF, ICO, TGA, the Netpbm
/// family, QOI, SVG) and every audio type (MP3, WAV, FLAC, Ogg), in any
/// ASCII letter case, pass the preview check.
pub proof fn lemma_other_media_extensions_pass(path: Seq<char>, j: int, e: Seq<char>)
    requires
        0 <= j < 14,
        eq_ignore_case(
            seq![
                "gif"@, "ico"@, "tga"@, "pbm"@, "pgm"@, "ppm"@, "pnm"@, "qoi"@, "svg"@, "mp3"@,
                "wav"@, "flac"@, "ogg"@, "oga"@,
            ][j],
            e,
        ),
        extension_of(path) == Some(e),
    ensures
        is_media_spec(path),
{
    reveal_strlit("png");
    reveal_strlit("jpg");
    reveal_strlit("jpeg");
    reveal_strlit("webp");
    reveal_strlit("bmp");
    reveal_strlit("tif");
    reveal_strlit("tiff");
    reveal_strlit("gif");
    reveal_strlit("ico");
    reveal_strlit("tga");
    reveal_strlit("pbm");
    reveal_strlit("pgm");
    reveal_strlit("ppm");
    reveal_strlit("pnm");
    reveal_strlit("qoi");
    reveal_strlit("svg");
    reveal_strlit("mp3");
    reveal_strlit("wav");
    reveal_strlit("flac");
    reveal_strlit("ogg");
    reveal_strlit("oga");
    let all = image_exts() + audio_exts();
    let extra = seq![
        "gif"@, "ico"@, "tga"@, "pbm"@, "pgm"@, "ppm"@, "pnm"@, "qoi"@, "svg"@, "mp3"@, "wav"@,
        "flac"@, "ogg"@, "oga"@,
    ];
    assert(all[7 + j] == extra[j]);
    lemma_media_by_index(path, e, 7 + j);
}

/// The file types a preview may be granted for, by extension: the image
/// types (PNG, JPEG, WebP, BMP, TIFF, GIF, ICO, TGA, the Netpbm family,
/// QOI, SVG), then the audio types (MP3, WAV, FLAC, Ogg).
pub open spec fn previewable_types() -> Seq<Seq<char>> {
    seq!["png"@, "jpg"@, "jpeg"@, "webp"@, "bmp"@, "tif"@, "tiff"@, "gif"@, "ico"@, "tga"@, "pbm"@, "pgm"@, "ppm"@, "pnm"@, "qoi"@, "svg"@, "mp3"@, "wav"@, "flac"@, "ogg"@, "oga"@]
}

/// Nothing else passes the preview check: a path without an extension, or
/// whose extension is none of the image types (PNG, JPEG, WebP, BMP, TIFF,
/// GIF, ICO, TGA, the Netpbm family, QOI, SVG) or audio types (MP3, WAV,
/// FLAC, Ogg) in any letter case, is refused.
pub proof fn lemma_only_media_extensions_pass(path: Seq<char>)
    requires
        is_media_spec(path),
    ensures
        extension_of(path) matches Some(e) && exists|j: int|
            0 <= j < previewable_types().len() && eq_ignore_case(#[trigger] previewable_types()[j], e),
{
    reveal_strlit("png");
    reveal_strlit("jpg");
    reveal_strlit("jpeg");
    reveal_strlit("webp");
    reveal_strlit("bmp");
    reveal_strlit("tif");
    reveal_strlit("tiff");
    reveal_strlit("gif");
    reveal_strlit("ico");
    reveal_strlit("tga");
    reveal_strlit("pbm");
    reveal_strlit("pgm");
    reveal_strlit("ppm");
    reveal_strlit("pnm");
    reveal_strlit("qoi");
    reveal_strlit("svg");
    reveal_strlit("mp3");
    reveal_strlit("wav");
    reveal_strlit("flac");
    reveal_strlit("ogg");
    reveal_strlit("oga");
    let e = extension_of(path)->0;
    let all = image_exts() + audio_exts();
    let i = choose|i: int| 0 <= i < all.len() && eq_ignore_case(#[trigger] all[i], e);
    assert(all =~= previewable_types());
    assert(eq_ignore_case(previewable_types()[i], e));
}

} // verus!
