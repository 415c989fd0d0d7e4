//! PDF → Images: pages rendered at a clamped DPI are written as
//! `{stem}_pages/page_NNN.{ext}`, the number zero-padded to fit the total
//! (at least three digits). The page loop itself is a
//! [`crate::tools::steps::ItemLoop`] driven around the renderer.

use vstd::prelude::*;
use crate::error::AppError;
use crate::paths::{file_stem_of, join_chars, join_of, lemma_rename_differs, lemma_stem_rename_differs, sibling_chars, sibling_of, stem_or, file_name_chars, stem_ext_chars};
use crate::text::{chars_of, dec_chars, dec_string, lemma_dec_string_injective, lemma_dec_string_leading, lemma_dec_string_len, lemma_dec_string_len_monotone, push_all, push_str, string_of, zero_pad, zero_pad_chars};

verus! {

/// Output image format of the rendered pages.
#[derive(Clone, Copy, Debug, PartialEq, Eq, Structural)]
pub enum Format {
    Png,
    Jpeg,
}

/// User options; `dpi` is clamped to `[DPI_MIN, DPI_MAX]` before rendering.
#[derive(Clone, Copy, Debug, PartialEq, Eq, Structural)]
pub struct Opts {
    pub format: Format,
    pub dpi: u32,
}

/// One rendered and encoded page: 0-based `index` of `total`.
#[derive(Clone, Debug, PartialEq, Eq)]
pub struct PageOutput {
    pub index: u32,
    pub total: u32,
    pub encoded: Vec<u8>,
}

/// Bookkeeping of a finished render.
#[derive(Clone, Copy, Debug, PartialEq, Eq)]
pub struct JobSummary {
    pub page_count: u32,
    pub duration: std::time::Duration,
}

/// Progress event: 1-based `page` of `total`.
#[derive(Clone, Copy, Debug, PartialEq, Eq, Structural)]
pub struct Progress {
    pub page: u32,
    pub total: u32,
}

/// Result of a finished job.
#[derive(Clone, Debug, PartialEq, Eq)]
pub struct JobResult {
    /// The directory the pages went to (after collision handling).
    pub output_dir: String,
    pub page_count: u32,
    pub duration_ms: u64,
}

pub const DPI_MIN: u32 = 72;
pub const DPI_MAX: u32 = 600;

pub open spec fn extension_of(f: Format) -> Seq<char> {
    match f {
        Format::Png => "png"@,
        Format::Jpeg => "jpg"@,
    }
}

pub open spec fn clamp_dpi_spec(dpi: u32) -> u32 {
    if dpi < 72 {
        72
    } else if dpi > 600 {
        600
    } else {
        dpi
    }
}

/// Digits of the total, but at least three.
pub open spec fn pad_width_of(total: u32) -> nat {
    let n = dec_string(total as nat).len();
    if n >= 3 {
        n
    } else {
        3
    }
}

/// 1-based page number shown in file names (saturating).
pub open spec fn page_number(index: u32) -> nat {
    if index == u32::MAX {
        u32::MAX as nat
    } else {
        (index + 1) as nat
    }
}

/// `page_{number:0width}.{ext}`.
pub open spec fn page_file_name_of(index: u32, width: nat, ext: Seq<char>) -> Seq<char> {
    "page_"@ + zero_pad(dec_string(page_number(index)), width) + "."@ + ext
}

/// `{parent}/{stem}_pages`.
pub open spec fn output_dir_of(input: Seq<char>) -> Seq<char> {
    let stem = match file_stem_of(input) {
        Some(s) => s,
        None => Seq::<char>::empty(),
    };
    sibling_of(input, stem + "_pages"@)
}

impl Format {
    /// `image::ImageFormat` of this output format: the one its extension
    /// names.
    pub fn image_format(self) -> (r: image::ImageFormat)
        ensures
            Some(r) == crate::image_io::format_named_by(extension_of(self)),
    {
        crate::image_io::page_image_format(self)
    }
}

/// File extension of a format (`jpg` for JPEG).
pub fn extension_for(format: Format) -> (r: &'static str)
    ensures
        r@ == extension_of(format),
{
    match format {
        Format::Png => "png",
        Format::Jpeg => "jpg",
    }
}

/// The DPI actually rendered: `dpi` moved into `[DPI_MIN, DPI_MAX]`.
pub fn clamp_dpi(dpi: u32) -> (r: u32)
    ensures
        r == clamp_dpi_spec(dpi),
        DPI_MIN <= r <= DPI_MAX,
{
    if dpi < DPI_MIN {
        DPI_MIN
    } else if dpi > DPI_MAX {
        DPI_MAX
    } else {
        dpi
    }
}

/// Zero-padding width of page numbers: the digits of `total`, at least 3.
pub fn pad_width(total: u32) -> (r: usize)
    ensures
        r == pad_width_of(total),
{
    let d = dec_chars(total as u64);
    if d.len() >= 3 {
        d.len()
    } else {
        3
    }
}

/// File name of the page with 0-based `index`.
pub fn page_file_name(index: u32, width: usize, ext: &str) -> (r: String)
    ensures
        r@ == page_file_name_of(index, width as nat, ext@),
{
    let one_based: u32 = if index == u32::MAX { u32::MAX } else { index + 1 };
    let mut name = chars_of("page_");
    let digits = dec_chars(one_based as u64);
    push_all(&mut name, &zero_pad_chars(&digits, width));
    push_str(&mut name, ".");
    push_str(&mut name, ext);
    assert(name@ =~= page_file_name_of(index, width as nat, ext@));
    string_of(name)
}

/// `{parent}/{stem}_pages` next to the input (path text only).
pub fn derive_output_dir(input: &str) -> (r: String)
    ensures
        r@ == output_dir_of(input@),
{
    let v = chars_of(input);
    let mut name: Vec<char> = match file_name_chars(&v) {
        Some(n) => {
            let (stem, _) = stem_ext_chars(&n);
            stem
        },
        None => Vec::new(),
    };
    push_str(&mut name, "_pages");
    string_of(sibling_chars(&v, &name))
}

/// Names the pages of one job inside its (already created) directory.
#[derive(Clone, Debug)]
pub struct PageWriter {
    dir: String,
    extension: &'static str,
    pad_width: usize,
}

impl PageWriter {
    pub closed spec fn spec_dir(&self) -> Seq<char> {
        self.dir@
    }

    pub closed spec fn spec_extension(&self) -> Seq<char> {
        self.extension@
    }

    pub closed spec fn spec_pad_width(&self) -> nat {
        self.pad_width as nat
    }

    /// A writer for pages of a `total_pages`-page job in `format`, into `dir`.
    pub fn new(dir: String, format: Format, total_pages: u32) -> (w: PageWriter)
        ensures
            w.spec_dir() == dir@,
            w.spec_extension() == extension_of(format),
            w.spec_pad_width() == pad_width_of(total_pages),
    {
        PageWriter { dir, extension: extension_for(format), pad_width: pad_width(total_pages) }
    }

    /// The directory the pages are written to.
    pub fn dir(&self) -> (r: &str)
        ensures
            r@ == self.spec_dir(),
    {
        self.dir.as_str()
    }

    /// Where `page` is written: `{dir}/page_NNN.{ext}`, 1-based.
    pub fn page_path(&self, page: &PageOutput) -> (r: String)
        ensures
            r@ == join_of(
                self.spec_dir(),
                page_file_name_of(page.index, self.spec_pad_width(), self.spec_extension()),
            ),
    {
        let name = page_file_name(page.index, self.pad_width, self.extension);
        let d = chars_of(self.dir.as_str());
        let n = chars_of(name.as_str());
        string_of(join_chars(&d, &n))
    }
}

/// Why pdfium refused a document, as far as the mapping needs it.
#[derive(Clone, Debug, PartialEq, Eq)]
pub enum LoadFailure {
    /// pdfium's password error.
    Password,
    /// pdfium's security-handler error.
    Security,
    /// Any other failure, with its debug text.
    Other(String),
}

/// Password and security failures are `Encrypted`; any other failure is
/// `ProcessingFailed` carrying its text.
pub fn map_load_error(f: LoadFailure) -> (e: AppError)
    ensures
        f is Password || f is Security ==> e is Encrypted,
        f matches LoadFailure::Other(t) ==> e == (AppError::ProcessingFailed { detail: t }),
{
    match f {
        LoadFailure::Password => AppError::Encrypted,
        LoadFailure::Security => AppError::Encrypted,
        LoadFailure::Other(t) => AppError::ProcessingFailed { detail: t },
    }
}

/// The page directory never is the PDF itself: the `_pages` suffix
/// changes the name.
pub proof fn lemma_output_dir_differs_from_input(input: Seq<char>)
    ensures
        output_dir_of(input) != input,
{
    reveal_strlit("_pages");
    assert(!"_pages"@.contains('/'));
    lemma_stem_rename_differs(input, Seq::<char>::empty(), "_pages"@);
    assert(output_dir_of(input) == sibling_of(input, stem_or(input, Seq::<char>::empty()) + "_pages"@));
    lemma_rename_differs(input, stem_or(input, Seq::<char>::empty()) + "_pages"@);
}

proof fn lemma_zero_pad_injective(a: nat, b: nat, w: nat)
    requires
        a >= 1,
        b >= 1,
        dec_string(a).len() <= w,
        dec_string(b).len() <= w,
        zero_pad(dec_string(a), w) == zero_pad(dec_string(b), w),
    ensures
        a == b,
{
    let da = dec_string(a);
    let db = dec_string(b);
    let z = zero_pad(da, w);
    lemma_dec_string_leading(a);
    lemma_dec_string_leading(b);
    lemma_dec_string_len(a);
    lemma_dec_string_len(b);
    if da.len() < db.len() {
        let p = w - db.len();
        assert(zero_pad(db, w)[p] == db[0]);
        assert(z[p] == '0');
    } else if db.len() < da.len() {
        let p = w - da.len();
        assert(z[p] == da[0]);
        assert(zero_pad(db, w)[p] == '0');
    } else {
        assert(z.skip(w - da.len()) =~= da);
        assert(zero_pad(db, w).skip(w - db.len()) =~= db);
        lemma_dec_string_injective(a, b);
    }
}

/// Every page of a job gets a name of the same length: the number is
/// padded to the width of the total.
pub proof fn lemma_page_names_same_length(index: u32, total: u32, ext: Seq<char>)
    requires
        index < total,
    ensures
        page_file_name_of(index, pad_width_of(total), ext).len() == 6 + pad_width_of(total) + ext.len(),
{
    reveal_strlit("page_");
    reveal_strlit(".");
    lemma_dec_string_len_monotone(page_number(index), total as nat);
}

/// The name of page `index` of a job of `total` pages is `page_`, then
/// zeros, then the 1-based page number in decimal, the whole number part
/// being as wide as the total's digits but at least three (`page_001` of
/// three pages, `page_0001` of a thousand), then `.` and the extension.
pub proof fn lemma_page_name_layout(index: u32, total: u32, ext: Seq<char>)
    requires
        index < total,
    ensures
        dec_string(page_number(index)).len() <= pad_width_of(total),
        pad_width_of(total) == (if dec_string(total as nat).len() >= 3 {
            dec_string(total as nat).len()
        } else {
            3
        }),
        page_file_name_of(index, pad_width_of(total), ext) == "page_"@ + Seq::new(
            (pad_width_of(total) - dec_string(page_number(index)).len()) as nat,
            |k: int| '0',
        ) + dec_string(page_number(index)) + "."@ + ext,
{
    let w = pad_width_of(total);
    let d = dec_string(page_number(index));
    lemma_dec_string_len_monotone(page_number(index), total as nat);
    if d.len() >= w {
        assert(Seq::new((w - d.len()) as nat, |k: int| '0') + d =~= d);
    }
}

/// Distinct pages of a job get distinct names.
pub proof fn lemma_page_names_distinct(i: u32, j: u32, total: u32, ext: Seq<char>)
    requires
        i < total,
        j < total,
        i != j,
    ensures
        page_file_name_of(i, pad_width_of(total), ext) != page_file_name_of(j, pad_width_of(total), ext),
{
    reveal_strlit("page_");
    reveal_strlit(".");
    let w = pad_width_of(total);
    lemma_dec_string_len_monotone(page_number(i), total as nat);
    lemma_dec_string_len_monotone(page_number(j), total as nat);
    let ni = page_file_name_of(i, w, ext);
    let nj = page_file_name_of(j, w, ext);
    if ni == nj {
        assert(ni.subrange(5, 5 + w as int) =~= zero_pad(dec_string(page_number(i)), w));
        assert(nj.subrange(5, 5 + w as int) =~= zero_pad(dec_string(page_number(j)), w));
        lemma_zero_pad_injective(page_number(i), page_number(j), w);
    }
}

} // verus!
