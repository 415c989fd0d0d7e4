//! Raster formats the image pipeline can both decode and encode: the single
//! source of truth for picker filters, output dropdowns and the crop tool.

use vstd::prelude::*;
use crate::text::{chars_of, eq_ignore_case, eq_ignore_case_exec, str_views};

verus! {

/// One of the raster formats the pipeline can encode.
#[derive(Clone, Copy, Debug, PartialEq, Eq, Structural)]
pub enum RasterFormat {
    Png,
    Jpeg,
    Webp,
    Bmp,
    Tiff,
}

/// The formats in stable display order.
pub open spec fn all_formats() -> Seq<RasterFormat> {
    seq![RasterFormat::Png, RasterFormat::Jpeg, RasterFormat::Webp, RasterFormat::Bmp, RasterFormat::Tiff]
}

pub open spec fn id_of(f: RasterFormat) -> Seq<char> {
    match f {
        RasterFormat::Png => seq!['p', 'n', 'g'],
        RasterFormat::Jpeg => seq!['j', 'p', 'e', 'g'],
        RasterFormat::Webp => seq!['w', 'e', 'b', 'p'],
        RasterFormat::Bmp => seq!['b', 'm', 'p'],
        RasterFormat::Tiff => seq!['t', 'i', 'f', 'f'],
    }
}

pub open spec fn display_name_of(f: RasterFormat) -> Seq<char> {
    match f {
        RasterFormat::Png => seq!['P', 'N', 'G'],
        RasterFormat::Jpeg => seq!['J', 'P', 'E', 'G'],
        RasterFormat::Webp => seq!['W', 'e', 'b', 'P'],
        RasterFormat::Bmp => seq!['B', 'M', 'P'],
        RasterFormat::Tiff => seq!['T', 'I', 'F', 'F'],
    }
}

/// Accepted extensions; the first is the canonical one.
pub open spec fn extensions_of(f: RasterFormat) -> Seq<Seq<char>> {
    match f {
        RasterFormat::Png => seq![seq!['p', 'n', 'g']],
        RasterFormat::Jpeg => seq![seq!['j', 'p', 'g'], seq!['j', 'p', 'e', 'g']],
        RasterFormat::Webp => seq![seq!['w', 'e', 'b', 'p']],
        RasterFormat::Bmp => seq![seq!['b', 'm', 'p']],
        RasterFormat::Tiff => seq![seq!['t', 'i', 'f'], seq!['t', 'i', 'f', 'f']],
    }
}

/// The `image` crate's format for a raster format: the one its canonical
/// extension names.
pub open spec fn image_format_of(f: RasterFormat) -> image::ImageFormat {
    crate::image_io::format_named_by(extensions_of(f)[0])->0
}

pub open spec fn supports_alpha_of(f: RasterFormat) -> bool {
    f is Png || f is Webp || f is Tiff
}

/// `ext` names format `f` (case-insensitively).
pub open spec fn names_format(f: RasterFormat, ext: Seq<char>) -> bool {
    exists|i: int| 0 <= i < extensions_of(f).len() && eq_ignore_case(#[trigger] extensions_of(f)[i], ext)
}

/// The first format, in display order, that `ext` names.
pub open spec fn format_for_extension(ext: Seq<char>) -> Option<RasterFormat> {
    if names_format(RasterFormat::Png, ext) {
        Some(RasterFormat::Png)
    } else if names_format(RasterFormat::Jpeg, ext) {
        Some(RasterFormat::Jpeg)
    } else if names_format(RasterFormat::Webp, ext) {
        Some(RasterFormat::Webp)
    } else if names_format(RasterFormat::Bmp, ext) {
        Some(RasterFormat::Bmp)
    } else if names_format(RasterFormat::Tiff, ext) {
        Some(RasterFormat::Tiff)
    } else {
        None
    }
}

/// Wire shape of a format for the webview.
#[derive(Clone, Debug, PartialEq, Eq)]
pub struct RasterFormatDescriptor {
    pub id: &'static str,
    pub name: &'static str,
    pub extensions: &'static [&'static str],
    pub supports_alpha: bool,
}

impl RasterFormat {
    /// All formats in stable display order.
    pub fn all() -> (r: &'static [RasterFormat])
        ensures
            r@ == all_formats(),
    {
        let r: &'static [RasterFormat] = &[
            RasterFormat::Png,
            RasterFormat::Jpeg,
            RasterFormat::Webp,
            RasterFormat::Bmp,
            RasterFormat::Tiff,
        ];
        assert(r@ =~= all_formats());
        r
    }

    /// Stable wire id (`"png"`, `"jpeg"`, ...).
    pub fn id(self) -> (r: &'static str)
        ensures
            r@ == id_of(self),
    {
        match self {
            RasterFormat::Png => {
                proof { reveal_strlit("png"); }
                "png"
            },
            RasterFormat::Jpeg => {
                proof { reveal_strlit("jpeg"); }
                "jpeg"
            },
            RasterFormat::Webp => {
                proof { reveal_strlit("webp"); }
                "webp"
            },
            RasterFormat::Bmp => {
                proof { reveal_strlit("bmp"); }
                "bmp"
            },
            RasterFormat::Tiff => {
                proof { reveal_strlit("tiff"); }
                "tiff"
            },
        }
    }

    /// Human-readable name for the UI.
    pub fn display_name(self) -> (r: &'static str)
        ensures
            r@ == display_name_of(self),
    {
        match self {
            RasterFormat::Png => {
                proof { reveal_strlit("PNG"); }
                "PNG"
            },
            RasterFormat::Jpeg => {
                proof { reveal_strlit("JPEG"); }
                "JPEG"
            },
            RasterFormat::Webp => {
                proof { reveal_strlit("WebP"); }
                "WebP"
            },
            RasterFormat::Bmp => {
                proof { reveal_strlit("BMP"); }
                "BMP"
            },
            RasterFormat::Tiff => {
                proof { reveal_strlit("TIFF"); }
                "TIFF"
            },
        }
    }

    /// Accepted extensions (lower case, no dot); the first is canonical.
    pub fn extensions(self) -> (r: &'static [&'static str])
        ensures
            str_views(r@) == extensions_of(self),
    {
        match self {
            RasterFormat::Png => {
                let r: &'static [&'static str] = &["png"];
                proof {
                    reveal_strlit("png");
                    assert(str_views(r@) =~~= extensions_of(self));
                }
                r
            },
            RasterFormat::Jpeg => {
                let r: &'static [&'static str] = &["jpg", "jpeg"];
                proof {
                    reveal_strlit("jpg");
                    reveal_strlit("jpeg");
                    assert(str_views(r@) =~~= extensions_of(self));
                }
                r
            },
            RasterFormat::Webp => {
                let r: &'static [&'static str] = &["webp"];
                proof {
                    reveal_strlit("webp");
                    assert(str_views(r@) =~~= extensions_of(self));
                }
                r
            },
            RasterFormat::Bmp => {
                let r: &'static [&'static str] = &["bmp"];
                proof {
                    reveal_strlit("bmp");
                    assert(str_views(r@) =~~= extensions_of(self));
                }
                r
            },
            RasterFormat::Tiff => {
                let r: &'static [&'static str] = &["tif", "tiff"];
                proof {
                    reveal_strlit("tif");
                    reveal_strlit("tiff");
                    assert(str_views(r@) =~~= extensions_of(self));
                }
                r
            },
        }
    }

    /// Canonical extension for output naming: the first accepted one.
    pub fn default_extension(self) -> (r: &'static str)
        ensures
            r@ == extensions_of(self)[0],
    {
        match self {
            RasterFormat::Png => {
                proof { reveal_strlit("png"); }
                "png"
            },
            RasterFormat::Jpeg => {
                proof { reveal_strlit("jpg"); }
                "jpg"
            },
            RasterFormat::Webp => {
                proof { reveal_strlit("webp"); }
                "webp"
            },
            RasterFormat::Bmp => {
                proof { reveal_strlit("bmp"); }
                "bmp"
            },
            RasterFormat::Tiff => {
                proof { reveal_strlit("tif"); }
                "tif"
            },
        }
    }

    /// True when the encoder keeps an alpha channel (PNG, WebP, TIFF).
    pub fn supports_alpha(self) -> (r: bool)
        ensures
            r == supports_alpha_of(self),
    {
        match self {
            RasterFormat::Png | RasterFormat::Webp | RasterFormat::Tiff => true,
            _ => false,
        }
    }

    /// The `image` crate's format for this variant: the one its canonical
    /// extension names.
    pub fn image_format(self) -> (r: image::ImageFormat)
        ensures
            Some(r) == crate::image_io::format_named_by(extensions_of(self)[0]),
    {
        crate::image_io::raster_image_format(self)
    }

    /// Look a format up by file extension (ASCII case-insensitive, no
    /// leading dot). Extensions outside the raster set give `None`.
    pub fn from_extension(ext: &str) -> (r: Option<RasterFormat>)
        ensures
            r == format_for_extension(ext@),
    {
        let want = chars_of(ext);
        let formats = RasterFormat::all();
        let mut i: usize = 0;
        while i < formats.len()
            invariant
                i <= formats@.len(),
                formats@ == all_formats(),
                want@ == ext@,
                forall|j: int| 0 <= j < i ==> !names_format(#[trigger] all_formats()[j], ext@),
            decreases formats.len() - i,
        {
            let f = formats[i];
            let exts = f.extensions();
            let mut k: usize = 0;
            while k < exts.len()
                invariant
                    k <= exts@.len(),
                    str_views(exts@) == extensions_of(f),
                    want@ == ext@,
                    i < all_formats().len(),
                    f == all_formats()[i as int],
                    forall|j: int| 0 <= j < i ==> !names_format(#[trigger] all_formats()[j], ext@),
                    forall|j: int| 0 <= j < k ==> !eq_ignore_case(#[trigger] extensions_of(f)[j], ext@),
                decreases exts.len() - k,
            {
                let e = chars_of(exts[k]);
                assert(e@ == extensions_of(f)[k as int]);
                if eq_ignore_case_exec(&e, &want) {
                    assert(names_format(f, ext@));
                    assert(all_formats()[i as int] == f);
                    return Some(f);
                }
                k += 1;
            }
            assert(!names_format(f, ext@));
            i += 1;
        }
        None
    }

    /// The webview descriptor for this format.
    pub fn descriptor(self) -> (d: RasterFormatDescriptor)
        ensures
            d.id@ == id_of(self),
            d.name@ == display_name_of(self),
            str_views(d.extensions@) == extensions_of(self),
            d.supports_alpha == supports_alpha_of(self),
    {
        RasterFormatDescriptor {
            id: self.id(),
            name: self.display_name(),
            extensions: self.extensions(),
            supports_alpha: self.supports_alpha(),
        }
    }
}

/// The initial every accepted extension of a format starts with; the five
/// initials are distinct.
pub open spec fn initial_of(f: RasterFormat) -> char {
    match f {
        RasterFormat::Png => 'p',
        RasterFormat::Jpeg => 'j',
        RasterFormat::Webp => 'w',
        RasterFormat::Bmp => 'b',
        RasterFormat::Tiff => 't',
    }
}

proof fn lemma_names_initial(f: RasterFormat, ext: Seq<char>)
    requires
        names_format(f, ext),
    ensures
        ext.len() > 0 && crate::text::lower_char(ext[0]) == initial_of(f),
{
    let i = choose|i: int| 0 <= i < extensions_of(f).len() && eq_ignore_case(#[trigger] extensions_of(f)[i], ext);
    let e = extensions_of(f)[i];
    assert(e.len() > 0 && e[0] == initial_of(f));
    assert(crate::text::lower(e).len() == e.len());
    assert(crate::text::lower(ext).len() == ext.len());
    assert(crate::text::lower(e)[0] == crate::text::lower_char(e[0]));
    assert(crate::text::lower_char(e[0]) == e[0]);
    assert(crate::text::lower(e)[0] == crate::text::lower(ext)[0]);
}

/// Every format is found again from its canonical extension.
pub proof fn lemma_canonical_extension_round_trip(f: RasterFormat)
    ensures
        format_for_extension(extensions_of(f)[0]) == Some(f),
{
    let e = extensions_of(f)[0];
    assert(eq_ignore_case(extensions_of(f)[0], e));
    assert(names_format(f, e));
    assert(e[0] == initial_of(f));
    if names_format(RasterFormat::Png, e) {
        lemma_names_initial(RasterFormat::Png, e);
    }
    if names_format(RasterFormat::Jpeg, e) {
        lemma_names_initial(RasterFormat::Jpeg, e);
    }
    if names_format(RasterFormat::Webp, e) {
        lemma_names_initial(RasterFormat::Webp, e);
    }
    if names_format(RasterFormat::Bmp, e) {
        lemma_names_initial(RasterFormat::Bmp, e);
    }
}

/// No extension names two formats: the accepted extension lists are
/// disjoint, ignoring ASCII case.
pub proof fn lemma_extension_lists_disjoint(f: RasterFormat, g: RasterFormat, ext: Seq<char>)
    requires
        names_format(f, ext),
        names_format(g, ext),
    ensures
        f == g,
{
    lemma_names_initial(f, ext);
    lemma_names_initial(g, ext);
}

/// Every accepted extension of every format, in any ASCII case, is looked
/// up as that format.
pub proof fn lemma_extension_round_trip(f: RasterFormat, i: int, ext: Seq<char>)
    requires
        0 <= i < extensions_of(f).len(),
        eq_ignore_case(extensions_of(f)[i], ext),
    ensures
        format_for_extension(ext) == Some(f),
{
    assert(names_format(f, ext));
    if names_format(RasterFormat::Png, ext) {
        lemma_extension_lists_disjoint(f, RasterFormat::Png, ext);
    }
    if names_format(RasterFormat::Jpeg, ext) {
        lemma_extension_lists_disjoint(f, RasterFormat::Jpeg, ext);
    }
    if names_format(RasterFormat::Webp, ext) {
        lemma_extension_lists_disjoint(f, RasterFormat::Webp, ext);
    }
    if names_format(RasterFormat::Bmp, ext) {
        lemma_extension_lists_disjoint(f, RasterFormat::Bmp, ext);
    }
}

/// Lookup by extension ignores ASCII case.
pub proof fn lemma_from_extension_ignores_case(a: Seq<char>, b: Seq<char>)
    requires
        eq_ignore_case(a, b),
    ensures
        format_for_extension(a) == format_for_extension(b),
{
    assert forall|f: RasterFormat| names_format(f, a) == names_format(f, b) by {
        if names_format(f, a) {
            let i = choose|i: int| 0 <= i < extensions_of(f).len() && eq_ignore_case(#[trigger] extensions_of(f)[i], a);
            assert(eq_ignore_case(extensions_of(f)[i], b));
        }
        if names_format(f, b) {
            let i = choose|i: int| 0 <= i < extensions_of(f).len() && eq_ignore_case(#[trigger] extensions_of(f)[i], b);
            assert(eq_ignore_case(extensions_of(f)[i], a));
        }
    }
}

/// The webview keys formats by id: distinct formats have distinct ids.
pub proof fn lemma_ids_distinct(a: RasterFormat, b: RasterFormat)
    requires
        a != b,
    ensures
        id_of(a) != id_of(b),
{
    assert(id_of(a)[0] != id_of(b)[0]);
}

/// A format found by extension is one whose accepted extensions include it.
pub proof fn lemma_from_extension_sound(ext: Seq<char>)
    ensures
        format_for_extension(ext) matches Some(f) ==> names_format(f, ext),
        format_for_extension(ext) is None ==> forall|f: RasterFormat| !names_format(f, ext),
{
}


/// `all` lists every format exactly once.
pub proof fn lemma_all_lists_each_format_once(f: RasterFormat)
    ensures
        all_formats().contains(f),
        forall|i: int, j: int|
            0 <= i < j < all_formats().len() ==> all_formats()[i] != all_formats()[j],
{
    match f {
        RasterFormat::Png => assert(all_formats()[0] == f),
        RasterFormat::Jpeg => assert(all_formats()[1] == f),
        RasterFormat::Webp => assert(all_formats()[2] == f),
        RasterFormat::Bmp => assert(all_formats()[3] == f),
        RasterFormat::Tiff => assert(all_formats()[4] == f),
    }
}

} // verus!
