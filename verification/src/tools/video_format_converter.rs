//! Video Format Converter: `{stem}_converted.{ext}` next to the source,
//! with a fixed codec recipe per target container.

use vstd::prelude::*;
pub use crate::tools::steps::SkippedFile;
use crate::paths::with_file_name_chars;
use crate::paths::{lemma_rename_differs, lemma_stem_rename_differs, stem_or, with_file_name_of};
use crate::text::{chars_of, owned, push_str, str_views, string_of, views};
use crate::tools::audio_extractor::{stem_or_output, stem_or_output_chars};

verus! {

/// Target container + codec recipe.
#[derive(Clone, Copy, Debug, PartialEq, Eq, Structural)]
pub enum TargetFormat {
    /// MP4: H.264 video + AAC audio.
    Mp4,
    /// WebM: VP9 video + Opus audio.
    Webm,
    /// Matroska: stream copy, no re-encode.
    Mkv,
}

pub open spec fn extension_of(t: TargetFormat) -> Seq<char> {
    match t {
        TargetFormat::Mp4 => "mp4"@,
        TargetFormat::Webm => "webm"@,
        TargetFormat::Mkv => "mkv"@,
    }
}

pub open spec fn codec_args_of(t: TargetFormat) -> Seq<Seq<char>> {
    match t {
        TargetFormat::Mp4 => seq![
            "-c:v"@, "libx264"@, "-preset"@, "medium"@, "-crf"@, "23"@, "-c:a"@, "aac"@,
            "-b:a"@, "128k"@,
        ],
        TargetFormat::Webm => seq![
            "-c:v"@, "libvpx-vp9"@, "-crf"@, "32"@, "-b:v"@, "0"@, "-row-mt"@, "1"@,
            "-c:a"@, "libopus"@, "-b:a"@, "96k"@,
        ],
        TargetFormat::Mkv => seq!["-c:v"@, "copy"@, "-c:a"@, "copy"@],
    }
}

/// Output path before collision handling.
pub open spec fn converted_output_path(source: Seq<char>, t: TargetFormat) -> Seq<char> {
    with_file_name_of(source, stem_or_output(source) + "_converted."@ + extension_of(t))
}

/// User options: only the target format.
#[derive(Clone, Copy, Debug, PartialEq, Eq, Structural)]
pub struct Opts {
    pub target_format: TargetFormat,
}

/// Result of a completed batch.
#[derive(Clone, Debug, PartialEq, Eq)]
pub struct JobResult {
    pub success_count: u32,
    pub skip_count: u32,
    pub skipped: Vec<SkippedFile>,
    pub first_output_path: Option<String>,
    pub duration_ms: u64,
}

impl TargetFormat {
    /// Output file extension (no dot).
    pub fn extension(self) -> (r: &'static str)
        ensures
            r@ == extension_of(self),
    {
        match self {
            TargetFormat::Mp4 => "mp4",
            TargetFormat::Webm => "webm",
            TargetFormat::Mkv => "mkv",
        }
    }

    /// Codec and quality arguments placed between the input and the output.
    pub fn codec_args(self) -> (r: &'static [&'static str])
        ensures
            str_views(r@) == codec_args_of(self),
    {
        match self {
            TargetFormat::Mp4 => {
                let r: &'static [&'static str] = &[
                    "-c:v", "libx264", "-preset", "medium", "-crf", "23", "-c:a", "aac", "-b:a",
                    "128k",
                ];
                assert(str_views(r@) =~= codec_args_of(self));
                r
            },
            TargetFormat::Webm => {
                let r: &'static [&'static str] = &[
                    "-c:v", "libvpx-vp9", "-crf", "32", "-b:v", "0", "-row-mt", "1", "-c:a",
                    "libopus", "-b:a", "96k",
                ];
                assert(str_views(r@) =~= codec_args_of(self));
                r
            },
            TargetFormat::Mkv => {
                let r: &'static [&'static str] = &["-c:v", "copy", "-c:a", "copy"];
                assert(str_views(r@) =~= codec_args_of(self));
                r
            },
        }
    }
}

/// `{stem}_converted.{ext}` next to `source` (the suffix keeps the output
/// distinct from the input even for a same-format conversion).
pub fn derive_output_path(source: &str, target: TargetFormat) -> (r: String)
    ensures
        r@ == converted_output_path(source@, target),
{
    let v = chars_of(source);
    let mut name = stem_or_output_chars(&v);
    push_str(&mut name, "_converted.");
    push_str(&mut name, target.extension());
    string_of(with_file_name_chars(&v, &name))
}

/// `-y -i <source> <codec args...> <output>`.
pub fn build_args(source: &str, output: &str, target: TargetFormat) -> (r: Vec<String>)
    ensures
        views(r@) == seq!["-y"@, "-i"@, source@] + codec_args_of(target) + seq![output@],
{
    let mut r: Vec<String> = Vec::new();
    r.push(owned("-y"));
    r.push(owned("-i"));
    r.push(owned(source));
    let codec = target.codec_args();
    let mut i: usize = 0;
    while i < codec.len()
        invariant
            i <= codec@.len(),
            str_views(codec@) == codec_args_of(target),
            views(r@) == seq!["-y"@, "-i"@, source@] + codec_args_of(target).take(i as int),
        decreases codec.len() - i,
    {
        let ghost before = r@;
        assert(str_views(codec@)[i as int] == codec@[i as int]@);
        r.push(owned(codec[i]));
        assert(r@ == before.push(r@.last()));
        assert(views(r@) =~= views(before).push(codec@[i as int]@));
        assert(codec_args_of(target).take(i + 1) =~= codec_args_of(target).take(i as int).push(codec@[i as int]@));
        assert(views(r@) =~= seq!["-y"@, "-i"@, source@] + codec_args_of(target).take(i + 1));
        i += 1;
    }
    assert(codec_args_of(target).take(codec@.len() as int) =~= codec_args_of(target));
    r.push(owned(output));
    assert(views(r@) =~= seq!["-y"@, "-i"@, source@] + codec_args_of(target) + seq![output@]);
    r
}

/// The converted file never lands on its source, even for a same-format
/// conversion and before collision handling: the `_converted` suffix
/// changes the file name.
pub proof fn lemma_output_differs_from_source(source: Seq<char>, target: TargetFormat)
    ensures
        converted_output_path(source, target) != source,
{
    reveal_strlit("_converted.");
    reveal_strlit("output");
    reveal_strlit("mp4");
    reveal_strlit("webm");
    reveal_strlit("mkv");
    let w = "_converted."@ + extension_of(target);
    assert(!w.contains('/'));
    assert(!"output"@.contains('/'));
    assert(stem_or_output(source) == stem_or(source, "output"@));
    lemma_stem_rename_differs(source, "output"@, w);
    assert(stem_or_output(source) + "_converted."@ + extension_of(target) =~= stem_or(
        source,
        "output"@,
    ) + w);
    lemma_rename_differs(source, stem_or(source, "output"@) + w);
}

/// In every conversion recipe each `-c:v` is followed by the target's
/// video encoder and each `-c:a` by its audio encoder, and both flags
/// occur: MP4 encodes with `libx264` and `aac`, WebM with `libvpx-vp9` and
/// `libopus`, MKV copies both streams (`copy`).
pub proof fn lemma_recipe_names_encoders(t: TargetFormat)
    ensures
        ({
            let a = codec_args_of(t);
            let (video, audio) = match t {
                TargetFormat::Mp4 => ("libx264"@, "aac"@),
                TargetFormat::Webm => ("libvpx-vp9"@, "libopus"@),
                TargetFormat::Mkv => ("copy"@, "copy"@),
            };
            &&& exists|i: int| 0 <= i < a.len() && #[trigger] a[i] == "-c:v"@
            &&& exists|i: int| 0 <= i < a.len() && #[trigger] a[i] == "-c:a"@
            &&& forall|i: int| 0 <= i < a.len() && #[trigger] a[i] == "-c:v"@ ==> i + 1 < a.len() && a[i + 1] == video
            &&& forall|i: int| 0 <= i < a.len() && #[trigger] a[i] == "-c:a"@ ==> i + 1 < a.len() && a[i + 1] == audio
        }),
{
    reveal_strlit("-c:v");
    reveal_strlit("libx264");
    reveal_strlit("-preset");
    reveal_strlit("medium");
    reveal_strlit("-crf");
    reveal_strlit("23");
    reveal_strlit("-c:a");
    reveal_strlit("aac");
    reveal_strlit("-b:a");
    reveal_strlit("128k");
    reveal_strlit("libvpx-vp9");
    reveal_strlit("32");
    reveal_strlit("-b:v");
    reveal_strlit("0");
    reveal_strlit("-row-mt");
    reveal_strlit("1");
    reveal_strlit("libopus");
    reveal_strlit("96k");
    reveal_strlit("copy");
    let a = codec_args_of(t);
    assert(a[0] == "-c:v"@);
    let ca: int = match t {
        TargetFormat::Mp4 => 6,
        TargetFormat::Webm => 8,
        TargetFormat::Mkv => 2,
    };
    assert(a[ca] == "-c:a"@);
    assert forall|i: int| 0 <= i < a.len() && #[trigger] a[i] == "-c:v"@ implies i == 0 by {
        let w = a[i];
        assert(w.len() != 4 || w[1] != 'c' || w[3] != 'v' || i == 0);
    }
    assert forall|i: int| 0 <= i < a.len() && #[trigger] a[i] == "-c:a"@ implies i == ca by {
        let w = a[i];
        assert(w.len() != 4 || w[1] != 'c' || w[3] != 'a' || i == ca);
    }
}

} // verus!
