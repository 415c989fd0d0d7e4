//! Audio Extractor: one video in, one MP3 per audio track out.
//!
//! Recipe per track: `-vn -map 0:a:<i> -c:a libmp3lame -q:a 2`. Outputs
//! are named `<stem>_audio.mp3` for a single-track source and
//! `<stem>_audio_<i+1>.mp3` for a multi-track one, next to the source.

use vstd::prelude::*;
use crate::paths::{file_stem_of, lemma_rename_differs, lemma_renamed_file_name, lemma_stem_rename_differs, stem_or, with_file_name_of, file_name_chars, stem_ext_chars, with_file_name_chars};
use crate::text::{chars_of, dec_chars, dec_string, lemma_dec_string_digits, lemma_dec_string_injective, owned, push_all, push_str, string_of, views};

verus! {

/// Stem of `source`, or `output` when it has none.
pub open spec fn stem_or_output(source: Seq<char>) -> Seq<char> {
    match file_stem_of(source) {
        Some(s) => s,
        None => "output"@,
    }
}

/// 1-based track number shown in file names (saturating).
pub open spec fn display_index(index: u32) -> nat {
    if index == u32::MAX {
        u32::MAX as nat
    } else {
        (index + 1) as nat
    }
}

/// File name of the output for track `index` of `total`.
pub open spec fn track_file_name(stem: Seq<char>, index: u32, total: u32) -> Seq<char> {
    if total <= 1 {
        stem + "_audio.mp3"@
    } else {
        stem + "_audio_"@ + dec_string(display_index(index)) + ".mp3"@
    }
}

/// Output path for track `index` of `total`, before collision handling.
pub open spec fn track_output_path(source: Seq<char>, index: u32, total: u32) -> Seq<char> {
    with_file_name_of(source, track_file_name(stem_or_output(source), index, total))
}

/// Result of a completed extraction job; `outputs` is in track order.
#[derive(Clone, Debug, PartialEq, Eq)]
pub struct JobResult {
    pub track_count: u32,
    pub outputs: Vec<String>,
    pub duration_ms: u64,
}

/// Stem of `v`, or `output`.
pub(crate) fn stem_or_output_chars(v: &[char]) -> (r: Vec<char>)
    ensures
        r@ == stem_or_output(v@),
{
    match file_name_chars(v) {
        Some(n) => {
            let (stem, _) = stem_ext_chars(&n);
            stem
        },
        None => chars_of("output"),
    }
}

/// Where track `track_index` (0-based) of a `track_total`-track source is
/// written, before collision handling.
pub fn derive_output_path(source: &str, track_index: u32, track_total: u32) -> (r: String)
    ensures
        r@ == track_output_path(source@, track_index, track_total),
{
    let v = chars_of(source);
    let mut name = stem_or_output_chars(&v);
    if track_total <= 1 {
        push_str(&mut name, "_audio.mp3");
    } else {
        let shown: u32 = track_index.saturating_add(1);
        push_str(&mut name, "_audio_");
        let digits = dec_chars(shown as u64);
        push_all(&mut name, &digits);
        push_str(&mut name, ".mp3");
    }
    string_of(with_file_name_chars(&v, &name))
}

/// The ffmpeg arguments extracting track `track_index` of `source` to
/// `output` (`-y` first so ffmpeg never prompts).
pub fn build_args(source: &str, output: &str, track_index: u32) -> (r: Vec<String>)
    ensures
        views(r@) == seq![
            "-y"@,
            "-i"@,
            source@,
            "-vn"@,
            "-map"@,
            "0:a:"@ + dec_string(track_index as nat),
            "-c:a"@,
            "libmp3lame"@,
            "-q:a"@,
            "2"@,
            output@,
        ],
{
    let mut map = chars_of("0:a:");
    let digits = dec_chars(track_index as u64);
    push_all(&mut map, &digits);
    let mut r: Vec<String> = Vec::new();
    r.push(owned("-y"));
    r.push(owned("-i"));
    r.push(owned(source));
    r.push(owned("-vn"));
    r.push(owned("-map"));
    r.push(string_of(map));
    r.push(owned("-c:a"));
    r.push(owned("libmp3lame"));
    r.push(owned("-q:a"));
    r.push(owned("2"));
    r.push(owned(output));
    assert(views(r@) =~= seq![
            "-y"@,
            "-i"@,
            source@,
            "-vn"@,
            "-map"@,
            "0:a:"@ + dec_string(track_index as nat),
            "-c:a"@,
            "libmp3lame"@,
            "-q:a"@,
            "2"@,
            output@,
        ]);
    r
}

/// A track's MP3 never lands on its source, even before collision
/// handling: the `_audio` suffix changes the file name.
pub proof fn lemma_output_differs_from_source(source: Seq<char>, index: u32, total: u32)
    ensures
        track_output_path(source, index, total) != source,
{
    reveal_strlit("_audio.mp3");
    reveal_strlit("_audio_");
    reveal_strlit(".mp3");
    reveal_strlit("output");
    let d = dec_string(display_index(index));
    lemma_dec_string_digits(display_index(index));
    let w = if total <= 1 {
        "_audio.mp3"@
    } else {
        "_audio_"@ + d + ".mp3"@
    };
    assert(!w.contains('/')) by {
        if w.contains('/') {
            let k = choose|k: int| 0 <= k < w.len() && w[k] == '/';
            if total > 1 && 7 <= k < 7 + d.len() {
                assert(w[k] == d[k - 7]);
            }
        }
    }
    assert(!"output"@.contains('/'));
    assert(stem_or_output(source) == stem_or(source, "output"@));
    lemma_stem_rename_differs(source, "output"@, w);
    assert(track_file_name(stem_or_output(source), index, total) =~= stem_or(source, "output"@) + w);
    lemma_rename_differs(source, stem_or(source, "output"@) + w);
}

/// The tracks of one multi-track source are written to distinct files.
pub proof fn lemma_track_outputs_distinct(source: Seq<char>, i: u32, j: u32, total: u32)
    requires
        total > 1,
        i < total,
        j < total,
        i != j,
    ensures
        track_output_path(source, i, total) != track_output_path(source, j, total),
{
    reveal_strlit("_audio_");
    reveal_strlit(".mp3");
    let stem = stem_or_output(source);
    let ni = track_file_name(stem, i, total);
    let nj = track_file_name(stem, j, total);
    let di = dec_string(display_index(i));
    let dj = dec_string(display_index(j));
    lemma_output_differs_from_source(source, i, total);
    lemma_output_differs_from_source(source, j, total);
    // Both names are plain, so each is the file name of its output.
    reveal_strlit("output");
    lemma_dec_string_digits(display_index(i));
    lemma_dec_string_digits(display_index(j));
    let wi = "_audio_"@ + di + ".mp3"@;
    let wj = "_audio_"@ + dj + ".mp3"@;
    assert(!wi.contains('/')) by {
        if wi.contains('/') {
            let k = choose|k: int| 0 <= k < wi.len() && wi[k] == '/';
            if 7 <= k < 7 + di.len() {
                assert(wi[k] == di[k - 7]);
            }
        }
    }
    assert(!wj.contains('/')) by {
        if wj.contains('/') {
            let k = choose|k: int| 0 <= k < wj.len() && wj[k] == '/';
            if 7 <= k < 7 + dj.len() {
                assert(wj[k] == dj[k - 7]);
            }
        }
    }
    assert(!"output"@.contains('/'));
    assert(stem == stem_or(source, "output"@));
    lemma_stem_rename_differs(source, "output"@, wi);
    lemma_stem_rename_differs(source, "output"@, wj);
    assert(ni =~= stem + wi);
    assert(nj =~= stem + wj);
    lemma_renamed_file_name(source, ni);
    lemma_renamed_file_name(source, nj);
    if ni == nj {
        let a = stem.len() + 7;
        assert(ni.subrange(a as int, ni.len() - 4) =~= di);
        assert(nj.subrange(a as int, nj.len() - 4) =~= dj);
        lemma_dec_string_injective(display_index(i), display_index(j));
    }
}

} // verus!
