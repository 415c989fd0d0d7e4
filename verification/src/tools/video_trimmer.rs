//! Video Trimmer: a frame-accurate, codec-matched re-encode of
//! `[start_ms, end_ms]`, written to `{stem}_trimmed.{ext}` next to the
//! source; plus the recipe of the throwaway preview proxy.

use vstd::prelude::*;
use crate::error::AppError;
use crate::ffmpeg::{opt_view, AudioStreamParams, VideoStreamParams};
use crate::paths::{lemma_rename_differs, lemma_suffixed_differs, sibling_chars, sibling_of, suffixed_name, suffixed_name_chars};
use crate::text::{chars_of, dec_chars, dec_string, dec_value, lemma_dec_string_len, lemma_dec_value_of_dec_string, lemma_zero_pad_value, owned, push_all, push_str, str_eq, str_views, string_of, views, zero_pad, zero_pad_chars};

verus! {

/// User trim options, in milliseconds from the start of the source.
#[derive(Clone, Copy, Debug, PartialEq, Eq, Structural)]
pub struct Opts {
    pub start_ms: u64,
    pub end_ms: u64,
}

/// Result of a completed trim.
#[derive(Clone, Debug, PartialEq, Eq)]
pub struct JobResult {
    /// Where the clip was written (after collision handling).
    pub output: String,
    pub duration_ms: u64,
}

/// `{stem}_trimmed.{ext}` next to the source, before collision handling.
pub open spec fn trimmed_output_path(source: Seq<char>) -> Seq<char> {
    sibling_of(source, suffixed_name(source, "_trimmed"@))
}

/// `S.mmm`: whole seconds, a dot, and three digits of milliseconds.
pub open spec fn secs_text(ms: u64) -> Seq<char> {
    dec_string((ms / 1000) as nat) + "."@ + zero_pad(dec_string((ms % 1000) as nat), 3)
}

/// Encoder and quality flags mirroring a source video codec.
pub open spec fn video_encoder_flags_of(codec: Seq<char>) -> Seq<Seq<char>> {
    if codec == "hevc"@ {
        seq!["-c:v"@, "libx265"@, "-crf"@, "20"@, "-preset"@, "medium"@]
    } else if codec == "vp9"@ {
        seq!["-c:v"@, "libvpx-vp9"@, "-crf"@, "28"@, "-b:v"@, "0"@, "-row-mt"@, "1"@]
    } else if codec == "av1"@ {
        seq!["-c:v"@, "libaom-av1"@, "-crf"@, "30"@, "-cpu-used"@, "6"@, "-row-mt"@, "1"@]
    } else if codec == "vp8"@ {
        seq!["-c:v"@, "libvpx"@, "-crf"@, "10"@, "-b:v"@, "1M"@]
    } else {
        seq!["-c:v"@, "libx264"@, "-crf"@, "18"@, "-preset"@, "medium"@]
    }
}

/// Encoder and quality flags mirroring a source audio codec.
pub open spec fn audio_encoder_flags_of(codec: Seq<char>) -> Seq<Seq<char>> {
    if codec == "opus"@ {
        seq!["-c:a"@, "libopus"@, "-b:a"@, "128k"@]
    } else if codec == "mp3"@ {
        seq!["-c:a"@, "libmp3lame"@, "-q:a"@, "2"@]
    } else if codec == "flac"@ {
        seq!["-c:a"@, "flac"@]
    } else if codec == "vorbis"@ {
        seq!["-c:a"@, "libvorbis"@, "-q:a"@, "5"@]
    } else if codec == "ac3"@ {
        seq!["-c:a"@, "ac3"@, "-b:a"@, "192k"@]
    } else {
        seq!["-c:a"@, "aac"@, "-b:a"@, "192k"@]
    }
}

/// The whole re-encode command line: output seek (`-ss` after `-i`), the
/// first video stream, audio only when the source has some, the source's
/// pixel format (or `yuv420p`), and rebased timestamps.
pub open spec fn reencode_args_of(
    source: Seq<char>,
    output: Seq<char>,
    start_ms: u64,
    trim_ms: u64,
    video_codec: Seq<char>,
    pix_fmt: Option<Seq<char>>,
    audio_codec: Option<Seq<char>>,
) -> Seq<Seq<char>> {
    let head = seq![
        "-y"@, "-i"@, source, "-ss"@, secs_text(start_ms), "-t"@, secs_text(trim_ms),
        "-map"@, "0:v:0"@,
    ];
    let amap = match audio_codec {
        Some(_) => seq!["-map"@, "0:a?"@],
        None => Seq::<Seq<char>>::empty(),
    };
    let pix = match pix_fmt {
        Some(p) => p,
        None => "yuv420p"@,
    };
    let aflags = match audio_codec {
        Some(c) => audio_encoder_flags_of(c),
        None => Seq::<Seq<char>>::empty(),
    };
    head + amap + video_encoder_flags_of(video_codec) + seq!["-pix_fmt"@, pix] + aflags
        + seq!["-avoid_negative_ts"@, "make_zero"@, output]
}

/// The preview-proxy command line (fast, small, web-playable mp4).
pub open spec fn proxy_args_of(source: Seq<char>, dest: Seq<char>) -> Seq<Seq<char>> {
    seq![
        "-y"@, "-i"@, source, "-vf"@, "scale=min(1280\\,iw):-2"@, "-pix_fmt"@, "yuv420p"@,
        "-c:v"@, "libx264"@, "-preset"@, "ultrafast"@, "-crf"@, "28"@, "-c:a"@, "aac"@,
        "-b:a"@, "128k"@, "-movflags"@, "+faststart"@, dest,
    ]
}

/// End of the trim window: `end_ms` clamped to the source duration.
pub open spec fn clamped_end(opts: Opts, duration_ms: u64) -> u64 {
    if opts.end_ms < duration_ms {
        opts.end_ms
    } else {
        duration_ms
    }
}

/// Text of the error for an empty window.
pub open spec fn invalid_range_detail(start: u64, end: u64, duration_ms: u64) -> Seq<char> {
    "video trim: invalid range (start_ms="@ + dec_string(start as nat) + " >= end_ms="@
        + dec_string(end as nat) + ", source duration "@ + dec_string(duration_ms as nat)
        + " ms)"@
}

/// `{stem}_trimmed.{ext}` next to `source`, before collision handling; a
/// source without an extension gets a bare `{stem}_trimmed`.
pub fn derive_output_path(source: &str) -> (r: String)
    ensures
        r@ == trimmed_output_path(source@),
{
    let v = chars_of(source);
    let name = suffixed_name_chars(&v, "_trimmed");
    string_of(sibling_chars(&v, &name))
}

/// A millisecond count as `S.mmm` seconds (`90250` → `90.250`).
pub fn fmt_secs(ms: u64) -> (r: String)
    ensures
        r@ == secs_text(ms),
{
    let mut out = dec_chars(ms / 1000);
    out.push('.');
    let frac = dec_chars(ms % 1000);
    let padded = zero_pad_chars(&frac, 3);
    push_all(&mut out, &padded);
    proof {
        reveal_strlit(".");
    }
    assert(out@ =~= secs_text(ms));
    string_of(out)
}

/// Video encoder flags for a source codec; anything unlisted gets libx264.
pub fn select_video_encoder_flags(codec: &str) -> (r: &'static [&'static str])
    ensures
        str_views(r@) == video_encoder_flags_of(codec@),
{
    if str_eq(codec, "hevc") {
        let r: &'static [&'static str] = &["-c:v", "libx265", "-crf", "20", "-preset", "medium"];
        assert(str_views(r@) =~= video_encoder_flags_of(codec@));
        r
    } else if str_eq(codec, "vp9") {
        let r: &'static [&'static str] = &[
            "-c:v", "libvpx-vp9", "-crf", "28", "-b:v", "0", "-row-mt", "1",
        ];
        assert(str_views(r@) =~= video_encoder_flags_of(codec@));
        r
    } else if str_eq(codec, "av1") {
        let r: &'static [&'static str] = &[
            "-c:v", "libaom-av1", "-crf", "30", "-cpu-used", "6", "-row-mt", "1",
        ];
        assert(str_views(r@) =~= video_encoder_flags_of(codec@));
        r
    } else if str_eq(codec, "vp8") {
        let r: &'static [&'static str] = &["-c:v", "libvpx", "-crf", "10", "-b:v", "1M"];
        assert(str_views(r@) =~= video_encoder_flags_of(codec@));
        r
    } else {
        let r: &'static [&'static str] = &["-c:v", "libx264", "-crf", "18", "-preset", "medium"];
        assert(str_views(r@) =~= video_encoder_flags_of(codec@));
        r
    }
}

/// Audio encoder flags for a source codec; anything unlisted gets AAC.
pub fn select_audio_encoder_flags(codec: &str) -> (r: &'static [&'static str])
    ensures
        str_views(r@) == audio_encoder_flags_of(codec@),
{
    if str_eq(codec, "opus") {
        let r: &'static [&'static str] = &["-c:a", "libopus", "-b:a", "128k"];
        assert(str_views(r@) =~= audio_encoder_flags_of(codec@));
        r
    } else if str_eq(codec, "mp3") {
        let r: &'static [&'static str] = &["-c:a", "libmp3lame", "-q:a", "2"];
        assert(str_views(r@) =~= audio_encoder_flags_of(codec@));
        r
    } else if str_eq(codec, "flac") {
        let r: &'static [&'static str] = &["-c:a", "flac"];
        assert(str_views(r@) =~= audio_encoder_flags_of(codec@));
        r
    } else if str_eq(codec, "vorbis") {
        let r: &'static [&'static str] = &["-c:a", "libvorbis", "-q:a", "5"];
        assert(str_views(r@) =~= audio_encoder_flags_of(codec@));
        r
    } else if str_eq(codec, "ac3") {
        let r: &'static [&'static str] = &["-c:a", "ac3", "-b:a", "192k"];
        assert(str_views(r@) =~= audio_encoder_flags_of(codec@));
        r
    } else {
        let r: &'static [&'static str] = &["-c:a", "aac", "-b:a", "192k"];
        assert(str_views(r@) =~= audio_encoder_flags_of(codec@));
        r
    }
}

/// Append every flag of `flags` to `args`.
fn push_flags(args: &mut Vec<String>, flags: &[&str])
    ensures
        views(final(args)@) == views(old(args)@) + str_views(flags@),
{
    let mut i: usize = 0;
    while i < flags.len()
        invariant
            i <= flags@.len(),
            views(args@) == views(old(args)@) + str_views(flags@).take(i as int),
        decreases flags.len() - i,
    {
        let ghost before = args@;
        args.push(owned(flags[i]));
        assert(views(args@) =~= views(before).push(flags@[i as int]@));
        assert(str_views(flags@).take(i + 1) =~= str_views(flags@).take(i as int).push(
            flags@[i as int]@,
        ));
        i += 1;
    }
    assert(str_views(flags@).take(flags@.len() as int) =~= str_views(flags@));
}

/// Push one owned copy of `s`.
fn push_arg(args: &mut Vec<String>, s: &str)
    ensures
        views(final(args)@) == views(old(args)@).push(s@),
{
    args.push(owned(s));
    assert(views(args@) =~= views(old(args)@).push(s@));
}

/// Push an already-built argument.
fn push_owned(args: &mut Vec<String>, s: String)
    ensures
        views(final(args)@) == views(old(args)@).push(s@),
{
    let ghost v = s@;
    args.push(s);
    assert(views(args@) =~= views(old(args)@).push(v));
}

/// The ffmpeg arguments of a frame-accurate, codec-matched re-encode of
/// `trim_ms` milliseconds starting at `start_ms`.
pub fn build_reencode_args(
    source: &str,
    output: &str,
    start_ms: u64,
    trim_ms: u64,
    video: &VideoStreamParams,
    audio: Option<&AudioStreamParams>,
) -> (r: Vec<String>)
    ensures
        views(r@) == reencode_args_of(
            source@,
            output@,
            start_ms,
            trim_ms,
            video.codec@,
            opt_view(video.pix_fmt),
            match audio {
                Some(a) => Some(a.codec@),
                None => None,
            },
        ),
{
    let mut args: Vec<String> = Vec::new();
    push_arg(&mut args, "-y");
    push_arg(&mut args, "-i");
    push_arg(&mut args, source);
    push_arg(&mut args, "-ss");
    push_owned(&mut args, fmt_secs(start_ms));
    push_arg(&mut args, "-t");
    push_owned(&mut args, fmt_secs(trim_ms));
    push_arg(&mut args, "-map");
    push_arg(&mut args, "0:v:0");
    let ghost head = views(args@);
    match audio {
        Some(_) => {
            push_arg(&mut args, "-map");
            push_arg(&mut args, "0:a?");
        },
        None => {},
    }
    let ghost with_map = views(args@);
    push_flags(&mut args, select_video_encoder_flags(video.codec.as_str()));
    push_arg(&mut args, "-pix_fmt");
    match &video.pix_fmt {
        Some(p) => push_arg(&mut args, p.as_str()),
        None => push_arg(&mut args, "yuv420p"),
    }
    let ghost with_pix = views(args@);
    match audio {
        Some(a) => push_flags(&mut args, select_audio_encoder_flags(a.codec.as_str())),
        None => {},
    }
    let ghost with_aflags = views(args@);
    push_arg(&mut args, "-avoid_negative_ts");
    push_arg(&mut args, "make_zero");
    push_arg(&mut args, output);
    proof {
        let pix = match opt_view(video.pix_fmt) {
            Some(p) => p,
            None => "yuv420p"@,
        };
        let acodec = match audio {
            Some(a) => Some(a.codec@),
            None => None,
        };
        let amap = match acodec {
            Some(_) => seq!["-map"@, "0:a?"@],
            None => Seq::<Seq<char>>::empty(),
        };
        let aflags = match acodec {
            Some(c) => audio_encoder_flags_of(c),
            None => Seq::<Seq<char>>::empty(),
        };
        assert(head =~= seq![
            "-y"@, "-i"@, source@, "-ss"@, secs_text(start_ms), "-t"@, secs_text(trim_ms),
            "-map"@, "0:v:0"@,
        ]);
        assert(with_map =~= head + amap);
        assert(with_pix =~= head + amap + video_encoder_flags_of(video.codec@) + seq![
            "-pix_fmt"@,
            pix,
        ]);
        assert(with_aflags =~= with_pix + aflags);
    }
    args
}

/// The ffmpeg arguments of the preview proxy written to `dest`.
pub fn build_proxy_args(source: &str, dest: &str) -> (r: Vec<String>)
    ensures
        views(r@) == proxy_args_of(source@, dest@),
{
    let mut args: Vec<String> = Vec::new();
    push_arg(&mut args, "-y");
    push_arg(&mut args, "-i");
    push_arg(&mut args, source);
    let recipe: &[&str] = &[
        "-vf", "scale=min(1280\\,iw):-2", "-pix_fmt", "yuv420p", "-c:v", "libx264", "-preset",
        "ultrafast", "-crf", "28", "-c:a", "aac", "-b:a", "128k", "-movflags", "+faststart",
    ];
    push_flags(&mut args, recipe);
    push_arg(&mut args, dest);
    assert(views(args@) =~= proxy_args_of(source@, dest@));
    args
}

/// Decide the trim window from the options and the probed duration:
/// `end_ms` is clamped to the duration, and an empty window is refused.
/// On success returns the window's length in milliseconds.
pub fn trim_window(opts: &Opts, duration_ms: u64) -> (r: Result<u64, AppError>)
    ensures
        opts.start_ms < clamped_end(*opts, duration_ms) ==> r == Ok::<u64, AppError>(
            (clamped_end(*opts, duration_ms) - opts.start_ms) as u64,
        ),
        opts.start_ms >= clamped_end(*opts, duration_ms) ==> (r matches Err(
            AppError::ProcessingFailed { detail },
        ) && detail@ == invalid_range_detail(
            opts.start_ms,
            clamped_end(*opts, duration_ms),
            duration_ms,
        )),
{
    let end = if opts.end_ms < duration_ms {
        opts.end_ms
    } else {
        duration_ms
    };
    if opts.start_ms >= end {
        let mut d = chars_of("video trim: invalid range (start_ms=");
        push_all(&mut d, &dec_chars(opts.start_ms));
        push_str(&mut d, " >= end_ms=");
        push_all(&mut d, &dec_chars(end));
        push_str(&mut d, ", source duration ");
        push_all(&mut d, &dec_chars(duration_ms));
        push_str(&mut d, " ms)");
        assert(d@ =~= invalid_range_detail(opts.start_ms, end, duration_ms));
        return Err(AppError::ProcessingFailed { detail: string_of(d) });
    }
    Ok(end - opts.start_ms)
}

/// The trimmed clip never lands on its source, even before collision
/// handling: the `_trimmed` suffix changes the file name.
pub proof fn lemma_output_differs_from_source(source: Seq<char>)
    ensures
        trimmed_output_path(source) != source,
{
    reveal_strlit("_trimmed");
    lemma_suffixed_differs(source, "_trimmed"@);
    lemma_rename_differs(source, suffixed_name(source, "_trimmed"@));
}


/// Layout of the re-encode command line: `-y -i {source}`, then the seek
/// and length (`-ss` after `-i`), then the first video stream mapped; the
/// audio map `-map 0:a?` right after it exactly when the source has audio;
/// then the video encoder flags, `-pix_fmt` with the source's pixel format
/// (or `yuv420p`), the audio encoder flags (starting with `-c:a`) exactly
/// when there is audio, and last `-avoid_negative_ts make_zero {output}`.
pub proof fn lemma_reencode_args_layout(
    source: Seq<char>,
    output: Seq<char>,
    start_ms: u64,
    trim_ms: u64,
    video_codec: Seq<char>,
    pix_fmt: Option<Seq<char>>,
    audio_codec: Option<Seq<char>>,
)
    ensures
        ({
            let r = reencode_args_of(source, output, start_ms, trim_ms, video_codec, pix_fmt, audio_codec);
            let na: int = if audio_codec is Some { 2 } else { 0 };
            let v = video_encoder_flags_of(video_codec);
            let a = match audio_codec {
                Some(c) => audio_encoder_flags_of(c),
                None => Seq::<Seq<char>>::empty(),
            };
            let p = 9 + na + v.len();
            &&& r.len() == p + 2 + a.len() + 3
            &&& r.take(9) == seq![
                "-y"@, "-i"@, source, "-ss"@, secs_text(start_ms), "-t"@, secs_text(trim_ms),
                "-map"@, "0:v:0"@,
            ]
            &&& (audio_codec is Some ==> r[9] == "-map"@ && r[10] == "0:a?"@)
            &&& r.subrange(9 + na, p) == v
            &&& v[0] == "-c:v"@
            &&& r[p] == "-pix_fmt"@
            &&& r[p + 1] == (match pix_fmt {
                Some(f) => f,
                None => "yuv420p"@,
            })
            &&& r.subrange(p + 2, p + 2 + a.len()) == a
            &&& (audio_codec is Some <==> a.len() > 0)
            &&& (audio_codec is Some ==> a[0] == "-c:a"@)
            &&& r.skip(r.len() - 3) == seq!["-avoid_negative_ts"@, "make_zero"@, output]
        }),
{
    let r = reencode_args_of(source, output, start_ms, trim_ms, video_codec, pix_fmt, audio_codec);
    let head = seq![
        "-y"@, "-i"@, source, "-ss"@, secs_text(start_ms), "-t"@, secs_text(trim_ms),
        "-map"@, "0:v:0"@,
    ];
    let amap = match audio_codec {
        Some(_) => seq!["-map"@, "0:a?"@],
        None => Seq::<Seq<char>>::empty(),
    };
    let v = video_encoder_flags_of(video_codec);
    let pix = match pix_fmt {
        Some(f) => f,
        None => "yuv420p"@,
    };
    let a = match audio_codec {
        Some(c) => audio_encoder_flags_of(c),
        None => Seq::<Seq<char>>::empty(),
    };
    let tail = seq!["-avoid_negative_ts"@, "make_zero"@, output];
    assert(r == head + amap + v + seq!["-pix_fmt"@, pix] + a + tail);
    let s0: int = 9 + amap.len() as int;
    let p: int = s0 + v.len();
    assert(r.take(9) =~= head);
    assert(r.subrange(s0, p) =~= v);
    assert(r.subrange(p + 2, p + 2 + a.len()) =~= a);
    assert(r.skip(r.len() - 3) =~= tail);
}

/// No video encoder flag is `-c:a`, `0:v?` or `-map`.
proof fn lemma_video_flag_words(codec: Seq<char>, j: int)
    requires
        0 <= j < video_encoder_flags_of(codec).len(),
    ensures
        video_encoder_flags_of(codec)[j] != "-c:a"@,
        video_encoder_flags_of(codec)[j] != "0:v?"@,
        video_encoder_flags_of(codec)[j] != "-map"@,
{
    reveal_strlit("-c:v");
    reveal_strlit("libx265");
    reveal_strlit("-crf");
    reveal_strlit("20");
    reveal_strlit("-preset");
    reveal_strlit("medium");
    reveal_strlit("libvpx-vp9");
    reveal_strlit("28");
    reveal_strlit("-b:v");
    reveal_strlit("0");
    reveal_strlit("-row-mt");
    reveal_strlit("1");
    reveal_strlit("libaom-av1");
    reveal_strlit("30");
    reveal_strlit("-cpu-used");
    reveal_strlit("6");
    reveal_strlit("libvpx");
    reveal_strlit("10");
    reveal_strlit("1M");
    reveal_strlit("libx264");
    reveal_strlit("18");
    reveal_strlit("-c:a");
    reveal_strlit("0:v?");
    reveal_strlit("-map");
    reveal_strlit("hevc");
    reveal_strlit("vp9");
    reveal_strlit("av1");
    reveal_strlit("vp8");
    let w = video_encoder_flags_of(codec)[j];
    if j == 0 {
        assert(w.len() != 4 || w[0] != '-' || w[1] != 'c' || w[2] != ':' || w[3] != 'a');
        assert(w.len() != 4 || w[0] != '0' || w[2] != 'v');
        assert(w.len() != 4 || w[1] != 'm');
    } else if j == 1 {
        assert(w.len() != 4 || w[0] != '-' || w[1] != 'c' || w[2] != ':' || w[3] != 'a');
        assert(w.len() != 4 || w[0] != '0' || w[2] != 'v');
        assert(w.len() != 4 || w[1] != 'm');
    } else if j == 2 {
        assert(w.len() != 4 || w[0] != '-' || w[1] != 'c' || w[2] != ':' || w[3] != 'a');
        assert(w.len() != 4 || w[0] != '0' || w[2] != 'v');
        assert(w.len() != 4 || w[1] != 'm');
    } else if j == 3 {
        assert(w.len() != 4 || w[0] != '-' || w[1] != 'c' || w[2] != ':' || w[3] != 'a');
        assert(w.len() != 4 || w[0] != '0' || w[2] != 'v');
        assert(w.len() != 4 || w[1] != 'm');
    } else if j == 4 {
        assert(w.len() != 4 || w[0] != '-' || w[1] != 'c' || w[2] != ':' || w[3] != 'a');
        assert(w.len() != 4 || w[0] != '0' || w[2] != 'v');
        assert(w.len() != 4 || w[1] != 'm');
    } else if j == 5 {
        assert(w.len() != 4 || w[0] != '-' || w[1] != 'c' || w[2] != ':' || w[3] != 'a');
        assert(w.len() != 4 || w[0] != '0' || w[2] != 'v');
        assert(w.len() != 4 || w[1] != 'm');
    } else if j == 6 {
        assert(w.len() != 4 || w[0] != '-' || w[1] != 'c' || w[2] != ':' || w[3] != 'a');
        assert(w.len() != 4 || w[0] != '0' || w[2] != 'v');
        assert(w.len() != 4 || w[1] != 'm');
    } else if j == 7 {
        assert(w.len() != 4 || w[0] != '-' || w[1] != 'c' || w[2] != ':' || w[3] != 'a');
        assert(w.len() != 4 || w[0] != '0' || w[2] != 'v');
        assert(w.len() != 4 || w[1] != 'm');
    }
}

/// No audio encoder flag is `0:v?` or `-map`; the first is `-c:a`.
proof fn lemma_audio_flag_words(codec: Seq<char>, j: int)
    requires
        0 <= j < audio_encoder_flags_of(codec).len(),
    ensures
        audio_encoder_flags_of(codec)[j] != "0:v?"@,
        audio_encoder_flags_of(codec)[j] != "-map"@,
        audio_encoder_flags_of(codec)[0] == "-c:a"@,
{
    reveal_strlit("-c:a");
    reveal_strlit("libopus");
    reveal_strlit("-b:a");
    reveal_strlit("128k");
    reveal_strlit("libmp3lame");
    reveal_strlit("-q:a");
    reveal_strlit("2");
    reveal_strlit("flac");
    reveal_strlit("libvorbis");
    reveal_strlit("5");
    reveal_strlit("ac3");
    reveal_strlit("192k");
    reveal_strlit("aac");
    reveal_strlit("0:v?");
    reveal_strlit("-map");
    reveal_strlit("opus");
    reveal_strlit("mp3");
    reveal_strlit("vorbis");
    let w = audio_encoder_flags_of(codec)[j];
    if j == 0 {
        assert(w.len() != 4 || w[0] != '0' || w[2] != 'v');
        assert(w.len() != 4 || w[1] != 'm');
    } else if j == 1 {
        assert(w.len() != 4 || w[0] != '0' || w[2] != 'v');
        assert(w.len() != 4 || w[1] != 'm');
    } else if j == 2 {
        assert(w.len() != 4 || w[0] != '0' || w[2] != 'v');
        assert(w.len() != 4 || w[1] != 'm');
    } else if j == 3 {
        assert(w.len() != 4 || w[0] != '0' || w[2] != 'v');
        assert(w.len() != 4 || w[1] != 'm');
    }
}

/// No fixed word of the re-encode command line is `-c:a` but the audio
/// encoder flags (so without audio `-c:a` can only be the source, the pixel
/// format or the output path as given), and no `-map` is ever followed by
/// `0:v?`: the video map is always `0:v:0`.
pub proof fn lemma_reencode_args_membership(
    source: Seq<char>,
    output: Seq<char>,
    start_ms: u64,
    trim_ms: u64,
    video_codec: Seq<char>,
    pix_fmt: Option<Seq<char>>,
    audio_codec: Option<Seq<char>>,
)
    ensures
        ({
            let r = reencode_args_of(source, output, start_ms, trim_ms, video_codec, pix_fmt, audio_codec);
            let p = 9 + video_encoder_flags_of(video_codec).len();
            &&& audio_codec is None ==> forall|k: int|
                0 <= k < r.len() && r[k] == "-c:a"@ ==> k == 2 || k == p + 1 || k == r.len() - 1
            &&& forall|k: int| 0 <= k < r.len() - 1 && #[trigger] r[k] == "-map"@ ==> r[k + 1] != "0:v?"@
        }),
{
    reveal_strlit("-y");
    reveal_strlit("-i");
    reveal_strlit("-ss");
    reveal_strlit("-t");
    reveal_strlit("-map");
    reveal_strlit("0:v:0");
    reveal_strlit("0:a?");
    reveal_strlit("-pix_fmt");
    reveal_strlit("yuv420p");
    reveal_strlit("-avoid_negative_ts");
    reveal_strlit("make_zero");
    reveal_strlit("-c:v");
    reveal_strlit("libx265");
    reveal_strlit("-crf");
    reveal_strlit("20");
    reveal_strlit("-preset");
    reveal_strlit("medium");
    reveal_strlit("libvpx-vp9");
    reveal_strlit("28");
    reveal_strlit("-b:v");
    reveal_strlit("0");
    reveal_strlit("-row-mt");
    reveal_strlit("1");
    reveal_strlit("libaom-av1");
    reveal_strlit("30");
    reveal_strlit("-cpu-used");
    reveal_strlit("6");
    reveal_strlit("libvpx");
    reveal_strlit("10");
    reveal_strlit("1M");
    reveal_strlit("libx264");
    reveal_strlit("18");
    reveal_strlit("-c:a");
    reveal_strlit("libopus");
    reveal_strlit("-b:a");
    reveal_strlit("128k");
    reveal_strlit("libmp3lame");
    reveal_strlit("-q:a");
    reveal_strlit("2");
    reveal_strlit("flac");
    reveal_strlit("libvorbis");
    reveal_strlit("5");
    reveal_strlit("ac3");
    reveal_strlit("192k");
    reveal_strlit("aac");
    reveal_strlit("0:v?");
    lemma_reencode_args_layout(source, output, start_ms, trim_ms, video_codec, pix_fmt, audio_codec);
    lemma_secs_text_reads_back(start_ms);
    lemma_secs_text_reads_back(trim_ms);
    crate::text::lemma_dec_string_len((start_ms / 1000) as nat);
    crate::text::lemma_dec_string_len((trim_ms / 1000) as nat);
    let r = reencode_args_of(source, output, start_ms, trim_ms, video_codec, pix_fmt, audio_codec);
    let na: int = if audio_codec is Some { 2 } else { 0 };
    let v = video_encoder_flags_of(video_codec);
    let a = match audio_codec {
        Some(c) => audio_encoder_flags_of(c),
        None => Seq::<Seq<char>>::empty(),
    };
    let p = 9 + na + v.len();
    assert(secs_text(start_ms).len() >= 5 && secs_text(trim_ms).len() >= 5);
    assert forall|j: int| 0 <= j < v.len() implies v[j] != "-c:a"@ && v[j] != "0:v?"@ && v[j] != "-map"@ by {
        lemma_video_flag_words(video_codec, j);
    }
    assert forall|j: int| 0 <= j < a.len() implies a[j] != "0:v?"@ && a[j] != "-map"@ by {
        lemma_audio_flag_words(audio_codec->0, j);
    }
    let h = r.take(9);
    assert(h[0] == "-y"@ && h[1] == "-i"@ && h[2] == source && h[3] == "-ss"@ && h[4] == secs_text(
        start_ms,
    ) && h[5] == "-t"@ && h[6] == secs_text(trim_ms) && h[7] == "-map"@ && h[8] == "0:v:0"@);
    let t = r.skip(r.len() - 3);
    assert(t[0] == "-avoid_negative_ts"@ && t[1] == "make_zero"@ && t[2] == output);
    assert(r[p] == "-pix_fmt"@);
    // Words that are never `-map` and never `0:v?` (by length or one character).
    assert("-y"@.len() == 2 && "-i"@.len() == 2 && "-ss"@.len() == 3 && "-t"@.len() == 2);
    assert("0:v:0"@.len() == 5 && "-pix_fmt"@.len() == 8 && "-avoid_negative_ts"@.len() == 18);
    assert("make_zero"@.len() == 9 && "-map"@.len() == 4 && "0:v?"@.len() == 4 && "-c:a"@.len() == 4);
    assert("0:a?"@[2] != "0:v?"@[2] && "0:a?"@[1] != "-map"@[1] && "-c:a"@[0] != "0:v?"@[0]);
    assert("-map"@[1] != "-c:a"@[1] && "-map"@[0] != "0:v?"@[0]);
    assert forall|k: int| 0 <= k < r.len() - 1 && #[trigger] r[k] == "-map"@ implies r[k + 1] != "0:v?"@ by {
        if k < 9 {
            assert(h[k] == r[k]);
            if k + 1 < 9 {
                assert(h[k + 1] == r[k + 1]);
            } else if na > 0 {
                assert(r[9] == "-map"@);
            } else {
                lemma_video_flag_words(video_codec, 0);
                assert(r.subrange(9 + na, p)[0] == r[9]);
            }
        } else if k < 9 + na {
            assert(r[9] == "-map"@ && r[10] == "0:a?"@);
            if k == 10 {
                lemma_video_flag_words(video_codec, 0);
                assert(r.subrange(9 + na, p)[0] == r[11]);
            }
        } else if k < p {
            assert(r.subrange(9 + na, p)[k - 9 - na] == r[k]);
            lemma_video_flag_words(video_codec, k - 9 - na);
        } else if k == p {
        } else if k == p + 1 {
            if a.len() > 0 {
                lemma_audio_flag_words(audio_codec->0, 0);
                assert(r.subrange(p + 2, p + 2 + a.len())[0] == r[p + 2]);
            } else {
                assert(t[0] == r[p + 2]);
            }
        } else if k < p + 2 + a.len() {
            assert(r.subrange(p + 2, p + 2 + a.len())[k - p - 2] == r[k]);
            lemma_audio_flag_words(audio_codec->0, k - p - 2);
        } else {
            assert(t[k - (r.len() - 3)] == r[k]);
        }
    }
    if audio_codec is None {
        assert forall|k: int| 0 <= k < r.len() && r[k] == "-c:a"@ implies k == 2 || k == p + 1 || k
            == r.len() - 1 by {
            if k < 9 {
                assert(h[k] == r[k]);
            } else if k < p {
                assert(r.subrange(9, p)[k - 9] == r[k]);
                lemma_video_flag_words(video_codec, k - 9);
            } else if k == p {
            } else if k == p + 1 {
            } else {
                assert(t[k - (r.len() - 3)] == r[k]);
            }
        }
    }
}

/// The seek text reads back as the milliseconds it was made from: the
/// whole seconds before the dot, and exactly three digits of milliseconds
/// after it.
pub proof fn lemma_secs_text_reads_back(ms: u64)
    ensures
        ({
            let t = secs_text(ms);
            let dot = dec_string((ms / 1000) as nat).len();
            &&& t.len() == dot + 4
            &&& t[dot as int] == '.'
            &&& dec_value(t.take(dot as int)) * 1000 + dec_value(t.skip(dot + 1int)) == ms
        }),
{
    reveal_strlit(".");
    let s = dec_string((ms / 1000) as nat);
    let f = dec_string((ms % 1000) as nat);
    lemma_dec_string_len((ms % 1000) as nat);
    lemma_dec_string_len(((ms % 1000) / 10) as nat);
    lemma_dec_string_len((((ms % 1000) / 10) / 10) as nat);
    assert(f.len() <= 3);
    let t = secs_text(ms);
    assert(t.take(s.len() as int) =~= s);
    assert(t.skip(s.len() + 1int) =~= zero_pad(f, 3));
    lemma_dec_value_of_dec_string((ms / 1000) as nat);
    lemma_zero_pad_value((ms % 1000) as nat, 3);
}

} // verus!
