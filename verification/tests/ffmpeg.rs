use multitool_core::ffmpeg::{
    parse_audio_stream_count, parse_audio_stream_line, parse_progress_line,
    parse_video_stream_line, split_top_level_commas,
};

#[test]
fn parses_out_time_us_line() {
    let p = parse_progress_line("out_time_us=12345678").expect("parse out_time_us");
    assert_eq!(p.out_time_us, 12_345_678);
}

#[test]
fn ignores_non_out_time_us_keys() {
    assert!(parse_progress_line("bitrate=128.5kbits/s").is_none());
    assert!(parse_progress_line("progress=continue").is_none());
    assert!(parse_progress_line("total_size=0").is_none());
    assert!(parse_progress_line("frame=42").is_none());
}

#[test]
fn ignores_garbage_lines() {
    assert!(parse_progress_line("").is_none());
    assert!(parse_progress_line("not a key value line").is_none());
    assert!(parse_progress_line("=12345").is_none());
    assert!(parse_progress_line("out_time_us=not_an_int").is_none());
}

#[test]
fn handles_windows_crlf_line_ending() {
    // BufReader::lines() already strips `\n`, so what reaches the parser
    // on Windows has only a trailing `\r`. Confirm we trim it.
    let p = parse_progress_line("out_time_us=42\r").expect("parse trailing \\r");
    assert_eq!(p.out_time_us, 42);
}

#[test]
fn audio_count_zero_for_video_only_banner() {
    let stderr = "Input #0, mov,mp4,m4a,3gp,3g2,mj2, from 'silent.mp4':\n  \
        Duration: 00:00:05.00, start: 0.000000, bitrate: 256 kb/s\n  \
        Stream #0:0(und): Video: h264 (High), yuv420p, 1280x720, 256 kb/s\n";
    assert_eq!(parse_audio_stream_count(stderr), 0);
}

#[test]
fn audio_count_one_for_standard_video_with_audio() {
    let stderr = "Input #0, mov,mp4,m4a,3gp,3g2,mj2, from 'clip.mp4':\n  \
        Duration: 00:00:10.00, start: 0.000000, bitrate: 1024 kb/s\n  \
        Stream #0:0(und): Video: h264 (High), yuv420p, 1280x720\n  \
        Stream #0:1(und): Audio: aac (LC), 48000 Hz, stereo, fltp, 128 kb/s\n";
    assert_eq!(parse_audio_stream_count(stderr), 1);
}

#[test]
fn audio_count_handles_multiple_audio_tracks() {
    // mkv with three audio tracks (typical: main + dub + commentary).
    let stderr = "Input #0, matroska,webm, from 'movie.mkv':\n  \
        Duration: 01:30:00.00, bitrate: 8000 kb/s\n  \
        Stream #0:0(eng): Video: h264 (High), yuv420p, 1920x1080\n  \
        Stream #0:1(eng): Audio: ac3, 48000 Hz, 5.1, fltp, 448 kb/s\n  \
        Stream #0:2(jpn): Audio: aac, 48000 Hz, stereo, fltp, 160 kb/s\n  \
        Stream #0:3(eng): Audio: aac, 48000 Hz, stereo, fltp, 96 kb/s\n  \
        Stream #0:4(eng): Subtitle: subrip\n";
    assert_eq!(parse_audio_stream_count(stderr), 3);
}

#[test]
fn audio_count_handles_hex_stream_id_in_bracket() {
    // ts/mts containers print a `[0xNNNN]` hex stream id between the
    // index and the language tag. Anchor substrings still match.
    let stderr = "Input #0, mpegts, from 'broadcast.ts':\n  \
        Duration: 00:30:00.00\n  \
        Stream #0:0[0x100]: Video: h264, yuv420p, 1920x1080\n  \
        Stream #0:1[0x101](eng): Audio: ac3, 48000 Hz, 5.1\n";
    assert_eq!(parse_audio_stream_count(stderr), 1);
}

#[test]
fn audio_count_ignores_non_stream_audio_mentions() {
    // The word "Audio" can appear in banner text outside a Stream line.
    // We anchor on BOTH `Stream #` and `: Audio:` so prose isn't counted.
    let stderr = "Input #0, mp4, from 'x.mp4':\n  \
        Metadata:\n    \
        handler_name    : SoundHandler (Audio mixed by …)\n  \
        Stream #0:0: Video: h264\n";
    assert_eq!(parse_audio_stream_count(stderr), 0);
}

#[test]
fn audio_count_handles_windows_crlf() {
    let stderr = "  Stream #0:0(und): Video: h264, yuv420p\r\n  \
         Stream #0:1(und): Audio: aac (LC), 48000 Hz, stereo\r\n";
    assert_eq!(parse_audio_stream_count(stderr), 1);
}

#[test]
fn audio_count_zero_on_empty_input() {
    assert_eq!(parse_audio_stream_count(""), 0);
}

#[test]
fn parses_video_line_h264_yuv420p() {
    let stderr = "Input #0, mov,mp4,m4a,3gp,3g2,mj2, from 'clip.mp4':\n  \
        Duration: 00:00:10.00, start: 0.000000, bitrate: 1024 kb/s\n  \
        Stream #0:0(und): Video: h264 (High), yuv420p, 1280x720, 1024 kb/s, 30 fps\n  \
        Stream #0:1(und): Audio: aac (LC), 48000 Hz, stereo, fltp, 128 kb/s\n";
    let params = parse_video_stream_line(stderr).expect("parse video");
    assert_eq!(params.codec, "h264");
    assert_eq!(params.pix_fmt.as_deref(), Some("yuv420p"));
    assert_eq!(params.width, 1280);
    assert_eq!(params.height, 720);
}

#[test]
fn parses_video_line_hevc_10bit_with_hdr_color_tags() {
    // 10-bit pixfmt + HDR color metadata in parens. The paren-aware
    // splitter must not break the pixfmt slot on the embedded comma.
    let stderr = "  Stream #0:0(eng): Video: hevc (Main 10), \
        yuv420p10le(tv, bt2020nc/bt2020/smpte2084), 3840x2160, 15000 kb/s\n";
    let params = parse_video_stream_line(stderr).expect("parse hevc 10-bit");
    assert_eq!(params.codec, "hevc");
    assert_eq!(params.pix_fmt.as_deref(), Some("yuv420p10le"));
    assert_eq!(params.width, 3840);
    assert_eq!(params.height, 2160);
}

#[test]
fn parses_video_line_vp9_no_profile() {
    let stderr = "  Stream #0:0(und): Video: vp9, yuv420p(tv, bt709), 1920x1080, 25 fps\n";
    let params = parse_video_stream_line(stderr).expect("parse vp9");
    assert_eq!(params.codec, "vp9");
    assert_eq!(params.pix_fmt.as_deref(), Some("yuv420p"));
    assert_eq!(params.width, 1920);
    assert_eq!(params.height, 1080);
}

#[test]
fn parses_video_line_av1() {
    let stderr = "  Stream #0:0: Video: av1 (Main), yuv420p, 1920x1080, 30 fps\n";
    let params = parse_video_stream_line(stderr).expect("parse av1");
    assert_eq!(params.codec, "av1");
    assert_eq!(params.pix_fmt.as_deref(), Some("yuv420p"));
}

#[test]
fn parses_video_line_handles_mpegts_hex_stream_id() {
    let stderr = "  Stream #0:0[0x100]: Video: h264, yuv420p, 1920x1080, 8000 kb/s\n";
    let params = parse_video_stream_line(stderr).expect("parse mpegts h264");
    assert_eq!(params.codec, "h264");
    assert_eq!(params.width, 1920);
    assert_eq!(params.height, 1080);
}

#[test]
fn parses_video_line_uppercase_codec_name_normalized() {
    // mxf / wmv banners can print the codec name in mixed case (e.g.
    // `MPEG2VIDEO`). The mirror table keys on lowercase ffmpeg names.
    let stderr = "  Stream #0:0: Video: MPEG2VIDEO, yuv420p, 720x576\n";
    let params = parse_video_stream_line(stderr).expect("parse mpeg2");
    assert_eq!(params.codec, "mpeg2video");
}

#[test]
fn video_line_missing_returns_none() {
    assert!(parse_video_stream_line("").is_none());
    // Audio-only file — no video stream line.
    assert!(parse_video_stream_line(
        "Input #0, mp3, from 'song.mp3':\n  \
            Duration: 00:03:00.00\n  \
            Stream #0:0: Audio: mp3, 44100 Hz, stereo\n",
    )
    .is_none());
}

#[test]
fn video_line_handles_crlf() {
    let stderr = "  Stream #0:0(und): Video: h264, yuv420p, 1280x720\r\n";
    let params = parse_video_stream_line(stderr).expect("parse with crlf");
    assert_eq!(params.codec, "h264");
}

#[test]
fn parses_audio_line_aac_stereo() {
    let stderr = "  Stream #0:0(und): Video: h264, yuv420p, 1280x720\n  \
        Stream #0:1(und): Audio: aac (LC), 48000 Hz, stereo, fltp, 128 kb/s\n";
    let params = parse_audio_stream_line(stderr).expect("parse aac");
    assert_eq!(params.codec, "aac");
    assert_eq!(params.sample_rate, Some(48_000));
    assert_eq!(params.channels.as_deref(), Some("stereo"));
}

#[test]
fn parses_audio_line_opus_without_bitrate_slot() {
    // opus / flac frequently omit the trailing `, N kb/s` slot.
    let stderr = "  Stream #0:1: Audio: opus, 48000 Hz, stereo, fltp\n";
    let params = parse_audio_stream_line(stderr).expect("parse opus");
    assert_eq!(params.codec, "opus");
    assert_eq!(params.sample_rate, Some(48_000));
    assert_eq!(params.channels.as_deref(), Some("stereo"));
}

#[test]
fn parses_audio_line_flac_lossless() {
    let stderr = "  Stream #0:1: Audio: flac, 96000 Hz, 5.1, s32 (24 bit)\n";
    let params = parse_audio_stream_line(stderr).expect("parse flac");
    assert_eq!(params.codec, "flac");
    assert_eq!(params.sample_rate, Some(96_000));
    assert_eq!(params.channels.as_deref(), Some("5.1"));
}

#[test]
fn audio_line_takes_first_track_when_multiple_present() {
    let stderr = "  Stream #0:0(eng): Video: h264, yuv420p, 1920x1080\n  \
        Stream #0:1(eng): Audio: ac3, 48000 Hz, 5.1, fltp, 448 kb/s\n  \
        Stream #0:2(jpn): Audio: aac, 48000 Hz, stereo, fltp, 160 kb/s\n";
    let params = parse_audio_stream_line(stderr).expect("parse first audio");
    assert_eq!(params.codec, "ac3");
    assert_eq!(params.channels.as_deref(), Some("5.1"));
}

#[test]
fn audio_line_absent_returns_none() {
    let stderr = "  Stream #0:0: Video: h264, yuv420p, 1280x720\n";
    assert!(parse_audio_stream_line(stderr).is_none());
}

#[test]
fn audio_line_handles_mpegts_hex_stream_id() {
    let stderr = "  Stream #0:1[0x101](eng): Audio: ac3, 48000 Hz, 5.1, fltp\n";
    let params = parse_audio_stream_line(stderr).expect("parse mpegts audio");
    assert_eq!(params.codec, "ac3");
    assert_eq!(params.channels.as_deref(), Some("5.1"));
}

#[test]
fn audio_line_handles_crlf() {
    let stderr = "  Stream #0:1(und): Audio: aac, 48000 Hz, stereo\r\n";
    let params = parse_audio_stream_line(stderr).expect("parse with crlf");
    assert_eq!(params.codec, "aac");
}

#[test]
fn split_top_level_commas_respects_paren_depth() {
    // Color tags inside the pixfmt parens must NOT cause a split.
    let fields = split_top_level_commas(
        "hevc (Main 10), yuv420p10le(tv, bt2020nc/bt2020), 3840x2160, 15000 kb/s",
    );
    assert_eq!(
        fields,
        vec![
            "hevc (Main 10)",
            "yuv420p10le(tv, bt2020nc/bt2020)",
            "3840x2160",
            "15000 kb/s",
        ]
    );
}

#[test]
fn split_top_level_commas_respects_bracket_depth() {
    // mpegts `[0xNNNN]` brackets — same rule.
    let fields = split_top_level_commas("h264 [0x100, 0x200], yuv420p, 1280x720");
    assert_eq!(fields, vec!["h264 [0x100, 0x200]", "yuv420p", "1280x720"]);
}

