use multitool_core::ffmpeg::{AudioStreamParams, VideoStreamParams};
use multitool_core::tools::video_trimmer::{
    build_proxy_args, build_reencode_args, derive_output_path, fmt_secs,
    select_audio_encoder_flags, select_video_encoder_flags, trim_window, Opts,
};
use multitool_core::AppError;
use std::path::PathBuf;

#[test]
fn fmt_secs_formats_fractional_seconds() {
    assert_eq!(fmt_secs(0), "0.000");
    assert_eq!(fmt_secs(250), "0.250");
    assert_eq!(fmt_secs(1_000), "1.000");
    assert_eq!(fmt_secs(90_250), "90.250");
}

#[test]
fn output_path_appends_trimmed_before_extension() {
    let out = derive_output_path("/videos/holiday.mp4");
    assert_eq!(PathBuf::from(out), PathBuf::from("/videos/holiday_trimmed.mp4"));
}

#[test]
fn convert_output_path_handles_multi_dot_stem() {
    let out = derive_output_path("/videos/report.final.mov");
    assert_eq!(PathBuf::from(out), PathBuf::from("/videos/report.final_trimmed.mov"));
}

#[test]
fn output_path_without_extension_falls_back_to_bare_stem() {
    let out = derive_output_path("/videos/clip");
    assert_eq!(PathBuf::from(out), PathBuf::from("/videos/clip_trimmed"));
}

fn video_params(codec: &str, pix_fmt: Option<&str>) -> VideoStreamParams {
    VideoStreamParams {
        codec: codec.to_string(),
        pix_fmt: pix_fmt.map(str::to_string),
        width: 1280,
        height: 720,
    }
}

fn audio_params(codec: &str) -> AudioStreamParams {
    AudioStreamParams {
        codec: codec.to_string(),
        sample_rate: Some(48_000),
        channels: Some("stereo".into()),
    }
}

#[test]
fn video_encoder_flags_map_known_codecs_to_same_family_encoders() {
    let h264 = select_video_encoder_flags("h264");
    assert_eq!(h264[0], "-c:v");
    assert_eq!(h264[1], "libx264");
    assert!(h264.contains(&"-crf"));

    let hevc = select_video_encoder_flags("hevc");
    assert_eq!(hevc[1], "libx265");

    let vp9 = select_video_encoder_flags("vp9");
    assert_eq!(vp9[1], "libvpx-vp9");
    assert!(vp9.contains(&"-row-mt"), "vp9 needs row-mt for parallelism");

    let av1 = select_video_encoder_flags("av1");
    assert_eq!(av1[1], "libaom-av1");

    let vp8 = select_video_encoder_flags("vp8");
    assert_eq!(vp8[1], "libvpx");
}

#[test]
fn video_encoder_flags_unknown_codec_falls_back_to_libx264() {
    for exotic in ["mpeg2video", "wmv3", "mpeg4", "prores", "dvvideo", ""] {
        let flags = select_video_encoder_flags(exotic);
        assert_eq!(flags[1], "libx264", "fallback for {exotic}");
    }
}

#[test]
fn audio_encoder_flags_map_known_codecs() {
    assert_eq!(select_audio_encoder_flags("aac")[1], "aac");
    assert_eq!(select_audio_encoder_flags("opus")[1], "libopus");
    assert_eq!(select_audio_encoder_flags("mp3")[1], "libmp3lame");
    assert_eq!(select_audio_encoder_flags("flac")[1], "flac");
    assert_eq!(select_audio_encoder_flags("vorbis")[1], "libvorbis");
    assert_eq!(select_audio_encoder_flags("ac3")[1], "ac3");
}

#[test]
fn audio_encoder_flags_unknown_codec_falls_back_to_aac() {
    for exotic in ["pcm_s16le", "wmav2", "dts", ""] {
        let flags = select_audio_encoder_flags(exotic);
        assert_eq!(flags[1], "aac", "fallback for {exotic}");
    }
}

fn joined(args: &[String]) -> Vec<&str> {
    args.iter().map(|a| a.as_str()).collect()
}

#[test]
fn reencode_args_place_ss_after_i_for_frame_accurate_seek() {
    let video = video_params("h264", Some("yuv420p"));
    let audio = audio_params("aac");
    let args = build_reencode_args("/in.mp4", "/out.mp4", 1_500, 4_000, &video, Some(&audio));
    let joined = joined(&args);
    let i_idx = joined.iter().position(|&s| s == "-i").unwrap();
    let ss_idx = joined.iter().position(|&s| s == "-ss").unwrap();
    assert!(ss_idx > i_idx, "-ss must come AFTER -i for frame-accurate output seek");
    assert_eq!(joined[ss_idx + 1], "1.500");
    let t_idx = joined.iter().position(|&s| s == "-t").unwrap();
    assert_eq!(joined[t_idx + 1], "4.000");
}

#[test]
fn reencode_args_carry_codec_specific_video_flags_from_mirror_table() {
    let video = video_params("hevc", Some("yuv420p10le"));
    let args = build_reencode_args("/in.mkv", "/out.mkv", 0, 1_000, &video, None);
    let joined = joined(&args);
    let cv_idx = joined.iter().position(|&s| s == "-c:v").unwrap();
    assert_eq!(joined[cv_idx + 1], "libx265");
    assert!(joined.contains(&"-crf"));
}

#[test]
fn reencode_args_mirror_pix_fmt_from_source() {
    let video = video_params("hevc", Some("yuv420p10le"));
    let args = build_reencode_args("/in.mkv", "/out.mkv", 0, 1_000, &video, None);
    let joined = joined(&args);
    let pix_idx = joined.iter().position(|&s| s == "-pix_fmt").unwrap();
    assert_eq!(joined[pix_idx + 1], "yuv420p10le", "10-bit source must NOT silently downgrade to yuv420p");
}

#[test]
fn reencode_args_pix_fmt_falls_back_to_yuv420p_when_probe_returned_none() {
    let video = video_params("h264", None);
    let args = build_reencode_args("/in.mp4", "/out.mp4", 0, 1_000, &video, None);
    let joined = joined(&args);
    let pix_idx = joined.iter().position(|&s| s == "-pix_fmt").unwrap();
    assert_eq!(joined[pix_idx + 1], "yuv420p");
}

#[test]
fn reencode_args_omit_audio_map_and_codec_for_silent_source() {
    let video = video_params("h264", Some("yuv420p"));
    let args = build_reencode_args("/in.mp4", "/out.mp4", 0, 1_000, &video, None);
    let joined = joined(&args);
    assert!(!joined.windows(2).any(|w| w == ["-map", "0:a?"]), "silent video must not map audio");
    assert!(!joined.contains(&"-c:a"), "silent video must not set an audio codec");
}

#[test]
fn reencode_args_carry_audio_codec_flags_for_audio_source() {
    let video = video_params("h264", Some("yuv420p"));
    let audio = audio_params("opus");
    let args = build_reencode_args("/in.mp4", "/out.mp4", 0, 1_000, &video, Some(&audio));
    let joined = joined(&args);
    let ca_idx = joined.iter().position(|&s| s == "-c:a").unwrap();
    assert_eq!(joined[ca_idx + 1], "libopus");
    assert!(joined.windows(2).any(|w| w == ["-map", "0:a?"]));
}

#[test]
fn reencode_args_map_single_video_stream_only_no_optional_marker() {
    let video = video_params("h264", Some("yuv420p"));
    let args = build_reencode_args("/in.mp4", "/out.mp4", 0, 1_000, &video, None);
    let joined = joined(&args);
    assert!(joined.windows(2).any(|w| w == ["-map", "0:v:0"]));
    assert!(!joined.windows(2).any(|w| w == ["-map", "0:v?"]));
}

#[test]
fn reencode_args_rebase_timestamps_with_avoid_negative_ts_make_zero() {
    let video = video_params("h264", Some("yuv420p"));
    let audio = audio_params("aac");
    let args = build_reencode_args("/in.mp4", "/out.mp4", 0, 1_000, &video, Some(&audio));
    let joined = joined(&args);
    let ats_idx = joined.iter().position(|&s| s == "-avoid_negative_ts").unwrap();
    assert_eq!(joined[ats_idx + 1], "make_zero");
}

#[test]
fn reencode_args_full_line_for_an_audio_source() {
    let video = video_params("vp9", None);
    let audio = audio_params("flac");
    let args = build_reencode_args("/a.webm", "/b.webm", 61_005, 7, &video, Some(&audio));
    assert_eq!(
        args,
        vec![
            "-y", "-i", "/a.webm", "-ss", "61.005", "-t", "0.007", "-map", "0:v:0", "-map",
            "0:a?", "-c:v", "libvpx-vp9", "-crf", "28", "-b:v", "0", "-row-mt", "1", "-pix_fmt",
            "yuv420p", "-c:a", "flac", "-avoid_negative_ts", "make_zero", "/b.webm",
        ]
    );
}

#[test]
fn proxy_args_carry_web_friendly_recipe() {
    let args = build_proxy_args("/in.mkv", "/out.mp4");
    let joined = joined(&args);
    assert_eq!(joined[0], "-y");
    assert_eq!(joined[1], "-i");
    assert_eq!(joined[2], "/in.mkv");
    assert!(joined.contains(&"libx264"));
    assert!(joined.contains(&"ultrafast"));
    assert!(joined.contains(&"28"));
    assert!(joined.contains(&"aac"));
    assert!(joined.contains(&"yuv420p"));
    let vf_idx = joined.iter().position(|&s| s == "-vf").unwrap();
    assert_eq!(joined[vf_idx + 1], r"scale=min(1280\,iw):-2");
    let mv_idx = joined.iter().position(|&s| s == "-movflags").unwrap();
    assert_eq!(joined[mv_idx + 1], "+faststart");
    assert_eq!(joined.last().copied(), Some("/out.mp4"));
}

#[test]
fn end_is_clamped_to_the_source_duration() {
    assert_eq!(trim_window(&Opts { start_ms: 0, end_ms: 60_000 }, 1_000), Ok(1_000));
    assert_eq!(trim_window(&Opts { start_ms: 500, end_ms: 1_500 }, 2_000), Ok(1_000));
}

#[test]
fn empty_window_is_refused_with_its_numbers() {
    match trim_window(&Opts { start_ms: 800, end_ms: 500 }, 1_000) {
        Err(AppError::ProcessingFailed { detail }) => assert_eq!(
            detail,
            "video trim: invalid range (start_ms=800 >= end_ms=500, source duration 1000 ms)"
        ),
        other => panic!("expected ProcessingFailed, got {other:?}"),
    }
    // A start beyond the clamped end is refused too.
    assert!(trim_window(&Opts { start_ms: 1_000, end_ms: 5_000 }, 1_000).is_err());
}
