use multitool_core::tools::video_format_converter::{build_args, derive_output_path, TargetFormat};
use std::path::PathBuf;

#[test]
fn extension_per_target() {
    assert_eq!(TargetFormat::Mp4.extension(), "mp4");
    assert_eq!(TargetFormat::Webm.extension(), "webm");
    assert_eq!(TargetFormat::Mkv.extension(), "mkv");
}

#[test]
fn output_path_adds_converted_suffix_next_to_source() {
    let out = derive_output_path("/videos/holiday.mov", TargetFormat::Mp4);
    assert_eq!(PathBuf::from(out), PathBuf::from("/videos/holiday_converted.mp4"));
}

#[test]
fn output_path_same_format_still_uses_converted_suffix() {
    let out = derive_output_path("/videos/clip.mp4", TargetFormat::Mp4);
    assert_eq!(PathBuf::from(out), PathBuf::from("/videos/clip_converted.mp4"));
}

#[test]
fn output_path_handles_multi_dot_stem() {
    let out = derive_output_path("/videos/report.final.mov", TargetFormat::Mp4);
    assert_eq!(PathBuf::from(out), PathBuf::from("/videos/report.final_converted.mp4"));
}

#[test]
fn mp4_args_carry_libx264_and_aac_with_crf_and_preset() {
    let args = build_args("/in.mov", "/out.mp4", TargetFormat::Mp4);
    let joined: Vec<&str> = args.iter().map(|a| a.as_str()).collect();
    assert_eq!(joined[0], "-y");
    assert_eq!(joined[1], "-i");
    assert_eq!(joined[2], "/in.mov");
    assert!(joined.contains(&"libx264"));
    assert!(joined.contains(&"medium"));
    assert!(joined.contains(&"23"));
    assert!(joined.contains(&"aac"));
    assert!(joined.contains(&"128k"));
    assert_eq!(joined.last().copied(), Some("/out.mp4"));
}

#[test]
fn webm_args_carry_vp9_with_constant_quality_and_opus() {
    let args = build_args("/in.mov", "/out.webm", TargetFormat::Webm);
    let joined: Vec<&str> = args.iter().map(|a| a.as_str()).collect();
    assert!(joined.contains(&"libvpx-vp9"));
    assert!(joined.contains(&"32"));
    let bv_idx = joined.iter().position(|&s| s == "-b:v").unwrap();
    assert_eq!(joined[bv_idx + 1], "0");
    assert!(joined.contains(&"-row-mt"));
    assert!(joined.contains(&"libopus"));
    assert!(joined.contains(&"96k"));
}

#[test]
fn mkv_args_stream_copy_only() {
    let args = build_args("/in.mov", "/out.mkv", TargetFormat::Mkv);
    let joined: Vec<&str> = args.iter().map(|a| a.as_str()).collect();
    let cv_idx = joined.iter().position(|&s| s == "-c:v").unwrap();
    assert_eq!(joined[cv_idx + 1], "copy");
    let ca_idx = joined.iter().position(|&s| s == "-c:a").unwrap();
    assert_eq!(joined[ca_idx + 1], "copy");
    assert!(!joined.contains(&"-crf"));
    assert!(!joined.contains(&"-b:a"));
}

#[test]
fn build_args_overwrite_flag_is_first() {
    let args = build_args("/in.mov", "/out.mp4", TargetFormat::Mp4);
    assert_eq!(args[0], "-y");
    assert_eq!(args[1], "-i");
}
