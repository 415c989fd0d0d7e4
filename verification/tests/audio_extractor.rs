use multitool_core::tools::audio_extractor::{build_args, derive_output_path};
use std::path::PathBuf;

#[test]
fn single_track_naming_omits_number() {
    let out = derive_output_path("/videos/holiday.mov", 0, 1);
    assert_eq!(PathBuf::from(out), PathBuf::from("/videos/holiday_audio.mp3"));
}

#[test]
fn multi_track_naming_is_one_indexed() {
    let src = "/videos/concert.mkv";
    assert_eq!(PathBuf::from(derive_output_path(src, 0, 3)), PathBuf::from("/videos/concert_audio_1.mp3"));
    assert_eq!(PathBuf::from(derive_output_path(src, 1, 3)), PathBuf::from("/videos/concert_audio_2.mp3"));
    assert_eq!(PathBuf::from(derive_output_path(src, 2, 3)), PathBuf::from("/videos/concert_audio_3.mp3"));
}

#[test]
fn naming_handles_multi_dot_stem() {
    let out = derive_output_path("/videos/report.final.mov", 0, 1);
    assert_eq!(PathBuf::from(out), PathBuf::from("/videos/report.final_audio.mp3"));
}

#[test]
fn naming_falls_back_to_output_when_stem_unknown() {
    let out = derive_output_path("/", 0, 1);
    assert_eq!(PathBuf::from(out), PathBuf::from("/output_audio.mp3"));
}

#[test]
fn args_include_vn_map_and_libmp3lame_recipe() {
    let args = build_args("/in.mp4", "/out_audio.mp3", 0);
    let joined: Vec<&str> = args.iter().map(|a| a.as_str()).collect();
    assert_eq!(joined[0], "-y");
    assert_eq!(joined[1], "-i");
    assert_eq!(joined[2], "/in.mp4");
    assert!(joined.contains(&"-vn"), "must drop video stream");
    let map_idx = joined.iter().position(|&s| s == "-map").unwrap();
    assert_eq!(joined[map_idx + 1], "0:a:0");
    assert!(joined.contains(&"libmp3lame"));
    let q_idx = joined.iter().position(|&s| s == "-q:a").unwrap();
    assert_eq!(joined[q_idx + 1], "2", "V2 preset, ~190 kbps VBR");
    assert_eq!(joined.last().copied(), Some("/out_audio.mp3"));
}

#[test]
fn args_use_correct_track_index_for_multi_track_extraction() {
    let args = build_args("/in.mkv", "/out_audio_3.mp3", 2);
    let joined: Vec<&str> = args.iter().map(|a| a.as_str()).collect();
    let map_idx = joined.iter().position(|&s| s == "-map").unwrap();
    assert_eq!(joined[map_idx + 1], "0:a:2");
}

#[test]
fn args_overwrite_flag_is_first() {
    let args = build_args("/in.mp4", "/out.mp3", 0);
    assert_eq!(args[0], "-y");
    assert_eq!(args[1], "-i");
}

#[test]
fn saturated_track_number_stays_at_max() {
    let out = derive_output_path("/v/a.mkv", u32::MAX, 5);
    assert_eq!(out, "/v/a_audio_4294967295.mp3");
}
