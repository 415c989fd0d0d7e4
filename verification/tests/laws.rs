use multitool_core::tools::steps::{BatchRun, Step, Verdict};
use multitool_core::tools::image_format_converter::{derive_output_path as converted_image_path, TargetFormat as ImageTarget};
use multitool_core::ffmpeg::{parse_progress_line, split_top_level_commas};
use multitool_core::ffmpeg_session::{exit_failure, exit_outcome, LineAction, StderrTail, ProgressGate};
use multitool_core::image_io::decode_oriented;
use multitool_core::shell::{is_owned_proxy, proxy_path};
use multitool_core::tools::image_crop::{cut_region, CropRect, PixelRect};
use multitool_core::tools::pdf_to_images::{pad_width, page_file_name};
use multitool_core::tools::{audio_extractor, audio_trimmer, image_crop, pdf_to_images, video_format_converter, video_trimmer};
use multitool_core::AppError;
use std::collections::HashSet;

#[test]
fn every_error_variant_has_its_own_kind() {
    let all = [
        AppError::FileNotFound { path: String::new() },
        AppError::PermissionDenied { path: String::new() },
        AppError::UnsupportedFormat { detail: String::new() },
        AppError::ProcessingFailed { detail: String::new() },
        AppError::Encrypted,
        AppError::Cancelled,
    ];
    let kinds: HashSet<&str> = all.iter().map(|e| e.kind()).collect();
    assert_eq!(kinds.len(), all.len());
}

#[test]
fn outputs_never_land_on_their_source() {
    for src in ["/v/clip.mp4", "/v/clip_converted.mp4", "clip", "/v/.hidden", "/", "", "a/b.c.d"] {
        for t in [video_format_converter::TargetFormat::Mp4, video_format_converter::TargetFormat::Webm, video_format_converter::TargetFormat::Mkv] {
            assert_ne!(video_format_converter::derive_output_path(src, t), src);
        }
        assert_ne!(video_trimmer::derive_output_path(src), src);
        assert_ne!(audio_trimmer::derive_output_path(src), src);
        assert_ne!(image_crop::derive_output_path(src), src);
        assert_ne!(pdf_to_images::derive_output_dir(src), src);
        for (i, total) in [(0, 1), (0, 2), (1, 2), (u32::MAX, 3)] {
            assert_ne!(audio_extractor::derive_output_path(src, i, total), src);
        }
    }
}

#[test]
fn tracks_of_one_source_get_distinct_outputs() {
    let names: HashSet<String> = (0..12).map(|i| audio_extractor::derive_output_path("/v/movie.mkv", i, 12)).collect();
    assert_eq!(names.len(), 12);
}

#[test]
fn page_names_of_a_job_are_distinct_and_equally_long() {
    let total = 1000u32;
    let w = pad_width(total);
    let names: Vec<String> = (0..total).map(|i| page_file_name(i, w, "png")).collect();
    assert!(names.iter().all(|n| n.len() == "page_0001.png".len()));
    assert_eq!(names.iter().collect::<HashSet<_>>().len(), names.len());
    // Sorting by name is sorting by page.
    let mut sorted = names.clone();
    sorted.sort();
    assert_eq!(sorted, names);
}

#[test]
fn progress_lines_read_back_their_value() {
    for n in [0u64, 7, 10, 1_234_567, u64::MAX] {
        assert_eq!(parse_progress_line(&format!("out_time_us={n}")).map(|p| p.out_time_us), Some(n));
    }
}

#[test]
fn top_level_split_loses_nothing_between_commas() {
    let s = "h264 (High),yuv420p(tv, bt709, progressive),1920x1080 [SAR 1:1, DAR 16:9],25 fps";
    let pieces = split_top_level_commas(s);
    assert_eq!(pieces.len(), 4);
    assert_eq!(pieces.join(","), s);
}

#[test]
fn created_proxies_are_deletable() {
    for (t, id) in [("/tmp", "job-1"), ("/var/folders/x/T/", "abc"), ("tmp", ""), ("/", "9"), ("", "2")] {
        assert!(is_owned_proxy(&proxy_path(t, id), t));
    }
}

#[test]
fn stderr_tail_keeps_the_last_64_lines() {
    let mut tail = StderrTail::new();
    for i in 0..100 {
        tail.push(format!("line {i}"));
    }
    let kept = tail.lines();
    assert_eq!(kept.len(), 64);
    assert_eq!(kept[0], "line 36");
    assert_eq!(kept[63], "line 99");
    match exit_failure("exit status: 1", &tail) {
        AppError::ProcessingFailed { detail } => {
            assert!(detail.starts_with("ffmpeg exited with exit status: 1: line 36\nline 37\n"));
            assert!(detail.ends_with("\nline 99"));
        }
        other => panic!("{other:?}"),
    }
}

#[test]
fn progress_gate_throttles_and_replays_the_last_sample() {
    let mut gate = ProgressGate::new();
    assert_eq!(gate.on_line("frame=1", 1_000), None);
    assert_eq!(gate.on_line("out_time_us=5", 300).map(|p| p.out_time_us), Some(5));
    assert_eq!(gate.on_line("out_time_us=9", 100), None);
    assert_eq!(gate.finish().map(|p| p.out_time_us), Some(9));
    assert_eq!(ProgressGate::new().finish(), None);
}

#[test]
fn a_cancel_request_kills_the_run_and_keeps_the_gate() {
    let mut gate = ProgressGate::new();
    assert_eq!(gate.step("out_time_us=5", false, 300), LineAction::Report(multitool_core::ffmpeg::FfmpegProgress { out_time_us: 5 }));
    assert_eq!(gate.step("out_time_us=7", false, 10), LineAction::Read);
    assert_eq!(gate.step("out_time_us=9", true, 1_000), LineAction::Kill);
    assert_eq!(gate.finish().map(|p| p.out_time_us), Some(7));
    assert_eq!(gate.step("progress=continue", false, 1_000), LineAction::Read);
}

#[test]
fn exit_outcome_is_ok_only_for_a_successful_exit() {
    let mut tail = StderrTail::new();
    tail.push("boom".to_string());
    assert_eq!(exit_outcome(false, true, "exit status: 0", &tail), Ok(()));
    match exit_outcome(false, false, "exit status: 1", &tail) {
        Err(AppError::ProcessingFailed { detail }) => assert_eq!(detail, "ffmpeg exited with exit status: 1: boom"),
        other => panic!("{other:?}"),
    }
}

#[test]
fn a_cancel_before_exit_is_cancelled_whatever_the_exit() {
    let tail = StderrTail::new();
    assert_eq!(exit_outcome(true, true, "exit status: 0", &tail), Err(AppError::Cancelled));
    assert_eq!(exit_outcome(true, false, "signal: 9", &tail), Err(AppError::Cancelled));
    let mut gate = ProgressGate::new();
    let _ = gate.step("out_time_us=5", false, 0);
    assert_eq!(gate.on_end(true), None);
    assert_eq!(gate.on_end(false).map(|p| p.out_time_us), Some(5));
}

#[test]
fn clamped_rects_always_fit_inside_the_image() {
    for x in [-300, -1, 0, 5, 99, 100, 1_000] {
        for y in [-7, 0, 49, 50] {
            for (w, h) in [(0, 0), (1, 1), (30, 20), (500, 500)] {
                if let Some(PixelRect { x: px, y: py, width, height }) = (CropRect { x, y, width: w, height: h }).clamp_to(100, 50) {
                    assert!(width >= 1 && height >= 1);
                    assert!(px + width <= 100 && py + height <= 50);
                }
            }
        }
    }
}

#[test]
fn cut_region_has_the_clamped_size() {
    let img = image::RgbImage::from_pixel(100, 50, image::Rgb([9, 9, 9]));
    let mut png = Vec::new();
    image::DynamicImage::ImageRgb8(img)
        .write_to(&mut std::io::Cursor::new(&mut png), image::ImageFormat::Png)
        .unwrap();
    let picture = decode_oriented("png", &png).expect("decode");
    assert_eq!((picture.width(), picture.height()), (100, 50));
    let cut = cut_region(&picture, &CropRect { x: -5, y: 40, width: 40, height: 30 }).expect("cut");
    assert_eq!((cut.width(), cut.height()), (35, 10));
    assert!(cut_region(&picture, &CropRect { x: 100, y: 0, width: 1, height: 1 }).is_err());
}

#[test]
fn alternatives_differ_from_the_target_and_each_other() {
    use_candidates("/t/report.txt");
    use_candidates("/t/Makefile");
    use_candidates("archive.tar.gz");
    use_candidates("/");
}

fn use_candidates(target: &str) {
    let names: Vec<String> = (1..=25).map(|n| multitool_core::collision::candidate_path(target, n)).collect();
    assert!(names.iter().all(|n| n != target));
    assert_eq!(names.iter().collect::<HashSet<_>>().len(), names.len());
}

#[test]
fn seek_text_reads_back_as_milliseconds() {
    for ms in [0u64, 5, 999, 1_000, 61_005, 90_250, u64::MAX] {
        let t = video_trimmer::fmt_secs(ms);
        let (secs, frac) = t.split_once('.').unwrap();
        assert_eq!(frac.len(), 3);
        assert_eq!(secs.parse::<u128>().unwrap() * 1000 + frac.parse::<u128>().unwrap(), ms as u128);
    }
}

#[test]
fn a_finished_batch_accounts_for_every_item() {
    let mut batch = BatchRun::start(3, "empty").unwrap();
    assert_eq!(batch.step(false), Step::Item { index: 0 });
    batch.record_success("/o/a_converted.png");
    assert_eq!(batch.step(false), Step::Item { index: 1 });
    assert_eq!(
        batch.record_failure("/i/b.gif", AppError::UnsupportedFormat { detail: "x".into() }),
        Verdict::Skipped
    );
    assert_eq!(batch.step(false), Step::Item { index: 2 });
    batch.record_success("/o/c_converted.png");
    assert_eq!(batch.step(false), Step::Done { total: 3 });
    let (successes, skipped, first) = batch.into_parts();
    assert_eq!(successes + skipped.len() as u32, 3);
    assert_eq!((successes, skipped.len()), (2, 1));
    assert_eq!(skipped[0].source, "/i/b.gif");
    assert_eq!(first.as_deref(), Some("/o/a_converted.png"));
}

#[test]
fn an_all_skipped_batch_still_completes() {
    let mut batch = BatchRun::start(2, "empty").unwrap();
    for i in 0..2 {
        assert_eq!(batch.step(false), Step::Item { index: i });
        batch.record_failure("f", AppError::ProcessingFailed { detail: "bad".into() });
    }
    assert_eq!(batch.step(false), Step::Done { total: 2 });
    let (successes, skipped, first) = batch.into_parts();
    assert_eq!((successes, skipped.len(), first), (0, 2, None));
}

#[test]
fn a_cancelled_item_aborts_the_batch() {
    let mut batch = BatchRun::start(2, "empty").unwrap();
    assert_eq!(batch.step(false), Step::Item { index: 0 });
    assert_eq!(batch.record_failure("f", AppError::Cancelled), Verdict::Abort { error: AppError::Cancelled });
    assert!(BatchRun::start(0, "nothing to do").is_err());
}

#[test]
fn converted_image_sits_next_to_its_source() {
    assert_eq!(converted_image_path("/p/cat.png", ImageTarget::Jpeg), "/p/cat_converted.jpg");
    assert_eq!(converted_image_path("/p/cat.png", ImageTarget::Png), "/p/cat_converted.png");
    assert_eq!(converted_image_path("/p/.hidden", ImageTarget::Tiff), "/p/.hidden_converted.tif");
}
