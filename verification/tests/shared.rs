use multitool_core::collision::{candidate_path, Probe, UniqueSearch};
use multitool_core::error::io_to_app_err;
use multitool_core::image_io::{app_err_of_image_failure, decode_oriented, image_to_app_err};
use multitool_core::tools::images_to_pdf::decode_page;
use multitool_core::raster_format::RasterFormat;
use multitool_core::tools::image_crop::encode_to;
use multitool_core::paths::{extension, file_name, file_stem, join, parent, with_file_name};
use multitool_core::shell::{
    cleanup_refusal, first_non_media, is_media_path, is_owned_proxy, media_refusal, proxy_path,
};
use multitool_core::tools::audio_format_converter::{encoder_not_wired, TargetFormat as AudioTarget};
use multitool_core::tools::audio_trimmer::{self, encoder_for_source, EncoderLane};
use multitool_core::tools::image_format_converter::{
    clamp_quality, convert_one, AlphaHandling, Opts as ImageOpts, SvgRasterSize,
    TargetFormat as ImageTarget,
};
use multitool_core::tools::steps::{BatchTally, Verdict};
use multitool_core::AppError;
use std::path::PathBuf;

#[test]
fn error_kinds_and_messages() {
    let cases = vec![
        (AppError::FileNotFound { path: "/a".into() }, "FileNotFound", "file not found: /a"),
        (AppError::PermissionDenied { path: "/b".into() }, "PermissionDenied", "permission denied: /b"),
        (AppError::UnsupportedFormat { detail: "x".into() }, "UnsupportedFormat", "unsupported format: x"),
        (AppError::ProcessingFailed { detail: "y".into() }, "ProcessingFailed", "processing failed: y"),
        (AppError::Encrypted, "Encrypted", "document is encrypted"),
        (AppError::Cancelled, "Cancelled", "operation cancelled"),
    ];
    for (e, kind, message) in cases {
        assert_eq!(e.kind(), kind);
        assert_eq!(e.message(), message);
    }
}

#[test]
fn io_failures_are_classified() {
    assert_eq!(io_to_app_err("/x", true, false, "gone"), AppError::FileNotFound { path: "/x".into() });
    assert_eq!(io_to_app_err("/x", false, true, "no"), AppError::PermissionDenied { path: "/x".into() });
    assert_eq!(
        io_to_app_err("/x", false, false, "disk full"),
        AppError::ProcessingFailed { detail: "/x: disk full".into() }
    );
}

#[test]
fn image_errors_are_classified_by_kind() {
    assert_eq!(
        app_err_of_image_failure(true, "bad".into()),
        AppError::UnsupportedFormat { detail: "bad".into() }
    );
    assert_eq!(
        app_err_of_image_failure(false, "io".into()),
        AppError::ProcessingFailed { detail: "io".into() }
    );
    let err = image::ImageError::IoError(std::io::Error::new(std::io::ErrorKind::Other, "boom"));
    match image_to_app_err(err) {
        AppError::ProcessingFailed { detail } => assert!(detail.contains("boom")),
        other => panic!("expected ProcessingFailed, got {other:?}"),
    }
    let decode = image::load_from_memory(b"not an image").unwrap_err();
    assert!(matches!(image_to_app_err(decode), AppError::UnsupportedFormat { .. }));
}

#[test]
fn path_model_matches_std_path() {
    for p in ["/videos/a.mp4", "a.tar.gz", ".hidden", "/", "dir/", "/x/y/.", "..", "a/..", "", "noext"] {
        let std = std::path::Path::new(p);
        assert_eq!(file_name(p).as_deref(), std.file_name().and_then(|s| s.to_str()), "file_name {p}");
        assert_eq!(file_stem(p).as_deref(), std.file_stem().and_then(|s| s.to_str()), "file_stem {p}");
        assert_eq!(extension(p).as_deref(), std.extension().and_then(|s| s.to_str()), "extension {p}");
        assert_eq!(parent(p).map(PathBuf::from), std.parent().map(|q| q.to_path_buf()), "parent {p}");
    }
    assert_eq!(join("/a", "b"), "/a/b");
    assert_eq!(join("/a/", "b"), "/a/b");
    assert_eq!(join("/a", "/b"), "/b");
    assert_eq!(with_file_name("/a/b.txt", "c.md"), "/a/c.md");
}

#[test]
fn candidates_put_the_counter_before_the_last_extension() {
    assert_eq!(candidate_path("/t/report.txt", 1), "/t/report (1).txt");
    assert_eq!(candidate_path("/t/archive.tar.gz", 1), "/t/archive.tar (1).gz");
    assert_eq!(candidate_path("/t/Makefile", 1), "/t/Makefile (1)");
    assert_eq!(candidate_path("/t/report_pages", 2), "/t/report_pages (2)");
    assert_eq!(candidate_path("plain.txt", 12), "plain (12).txt");
}

#[test]
fn search_settles_on_the_first_free_name() {
    let (mut s, first) = UniqueSearch::start("/t/report.txt");
    assert_eq!(first, Probe::Check { path: "/t/report.txt".into() });
    assert_eq!(s.answer(true), Probe::Check { path: "/t/report (1).txt".into() });
    assert_eq!(s.answer(true), Probe::Check { path: "/t/report (2).txt".into() });
    assert_eq!(s.answer(false), Probe::Found { path: "/t/report (2).txt".into() });

    let (mut free, _) = UniqueSearch::start("/t/new.txt");
    assert_eq!(free.answer(false), Probe::Found { path: "/t/new.txt".into() });
}

#[test]
fn media_paths_are_checked_by_extension() {
    assert!(is_media_path("/p/a.PNG"));
    assert!(is_media_path("/p/a.svg"));
    assert!(is_media_path("/p/song.oga"));
    assert!(!is_media_path("/p/movie.mp4"));
    assert!(!is_media_path("/p/noext"));
    assert!(!is_media_path("/p/.png"));
    match media_refusal("/p/x.exe") {
        AppError::UnsupportedFormat { detail } => {
            assert_eq!(detail, "asset-scope grant refused: /p/x.exe is not a supported media file")
        }
        other => panic!("{other:?}"),
    }
}

#[test]
fn proxies_are_named_and_recognised() {
    let p = proxy_path("/tmp", "job-7");
    assert_eq!(p, "/tmp/multitool-preview-job-7.mp4");
    assert!(is_owned_proxy(&p, "/tmp"));
    assert!(!is_owned_proxy("/tmp/other.mp4", "/tmp"));
    assert!(!is_owned_proxy("/home/multitool-preview-1.mp4", "/tmp"));
    assert!(!is_owned_proxy("/tmp/sub/multitool-preview-1.mp4", "/tmp"));
    assert!(!is_owned_proxy("/tmp/multitool-preview-1.mkv", "/tmp"));
    // A temp dir given with a trailing separator is the same directory.
    assert!(is_owned_proxy("/tmp/multitool-preview-7.mp4", "/tmp/"));
    assert!(is_owned_proxy(&proxy_path("/var/folders/x/T/", "7"), "/var/folders/x/T/"));
    // Equal as paths: repeated separators and `.` components do not count.
    assert!(is_owned_proxy("/tmp//multitool-preview-7.mp4", "/tmp"));
    assert!(is_owned_proxy("/var/./tmp/multitool-preview-7.mp4", "/var//tmp/."));
    assert!(!is_owned_proxy("/var/tmp/multitool-preview-7.mp4", "/var/tmp/.."));
    assert!(!is_owned_proxy("tmp/multitool-preview-7.mp4", "/tmp"));
    assert!(!is_owned_proxy("./tmp/multitool-preview-7.mp4", "tmp"));
    match cleanup_refusal("/etc/passwd") {
        AppError::ProcessingFailed { detail } => assert_eq!(
            detail,
            "refusing to delete /etc/passwd: not a multitool preview proxy in the temp dir"
        ),
        other => panic!("{other:?}"),
    }
}

#[test]
fn tally_counts_successes_and_skips_and_stops_on_cancel() {
    let mut t = BatchTally::new();
    t.record_success("/o/a.mp4");
    assert_eq!(
        t.record_failure("/i/b.mov", AppError::ProcessingFailed { detail: "bad".into() }),
        Verdict::Skipped
    );
    t.record_success("/o/c.mp4");
    assert_eq!(t.record_failure("/i/d.mov", AppError::Cancelled), Verdict::Abort { error: AppError::Cancelled });
    assert_eq!(t.success_count(), 2);
    assert_eq!(t.skip_count(), 1);
    let (ok, skipped, first) = t.into_parts();
    assert_eq!(ok, 2);
    assert_eq!(skipped.len(), 1);
    assert_eq!(skipped[0].source, "/i/b.mov");
    assert_eq!(first.as_deref(), Some("/o/a.mp4"));
}

#[test]
fn audio_trim_keeps_the_source_format() {
    assert_eq!(encoder_for_source("wav"), Ok(EncoderLane::Wav));
    assert_eq!(encoder_for_source("flac"), Ok(EncoderLane::Flac));
    assert_eq!(encoder_for_source("mp3"), Ok(EncoderLane::Mp3));
    assert_eq!(encoder_for_source("ogg"), Ok(EncoderLane::OggVorbis));
    assert_eq!(encoder_for_source("oga"), Ok(EncoderLane::OggVorbis));
    match encoder_for_source("bogus") {
        Err(AppError::UnsupportedFormat { detail }) => assert_eq!(
            detail,
            "audio trim: source extension 'bogus' has no encoder (supported: wav/mp3/flac/ogg/oga)"
        ),
        other => panic!("{other:?}"),
    }
    assert_eq!(
        PathBuf::from(audio_trimmer::derive_output_path("/m/song.mp3")),
        PathBuf::from("/m/song_trimmed.mp3")
    );
}

#[test]
fn audio_converter_reports_missing_encoders_by_name() {
    assert_eq!(AudioTarget::Ogg.extension(), "ogg");
    assert_eq!(
        encoder_not_wired(AudioTarget::Wav),
        AppError::ProcessingFailed {
            detail: "audio_format_converter::convert_one: encoder for Wav not yet implemented".into()
        }
    );
}

fn png_bytes() -> Vec<u8> {
    let img = image::RgbImage::from_pixel(8, 4, image::Rgb([1, 2, 3]));
    let mut out = Vec::new();
    image::DynamicImage::ImageRgb8(img)
        .write_to(&mut std::io::Cursor::new(&mut out), image::ImageFormat::Png)
        .unwrap();
    out
}

fn image_opts(target_format: ImageTarget, jpeg_quality: u8) -> ImageOpts {
    ImageOpts {
        target_format,
        jpeg_quality,
        alpha_handling: AlphaHandling::FlattenWhite,
        svg_raster_size: SvgRasterSize::LongestEdgePx(1024),
    }
}

#[test]
fn image_converter_encodes_each_target() {
    for (t, f) in [
        (ImageTarget::Png, image::ImageFormat::Png),
        (ImageTarget::Jpeg, image::ImageFormat::Jpeg),
        (ImageTarget::Webp, image::ImageFormat::WebP),
        (ImageTarget::Bmp, image::ImageFormat::Bmp),
        (ImageTarget::Tiff, image::ImageFormat::Tiff),
    ] {
        let out = convert_one("png", &png_bytes(), &image_opts(t, 0)).expect("convert");
        assert_eq!(image::guess_format(&out.bytes).unwrap(), f);
        assert!(out.warnings.is_empty());
        let back = image::load_from_memory(&out.bytes).unwrap();
        assert_eq!((back.width(), back.height()), (8, 4));
    }
}

#[test]
fn image_converter_refuses_svg_and_clamps_quality() {
    match convert_one("SVG", b"<svg/>", &image_opts(ImageTarget::Png, 80)) {
        Err(AppError::UnsupportedFormat { detail }) => {
            assert_eq!(detail, "SVG input not yet wired (Phase A4 will rasterize via resvg)")
        }
        other => panic!("{other:?}"),
    }
    assert_eq!(clamp_quality(0), 1);
    assert_eq!(clamp_quality(55), 55);
    assert_eq!(clamp_quality(200), 100);
    assert_eq!(ImageTarget::Tiff.extension(), "tif");
    assert!(ImageTarget::Webp.supports_alpha());
    assert!(!ImageTarget::Bmp.supports_alpha());
}

fn encoded(format: image::ImageFormat, w: u32, h: u32) -> Vec<u8> {
    let img = image::RgbImage::from_pixel(w, h, image::Rgb([10, 20, 30]));
    let mut out = Vec::new();
    image::DynamicImage::ImageRgb8(img)
        .write_to(&mut std::io::Cursor::new(&mut out), format)
        .unwrap();
    out
}

#[test]
fn extension_breaks_ties_only_for_signature_less_formats() {
    let tga = encoded(image::ImageFormat::Tga, 6, 3);
    let picture = decode_oriented("tga", &tga).expect("tga decodes by extension");
    assert_eq!((picture.width(), picture.height()), (6, 3));
    assert!(decode_oriented("", &tga).is_err());
    // Bytes win over a misleading extension.
    let png = encoded(image::ImageFormat::Png, 4, 2);
    let p = decode_oriented("tga", &png).expect("png bytes decode");
    assert_eq!((p.width(), p.height()), (4, 2));
}

#[test]
fn page_pixels_are_rgb_rows_of_the_decoded_image() {
    let page = decode_page("/pics/a.png", &encoded(image::ImageFormat::Png, 5, 7)).expect("decode");
    assert_eq!((page.width, page.height), (5, 7));
    assert_eq!(page.pixels.len(), 5 * 7 * 3);
    assert_eq!(&page.pixels[0..3], &[10, 20, 30]);
    assert!(decode_page("/pics/b.png", b"nope").is_err());
}

#[test]
fn encode_to_writes_the_requested_format() {
    let picture = decode_oriented("png", &encoded(image::ImageFormat::Png, 6, 4)).expect("decode");
    let png = encode_to(&picture, RasterFormat::Png).expect("png");
    assert_eq!(image::guess_format(&png).unwrap(), image::ImageFormat::Png);
    let jpg = encode_to(&picture, RasterFormat::Jpeg).expect("jpeg");
    assert_eq!(image::guess_format(&jpg).unwrap(), image::ImageFormat::Jpeg);
    let back = image::load_from_memory(&png).unwrap();
    assert_eq!((back.width(), back.height()), (6, 4));
}

#[test]
fn grant_loop_stops_at_the_first_non_media_path() {
    let paths: Vec<String> = vec!["/a/x.PNG".into(), "/a/y.mp3".into(), "/a/z.txt".into(), "/a/w.png".into()];
    assert_eq!(first_non_media(&paths), Some(2));
    assert_eq!(first_non_media(&paths[..2]), None);
    assert_eq!(first_non_media(&[]), None);
    assert_eq!(first_non_media(&["noext".to_string()]), Some(0));
}

#[test]
fn jpeg_conversion_is_the_encoder_output_at_the_clamped_quality() {
    let src = png_bytes();
    let out = convert_one("png", &src, &image_opts(ImageTarget::Jpeg, 0)).expect("convert");
    let rgb = image::load_from_memory(&src).unwrap().to_rgb8();
    let mut expected = Vec::new();
    image::codecs::jpeg::JpegEncoder::new_with_quality(&mut expected, 1).encode_image(&rgb).unwrap();
    assert_eq!(out.bytes, expected);
    assert!(out.warnings.is_empty());
}
