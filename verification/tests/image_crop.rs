use multitool_core::tools::image_crop::{
    crop_one, crop_region, derive_output_path, tiff_frame_count, CropRect, PixelRect,
};
use multitool_core::AppError;
use std::path::PathBuf;

fn rect(x: i32, y: i32, width: u32, height: u32) -> CropRect {
    CropRect { x, y, width, height }
}

/// Minimal classic little-endian TIFF header with `frames` empty IFDs.
fn multi_ifd_tiff(frames: usize) -> Vec<u8> {
    let mut b = Vec::new();
    b.extend_from_slice(b"II");
    b.extend_from_slice(&42u16.to_le_bytes());
    b.extend_from_slice(&8u32.to_le_bytes());
    for i in 0..frames {
        b.extend_from_slice(&0u16.to_le_bytes());
        let is_last = i + 1 == frames;
        let next = if is_last { 0u32 } else { u32::try_from(b.len() + 4).unwrap() };
        b.extend_from_slice(&next.to_le_bytes());
    }
    b
}

#[test]
fn tiff_frame_count_counts_chained_ifds() {
    assert_eq!(tiff_frame_count(&multi_ifd_tiff(1)), Some(1));
    assert_eq!(tiff_frame_count(&multi_ifd_tiff(2)), Some(2));
    assert_eq!(tiff_frame_count(&multi_ifd_tiff(4)), Some(4));
}

#[test]
fn multi_frame_tiff_is_rejected() {
    let result = crop_one("tif", &multi_ifd_tiff(3), &rect(0, 0, 10, 10));
    match result {
        Err(AppError::UnsupportedFormat { detail }) => {
            assert!(detail.contains("multi-frame TIFF"), "got: {detail}");
        }
        other => panic!("expected UnsupportedFormat, got {other:?}"),
    }
}

#[test]
fn clamp_fully_inside_is_unchanged() {
    assert_eq!(
        rect(10, 10, 30, 20).clamp_to(100, 50),
        Some(PixelRect { x: 10, y: 10, width: 30, height: 20 })
    );
}

#[test]
fn clamp_zero_dims_forced_to_one() {
    assert_eq!(
        rect(5, 5, 0, 0).clamp_to(100, 50),
        Some(PixelRect { x: 5, y: 5, width: 1, height: 1 })
    );
}

#[test]
fn clamp_negative_origin_clamps_to_zero() {
    assert_eq!(
        rect(-5, -5, 20, 20).clamp_to(100, 50),
        Some(PixelRect { x: 0, y: 0, width: 15, height: 15 })
    );
}

#[test]
fn clamp_overflowing_extent_clamps_to_image_edge() {
    assert_eq!(
        rect(90, 40, 50, 50).clamp_to(100, 50),
        Some(PixelRect { x: 90, y: 40, width: 10, height: 10 })
    );
}

#[test]
fn clamp_no_intersection_is_none() {
    assert_eq!(rect(100, 0, 10, 10).clamp_to(100, 50), None);
    assert_eq!(rect(0, 50, 10, 10).clamp_to(100, 50), None);
    assert_eq!(rect(-10, 0, 10, 10).clamp_to(100, 50), None);
}

#[test]
fn clamp_against_empty_image_is_none() {
    assert_eq!(rect(0, 0, 10, 10).clamp_to(0, 0), None);
}

#[test]
fn clamp_extreme_coordinates_do_not_overflow() {
    assert_eq!(rect(i32::MIN, i32::MIN, u32::MAX, u32::MAX).clamp_to(100, 50),
        Some(PixelRect { x: 0, y: 0, width: 100, height: 50 }));
    assert_eq!(rect(i32::MAX, 0, u32::MAX, 1).clamp_to(u32::MAX, 1), Some(PixelRect {
        x: i32::MAX as u32, y: 0, width: u32::MAX - i32::MAX as u32, height: 1 }));
}

#[test]
fn tiff_frame_count_is_none_for_non_tiff_and_truncated() {
    assert_eq!(tiff_frame_count(b""), None);
    assert_eq!(tiff_frame_count(b"II"), None);
    assert_eq!(tiff_frame_count(b"\x89PNG\r\n\x1a\n"), None);
    // BigTIFF magic 43 is not parsed.
    assert_eq!(tiff_frame_count(b"II\x2b\x00\x08\x00\x00\x00"), None);
    // Chain pointing past the end.
    assert_eq!(tiff_frame_count(b"II\x2a\x00\xff\x00\x00\x00"), None);
    // Big-endian single IFD.
    let be = [b'M', b'M', 0, 42, 0, 0, 0, 8, 0, 0, 0, 0, 0, 0];
    assert_eq!(tiff_frame_count(&be), Some(1));
    // Header with a zero first offset has no frames.
    assert_eq!(tiff_frame_count(b"II\x2a\x00\x00\x00\x00\x00"), Some(0));
}

#[test]
fn looping_ifd_chain_stops_at_the_walk_bound() {
    // One IFD whose next offset points back at itself.
    let mut b = Vec::new();
    b.extend_from_slice(b"II");
    b.extend_from_slice(&42u16.to_le_bytes());
    b.extend_from_slice(&8u32.to_le_bytes());
    b.extend_from_slice(&0u16.to_le_bytes());
    b.extend_from_slice(&8u32.to_le_bytes());
    assert_eq!(tiff_frame_count(&b), Some(1024));
}

#[test]
fn unencodable_extension_is_refused_with_its_name() {
    match crop_one("gif", b"GIF89a", &rect(0, 0, 4, 4)) {
        Err(AppError::UnsupportedFormat { detail }) => assert_eq!(
            detail,
            "image crop preserves the source format; 'gif' is not an encodable raster format (png/jpg/webp/bmp/tif)"
        ),
        other => panic!("expected UnsupportedFormat, got {other:?}"),
    }
}

#[test]
fn region_outside_the_image_is_refused() {
    match crop_region(&rect(100, 0, 10, 10), 100, 50) {
        Err(AppError::ProcessingFailed { detail }) => {
            assert_eq!(detail, "crop rectangle does not intersect the image")
        }
        other => panic!("expected ProcessingFailed, got {other:?}"),
    }
}

#[test]
fn crop_one_refuses_a_region_outside_the_image() {
    match crop_one("png", &png_bytes(100, 50), &rect(100, 0, 10, 10)) {
        Err(AppError::ProcessingFailed { detail }) => {
            assert!(detail.contains("does not intersect"), "{detail}")
        }
        other => panic!("expected ProcessingFailed, got {other:?}"),
    }
}

#[test]
fn crop_one_output_is_the_encoded_cut_out() {
    // A picture with a distinct pixel at (3, 2): cutting there at 1x1 keeps it.
    let mut img = image::RgbaImage::from_pixel(8, 6, image::Rgba([0, 0, 0, 255]));
    img.put_pixel(3, 2, image::Rgba([1, 2, 3, 255]));
    let mut src = Vec::new();
    image::DynamicImage::ImageRgba8(img)
        .write_to(&mut std::io::Cursor::new(&mut src), image::ImageFormat::Png)
        .unwrap();
    let out = crop_one("png", &src, &rect(3, 2, 1, 1)).expect("crop");
    let back = image::load_from_memory(&out).unwrap().to_rgba8();
    assert_eq!(back.dimensions(), (1, 1));
    assert_eq!(back.get_pixel(0, 0).0, [1, 2, 3, 255]);
}

fn png_bytes(w: u32, h: u32) -> Vec<u8> {
    let img = image::RgbaImage::from_pixel(w, h, image::Rgba([200, 10, 10, 255]));
    let mut out = Vec::new();
    image::DynamicImage::ImageRgba8(img)
        .write_to(&mut std::io::Cursor::new(&mut out), image::ImageFormat::Png)
        .unwrap();
    out
}

#[test]
fn png_is_cropped_to_the_clamped_region_and_stays_png() {
    let out = crop_one("png", &png_bytes(100, 50), &rect(-5, 40, 40, 30)).expect("crop");
    let img = image::load_from_memory(&out).unwrap();
    assert_eq!(image::guess_format(&out).unwrap(), image::ImageFormat::Png);
    assert_eq!((img.width(), img.height()), (35, 10));
}

#[test]
fn png_bytes_named_jpg_reencode_as_jpeg() {
    let out = crop_one("jpg", &png_bytes(20, 10), &rect(0, 0, 20, 10)).expect("crop");
    assert_eq!(image::guess_format(&out).unwrap(), image::ImageFormat::Jpeg);
}

#[test]
fn garbage_bytes_yield_an_error() {
    let result = crop_one("png", b"definitely not an image", &rect(0, 0, 10, 10));
    assert!(matches!(
        result,
        Err(AppError::UnsupportedFormat { .. } | AppError::ProcessingFailed { .. })
    ));
}

#[test]
fn cropped_output_sits_next_to_source() {
    assert_eq!(PathBuf::from(derive_output_path("/p/photo.png")), PathBuf::from("/p/photo_cropped.png"));
    assert_eq!(PathBuf::from(derive_output_path("/p/scan")), PathBuf::from("/p/scan_cropped"));
}
