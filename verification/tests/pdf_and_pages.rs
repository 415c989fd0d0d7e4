use multitool_core::tools::images_to_pdf::{self, job_progress, source_ext_of, PageProgress};
use multitool_core::tools::pdf_to_images::{
    clamp_dpi, derive_output_dir, extension_for, map_load_error, pad_width, page_file_name,
    Format, LoadFailure, PageOutput, PageWriter,
};
use multitool_core::tools::steps::{ItemLoop, Step};
use multitool_core::AppError;
use std::path::PathBuf;

#[test]
fn derive_output_dir_appends_pages_suffix_to_stem_alongside_input() {
    assert_eq!(PathBuf::from(derive_output_dir("/tmp/report.pdf")), PathBuf::from("/tmp/report_pages"));
    assert_eq!(PathBuf::from(derive_output_dir("local.pdf")), PathBuf::from("local_pages"));
    assert_eq!(PathBuf::from(derive_output_dir("./sub/doc.PDF")), PathBuf::from("./sub/doc_pages"));
}

#[test]
fn derive_output_path_uses_first_image_stem_and_parent() {
    assert_eq!(PathBuf::from(images_to_pdf::derive_output_path("/tmp/photos/IMG_1234.jpg")), PathBuf::from("/tmp/photos/IMG_1234.pdf"));
    assert_eq!(PathBuf::from(images_to_pdf::derive_output_path("local.png")), PathBuf::from("local.pdf"));
    assert_eq!(PathBuf::from(images_to_pdf::derive_output_path("./sub/cover.WEBP")), PathBuf::from("./sub/cover.pdf"));
}

#[test]
fn pad_width_is_digits_but_at_least_three() {
    assert_eq!(pad_width(0), 3);
    assert_eq!(pad_width(5), 3);
    assert_eq!(pad_width(999), 3);
    assert_eq!(pad_width(1000), 4);
    assert_eq!(pad_width(u32::MAX), 10);
}

#[test]
fn page_names_are_one_based_and_padded() {
    assert_eq!(page_file_name(0, 3, "png"), "page_001.png");
    assert_eq!(page_file_name(41, 3, "jpg"), "page_042.jpg");
    assert_eq!(page_file_name(0, 4, "png"), "page_0001.png");
    assert_eq!(page_file_name(1233, 3, "png"), "page_1234.png");
    assert_eq!(page_file_name(u32::MAX, 3, "png"), "page_4294967295.png");
}

#[test]
fn writer_paths_follow_format_and_total() {
    let w = PageWriter::new("/out/doc_pages".to_string(), Format::Jpeg, 1000);
    assert_eq!(w.dir(), "/out/doc_pages");
    let page = PageOutput { index: 0, total: 1000, encoded: vec![1, 2, 3] };
    assert_eq!(w.page_path(&page), "/out/doc_pages/page_0001.jpg");
    assert_eq!(extension_for(Format::Png), "png");
    assert_eq!(extension_for(Format::Jpeg), "jpg");
}

#[test]
fn dpi_is_clamped_to_the_render_range() {
    assert_eq!(clamp_dpi(10), 72);
    assert_eq!(clamp_dpi(150), 150);
    assert_eq!(clamp_dpi(10_000), 600);
}

#[test]
fn password_and_security_failures_are_encrypted() {
    assert_eq!(map_load_error(LoadFailure::Password), AppError::Encrypted);
    assert_eq!(map_load_error(LoadFailure::Security), AppError::Encrypted);
    assert_eq!(
        map_load_error(LoadFailure::Other("bad xref".into())),
        AppError::ProcessingFailed { detail: "bad xref".into() }
    );
}

#[test]
fn item_loop_hands_out_items_in_order_then_finishes() {
    let mut l = ItemLoop::start(3, "empty document").unwrap();
    assert_eq!(l.step(false), Step::Item { index: 0 });
    assert_eq!(l.step(false), Step::Item { index: 1 });
    assert_eq!(l.step(false), Step::Item { index: 2 });
    assert_eq!(l.step(false), Step::Done { total: 3 });
    assert_eq!(l.step(true), Step::Done { total: 3 });
}

#[test]
fn item_loop_stops_on_cancel_and_refuses_empty_input() {
    let mut l = ItemLoop::start(2, "x").unwrap();
    assert_eq!(l.step(false), Step::Item { index: 0 });
    assert_eq!(l.step(true), Step::Stop { error: AppError::Cancelled });
    match ItemLoop::start(0, "no images to convert") {
        Err(AppError::ProcessingFailed { detail }) => assert_eq!(detail, "no images to convert"),
        _ => panic!("expected refusal"),
    }
}

#[test]
fn images_to_pdf_progress_is_one_based_and_ext_is_as_written() {
    let p = job_progress(PageProgress { index: 2, total: 7 });
    assert_eq!((p.image, p.total), (3, 7));
    assert_eq!(source_ext_of("/a/b/cover.WEBP"), "WEBP");
    assert_eq!(source_ext_of("/a/b/noext"), "");
    assert_eq!(source_ext_of("/a/b/.hidden"), "");
}
