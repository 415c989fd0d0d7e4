//! One module per tool: naming rules, ffmpeg recipes, option types and the
//! decisions each tool makes between its I/O steps.

pub mod audio_extractor;
pub mod audio_format_converter;
pub mod audio_trimmer;
pub mod image_crop;
pub mod image_format_converter;
pub mod images_to_pdf;
pub mod pdf_to_images;
pub mod steps;
pub mod video_format_converter;
pub mod video_trimmer;
