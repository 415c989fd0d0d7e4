//! Verified core of a desktop media multitool: ffmpeg banner and progress
//! parsing, output naming, crop geometry, codec recipes and job bookkeeping.

pub mod audio_codecs;
pub mod collision;
pub mod error;
pub mod ffmpeg;
pub mod ffmpeg_session;
pub mod image_io;
pub mod paths;
pub mod raster_format;
pub mod shell;
pub mod text;

pub use error::{AppError, AppResult};
pub mod tools;
