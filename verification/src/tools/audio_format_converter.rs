//! Audio Format Converter: option types, output extensions and the
//! per-file outcome types. Decoding and encoding are floating point and
//! happen outside the verified library.

use vstd::prelude::*;
use crate::error::AppError;
use crate::text::{chars_of, push_str, string_of};
pub use crate::audio_codecs::WavBitDepth;
pub use crate::tools::steps::SkippedFile;

verus! {

/// Output audio format.
#[derive(Clone, Copy, Debug, PartialEq, Eq, Structural)]
pub enum TargetFormat {
    Wav,
    Flac,
    Mp3,
    Ogg,
}

/// Channel policy: keep the source layout, or force mono or stereo.
#[derive(Clone, Copy, Debug, PartialEq, Eq, Structural)]
pub enum ChannelMode {
    Source,
    Mono,
    Stereo,
}

/// One converted file: its bytes and any non-fatal notes.
#[derive(Clone, Debug, PartialEq, Eq)]
pub struct EncodedFile {
    pub bytes: Vec<u8>,
    pub warnings: Vec<String>,
}

/// Result of a completed batch.
#[derive(Clone, Debug, PartialEq, Eq)]
pub struct JobResult {
    pub success_count: u32,
    pub skip_count: u32,
    pub skipped: Vec<SkippedFile>,
    pub first_output_path: Option<String>,
    pub duration_ms: u64,
}

pub open spec fn extension_of(t: TargetFormat) -> Seq<char> {
    match t {
        TargetFormat::Wav => "wav"@,
        TargetFormat::Flac => "flac"@,
        TargetFormat::Mp3 => "mp3"@,
        TargetFormat::Ogg => "ogg"@,
    }
}

/// Variant name as `Debug` prints it.
pub open spec fn debug_name_of(t: TargetFormat) -> Seq<char> {
    match t {
        TargetFormat::Wav => "Wav"@,
        TargetFormat::Flac => "Flac"@,
        TargetFormat::Mp3 => "Mp3"@,
        TargetFormat::Ogg => "Ogg"@,
    }
}

pub open spec fn no_encoder_detail(t: TargetFormat) -> Seq<char> {
    "audio_format_converter::convert_one: encoder for "@ + debug_name_of(t)
        + " not yet implemented"@
}

impl TargetFormat {
    /// File extension (no dot) of outputs.
    pub fn extension(self) -> (r: &'static str)
        ensures
            r@ == extension_of(self),
    {
        match self {
            TargetFormat::Wav => "wav",
            TargetFormat::Flac => "flac",
            TargetFormat::Mp3 => "mp3",
            TargetFormat::Ogg => "ogg",
        }
    }

    /// Variant name as `Debug` prints it.
    pub fn debug_name(self) -> (r: &'static str)
        ensures
            r@ == debug_name_of(self),
    {
        match self {
            TargetFormat::Wav => "Wav",
            TargetFormat::Flac => "Flac",
            TargetFormat::Mp3 => "Mp3",
            TargetFormat::Ogg => "Ogg",
        }
    }
}

/// The refusal given for a target whose encoder is not wired in yet (every
/// target, for now): a decoded file still fails here.
pub fn encoder_not_wired(target: TargetFormat) -> (e: AppError)
    ensures
        e matches AppError::ProcessingFailed { detail } && detail@ == no_encoder_detail(target),
{
    let mut d = chars_of("audio_format_converter::convert_one: encoder for ");
    push_str(&mut d, target.debug_name());
    push_str(&mut d, " not yet implemented");
    assert(d@ =~= no_encoder_detail(target));
    AppError::ProcessingFailed { detail: string_of(d) }
}

/// The refusal of empty input bytes.
pub fn empty_input_error() -> (e: AppError)
    ensures
        e matches AppError::UnsupportedFormat { detail } && detail@ == "audio decode: empty input"@,
{
    AppError::UnsupportedFormat { detail: string_of(chars_of("audio decode: empty input")) }
}

} // verus!
