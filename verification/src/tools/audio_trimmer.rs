//! Audio Trimmer: output naming (`{stem}_trimmed.{ext}`), the choice of
//! encoder by source extension (the output keeps the source format), and
//! the defaults each encoder is given. Sample work is floating point and
//! happens outside the verified library.

use vstd::prelude::*;
use crate::audio_codecs::WavBitDepth;
use crate::error::AppError;
use crate::paths::{lemma_rename_differs, lemma_suffixed_differs, sibling_chars, sibling_of, suffixed_name, suffixed_name_chars};
use crate::text::{chars_of, push_str, str_eq, string_of};

verus! {

/// Default WAV bit depth of a re-encoded trim.
pub const WAV_DEFAULT_BIT_DEPTH: WavBitDepth = WavBitDepth::Bit16;
/// Default MP3 CBR bitrate (kbps) of a re-encoded trim.
pub const MP3_DEFAULT_BITRATE_KBPS: u32 = 192;
/// FLAC compression level handed to the encoder.
pub const FLAC_DEFAULT_COMPRESSION: u32 = 5;

/// The encoder a trim goes through, picked by source extension.
#[derive(Clone, Copy, Debug, PartialEq, Eq, Structural)]
pub enum EncoderLane {
    Wav,
    Flac,
    /// MP3; the sample rate must pass LAME's gate first.
    Mp3,
    OggVorbis,
}

/// Result of a completed trim.
#[derive(Clone, Debug, PartialEq, Eq)]
pub struct JobResult {
    /// Where the trim was written (after collision handling).
    pub output: String,
    /// Per-file notes (such as a fade overlap clamp).
    pub warnings: Vec<String>,
    pub duration_ms: u64,
}

pub open spec fn lane_of(ext: Seq<char>) -> Option<EncoderLane> {
    if ext == "wav"@ {
        Some(EncoderLane::Wav)
    } else if ext == "flac"@ {
        Some(EncoderLane::Flac)
    } else if ext == "mp3"@ {
        Some(EncoderLane::Mp3)
    } else if ext == "ogg"@ || ext == "oga"@ {
        Some(EncoderLane::OggVorbis)
    } else {
        None
    }
}

pub open spec fn no_encoder_detail(ext: Seq<char>) -> Seq<char> {
    "audio trim: source extension '"@ + ext
        + "' has no encoder (supported: wav/mp3/flac/ogg/oga)"@
}

/// `{stem}_trimmed.{ext}` next to the source, before collision handling.
pub open spec fn trimmed_output_path(source: Seq<char>) -> Seq<char> {
    sibling_of(source, suffixed_name(source, "_trimmed"@))
}

/// The encoder for a (lower-cased) source extension, or the refusal of an
/// extension with none.
pub fn encoder_for_source(source_ext: &str) -> (r: Result<EncoderLane, AppError>)
    ensures
        lane_of(source_ext@) matches Some(l) ==> r == Ok::<EncoderLane, AppError>(l),
        lane_of(source_ext@) is None ==> (r matches Err(AppError::UnsupportedFormat { detail })
            && detail@ == no_encoder_detail(source_ext@)),
{
    if str_eq(source_ext, "wav") {
        Ok(EncoderLane::Wav)
    } else if str_eq(source_ext, "flac") {
        Ok(EncoderLane::Flac)
    } else if str_eq(source_ext, "mp3") {
        Ok(EncoderLane::Mp3)
    } else if str_eq(source_ext, "ogg") || str_eq(source_ext, "oga") {
        Ok(EncoderLane::OggVorbis)
    } else {
        let mut d = chars_of("audio trim: source extension '");
        push_str(&mut d, source_ext);
        push_str(&mut d, "' has no encoder (supported: wav/mp3/flac/ogg/oga)");
        assert(d@ =~= no_encoder_detail(source_ext@));
        Err(AppError::UnsupportedFormat { detail: string_of(d) })
    }
}

/// `{stem}_trimmed.{ext}` next to `source`, before collision handling.
pub fn derive_output_path(source: &str) -> (r: String)
    ensures
        r@ == trimmed_output_path(source@),
{
    let v = chars_of(source);
    let name = suffixed_name_chars(&v, "_trimmed");
    string_of(sibling_chars(&v, &name))
}

/// The trimmed file never lands on its source, even before collision
/// handling: the `_trimmed` suffix changes the file name.
pub proof fn lemma_output_differs_from_source(source: Seq<char>)
    ensures
        trimmed_output_path(source) != source,
{
    reveal_strlit("_trimmed");
    lemma_suffixed_differs(source, "_trimmed"@);
    lemma_rename_differs(source, suffixed_name(source, "_trimmed"@));
}

} // verus!
