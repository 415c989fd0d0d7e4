//! The integer side of the audio encoders: WAV bit depths, LAME's accepted
//! sample rates and bitrate ladder, and the channel gate in front of MP3.
//! (The sample conversion itself is floating point and stays outside.)

use vstd::prelude::*;
use crate::error::AppError;
use crate::text::{chars_of, dec_chars, dec_string, eq_ignore_case, eq_ignore_case_exec, push_all, push_str, string_of};

verus! {

/// WAV-only: sample bit depth. PCM 16/24 or 32-bit float.
#[derive(Clone, Copy, Debug, PartialEq, Eq, Structural)]
pub enum WavBitDepth {
    Bit16,
    Bit24,
    Bit32f,
}

/// Inclusive bitrate bounds for MP3 (kbps) that incoming values are clamped to.
pub const MP3_BITRATE_MIN: u32 = 96;
pub const MP3_BITRATE_MAX: u32 = 320;

/// Largest signed 24-bit sample.
pub const I24_MAX: i32 = 8388607;

/// LAME's accepted PCM sample rates (Hz).
pub const LAME_SUPPORTED_RATES: [u32; 9] = [8000, 11025, 12000, 16000, 22050, 24000, 32000, 44100, 48000];

/// The CBR bitrates LAME supports (kbps), ascending.
pub const LAME_BITRATE_LADDER: [u32; 8] = [96, 112, 128, 160, 192, 224, 256, 320];

pub open spec fn lame_rates() -> Seq<u32> {
    seq![8000u32, 11025, 12000, 16000, 22050, 24000, 32000, 44100, 48000]
}

pub open spec fn lame_ladder() -> Seq<u32> {
    seq![96u32, 112, 128, 160, 192, 224, 256, 320]
}

/// `(bits_per_sample, is_float)` written to the WAV header.
pub open spec fn wav_layout_of(d: WavBitDepth) -> (u16, bool) {
    match d {
        WavBitDepth::Bit16 => (16, false),
        WavBitDepth::Bit24 => (24, false),
        WavBitDepth::Bit32f => (32, true),
    }
}

/// `kbps` clamped to `[MP3_BITRATE_MIN, MP3_BITRATE_MAX]`.
pub open spec fn clamp_kbps(kbps: u32) -> int {
    if kbps < 96 {
        96
    } else if kbps > 320 {
        320
    } else {
        kbps as int
    }
}

pub open spec fn dist(a: int, b: int) -> int {
    if a >= b {
        a - b
    } else {
        b - a
    }
}

/// The ladder rung nearest to the clamped request; on a tie the lower rung.
pub open spec fn is_closest_rung(kbps: u32, i: int) -> bool {
    let c = clamp_kbps(kbps);
    &&& 0 <= i < lame_ladder().len()
    &&& forall|j: int| 0 <= j < i ==> dist(lame_ladder()[j] as int, c) > dist(lame_ladder()[i] as int, c)
    &&& forall|j: int| i < j < lame_ladder().len() ==> dist(lame_ladder()[j] as int, c) >= dist(
        lame_ladder()[i] as int,
        c,
    )
}

/// Text of the refusal of a sample rate outside LAME's set.
pub open spec fn mp3_rate_detail(rate: u32) -> Seq<char> {
    "mp3 encode: source sample rate "@ + dec_string(rate as nat)
        + " Hz is not in LAME's accepted set ([8000, 11025, 12000, 16000, 22050, 24000, 32000, 44100, 48000]); resampling is not implemented in v1"@
}

/// Text of the refusal of a channel count LAME cannot take.
pub open spec fn mp3_channels_detail(channels: u16) -> Seq<char> {
    "mp3 encode: LAME supports 1 or 2 channels; buffer has "@ + dec_string(channels as nat)
        + ". Caller should downmix to mono or stereo first."@
}

/// FLAC's stream marker, `fLaC`.
pub open spec fn has_flac_magic(b: Seq<u8>) -> bool {
    b.len() >= 4 && b[0] == 0x66 && b[1] == 0x4c && b[2] == 0x61 && b[3] == 0x43
}

/// Whether a file goes to the FLAC decoder: its bytes start with the
/// FLAC marker or its extension says `flac` (ASCII case-insensitively).
pub fn routes_to_flac(source_ext: &str, bytes: &[u8]) -> (r: bool)
    ensures
        r == (has_flac_magic(bytes@) || eq_ignore_case(source_ext@, "flac"@)),
{
    let magic = bytes.len() >= 4 && bytes[0] == 0x66 && bytes[1] == 0x4c && bytes[2] == 0x61
        && bytes[3] == 0x43;
    let ext = chars_of(source_ext);
    let flac = chars_of("flac");
    magic || eq_ignore_case_exec(&ext, &flac)
}

impl WavBitDepth {
    /// Bits per sample and whether samples are IEEE floats.
    pub fn layout(self) -> (r: (u16, bool))
        ensures
            r == wav_layout_of(self),
    {
        match self {
            WavBitDepth::Bit16 => (16, false),
            WavBitDepth::Bit24 => (24, false),
            WavBitDepth::Bit32f => (32, true),
        }
    }
}

/// Accept a sample rate LAME takes; refuse any other with a message that
/// names the rate and the accepted set.
pub fn validate_mp3_sample_rate(rate: u32) -> (r: Result<(), AppError>)
    ensures
        lame_rates().contains(rate) ==> r is Ok,
        !lame_rates().contains(rate) ==> (r matches Err(AppError::ProcessingFailed { detail })
            && detail@ == mp3_rate_detail(rate)),
{
    let rates = LAME_SUPPORTED_RATES;
    assert(rates@ == lame_rates());
    let mut i: usize = 0;
    while i < 9
        invariant
            i <= 9,
            rates@ == lame_rates(),
            forall|k: int| 0 <= k < i ==> rates@[k] != rate,
        decreases 9 - i,
    {
        if rates[i] == rate {
            assert(lame_rates()[i as int] == rate);
            return Ok(());
        }
        i += 1;
    }
    assert(!lame_rates().contains(rate));
    let mut d = chars_of("mp3 encode: source sample rate ");
    push_all(&mut d, &dec_chars(rate as u64));
    push_str(
        &mut d,
        " Hz is not in LAME's accepted set ([8000, 11025, 12000, 16000, 22050, 24000, 32000, 44100, 48000]); resampling is not implemented in v1",
    );
    assert(d@ =~= mp3_rate_detail(rate));
    Err(AppError::ProcessingFailed { detail: string_of(d) })
}

/// Clamp `kbps` to the accepted bounds and snap it to the nearest LAME
/// bitrate (the lower one on a tie).
pub fn closest_lame_bitrate(kbps: u32) -> (r: u32)
    ensures
        exists|i: int| is_closest_rung(kbps, i) && r == lame_ladder()[i],
{
    let ladder = LAME_BITRATE_LADDER;
    assert(ladder@ == lame_ladder());
    let c: u32 = if kbps < MP3_BITRATE_MIN {
        MP3_BITRATE_MIN
    } else if kbps > MP3_BITRATE_MAX {
        MP3_BITRATE_MAX
    } else {
        kbps
    };
    let mut best: usize = 0;
    let mut best_d: u32 = if ladder[0] >= c { ladder[0] - c } else { c - ladder[0] };
    let mut i: usize = 1;
    while i < 8
        invariant
            1 <= i <= 8,
            ladder@ == lame_ladder(),
            c as int == clamp_kbps(kbps),
            best < i,
            best_d as int == dist(ladder@[best as int] as int, c as int),
            forall|j: int| 0 <= j < best ==> dist(lame_ladder()[j] as int, c as int) > best_d,
            forall|j: int| best < j < i ==> dist(lame_ladder()[j] as int, c as int) >= best_d,
        decreases 8 - i,
    {
        let d: u32 = if ladder[i] >= c { ladder[i] - c } else { c - ladder[i] };
        if d < best_d {
            best = i;
            best_d = d;
        }
        i += 1;
    }
    assert(is_closest_rung(kbps, best as int));
    ladder[best]
}

/// LAME takes one or two channels; refuse any other count.
pub fn check_mp3_channels(channels: u16) -> (r: Result<(), AppError>)
    ensures
        1 <= channels <= 2 ==> r is Ok,
        !(1 <= channels <= 2) ==> (r matches Err(AppError::ProcessingFailed { detail })
            && detail@ == mp3_channels_detail(channels)),
{
    if channels == 0 || channels > 2 {
        let mut d = chars_of("mp3 encode: LAME supports 1 or 2 channels; buffer has ");
        push_all(&mut d, &dec_chars(channels as u64));
        push_str(&mut d, ". Caller should downmix to mono or stereo first.");
        assert(d@ =~= mp3_channels_detail(channels));
        return Err(AppError::ProcessingFailed { detail: string_of(d) });
    }
    Ok(())
}

/// The refusal of a source's channel count that PCM buffers cannot hold:
/// `{label}: channel count {n} exceeds u16`, or `{label}: zero-channel
/// source`.
pub open spec fn channel_count_detail(label: Seq<char>, n: u64) -> Seq<char> {
    if n == 0 {
        label + ": zero-channel source"@
    } else {
        label + ": channel count "@ + dec_string(n as nat) + " exceeds u16"@
    }
}

/// A decoder's channel count as the `u16` PCM buffers carry: refused
/// (`UnsupportedFormat`, with `label` leading the detail) when it does not
/// fit or is zero.
pub fn pcm_channels(label: &str, n: u64) -> (r: Result<u16, AppError>)
    ensures
        1 <= n <= u16::MAX ==> r == Ok::<u16, AppError>(n as u16),
        !(1 <= n <= u16::MAX) ==> (r matches Err(AppError::UnsupportedFormat { detail }) && detail@
            == channel_count_detail(label@, n)),
{
    if n == 0 {
        let mut d = chars_of(label);
        push_str(&mut d, ": zero-channel source");
        return Err(AppError::UnsupportedFormat { detail: string_of(d) });
    }
    if n > 65535 {
        let mut d = chars_of(label);
        push_str(&mut d, ": channel count ");
        let digits = dec_chars(n);
        push_all(&mut d, &digits);
        push_str(&mut d, " exceeds u16");
        assert(d@ =~= channel_count_detail(label@, n));
        return Err(AppError::UnsupportedFormat { detail: string_of(d) });
    }
    Ok(n as u16)
}

/// The refusal a decoded stream declares no sample rate or no channel
/// layout with.
pub open spec fn missing_layout_detail(no_rate: bool) -> Seq<char> {
    if no_rate {
        "audio decode: source declares no sample rate"@
    } else {
        "audio decode: source declares no channel layout"@
    }
}

/// The sample rate and channel count of a decoded stream from what its
/// codec parameters declare: a missing rate, a missing channel layout, or
/// a channel count that is zero or beyond `u16` is refused with
/// `UnsupportedFormat`, checked in that order.
pub fn declared_pcm_format(sample_rate: Option<u32>, channels: Option<u64>) -> (r: Result<(u32, u16), AppError>)
    ensures
        sample_rate is None ==> (r matches Err(AppError::UnsupportedFormat { detail }) && detail@
            == missing_layout_detail(true)),
        sample_rate is Some && channels is None ==> (r matches Err(
            AppError::UnsupportedFormat { detail },
        ) && detail@ == missing_layout_detail(false)),
        sample_rate is Some && channels is Some && 1 <= channels->0 <= u16::MAX ==> r == Ok::<
            (u32, u16),
            AppError,
        >((sample_rate->0, channels->0 as u16)),
        sample_rate is Some && channels is Some && !(1 <= channels->0 <= u16::MAX) ==> (r matches Err(
            AppError::UnsupportedFormat { detail },
        ) && detail@ == channel_count_detail("audio decode"@, channels->0)),
{
    let rate = match sample_rate {
        Some(r) => r,
        None => {
            return Err(
                AppError::UnsupportedFormat {
                    detail: string_of(chars_of("audio decode: source declares no sample rate")),
                },
            );
        },
    };
    let n = match channels {
        Some(n) => n,
        None => {
            return Err(
                AppError::UnsupportedFormat {
                    detail: string_of(chars_of("audio decode: source declares no channel layout")),
                },
            );
        },
    };
    let ch = pcm_channels("audio decode", n)?;
    Ok((rate, ch))
}

/// The `AppError` of a decoder failure of the given class with the given
/// text: an unsupported stream or a decode failure is `UnsupportedFormat`,
/// any other (I/O, seek, limit, reset) is `ProcessingFailed`.
pub fn app_err_of_decode_failure(unsupported_or_decode: bool, text: String) -> (e: AppError)
    ensures
        unsupported_or_decode ==> e == (AppError::UnsupportedFormat { detail: text }),
        !unsupported_or_decode ==> e == (AppError::ProcessingFailed { detail: text }),
{
    if unsupported_or_decode {
        AppError::UnsupportedFormat { detail: text }
    } else {
        AppError::ProcessingFailed { detail: text }
    }
}

} // verus!
