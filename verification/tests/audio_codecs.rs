use multitool_core::audio_codecs::{app_err_of_decode_failure, declared_pcm_format, pcm_channels};
use multitool_core::audio_codecs::{
    check_mp3_channels, closest_lame_bitrate, validate_mp3_sample_rate, WavBitDepth,
    LAME_SUPPORTED_RATES,
};
use multitool_core::AppError;

#[test]
fn validate_mp3_sample_rate_accepts_44100_and_48000() {
    assert!(validate_mp3_sample_rate(44100).is_ok());
    assert!(validate_mp3_sample_rate(48000).is_ok());
}

#[test]
fn validate_mp3_sample_rate_rejects_96000_with_clear_message() {
    match validate_mp3_sample_rate(96000) {
        Err(AppError::ProcessingFailed { detail }) => {
            assert!(
                detail.contains("96000") && detail.contains("LAME"),
                "expected detail referencing 96000 + LAME, got {detail}"
            );
        }
        other => panic!("expected ProcessingFailed, got {other:?}"),
    }
}

#[test]
fn lame_supported_rates_set_is_non_empty_and_contains_common_rates() {
    assert!(LAME_SUPPORTED_RATES.contains(&44100));
    assert!(LAME_SUPPORTED_RATES.contains(&48000));
    assert!(!LAME_SUPPORTED_RATES.is_empty());
}

#[test]
fn mp3_rate_refusal_lists_the_accepted_set_verbatim() {
    match validate_mp3_sample_rate(7) {
        Err(AppError::ProcessingFailed { detail }) => assert_eq!(
            detail,
            "mp3 encode: source sample rate 7 Hz is not in LAME's accepted set ([8000, 11025, 12000, 16000, 22050, 24000, 32000, 44100, 48000]); resampling is not implemented in v1"
        ),
        other => panic!("expected ProcessingFailed, got {other:?}"),
    }
    for rate in LAME_SUPPORTED_RATES {
        assert!(validate_mp3_sample_rate(rate).is_ok());
    }
}

#[test]
fn bitrate_is_clamped_then_snapped_to_the_ladder() {
    assert_eq!(closest_lame_bitrate(0), 96);
    assert_eq!(closest_lame_bitrate(96), 96);
    assert_eq!(closest_lame_bitrate(100), 96);
    assert_eq!(closest_lame_bitrate(104), 96); // tie 96/112 → lower rung
    assert_eq!(closest_lame_bitrate(105), 112);
    assert_eq!(closest_lame_bitrate(190), 192);
    assert_eq!(closest_lame_bitrate(240), 224); // tie 224/256 → lower rung
    assert_eq!(closest_lame_bitrate(300), 320);
    assert_eq!(closest_lame_bitrate(u32::MAX), 320);
}

#[test]
fn mp3_channel_gate_accepts_mono_and_stereo_only() {
    assert!(check_mp3_channels(1).is_ok());
    assert!(check_mp3_channels(2).is_ok());
    match check_mp3_channels(6) {
        Err(AppError::ProcessingFailed { detail }) => assert_eq!(
            detail,
            "mp3 encode: LAME supports 1 or 2 channels; buffer has 6. Caller should downmix to mono or stereo first."
        ),
        other => panic!("expected ProcessingFailed, got {other:?}"),
    }
    assert!(check_mp3_channels(0).is_err());
}

#[test]
fn wav_layouts_per_bit_depth() {
    assert_eq!(WavBitDepth::Bit16.layout(), (16, false));
    assert_eq!(WavBitDepth::Bit24.layout(), (24, false));
    assert_eq!(WavBitDepth::Bit32f.layout(), (32, true));
}

#[test]
fn declared_pcm_format_checks_rate_then_layout_then_count() {
    assert_eq!(declared_pcm_format(Some(44_100), Some(2)), Ok((44_100, 2)));
    let detail = |r: Result<(u32, u16), AppError>| match r {
        Err(AppError::UnsupportedFormat { detail }) => detail,
        other => panic!("{other:?}"),
    };
    assert_eq!(detail(declared_pcm_format(None, None)), "audio decode: source declares no sample rate");
    assert_eq!(detail(declared_pcm_format(Some(8000), None)), "audio decode: source declares no channel layout");
    assert_eq!(detail(declared_pcm_format(Some(8000), Some(0))), "audio decode: zero-channel source");
    assert_eq!(detail(declared_pcm_format(Some(8000), Some(70_000))), "audio decode: channel count 70000 exceeds u16");
    assert_eq!(pcm_channels("flac decode", 65_535), Ok(65_535));
    match pcm_channels("flac decode", 0) {
        Err(AppError::UnsupportedFormat { detail }) => assert_eq!(detail, "flac decode: zero-channel source"),
        other => panic!("{other:?}"),
    }
}

#[test]
fn decoder_failures_are_classed() {
    assert_eq!(app_err_of_decode_failure(true, "bad".into()), AppError::UnsupportedFormat { detail: "bad".into() });
    assert_eq!(app_err_of_decode_failure(false, "io".into()), AppError::ProcessingFailed { detail: "io".into() });
}
