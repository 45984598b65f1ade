use vidgen::ffmpeg::Ffmpeg;
use vidgen::numerals::{parse_u64, u64_to_dec};
use vidgen::options::{parse_resolution, DebugLevel, ResolutionError};
use vidgen::x264::{Crf, CrfError, X264Preset, X264Tune};

#[test]
fn resolutions_parse_width_and_height() {
    assert_eq!(parse_resolution("1920x1080"), Ok((1920, 1080)));
    assert_eq!(parse_resolution("1x1"), Ok((1, 1)));
    assert_eq!(parse_resolution("0x0"), Ok((0, 0)));
    assert_eq!(parse_resolution("4294967295x1"), Ok((u32::MAX, 1)));
}

#[test]
fn resolution_needs_exactly_one_x() {
    assert_eq!(parse_resolution("1920"), Err(ResolutionError::Syntax));
    assert_eq!(parse_resolution(""), Err(ResolutionError::Syntax));
    assert_eq!(parse_resolution("10x10x10"), Err(ResolutionError::Syntax));
    assert_eq!(
        ResolutionError::Syntax.describe(),
        "the dimension must be specified as `WIDTHxHEIGHT` (example: `1920x1080`)"
    );
}

#[test]
fn resolution_rejects_non_numeric_parts() {
    assert_eq!(parse_resolution("ax1080"), Err(ResolutionError::Width));
    assert_eq!(parse_resolution("x1080"), Err(ResolutionError::Width));
    assert_eq!(parse_resolution("1920xb"), Err(ResolutionError::Height));
    assert_eq!(parse_resolution("1920x"), Err(ResolutionError::Height));
    assert_eq!(parse_resolution("4294967296x1"), Err(ResolutionError::Width));
    assert_eq!(parse_resolution("1x4294967296"), Err(ResolutionError::Height));
    assert_eq!(ResolutionError::Width.describe(), "width is not an integer");
    assert_eq!(ResolutionError::Height.describe(), "height is not an integer");
}

#[test]
fn crf_accepts_the_valid_range_only() {
    assert_eq!(Crf::parse("0"), Ok(Crf(0)));
    assert_eq!(Crf::parse("23"), Ok(Crf(23)));
    assert_eq!(Crf::parse("51"), Ok(Crf(51)));
    assert_eq!(Crf::parse("+51"), Ok(Crf(51)));
    assert_eq!(Crf::parse("052"), Err(CrfError::OutOfRange));
    assert_eq!(Crf::parse("255"), Err(CrfError::OutOfRange));
    assert_eq!(Crf::parse("256"), Err(CrfError::NotANumber));
    assert_eq!(Crf::parse("-1"), Err(CrfError::NotANumber));
    assert_eq!(Crf::parse(""), Err(CrfError::NotANumber));
    assert_eq!(Crf::parse("12.5"), Err(CrfError::NotANumber));
}

#[test]
fn crf_errors_speak_as_the_cli_does() {
    assert_eq!(CrfError::NotANumber.describe(), "crf is not a number");
    assert_eq!(
        CrfError::OutOfRange.describe(),
        "crf out of range: valid range is 0 to 51"
    );
}

#[test]
fn unsigned_parsing_follows_the_standard_grammar() {
    assert_eq!(parse_u64("0"), Some(0));
    assert_eq!(parse_u64("007"), Some(7));
    assert_eq!(parse_u64("+7"), Some(7));
    assert_eq!(parse_u64("18446744073709551615"), Some(u64::MAX));
    assert_eq!(parse_u64("18446744073709551616"), None);
    assert_eq!(parse_u64(""), None);
    assert_eq!(parse_u64("+"), None);
    assert_eq!(parse_u64("1 "), None);
    assert_eq!(parse_u64("-1"), None);
}

#[test]
fn decimal_rendering_is_canonical() {
    assert_eq!(u64_to_dec(0), "0");
    assert_eq!(u64_to_dec(10), "10");
    assert_eq!(u64_to_dec(907), "907");
    assert_eq!(u64_to_dec(u64::MAX), "18446744073709551615");
}

#[test]
fn encoder_paths_join_under_the_override_directory() {
    assert_eq!(Ffmpeg::new().ffmpeg(), "ffmpeg");
    assert_eq!(Ffmpeg::new().ffprobe(), "ffprobe");
    let f = Ffmpeg::new_with_path("/opt/ff".to_string());
    assert_eq!(f.ffmpeg(), "/opt/ff/ffmpeg");
    assert_eq!(f.ffprobe(), "/opt/ff/ffprobe");
    let g = Ffmpeg::new_with_path("/opt/ff/".to_string());
    assert_eq!(g.ffmpeg(), "/opt/ff/ffmpeg");
    let h = Ffmpeg::new_with_path(String::new());
    assert_eq!(h.ffprobe(), "ffprobe");
}

#[test]
fn debug_levels_enable_everything_but_off() {
    assert!(!DebugLevel::Off.enabled());
    assert!(DebugLevel::Terse.enabled());
    assert!(DebugLevel::Extra.enabled());
    assert!(DebugLevel::Full.enabled());
}

#[test]
fn debug_levels_carry_their_cli_names() {
    assert_eq!(DebugLevel::Off.label(), "off");
    assert_eq!(DebugLevel::Terse.label(), "terse");
    assert_eq!(DebugLevel::Extra.label(), "extra");
    assert_eq!(DebugLevel::Full.label(), "full");
}

#[test]
fn x264_labels_match_the_encoder_names() {
    assert_eq!(X264Preset::Ultrafast.label(), "ultrafast");
    assert_eq!(X264Preset::Medium.label(), "medium");
    assert_eq!(X264Preset::Veryslow.label(), "veryslow");
    assert_eq!(X264Tune::StillImage.label(), "stillimage");
    assert_eq!(X264Tune::ZeroLatency.label(), "zerolatency");
    assert_eq!(X264Tune::Film.label(), "film");
}
