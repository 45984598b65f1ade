//! Encoder tuning options: the x264 preset and tune names, and the
//! constant-rate-factor value with its narrow valid range.

use vstd::prelude::*;

use crate::numerals::{is_uint_literal, uint_value, parse_u8};

verus! {

/// The x264 encoder speed/quality presets.
#[derive(Debug, Clone, Copy, PartialEq, Eq, Hash, PartialOrd, Ord, Structural)]
pub enum X264Preset {
    Ultrafast,
    Superfast,
    Veryfast,
    Faster,
    Fast,
    Medium,
    Slow,
    Slower,
    Veryslow,
}

/// The name the encoder knows a preset by.
pub open spec fn preset_label(p: X264Preset) -> Seq<char> {
    match p {
        X264Preset::Ultrafast => "ultrafast"@,
        X264Preset::Superfast => "superfast"@,
        X264Preset::Veryfast => "veryfast"@,
        X264Preset::Faster => "faster"@,
        X264Preset::Fast => "fast"@,
        X264Preset::Medium => "medium"@,
        X264Preset::Slow => "slow"@,
        X264Preset::Slower => "slower"@,
        X264Preset::Veryslow => "veryslow"@,
    }
}

impl X264Preset {
    /// The preset's name, as handed to the encoder's command line.
    pub fn label(&self) -> (r: String)
        ensures
            r@ == preset_label(*self),
    {
        match self {
            X264Preset::Ultrafast => String::from_str("ultrafast"),
            X264Preset::Superfast => String::from_str("superfast"),
            X264Preset::Veryfast => String::from_str("veryfast"),
            X264Preset::Faster => String::from_str("faster"),
            X264Preset::Fast => String::from_str("fast"),
            X264Preset::Medium => String::from_str("medium"),
            X264Preset::Slow => String::from_str("slow"),
            X264Preset::Slower => String::from_str("slower"),
            X264Preset::Veryslow => String::from_str("veryslow"),
        }
    }
}

/// The x264 encoder tunings.
#[derive(Debug, Clone, Copy, PartialEq, Eq, Hash, PartialOrd, Ord, Structural)]
pub enum X264Tune {
    Film,
    Animation,
    Grain,
    StillImage,
    FastDecode,
    ZeroLatency,
}

/// The name the encoder knows a tuning by.
pub open spec fn tune_label(t: X264Tune) -> Seq<char> {
    match t {
        X264Tune::Film => "film"@,
        X264Tune::Animation => "animation"@,
        X264Tune::Grain => "grain"@,
        X264Tune::StillImage => "stillimage"@,
        X264Tune::FastDecode => "fastdecode"@,
        X264Tune::ZeroLatency => "zerolatency"@,
    }
}

impl X264Tune {
    /// The tuning's name, as handed to the encoder's command line.
    pub fn label(&self) -> (r: String)
        ensures
            r@ == tune_label(*self),
    {
        match self {
            X264Tune::Film => String::from_str("film"),
            X264Tune::Animation => String::from_str("animation"),
            X264Tune::Grain => String::from_str("grain"),
            X264Tune::StillImage => String::from_str("stillimage"),
            X264Tune::FastDecode => String::from_str("fastdecode"),
            X264Tune::ZeroLatency => String::from_str("zerolatency"),
        }
    }
}

/// The largest constant-rate-factor the encoder accepts.
pub const CRF_MAX: u8 = 51;

/// Why a constant-rate-factor string was rejected.
#[derive(Debug, Clone, Copy, PartialEq, Eq, Structural)]
pub enum CrfError {
    /// The text is no unsigned 8-bit number at all.
    NotANumber,
    /// The number lies outside the valid range.
    OutOfRange,
}

impl CrfError {
    /// The rejection, in words.
    pub fn describe(&self) -> (r: String)
        ensures
            *self is NotANumber ==> r@ == "crf is not a number"@,
            *self is OutOfRange ==> r@ == "crf out of range: valid range is 0 to 51"@,
    {
        match self {
            CrfError::NotANumber => String::from_str("crf is not a number"),
            CrfError::OutOfRange => String::from_str("crf out of range: valid range is 0 to 51"),
        }
    }
}

/// A constant rate factor: a number between zero and [`CRF_MAX`].
#[derive(Debug, Clone, Copy, PartialEq, Eq, Hash, PartialOrd, Ord, Structural)]
pub struct Crf(pub u8);

impl Crf {
    /// Reads a constant rate factor from its command-line text: first an
    /// unsigned 8-bit number, then within the valid range.
    pub fn parse(s: &str) -> (r: Result<Crf, CrfError>)
        ensures
            r is Ok <==> is_uint_literal(s@) && uint_value(s@) <= CRF_MAX,
            r is Ok ==> r->Ok_0.0 == uint_value(s@),
            r is Err ==> (r->Err_0 is NotANumber <==> !(is_uint_literal(s@) && uint_value(s@)
                <= u8::MAX)),
            r is Err ==> (r->Err_0 is OutOfRange <==> is_uint_literal(s@) && CRF_MAX
                < uint_value(s@) <= u8::MAX),
    {
        match parse_u8(s) {
            Some(v) => {
                if v <= CRF_MAX {
                    Ok(Crf(v))
                } else {
                    Err(CrfError::OutOfRange)
                }
            },
            None => Err(CrfError::NotANumber),
        }
    }
}

} // verus!
