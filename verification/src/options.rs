//! Options chosen on the command line: diagnostic verbosity, and the
//! `WIDTHxHEIGHT` dimension syntax.

use vstd::prelude::*;

use crate::numerals::{is_uint_literal, uint_value, parse_u32};

verus! {

/// How much diagnostic output the caller asked for.
#[derive(Debug, Clone, Copy, PartialEq, Eq, Structural)]
pub enum DebugLevel {
    Off,
    Terse,
    Extra,
    Full,
}

/// The name a level is chosen by on the command line.
pub open spec fn debug_level_label(l: DebugLevel) -> Seq<char> {
    match l {
        DebugLevel::Off => "off"@,
        DebugLevel::Terse => "terse"@,
        DebugLevel::Extra => "extra"@,
        DebugLevel::Full => "full"@,
    }
}

impl DebugLevel {
    /// Whether any diagnostic output is enabled at all.
    pub fn enabled(&self) -> (r: bool)
        ensures
            r == !(*self is Off),
    {
        *self != DebugLevel::Off
    }

    /// The level's name, as written on the command line.
    pub fn label(&self) -> (r: String)
        ensures
            r@ == debug_level_label(*self),
    {
        match self {
            DebugLevel::Off => String::from_str("off"),
            DebugLevel::Terse => String::from_str("terse"),
            DebugLevel::Extra => String::from_str("extra"),
            DebugLevel::Full => String::from_str("full"),
        }
    }
}

/// Why a dimension string was rejected.
#[derive(Debug, Clone, Copy, PartialEq, Eq, Structural)]
pub enum ResolutionError {
    /// Not two parts around a single `x`.
    Syntax,
    /// The part before the `x` is no unsigned 32-bit number.
    Width,
    /// The part after the `x` is no unsigned 32-bit number.
    Height,
}

impl ResolutionError {
    /// The rejection, in words.
    pub fn describe(&self) -> (r: String)
        ensures
            *self is Syntax ==> r@
                == "the dimension must be specified as `WIDTHxHEIGHT` (example: `1920x1080`)"@,
            *self is Width ==> r@ == "width is not an integer"@,
            *self is Height ==> r@ == "height is not an integer"@,
    {
        match self {
            ResolutionError::Syntax => String::from_str(
                "the dimension must be specified as `WIDTHxHEIGHT` (example: `1920x1080`)",
            ),
            ResolutionError::Width => String::from_str("width is not an integer"),
            ResolutionError::Height => String::from_str("height is not an integer"),
        }
    }
}

/// The string holds exactly one `x`.
pub open spec fn single_x(s: Seq<char>) -> bool {
    (exists|i: int| 0 <= i < s.len() && s[i] == 'x') && (forall|i: int, j: int|
        0 <= i < s.len() && 0 <= j < s.len() && s[i] == 'x' && s[j] == 'x' ==> i == j)
}

/// Where the one `x` stands.
pub open spec fn x_index(s: Seq<char>) -> int {
    choose|i: int| 0 <= i < s.len() && s[i] == 'x'
}

/// What a dimension string denotes: the width and height around the one
/// `x`, or the first reason it is rejected.
pub open spec fn resolution_spec(s: Seq<char>) -> Result<(u32, u32), ResolutionError> {
    if !single_x(s) {
        Err(ResolutionError::Syntax)
    } else {
        let ws = s.take(x_index(s));
        let hs = s.skip(x_index(s) + 1);
        if !(is_uint_literal(ws) && uint_value(ws) <= u32::MAX) {
            Err(ResolutionError::Width)
        } else if !(is_uint_literal(hs) && uint_value(hs) <= u32::MAX) {
            Err(ResolutionError::Height)
        } else {
            Ok(((uint_value(ws) as u32), (uint_value(hs) as u32)))
        }
    }
}

/// Reads a `WIDTHxHEIGHT` dimension string.
pub fn parse_resolution(s: &str) -> (r: Result<(u32, u32), ResolutionError>)
    ensures
        r == resolution_spec(s@),
{
    let n: usize = s.unicode_len();
    let mut i: usize = 0;
    while i < n && s.get_char(i) != 'x'
        invariant
            0 <= i <= n,
            n == s@.len(),
            forall|k: int| 0 <= k < i ==> s@[k] != 'x',
        decreases n - i,
    {
        i = i + 1;
    }
    if i == n {
        proof {
            if single_x(s@) {
                let w = choose|w: int| 0 <= w < s@.len() && s@[w] == 'x';
                assert(s@[w] != 'x');
            }
        }
        return Err(ResolutionError::Syntax);
    }
    let mut j: usize = i + 1;
    while j < n && s.get_char(j) != 'x'
        invariant
            i < j <= n,
            n == s@.len(),
            forall|k: int| i < k < j ==> s@[k] != 'x',
        decreases n - j,
    {
        j = j + 1;
    }
    if j < n {
        proof {
            assert(s@[i as int] == 'x');
            assert(s@[j as int] == 'x');
            assert(!single_x(s@));
        }
        return Err(ResolutionError::Syntax);
    }
    proof {
        assert(single_x(s@)) by {
            assert(s@[i as int] == 'x');
            assert(forall|k: int| 0 <= k < s@.len() && s@[k] == 'x' ==> k == i);
        }
        assert(x_index(s@) == i) by {
            let w = x_index(s@);
            assert(0 <= w < s@.len() && s@[w] == 'x');
        }
    }
    let ws = s.substring_char(0, i);
    let hs = s.substring_char(i + 1, n);
    proof {
        assert(ws@ == s@.take(i as int)) by {
            assert(s@.subrange(0, i as int) =~= s@.take(i as int));
        }
        assert(hs@ == s@.skip(i + 1)) by {
            assert(s@.subrange(i + 1, n as int) =~= s@.skip(i + 1));
        }
    }
    let w = match parse_u32(ws) {
        Some(w) => w,
        None => {
            return Err(ResolutionError::Width);
        },
    };
    let h = match parse_u32(hs) {
        Some(h) => h,
        None => {
            return Err(ResolutionError::Height);
        },
    };
    Ok((w, h))
}

} // verus!
