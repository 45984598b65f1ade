//! The frame-file naming grammar: one or more decimal digits, a dot, then
//! an extension of three or four word characters, found anywhere in the
//! filename (earliest occurrence wins).  The digit group is the frame id.
//!
//! Names that do not contain such a group, or whose digit group denotes a
//! value beyond `u64`, yield no frame id and are skipped by the indexer.

use vstd::prelude::*;

use crate::numerals::{all_digits, dec_value, is_ascii_digit, is_uint_literal, uint_digits,
    uint_value, parse_u64};

verus! {

/// A word character: an ASCII letter, digit, or underscore.
pub open spec fn is_word_char(c: char) -> bool {
    is_ascii_digit(c) || (65 <= c as int && c as int <= 90) || (97 <= c as int && c as int
        <= 122) || c == '_'
}

/// The end of the run of digits that starts at `i`: the first position at
/// or after `i` holding no digit (or the end of the name).
pub open spec fn digit_run_end(s: Seq<char>, i: int) -> int
    decreases s.len() - i,
{
    if i < 0 || i >= s.len() || !is_ascii_digit(s[i]) {
        i
    } else {
        digit_run_end(s, i + 1)
    }
}

/// The naming grammar matches at position `i`: digits from `i` up to the
/// run's end, then a dot, then at least three word characters.
pub open spec fn match_at(s: Seq<char>, i: int) -> bool {
    let j = digit_run_end(s, i);
    &&& 0 <= i < s.len()
    &&& is_ascii_digit(s[i])
    &&& j < s.len()
    &&& s[j] == '.'
    &&& j + 3 < s.len()
    &&& is_word_char(s[j + 1])
    &&& is_word_char(s[j + 2])
    &&& is_word_char(s[j + 3])
}

/// Some position of `s` matches the naming grammar.
pub open spec fn has_frame_match(s: Seq<char>) -> bool {
    exists|i: int| match_at(s, i)
}

/// `i` is the earliest matching position of `s`.
pub open spec fn is_first_match(s: Seq<char>, i: int) -> bool {
    match_at(s, i) && forall|k: int| 0 <= k < i ==> !match_at(s, k)
}

/// The earliest matching position of `s`.
pub open spec fn first_match(s: Seq<char>) -> int {
    choose|i: int| is_first_match(s, i)
}

/// The digit group of the earliest match.
pub open spec fn frame_digits(s: Seq<char>) -> Seq<char> {
    s.subrange(first_match(s), digit_run_end(s, first_match(s)))
}

/// The value the digit group denotes.
pub open spec fn frame_id_value(s: Seq<char>) -> int {
    dec_value(frame_digits(s))
}

/// The name yields a frame id: the grammar matches somewhere, and the
/// digit group of the earliest match fits a `u64`.
pub open spec fn yields_frame_id(s: Seq<char>) -> bool {
    has_frame_match(s) && frame_id_value(s) <= u64::MAX
}

/// At most one position is the earliest match.
pub proof fn lemma_first_match_unique(s: Seq<char>, a: int, b: int)
    requires
        is_first_match(s, a),
        is_first_match(s, b),
    ensures
        a == b,
{
    if a < b {
        assert(!match_at(s, a));
    }
    if b < a {
        assert(!match_at(s, b));
    }
}

/// The digit run from `i` ends exactly at `j` when `[i, j)` holds digits
/// only and `j` holds none.
proof fn lemma_digit_run_end_is(s: Seq<char>, i: int, j: int)
    requires
        0 <= i <= j <= s.len(),
        forall|k: int| i <= k < j ==> is_ascii_digit(#[trigger] s[k]),
        j == s.len() || !is_ascii_digit(s[j]),
    ensures
        digit_run_end(s, i) == j,
    decreases j - i,
{
    if i < j {
        assert(is_ascii_digit(s[i]));
        lemma_digit_run_end_is(s, i + 1, j);
    }
}

/// Positions inside a digit run share the run's end, so none of them can
/// match once the run's end fails the grammar; and the run's end itself
/// holds no digit.  Used to skip a failed run wholesale.
proof fn lemma_run_positions_share_end(s: Seq<char>, i: int, j: int, k: int)
    requires
        0 <= i <= k < j <= s.len(),
        forall|m: int| i <= m < j ==> is_ascii_digit(#[trigger] s[m]),
        j == s.len() || !is_ascii_digit(s[j]),
    ensures
        digit_run_end(s, k) == j,
{
    lemma_digit_run_end_is(s, k, j);
}

/// Reads the frame id from a filename: the digit group of the earliest
/// grammar match, if the name has one and the group fits a `u64`.
pub fn frame_id_of_name(s: &str) -> (r: Option<u64>)
    ensures
        r is Some <==> yields_frame_id(s@),
        r is Some ==> is_first_match(s@, first_match(s@)) && r->0 == frame_id_value(s@),
{
    let n: usize = s.unicode_len();
    let mut i: usize = 0;
    while i < n
        invariant
            0 <= i <= n,
            n == s@.len(),
            forall|k: int| 0 <= k < i ==> !match_at(s@, k),
        decreases n - i,
    {
        let c = s.get_char(i);
        if !exec_is_digit(c) {
            assert(!match_at(s@, i as int));
            i = i + 1;
            continue;
        }
        // Find the end of the digit run that starts here.
        let mut j: usize = i;
        while j < n && exec_is_digit(s.get_char(j))
            invariant
                i <= j <= n,
                n == s@.len(),
                forall|m: int| i <= m < j ==> is_ascii_digit(#[trigger] s@[m]),
            decreases n - j,
        {
            j = j + 1;
        }
        proof {
            lemma_digit_run_end_is(s@, i as int, j as int);
        }
        let tail_ok = j < n && s.get_char(j) == '.' && n - j > 3 && exec_is_word(
            s.get_char(j + 1),
        ) && exec_is_word(s.get_char(j + 2)) && exec_is_word(s.get_char(j + 3));
        if tail_ok {
            assert(match_at(s@, i as int));
            assert(is_first_match(s@, i as int));
            proof {
                lemma_first_match_unique(s@, i as int, first_match(s@));
            }
            let group = s.substring_char(i, j);
            let r = parse_u64(group);
            proof {
                assert(group@ == frame_digits(s@));
                assert(group@.len() > 0);
                assert(is_ascii_digit(group@[0]));
                assert(group@[0] != '+');
                assert(all_digits(group@)) by {
                    assert(forall|m: int|
                        0 <= m < group@.len() ==> is_ascii_digit(#[trigger] group@[m]));
                }
                assert(is_uint_literal(group@));
                assert(uint_digits(group@) == group@);
            }
            return r;
        }
        // No match starts inside this digit run, nor at its end.
        proof {
            assert forall|k: int| i <= k <= j implies !match_at(s@, k) by {
                if k < j {
                    lemma_run_positions_share_end(s@, i as int, j as int, k);
                } else {
                    assert(j == s@.len() || !is_ascii_digit(s@[j as int]));
                }
            }
        }
        if j < n {
            i = j + 1;
        } else {
            i = n;
        }
    }
    proof {
        if has_frame_match(s@) {
            let w = choose|k: int| match_at(s@, k);
            assert(!match_at(s@, w));
        }
    }
    None
}

/// Digit test on a single character.
fn exec_is_digit(c: char) -> (r: bool)
    ensures
        r == is_ascii_digit(c),
{
    let u = c as u32;
    48 <= u && u <= 57
}

/// Word-character test on a single character.
fn exec_is_word(c: char) -> (r: bool)
    ensures
        r == is_word_char(c),
{
    let u = c as u32;
    (48 <= u && u <= 57) || (65 <= u && u <= 90) || (97 <= u && u <= 122) || c == '_'
}

} // verus!
