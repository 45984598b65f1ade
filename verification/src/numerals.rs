//! Decimal numerals: what a run of digit characters denotes, how unsigned
//! integers are read from text, and how they are printed back.
//!
//! The parsers follow the grammar of Rust's unsigned integer parsing: an
//! optional leading `+`, then one or more ASCII digits, nothing else, and
//! the denoted value must fit the target type.

use vstd::prelude::*;

verus! {

/// `c` is one of the ten ASCII digits.
pub open spec fn is_ascii_digit(c: char) -> bool {
    48 <= c as int && c as int <= 57
}

/// Numeric value of a single digit character.
pub open spec fn digit_val(c: char) -> int {
    c as int - 48
}

/// Every character of `s` is an ASCII digit.
pub open spec fn all_digits(s: Seq<char>) -> bool {
    forall|i: int| 0 <= i < s.len() ==> is_ascii_digit(#[trigger] s[i])
}

/// The value denoted by the digit string `s`, most significant digit first.
pub open spec fn dec_value(s: Seq<char>) -> int
    decreases s.len(),
{
    if s.len() == 0 {
        0
    } else {
        dec_value(s.drop_last()) * 10 + digit_val(s.last())
    }
}

/// `s` is a complete unsigned integer literal: an optional `+`, then
/// one or more digits and nothing else.
pub open spec fn is_uint_literal(s: Seq<char>) -> bool {
    if s.len() > 0 && s[0] == '+' {
        s.len() >= 2 && all_digits(s.skip(1))
    } else {
        s.len() >= 1 && all_digits(s)
    }
}

/// The digit part of an unsigned integer literal (the sign dropped).
pub open spec fn uint_digits(s: Seq<char>) -> Seq<char> {
    if s.len() > 0 && s[0] == '+' {
        s.skip(1)
    } else {
        s
    }
}

/// The value an unsigned integer literal denotes.
pub open spec fn uint_value(s: Seq<char>) -> int {
    dec_value(uint_digits(s))
}

/// A digit string denotes a non-negative value.
pub proof fn lemma_dec_value_nonneg(s: Seq<char>)
    requires
        all_digits(s),
    ensures
        dec_value(s) >= 0,
    decreases s.len(),
{
    if s.len() > 0 {
        assert(all_digits(s.drop_last())) by {
            assert(forall|i: int|
                0 <= i < s.len() - 1 ==> is_ascii_digit(#[trigger] s.drop_last()[i]));
        }
        lemma_dec_value_nonneg(s.drop_last());
    }
}

/// Reading one more digit multiplies the prefix value by ten and adds it.
pub proof fn lemma_dec_value_step(s: Seq<char>, k: int)
    requires
        0 <= k < s.len(),
    ensures
        dec_value(s.take(k + 1)) == dec_value(s.take(k)) * 10 + digit_val(s[k]),
{
    assert(s.take(k + 1).drop_last() =~= s.take(k));
    assert(s.take(k + 1).last() == s[k]);
}

/// A longer digit prefix never denotes a smaller value.
pub proof fn lemma_dec_value_prefix_le(s: Seq<char>, k: int)
    requires
        all_digits(s),
        0 <= k <= s.len(),
    ensures
        dec_value(s.take(k)) <= dec_value(s),
    decreases s.len() - k,
{
    if k == s.len() {
        assert(s.take(k) =~= s);
    } else {
        lemma_dec_value_step(s, k);
        assert(all_digits(s.take(k))) by {
            assert(forall|i: int|
                0 <= i < k ==> is_ascii_digit(#[trigger] s.take(k)[i]));
        }
        lemma_dec_value_nonneg(s.take(k));
        assert(dec_value(s.take(k)) * 10 >= dec_value(s.take(k))) by (nonlinear_arith)
            requires dec_value(s.take(k)) >= 0;
        lemma_dec_value_prefix_le(s, k + 1);
    }
}

/// Reads an unsigned 64-bit integer from `s`, exactly as Rust's own
/// parser does: optional `+`, one or more digits, value within range.
pub fn parse_u64(s: &str) -> (r: Option<u64>)
    ensures
        r is Some <==> is_uint_literal(s@) && uint_value(s@) <= u64::MAX,
        r is Some ==> r->0 == uint_value(s@),
{
    let n: usize = s.unicode_len();
    let start: usize = if n > 0 && s.get_char(0) == '+' {
        1
    } else {
        0
    };
    if n == start {
        proof {
            if is_uint_literal(s@) {
                assert(false);
            }
        }
        return None;
    }
    let ghost digits = s@.skip(start as int);
    let mut acc: u64 = 0;
    let mut i: usize = start;
    while i < n
        invariant
            start <= 1,
            start <= i <= n,
            n == s@.len(),
            start == 1 ==> s@[0] == '+',
            start == 0 ==> !(s@.len() > 0 && s@[0] == '+'),
            n > start,
            digits == s@.skip(start as int),
            all_digits(digits.take(i - start)),
            acc == dec_value(digits.take(i - start)),
        decreases n - i,
    {
        let c = s.get_char(i);
        let u = c as u32;
        if u < 48 || u > 57 {
            proof {
                assert(digits[i - start] == s@[i as int]);
                if is_uint_literal(s@) {
                    assert(all_digits(uint_digits(s@)));
                    assert(uint_digits(s@) =~= digits);
                    assert(is_ascii_digit(digits[i - start]));
                    assert(false);
                }
            }
            return None;
        }
        let d: u64 = (u - 48) as u64;
        proof {
            assert(is_ascii_digit(s@[i as int]));
            assert(digits[i - start] == s@[i as int]);
            assert(d == digit_val(digits[i - start]));
        }
        if acc > (u64::MAX - d) / 10 {
            proof {
                lemma_dec_value_step(digits, i - start);
                assert(acc * 10 + d > u64::MAX) by (nonlinear_arith)
                    requires
                        acc > (u64::MAX - d) / 10,
                        0 <= d <= 9,
                        acc >= 0;
                assert(all_digits(digits.take(i - start + 1))) by {
                    assert(forall|j: int|
                        0 <= j < i - start + 1 ==> is_ascii_digit(
                            #[trigger] digits.take(i - start + 1)[j],
                        ));
                }
                if is_uint_literal(s@) && uint_value(s@) <= u64::MAX {
                    assert(uint_digits(s@) =~= digits);
                    assert(all_digits(digits));
                    lemma_dec_value_prefix_le(digits, i - start + 1);
                    assert(false);
                }
            }
            return None;
        }
        proof {
            assert(acc * 10 + d <= u64::MAX) by (nonlinear_arith)
                requires
                    acc <= (u64::MAX - d) / 10,
                    0 <= d <= 9,
                    acc >= 0;
            lemma_dec_value_step(digits, i - start);
            assert(all_digits(digits.take(i - start + 1))) by {
                assert(forall|j: int|
                    0 <= j < i - start + 1 ==> is_ascii_digit(
                        #[trigger] digits.take(i - start + 1)[j],
                    ));
            }
        }
        acc = acc * 10 + d;
        i = i + 1;
    }
    proof {
        assert(digits.take(n - start) =~= digits);
        assert(uint_digits(s@) =~= digits);
        assert(is_uint_literal(s@));
    }
    Some(acc)
}

/// Reads an unsigned 32-bit integer, by the same grammar.
pub fn parse_u32(s: &str) -> (r: Option<u32>)
    ensures
        r is Some <==> is_uint_literal(s@) && uint_value(s@) <= u32::MAX,
        r is Some ==> r->0 == uint_value(s@),
{
    match parse_u64(s) {
        Some(v) => {
            if v <= u32::MAX as u64 {
                Some(v as u32)
            } else {
                None
            }
        },
        None => None,
    }
}

/// Reads an unsigned 8-bit integer, by the same grammar.
pub fn parse_u8(s: &str) -> (r: Option<u8>)
    ensures
        r is Some <==> is_uint_literal(s@) && uint_value(s@) <= u8::MAX,
        r is Some ==> r->0 == uint_value(s@),
{
    match parse_u64(s) {
        Some(v) => {
            if v <= u8::MAX as u64 {
                Some(v as u8)
            } else {
                None
            }
        },
        None => None,
    }
}

/// The digit character for a value below ten.
pub open spec fn digit_char(d: int) -> char {
    if d == 0 {
        '0'
    } else if d == 1 {
        '1'
    } else if d == 2 {
        '2'
    } else if d == 3 {
        '3'
    } else if d == 4 {
        '4'
    } else if d == 5 {
        '5'
    } else if d == 6 {
        '6'
    } else if d == 7 {
        '7'
    } else if d == 8 {
        '8'
    } else {
        '9'
    }
}

/// The canonical decimal numeral for `n`: no sign, no leading zeros,
/// a single `0` for zero.
pub open spec fn dec_numeral(n: int) -> Seq<char>
    decreases n,
{
    if n < 10 {
        seq![digit_char(n)]
    } else {
        dec_numeral(n / 10).push(digit_char(n % 10))
    }
}

fn push_digit(out: &mut String, d: u64)
    requires
        d < 10,
    ensures
        final(out)@ == old(out)@ + seq![digit_char(d as int)],
{
    if d == 0 {
        out.append("0");
        proof { reveal_strlit("0"); assert("0"@ =~= seq![digit_char(0)]); }
    } else if d == 1 {
        out.append("1");
        proof { reveal_strlit("1"); assert("1"@ =~= seq![digit_char(1)]); }
    } else if d == 2 {
        out.append("2");
        proof { reveal_strlit("2"); assert("2"@ =~= seq![digit_char(2)]); }
    } else if d == 3 {
        out.append("3");
        proof { reveal_strlit("3"); assert("3"@ =~= seq![digit_char(3)]); }
    } else if d == 4 {
        out.append("4");
        proof { reveal_strlit("4"); assert("4"@ =~= seq![digit_char(4)]); }
    } else if d == 5 {
        out.append("5");
        proof { reveal_strlit("5"); assert("5"@ =~= seq![digit_char(5)]); }
    } else if d == 6 {
        out.append("6");
        proof { reveal_strlit("6"); assert("6"@ =~= seq![digit_char(6)]); }
    } else if d == 7 {
        out.append("7");
        proof { reveal_strlit("7"); assert("7"@ =~= seq![digit_char(7)]); }
    } else if d == 8 {
        out.append("8");
        proof { reveal_strlit("8"); assert("8"@ =~= seq![digit_char(8)]); }
    } else {
        out.append("9");
        proof { reveal_strlit("9"); assert("9"@ =~= seq![digit_char(9)]); }
    }
}

/// Appends the decimal numeral of `n` to `out`.
pub fn push_u64_dec(out: &mut String, n: u64)
    ensures
        final(out)@ == old(out)@ + dec_numeral(n as int),
    decreases n,
{
    if n < 10 {
        push_digit(out, n);
    } else {
        push_u64_dec(out, n / 10);
        push_digit(out, n % 10);
        proof {
            assert(old(out)@ + dec_numeral((n / 10) as int) + seq![
                digit_char((n % 10) as int),
            ] =~= old(out)@ + dec_numeral(n as int));
        }
    }
}

/// The decimal numeral of `n` as a fresh string.
pub fn u64_to_dec(n: u64) -> (r: String)
    ensures
        r@ == dec_numeral(n as int),
{
    let mut out = String::new();
    push_u64_dec(&mut out, n);
    proof {
        assert(Seq::<char>::empty() + dec_numeral(n as int) =~= dec_numeral(n as int));
    }
    out
}

} // verus!
