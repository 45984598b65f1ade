//! Verified JSON text assembly: string escaping and string arrays, built
//! character by character so that every byte of the progress file is
//! pinned by specification.
//!
//! Escaping follows the common JSON rules: quote and backslash get a
//! backslash, the named control characters their short escapes, all other
//! control characters a `\u00` escape with lowercase hex digits; every
//! other character stands as itself.

use vstd::prelude::*;

verus! {

/// Relies on `String::push`: appends exactly the one character.
#[verifier::external_body]
fn push_char(out: &mut String, c: char)
    ensures
        final(out)@ == old(out)@.push(c),
{
    out.push(c);
}

/// The lowercase hex digit for a value below sixteen.
pub open spec fn hex_digit(d: int) -> char {
    if d == 0 {
        '0'
    } else if d == 1 {
        '1'
    } else if d == 2 {
        '2'
    } else if d == 3 {
        '3'
    } else if d == 4 {
        '4'
    } else if d == 5 {
        '5'
    } else if d == 6 {
        '6'
    } else if d == 7 {
        '7'
    } else if d == 8 {
        '8'
    } else if d == 9 {
        '9'
    } else if d == 10 {
        'a'
    } else if d == 11 {
        'b'
    } else if d == 12 {
        'c'
    } else if d == 13 {
        'd'
    } else if d == 14 {
        'e'
    } else {
        'f'
    }
}

fn push_hex_digit(out: &mut String, d: u32)
    requires
        d < 16,
    ensures
        final(out)@ == old(out)@.push(hex_digit(d as int)),
{
    if d == 0 {
        push_char(out, '0');
    } else if d == 1 {
        push_char(out, '1');
    } else if d == 2 {
        push_char(out, '2');
    } else if d == 3 {
        push_char(out, '3');
    } else if d == 4 {
        push_char(out, '4');
    } else if d == 5 {
        push_char(out, '5');
    } else if d == 6 {
        push_char(out, '6');
    } else if d == 7 {
        push_char(out, '7');
    } else if d == 8 {
        push_char(out, '8');
    } else if d == 9 {
        push_char(out, '9');
    } else if d == 10 {
        push_char(out, 'a');
    } else if d == 11 {
        push_char(out, 'b');
    } else if d == 12 {
        push_char(out, 'c');
    } else if d == 13 {
        push_char(out, 'd');
    } else if d == 14 {
        push_char(out, 'e');
    } else {
        push_char(out, 'f');
    }
}

/// What one character becomes inside a JSON string literal.
pub open spec fn escaped_char(c: char) -> Seq<char> {
    if c == '"' {
        seq!['\\', '"']
    } else if c == '\\' {
        seq!['\\', '\\']
    } else if c as int == 8 {
        seq!['\\', 'b']
    } else if c as int == 9 {
        seq!['\\', 't']
    } else if c as int == 10 {
        seq!['\\', 'n']
    } else if c as int == 12 {
        seq!['\\', 'f']
    } else if c as int == 13 {
        seq!['\\', 'r']
    } else if (c as int) < 32 {
        let hi = hex_digit(c as int / 16);
        let lo = hex_digit(c as int % 16);
        seq!['\\', 'u', '0', '0', hi, lo]
    } else {
        seq![c]
    }
}

/// A whole text, escaped character by character.
pub open spec fn json_escape(s: Seq<char>) -> Seq<char>
    decreases s.len(),
{
    if s.len() == 0 {
        Seq::empty()
    } else {
        json_escape(s.drop_last()) + escaped_char(s.last())
    }
}

/// A JSON string literal: the escaped text between quotes.
pub open spec fn json_string(s: Seq<char>) -> Seq<char> {
    seq!['"'] + json_escape(s) + seq!['"']
}

fn push_escaped_char(out: &mut String, c: char)
    ensures
        final(out)@ == old(out)@ + escaped_char(c),
{
    let u = c as u32;
    if c == '"' {
        push_char(out, '\\');
        push_char(out, '"');
        assert(final(out)@ =~= old(out)@ + escaped_char(c));
    } else if c == '\\' {
        push_char(out, '\\');
        push_char(out, '\\');
        assert(final(out)@ =~= old(out)@ + escaped_char(c));
    } else if u == 8 {
        push_char(out, '\\');
        push_char(out, 'b');
        assert(final(out)@ =~= old(out)@ + escaped_char(c));
    } else if u == 9 {
        push_char(out, '\\');
        push_char(out, 't');
        assert(final(out)@ =~= old(out)@ + escaped_char(c));
    } else if u == 10 {
        push_char(out, '\\');
        push_char(out, 'n');
        assert(final(out)@ =~= old(out)@ + escaped_char(c));
    } else if u == 12 {
        push_char(out, '\\');
        push_char(out, 'f');
        assert(final(out)@ =~= old(out)@ + escaped_char(c));
    } else if u == 13 {
        push_char(out, '\\');
        push_char(out, 'r');
        assert(final(out)@ =~= old(out)@ + escaped_char(c));
    } else if u < 32 {
        push_char(out, '\\');
        push_char(out, 'u');
        push_char(out, '0');
        push_char(out, '0');
        push_hex_digit(out, u / 16);
        push_hex_digit(out, u % 16);
        assert(final(out)@ =~= old(out)@ + escaped_char(c));
    } else {
        push_char(out, c);
        assert(final(out)@ =~= old(out)@ + escaped_char(c));
    }
}

/// Appends `s` as a JSON string literal, quotes and escapes included.
pub fn push_json_string(out: &mut String, s: &str)
    ensures
        final(out)@ == old(out)@ + json_string(s@),
{
    let ghost base = out@;
    push_char(out, '"');
    let n: usize = s.unicode_len();
    let mut i: usize = 0;
    while i < n
        invariant
            i <= n,
            n == s@.len(),
            out@ == base.push('"') + json_escape(s@.take(i as int)),
        decreases n - i,
    {
        let c = s.get_char(i);
        proof {
            assert(s@.take(i + 1).drop_last() =~= s@.take(i as int));
            assert(s@.take(i + 1).last() == s@[i as int]);
        }
        push_escaped_char(out, c);
        assert(out@ =~= base.push('"') + json_escape(s@.take(i + 1)));
        i = i + 1;
    }
    proof {
        assert(s@.take(n as int) =~= s@);
    }
    push_char(out, '"');
    assert(final(out)@ =~= old(out)@ + json_string(s@));
}

/// A comma-separated row of JSON string literals.
pub open spec fn json_strings_joined(xs: Seq<Seq<char>>) -> Seq<char>
    decreases xs.len(),
{
    if xs.len() == 0 {
        Seq::empty()
    } else if xs.len() == 1 {
        json_string(xs[0])
    } else {
        json_strings_joined(xs.drop_last()) + seq![','] + json_string(xs.last())
    }
}

/// A JSON array of string literals.
pub open spec fn json_string_array(xs: Seq<Seq<char>>) -> Seq<char> {
    seq!['['] + json_strings_joined(xs) + seq![']']
}

/// The images of a row of strings.
pub open spec fn strings_view(xs: Seq<String>) -> Seq<Seq<char>> {
    xs.map_values(|x: String| x@)
}

/// Appends `items` as a JSON array of string literals.
pub fn push_json_string_array(out: &mut String, items: &Vec<String>)
    ensures
        final(out)@ == old(out)@ + json_string_array(strings_view(items@)),
{
    let ghost base = out@;
    let ghost xs = strings_view(items@);
    push_char(out, '[');
    let n: usize = items.len();
    let mut i: usize = 0;
    while i < n
        invariant
            i <= n,
            n == items@.len(),
            xs == strings_view(items@),
            out@ == base.push('[') + json_strings_joined(xs.take(i as int)),
        decreases n - i,
    {
        proof {
            assert(xs.take(i + 1).drop_last() =~= xs.take(i as int));
            assert(xs.take(i + 1).last() == xs[i as int]);
            assert(xs[i as int] == items@[i as int]@);
        }
        if i > 0 {
            push_char(out, ',');
        }
        push_json_string(out, items[i].as_str());
        assert(out@ =~= base.push('[') + json_strings_joined(xs.take(i + 1)));
        i = i + 1;
    }
    proof {
        assert(xs.take(n as int) =~= xs);
    }
    push_char(out, ']');
    assert(final(out)@ =~= old(out)@ + json_string_array(xs));
}

} // verus!
