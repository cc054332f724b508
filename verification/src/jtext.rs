//! Text building blocks for the wire encoding: conversion between strings
//! and character vectors, and JSON string escaping.
//!
//! The escaping follows the JSON rules for text content: quote and backslash
//! are escaped, the named control escapes are used where they exist, any
//! other control character becomes a `\u00..` sequence, and every other
//! character (all of printable ASCII and all of non-ASCII unicode, emoji
//! included) passes through unchanged.

use vstd::prelude::*;
use vstd::string::StrSliceExecFns;

verus! {

/// The lowercase hexadecimal digit character for a value below sixteen.
pub open spec fn hex_char(d: nat) -> char {
    if d == 0 {
        '0'
    } else if d == 1 {
        '1'
    } else if d == 2 {
        '2'
    } else if d == 3 {
        '3'
    } else if d == 4 {
        '4'
    } else if d == 5 {
        '5'
    } else if d == 6 {
        '6'
    } else if d == 7 {
        '7'
    } else if d == 8 {
        '8'
    } else if d == 9 {
        '9'
    } else if d == 10 {
        'a'
    } else if d == 11 {
        'b'
    } else if d == 12 {
        'c'
    } else if d == 13 {
        'd'
    } else if d == 14 {
        'e'
    } else {
        'f'
    }
}

/// What one character contributes to a JSON-escaped string.
pub open spec fn escape_char(c: char) -> Seq<char> {
    if c == '"' {
        seq!['\\', '"']
    } else if c == '\\' {
        seq!['\\', '\\']
    } else if c == '\u{8}' {
        seq!['\\', 'b']
    } else if c == '\t' {
        seq!['\\', 't']
    } else if c == '\n' {
        seq!['\\', 'n']
    } else if c == '\u{c}' {
        seq!['\\', 'f']
    } else if c == '\r' {
        seq!['\\', 'r']
    } else if (c as int) < 32 {
        seq!['\\', 'u', '0', '0', hex_char((c as int / 16) as nat), hex_char((c as int % 16) as nat)]
    } else {
        seq![c]
    }
}

/// The JSON escaping of a whole string.
pub open spec fn escape_string(s: Seq<char>) -> Seq<char>
    decreases s.len(),
{
    if s.len() == 0 {
        Seq::empty()
    } else {
        escape_char(s[0]) + escape_string(s.drop_first())
    }
}

/// Escaping distributes over appending one character at the end.
pub proof fn lemma_escape_push(s: Seq<char>, c: char)
    ensures
        escape_string(s.push(c)) == escape_string(s) + escape_char(c),
    decreases s.len(),
{
    if s.len() == 0 {
        assert(s.push(c)[0] == c);
        assert(s.push(c).drop_first() =~= Seq::<char>::empty());
        assert(escape_string(s.push(c)) == escape_char(c) + escape_string(
            Seq::<char>::empty(),
        ));
        assert(escape_string(Seq::<char>::empty()) == Seq::<char>::empty());
        assert(escape_char(c) + Seq::<char>::empty() =~= escape_char(c));
        assert(escape_string(s) == Seq::<char>::empty());
        assert(Seq::<char>::empty() + escape_char(c) =~= escape_char(c));
    } else {
        assert(s.push(c).drop_first() =~= s.drop_first().push(c));
        lemma_escape_push(s.drop_first(), c);
        assert(s.push(c)[0] == s[0]);
        assert(escape_string(s.push(c)) == escape_char(s[0]) + (escape_string(s.drop_first())
            + escape_char(c)));
        assert(escape_char(s[0]) + (escape_string(s.drop_first()) + escape_char(c)) =~= (escape_char(
            s[0],
        ) + escape_string(s.drop_first())) + escape_char(c));
    }
}

/// The value of a lowercase hexadecimal digit character (zero for anything
/// else).
pub open spec fn hex_val(c: char) -> nat {
    if c == '0' {
        0
    } else if c == '1' {
        1
    } else if c == '2' {
        2
    } else if c == '3' {
        3
    } else if c == '4' {
        4
    } else if c == '5' {
        5
    } else if c == '6' {
        6
    } else if c == '7' {
        7
    } else if c == '8' {
        8
    } else if c == '9' {
        9
    } else if c == 'a' {
        10
    } else if c == 'b' {
        11
    } else if c == 'c' {
        12
    } else if c == 'd' {
        13
    } else if c == 'e' {
        14
    } else if c == 'f' {
        15
    } else {
        0
    }
}

/// The character with a given code below thirty-two (a space for anything
/// else). Only control characters are spelled with `\u` escapes, so this is
/// all the decoder needs.
pub open spec fn char_of_code(v: nat) -> char {
    if v == 0 {
        '\u{0}'
    } else if v == 1 {
        '\u{1}'
    } else if v == 2 {
        '\u{2}'
    } else if v == 3 {
        '\u{3}'
    } else if v == 4 {
        '\u{4}'
    } else if v == 5 {
        '\u{5}'
    } else if v == 6 {
        '\u{6}'
    } else if v == 7 {
        '\u{7}'
    } else if v == 8 {
        '\u{8}'
    } else if v == 9 {
        '\u{9}'
    } else if v == 10 {
        '\u{a}'
    } else if v == 11 {
        '\u{b}'
    } else if v == 12 {
        '\u{c}'
    } else if v == 13 {
        '\u{d}'
    } else if v == 14 {
        '\u{e}'
    } else if v == 15 {
        '\u{f}'
    } else if v == 16 {
        '\u{10}'
    } else if v == 17 {
        '\u{11}'
    } else if v == 18 {
        '\u{12}'
    } else if v == 19 {
        '\u{13}'
    } else if v == 20 {
        '\u{14}'
    } else if v == 21 {
        '\u{15}'
    } else if v == 22 {
        '\u{16}'
    } else if v == 23 {
        '\u{17}'
    } else if v == 24 {
        '\u{18}'
    } else if v == 25 {
        '\u{19}'
    } else if v == 26 {
        '\u{1a}'
    } else if v == 27 {
        '\u{1b}'
    } else if v == 28 {
        '\u{1c}'
    } else if v == 29 {
        '\u{1d}'
    } else if v == 30 {
        '\u{1e}'
    } else if v == 31 {
        '\u{1f}'
    } else {
        ' '
    }
}

/// What a JSON text client reads back from an escaped string: named escapes
/// and `\u00..` sequences are decoded, everything else passes through. Junk
/// (a trailing backslash, an unknown escape) is passed through unchanged;
/// the escaper never produces it.
pub open spec fn unescape(s: Seq<char>) -> Seq<char>
    decreases s.len(),
{
    if s.len() == 0 {
        Seq::empty()
    } else if s[0] == '\\' && s.len() >= 2 {
        let c = s[1];
        if c == '"' {
            seq!['"'] + unescape(s.skip(2))
        } else if c == '\\' {
            seq!['\\'] + unescape(s.skip(2))
        } else if c == 'b' {
            seq!['\u{8}'] + unescape(s.skip(2))
        } else if c == 't' {
            seq!['\t'] + unescape(s.skip(2))
        } else if c == 'n' {
            seq!['\n'] + unescape(s.skip(2))
        } else if c == 'f' {
            seq!['\u{c}'] + unescape(s.skip(2))
        } else if c == 'r' {
            seq!['\r'] + unescape(s.skip(2))
        } else if c == 'u' && s.len() >= 6 {
            let v = hex_val(s[2]) * 4096 + hex_val(s[3]) * 256 + hex_val(s[4]) * 16 + hex_val(
                s[5],
            );
            seq![char_of_code(v)] + unescape(s.skip(6))
        } else {
            seq![s[0]] + unescape(s.skip(1))
        }
    } else {
        seq![s[0]] + unescape(s.skip(1))
    }
}

/// A hexadecimal digit character reads back as its value.
pub proof fn lemma_hex_val_of_hex_char(d: nat)
    requires
        d < 16,
    ensures
        hex_val(hex_char(d)) == d,
{
}

/// A control character is recovered from its code.
pub proof fn lemma_char_of_code(c: char)
    requires
        (c as int) < 32,
    ensures
        char_of_code(c as nat) == c,
{
}

/// Unescaping consumes exactly one character's escape from the front.
proof fn lemma_unescape_escape_char(c: char, t: Seq<char>)
    ensures
        unescape(escape_char(c) + t) == seq![c] + unescape(t),
{
    let e = escape_char(c) + t;
    if c == '"' || c == '\\' || c == '\u{8}' || c == '\t' || c == '\n' || c == '\u{c}' || c
        == '\r' {
        assert(e.len() >= 2);
        assert(e[0] == '\\');
        assert(e[1] == escape_char(c)[1]);
        assert(e.skip(2) =~= t);
        assert(unescape(e) =~= seq![c] + unescape(t));
    } else if (c as int) < 32 {
        assert(e.len() >= 6);
        assert(e[0] == '\\');
        assert(e[1] == 'u');
        assert(e[2] == '0');
        assert(e[3] == '0');
        assert(e[4] == hex_char((c as int / 16) as nat));
        assert(e[5] == hex_char((c as int % 16) as nat));
        assert(e.skip(6) =~= t);
        lemma_hex_val_of_hex_char((c as int / 16) as nat);
        lemma_hex_val_of_hex_char((c as int % 16) as nat);
        assert((c as int / 16) * 16 + c as int % 16 == c as int) by (nonlinear_arith);
        assert(hex_val(e[2]) * 4096 + hex_val(e[3]) * 256 + hex_val(e[4]) * 16 + hex_val(e[5])
            == c as nat);
        lemma_char_of_code(c);
        assert(unescape(e) =~= seq![c] + unescape(t));
    } else {
        assert(e[0] == c);
        assert(c != '\\');
        assert(e.skip(1) =~= t);
        assert(unescape(e) =~= seq![c] + unescape(t));
    }
}

/// Round trip: a JSON text client decoding an escaped string reads back
/// exactly the content that was escaped, for every string.
pub proof fn lemma_unescape_escape(s: Seq<char>)
    ensures
        unescape(escape_string(s)) == s,
    decreases s.len(),
{
    if s.len() == 0 {
        assert(unescape(escape_string(s)) =~= s);
    } else {
        lemma_unescape_escape(s.drop_first());
        lemma_unescape_escape_char(s[0], escape_string(s.drop_first()));
        assert(unescape(escape_string(s)) == seq![s[0]] + s.drop_first());
        assert(seq![s[0]] + s.drop_first() =~= s);
    }
}

/// Escaping loses nothing: two strings with the same escaped form are the
/// same string.
pub proof fn lemma_escape_injective(a: Seq<char>, b: Seq<char>)
    requires
        escape_string(a) == escape_string(b),
    ensures
        a == b,
{
    lemma_unescape_escape(a);
    lemma_unescape_escape(b);
}

/// The characters of a string, in order.
pub fn str_to_chars(s: &str) -> (v: Vec<char>)
    ensures
        v@ == s@,
{
    let n = s.unicode_len();
    let mut v: Vec<char> = Vec::new();
    let mut i: usize = 0;
    while i < n
        invariant
            0 <= i <= n,
            n == s@.len(),
            v@ == s@.take(i as int),
        decreases n - i,
    {
        let c = s.get_char(i);
        v.push(c);
        assert(v@ =~= s@.take(i as int + 1));
        i = i + 1;
    }
    assert(v@ =~= s@);
    v
}

/// Append the characters of a string unchanged (for the fixed skeleton of an
/// encoding, never for content that needs escaping).
pub fn push_str_chars(out: &mut Vec<char>, s: &str)
    ensures
        final(out)@ == old(out)@ + s@,
{
    let mut v = str_to_chars(s);
    out.append(&mut v);
}

/// Rebuild a `String` from its characters.
///
/// Relies on `String`'s `FromIterator<char>`: collecting an iterator of
/// characters produces the string holding exactly those characters in order.
#[verifier::external_body]
pub fn chars_to_string(v: &Vec<char>) -> (s: String)
    ensures
        s@ == v@,
{
    v.iter().collect()
}

/// The lowercase hexadecimal digit character, executable.
fn hex_of(d: u64) -> (c: char)
    requires
        d < 16,
    ensures
        c == hex_char(d as nat),
{
    match d {
        0 => '0',
        1 => '1',
        2 => '2',
        3 => '3',
        4 => '4',
        5 => '5',
        6 => '6',
        7 => '7',
        8 => '8',
        9 => '9',
        10 => 'a',
        11 => 'b',
        12 => 'c',
        13 => 'd',
        14 => 'e',
        _ => 'f',
    }
}

/// Append the JSON escape of one character.
fn push_escaped(out: &mut Vec<char>, c: char)
    ensures
        final(out)@ == old(out)@ + escape_char(c),
{
    if c == '"' {
        out.push('\\');
        out.push('"');
        assert(out@ =~= old(out)@ + escape_char(c));
    } else if c == '\\' {
        out.push('\\');
        out.push('\\');
        assert(out@ =~= old(out)@ + escape_char(c));
    } else if c == '\u{8}' {
        out.push('\\');
        out.push('b');
        assert(out@ =~= old(out)@ + escape_char(c));
    } else if c == '\t' {
        out.push('\\');
        out.push('t');
        assert(out@ =~= old(out)@ + escape_char(c));
    } else if c == '\n' {
        out.push('\\');
        out.push('n');
        assert(out@ =~= old(out)@ + escape_char(c));
    } else if c == '\u{c}' {
        out.push('\\');
        out.push('f');
        assert(out@ =~= old(out)@ + escape_char(c));
    } else if (c as u32) < 32 {
        let v = c as u32;
        if c == '\r' {
            out.push('\\');
            out.push('r');
            assert(out@ =~= old(out)@ + escape_char(c));
        } else {
            out.push('\\');
            out.push('u');
            out.push('0');
            out.push('0');
            out.push(hex_of((v / 16) as u64));
            out.push(hex_of((v % 16) as u64));
            assert(out@ =~= old(out)@ + escape_char(c));
        }
    } else {
        out.push(c);
        assert(c != '\r');
        assert(out@ =~= old(out)@ + escape_char(c));
    }
}

/// Append the JSON escaping of a whole string.
pub fn push_escaped_str(out: &mut Vec<char>, s: &str)
    ensures
        final(out)@ == old(out)@ + escape_string(s@),
{
    let n = s.unicode_len();
    let mut i: usize = 0;
    while i < n
        invariant
            0 <= i <= n,
            n == s@.len(),
            out@ == old(out)@ + escape_string(s@.take(i as int)),
        decreases n - i,
    {
        let c = s.get_char(i);
        push_escaped(out, c);
        proof {
            assert(s@.take(i as int + 1) =~= s@.take(i as int).push(s@[i as int]));
            lemma_escape_push(s@.take(i as int), s@[i as int]);
            assert(old(out)@ + escape_string(s@.take(i as int)) + escape_char(s@[i as int]) =~= old(
                out,
            )@ + escape_string(s@.take(i as int + 1)));
        }
        i = i + 1;
    }
    assert(s@.take(i as int) =~= s@);
}

} // verus!
