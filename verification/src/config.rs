//! Configuration parsing: the bridge target channel identifier arrives as
//! text and must denote a 64-bit unsigned integer. A missing or malformed
//! value is a startup-fatal configuration error, reported as such and never
//! guessed at.

use vstd::prelude::*;
use vstd::string::StrSliceExecFns;
use crate::decimal::dec_val;
use crate::decimal::fits_u64;
use crate::decimal::parse_u64_digits;
use crate::error::BotError;
use crate::jtext::str_to_chars;

verus! {

/// The digits of a channel identifier text: an optional leading plus sign is
/// tolerated, as the standard integer grammar has it.
pub open spec fn channel_id_digits(s: Seq<char>) -> Seq<char> {
    if s.len() > 0 && s[0] == '+' {
        s.drop_first()
    } else {
        s
    }
}

/// Whether a text is a well-formed channel identifier: one or more decimal
/// digits (after an optional plus sign) whose value fits in a `u64`.
pub open spec fn channel_id_text_valid(s: Seq<char>) -> bool {
    fits_u64(channel_id_digits(s))
}

/// The value a well-formed channel identifier text denotes.
pub open spec fn channel_id_value(s: Seq<char>) -> nat {
    dec_val(channel_id_digits(s))
}

/// Parse the configured bridge target.
///
/// Succeeds exactly on well-formed identifier texts and returns the denoted
/// value; anything else (empty text, a stray character, overflow) is a
/// `ParseError` carrying the offending text.
pub fn parse_channel_id(s: &str) -> (r: Result<u64, BotError>)
    ensures
        match r {
            Ok(n) => channel_id_text_valid(s@) && n as nat == channel_id_value(s@),
            Err(e) => !channel_id_text_valid(s@) && (e matches BotError::ParseError(t)
                && t@ == s@),
        },
{
    let chars = str_to_chars(s);
    let mut digits: Vec<char> = Vec::new();
    let start: usize = if chars.len() > 0 && chars[0] == '+' {
        1
    } else {
        0
    };
    let mut i: usize = start;
    while i < chars.len()
        invariant
            start <= i <= chars@.len(),
            chars@ == s@,
            digits@ == chars@.subrange(start as int, i as int),
        decreases chars@.len() - i,
    {
        digits.push(chars[i]);
        assert(digits@ =~= chars@.subrange(start as int, i as int + 1));
        i = i + 1;
    }
    proof {
        if start == 1 {
            assert(digits@ =~= s@.drop_first());
        } else {
            assert(digits@ =~= s@);
        }
        assert(digits@ == channel_id_digits(s@));
    }
    match parse_u64_digits(&digits) {
        Some(n) => Ok(n),
        None => Err(BotError::ParseError(s.to_owned())),
    }
}

} // verus!
