//! Shape checks on the text that commands receive.
use vstd::prelude::*;

verus! {

/// An ASCII decimal digit.
pub open spec fn is_digit(c: char) -> bool {
    '0' <= c && c <= '9'
}

/// The ten characters of `s` from index `i` on read `DDDD-DD-DD`.
pub open spec fn date_shape_at(s: Seq<char>, i: int) -> bool {
    &&& 0 <= i
    &&& i + 10 <= s.len()
    &&& is_digit(s[i])
    &&& is_digit(s[i + 1])
    &&& is_digit(s[i + 2])
    &&& is_digit(s[i + 3])
    &&& s[i + 4] == '-'
    &&& is_digit(s[i + 5])
    &&& is_digit(s[i + 6])
    &&& s[i + 7] == '-'
    &&& is_digit(s[i + 8])
    &&& is_digit(s[i + 9])
}

/// The whole of `s` reads `DDDD-DD-DD`. The check is on shape only: no
/// calendar rule applies, so `0000-99-99` passes.
pub open spec fn has_date_shape(s: Seq<char>) -> bool {
    s.len() == 10 && date_shape_at(s, 0)
}

/// Relies on regex::Regex::new, which accepts this fixed pattern, and on
/// Regex::is_match, which reports whether `s` matches it; with `^` and `$`
/// (no multi-line mode) the match must span the whole text.
/// `[[:digit:]]` is the ASCII class `0-9`, and every character of the pattern
/// is ASCII, so a match on the UTF-8 bytes is a match on the characters.
#[verifier::external_body]
fn date_pattern_found(s: &str) -> (r: bool)
    ensures
        r == has_date_shape(s@),
{
    regex::Regex::new(r"^[[:digit:]]{4}-[[:digit:]]{2}-[[:digit:]]{2}$").unwrap().is_match(s)
}

/// Whether `s` is accepted as a date by the commands that take one.
pub fn is_valid_date(s: &str) -> (r: bool)
    ensures
        r == has_date_shape(s@),
{
    date_pattern_found(s)
}

} // verus!
