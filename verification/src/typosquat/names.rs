//! Package names as the checks see them: trimmed and in lower case.

use crate::util::{to_chars, trim_bounds, trimmed};
use vstd::prelude::*;

verus! {

/// The lower-case form of an ASCII letter; any other character is itself.
pub open spec fn lower(c: char) -> char {
    if 'A' <= c && c <= 'Z' {
        ((c as u8 + 32) as u8) as char
    } else {
        c
    }
}

/// The form of a name that the checks compare: without the whitespace
/// around it, and in lower case.
pub open spec fn normalized(s: Seq<char>) -> Seq<char> {
    trimmed(s).map_values(|c: char| lower(c))
}

pub fn lower_char(c: char) -> (l: char)
    ensures
        l == lower(c),
{
    if 'A' <= c && c <= 'Z' {
        let code: u8 = c as u8;
        (code + 32) as char
    } else {
        c
    }
}

/// Trims and lower-cases `name`.
pub fn normalize(name: &str) -> (norm: Vec<char>)
    ensures
        norm@ == normalized(name@),
{
    let chars = to_chars(name);
    let (start, end) = trim_bounds(&chars);
    let mut norm: Vec<char> = Vec::new();
    let mut i: usize = start;
    while i < end
        invariant
            start <= i <= end <= chars.len(),
            norm@ == chars@.subrange(start as int, i as int).map_values(|c: char| lower(c)),
        decreases end - i,
    {
        norm.push(lower_char(chars[i]));
        i += 1;
    }
    norm
}

} // verus!
