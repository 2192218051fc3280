//! Text as a list of characters, and what stands around it.

use vstd::prelude::*;

verus! {

/// The characters that count as whitespace: those with the Unicode
/// property `White_Space`.
pub open spec fn is_whitespace(c: char) -> bool {
    ||| ('\u{9}' <= c && c <= '\u{d}')
    ||| c == ' '
    ||| c == '\u{85}'
    ||| c == '\u{a0}'
    ||| c == '\u{1680}'
    ||| ('\u{2000}' <= c && c <= '\u{200a}')
    ||| c == '\u{2028}'
    ||| c == '\u{2029}'
    ||| c == '\u{202f}'
    ||| c == '\u{205f}'
    ||| c == '\u{3000}'
}

/// Index of the first character at or after `from` that is not whitespace,
/// or the length of `s` where there is none.
pub open spec fn first_kept(s: Seq<char>, from: int) -> int
    decreases s.len() - from,
{
    if 0 <= from < s.len() && is_whitespace(s[from]) {
        first_kept(s, from + 1)
    } else {
        from
    }
}

/// One past the last character before `to` that is not whitespace, never
/// below `floor`.
pub open spec fn last_kept(s: Seq<char>, floor: int, to: int) -> int
    decreases to - floor,
{
    if floor < to <= s.len() && is_whitespace(s[to - 1]) {
        last_kept(s, floor, to - 1)
    } else {
        to
    }
}

/// Where the text of `s` begins, once the whitespace around it is left out.
pub open spec fn trim_start(s: Seq<char>) -> int {
    first_kept(s, 0)
}

/// Where the text of `s` ends, once the whitespace around it is left out.
pub open spec fn trim_end(s: Seq<char>) -> int {
    last_kept(s, trim_start(s), s.len() as int)
}

/// `s` without the whitespace around it.
pub open spec fn trimmed(s: Seq<char>) -> Seq<char> {
    s.subrange(trim_start(s), trim_end(s))
}

pub fn is_whitespace_char(c: char) -> (white: bool)
    ensures
        white == is_whitespace(c),
{
    ('\u{9}' <= c && c <= '\u{d}') || c == ' ' || c == '\u{85}' || c == '\u{a0}' || c
        == '\u{1680}' || ('\u{2000}' <= c && c <= '\u{200a}') || c == '\u{2028}' || c
        == '\u{2029}' || c == '\u{202f}' || c == '\u{205f}' || c == '\u{3000}'
}

/// The characters of `text`, one by one.
pub fn to_chars(text: &str) -> (chars: Vec<char>)
    ensures
        chars@ == text@,
{
    broadcast use vstd::string::group_string_axioms;

    let mut chars: Vec<char> = Vec::new();
    for c in it: text.chars()
        invariant
            it.seq() == text@,
            chars@ == text@.take(it.index()),
    {
        chars.push(c);
    }
    chars
}

/// Whether two lists hold the same characters.
pub fn same_chars(a: &Vec<char>, b: &Vec<char>) -> (same: bool)
    ensures
        same == (a@ == b@),
{
    if a.len() != b.len() {
        return false;
    }
    let mut i: usize = 0;
    while i < a.len()
        invariant
            a.len() == b.len(),
            i <= a.len(),
            forall|j: int| 0 <= j < i ==> a@[j] == b@[j],
        decreases a.len() - i,
    {
        if a[i] != b[i] {
            return false;
        }
        i += 1;
    }
    assert(a@ =~= b@);
    true
}

/// Where the text of `chars` begins and ends, once the whitespace around it
/// is left out.
pub fn trim_bounds(chars: &Vec<char>) -> (bounds: (usize, usize))
    ensures
        bounds.0 == trim_start(chars@),
        bounds.1 == trim_end(chars@),
        bounds.0 <= bounds.1 <= chars.len(),
{
    let n = chars.len();
    let mut start: usize = 0;
    while start < n && is_whitespace_char(chars[start])
        invariant
            n == chars.len(),
            0 <= start <= n,
            first_kept(chars@, 0) == first_kept(chars@, start as int),
        decreases n - start,
    {
        start += 1;
    }
    let mut end: usize = n;
    while start < end && is_whitespace_char(chars[end - 1])
        invariant
            n == chars.len(),
            start <= end <= n,
            last_kept(chars@, start as int, n as int) == last_kept(
                chars@,
                start as int,
                end as int,
            ),
        decreases end - start,
    {
        end -= 1;
    }
    (start, end)
}

} // verus!
