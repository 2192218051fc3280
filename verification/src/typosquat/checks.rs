//! The similarity checks. Each one answers, for a candidate name and one
//! reference name, whether the candidate could be mistaken for the reference.
//! A check reads both names once from the front and once from the back, so its
//! cost grows with the length of the names and not with its square.

use crate::typosquat::names::{normalize, normalized};
use crate::util::{same_chars, to_chars};
use vstd::prelude::*;

verus! {

/// The checks that a harness can run.
#[derive(Clone, Copy, Debug, PartialEq, Eq, Structural)]
pub enum CheckKind {
    /// The candidate leaves out one character of the reference.
    OmittedCharacter,
    /// The candidate writes one character of the reference twice.
    RepeatedCharacter,
    /// The candidate swaps two adjacent characters of the reference.
    SwappedCharacters,
    /// The candidate replaces one character of the reference.
    SubstitutedCharacter,
    /// The candidate differs from the reference only in `-` and `_`.
    Separator,
    /// The candidate replaces characters by others that look alike.
    Confusable,
    /// The candidate replaces one character by one that is a single bit away.
    Bitflip,
}

/// Two spellings that are easily taken for one another, such as `rn` and `m`.
#[derive(Debug)]
pub struct Confusable {
    pub left: Vec<char>,
    pub right: Vec<char>,
}

impl View for Confusable {
    type V = (Seq<char>, Seq<char>);

    open spec fn view(&self) -> (Seq<char>, Seq<char>) {
        (self.left@, self.right@)
    }
}

impl Confusable {
    /// The pair of spellings `left` and `right`.
    pub fn new(left: &str, right: &str) -> (pair: Confusable)
        ensures
            pair@ == (left@, right@),
    {
        Confusable { left: to_chars(left), right: to_chars(right) }
    }
}

// ---------------------------------------------------------------------------
// What each check means
// ---------------------------------------------------------------------------

/// `c` is `r` with one character left out.
pub open spec fn omitted_character(c: Seq<char>, r: Seq<char>) -> bool {
    exists|i: int| 0 <= i < r.len() && c == #[trigger] r.remove(i)
}

/// `c` is `r` with one character written twice in a row.
pub open spec fn repeated_character(c: Seq<char>, r: Seq<char>) -> bool {
    exists|i: int| 0 <= i < r.len() && c == #[trigger] r.insert(i, r[i])
}

/// `r` with the characters at `i` and `i + 1` exchanged.
pub open spec fn swap_at(r: Seq<char>, i: int) -> Seq<char> {
    r.update(i, r[i + 1]).update(i + 1, r[i])
}

/// `c` is `r` with two adjacent characters, which differ, exchanged.
pub open spec fn swapped_characters(c: Seq<char>, r: Seq<char>) -> bool {
    exists|i: int| 0 <= i < r.len() - 1 && r[i] != r[i + 1] && c == #[trigger] swap_at(r, i)
}

/// `c` and `r` have the same length and differ at `i` and nowhere else.
pub open spec fn differ_only_at(c: Seq<char>, r: Seq<char>, i: int) -> bool {
    &&& 0 <= i < r.len()
    &&& c.len() == r.len()
    &&& c[i] != r[i]
    &&& c == r.update(i, c[i])
}

/// `c` is `r` with one character replaced by another.
pub open spec fn substituted_character(c: Seq<char>, r: Seq<char>) -> bool {
    exists|i: int| differ_only_at(c, r, i)
}

/// Both characters are ASCII and their codes differ in exactly one bit.
pub open spec fn one_bit_apart(a: char, b: char) -> bool {
    let d = (a as u32) ^ (b as u32);
    &&& (a as u32) < 128
    &&& (b as u32) < 128
    &&& (d == 1 || d == 2 || d == 4 || d == 8 || d == 16 || d == 32 || d == 64)
}

/// `c` is `r` with one character replaced by one that is a single bit away.
pub open spec fn bitflip(c: Seq<char>, r: Seq<char>) -> bool {
    exists|i: int| differ_only_at(c, r, i) && one_bit_apart(c[i], r[i])
}

/// The characters that separate the words of a name.
pub open spec fn is_separator(c: char) -> bool {
    c == '-' || c == '_'
}

/// The characters of `s` that are not separators, in their order.
pub open spec fn without_separators(s: Seq<char>) -> Seq<char>
    decreases s.len(),
{
    if s.len() == 0 {
        Seq::empty()
    } else if is_separator(s.last()) {
        without_separators(s.drop_last())
    } else {
        without_separators(s.drop_last()).push(s.last())
    }
}

/// `c` and `r` differ, but not in anything other than their separators.
pub open spec fn separator_variation(c: Seq<char>, r: Seq<char>) -> bool {
    c != r && without_separators(c) == without_separators(r)
}

/// `c` is `r` with the occurrence of `b` at `i` replaced by `a`.
pub open spec fn replaces_at(c: Seq<char>, r: Seq<char>, i: int, a: Seq<char>, b: Seq<char>) -> bool {
    &&& 0 <= i <= r.len() - b.len()
    &&& r.subrange(i, i + b.len()) == b
    &&& c == r.subrange(0, i) + a + r.subrange(i + b.len(), r.len() as int)
}

/// `c` is `r` with one occurrence of `b` replaced by `a`.
pub open spec fn replaced(c: Seq<char>, r: Seq<char>, a: Seq<char>, b: Seq<char>) -> bool {
    exists|i: int| #[trigger] replaces_at(c, r, i, a, b)
}

/// The candidate writes one spelling of `pair` where the reference has the other.
pub open spec fn confused_by(c: Seq<char>, r: Seq<char>, pair: (Seq<char>, Seq<char>)) -> bool {
    replaced(c, r, pair.0, pair.1) || replaced(c, r, pair.1, pair.0)
}

/// The candidate writes one spelling of a pair of `table` where the
/// reference has the other, at one place.
pub open spec fn confusable(c: Seq<char>, r: Seq<char>, table: Seq<(Seq<char>, Seq<char>)>) -> bool {
    exists|k: int| 0 <= k < table.len() && #[trigger] confused_by(c, r, table[k])
}

/// The pairs of spellings that a table of confusables holds.
pub open spec fn spellings(table: Seq<Confusable>) -> Seq<(Seq<char>, Seq<char>)> {
    table.map_values(|pair: Confusable| pair@)
}

/// Whether the check `kind` fires for candidate `c` against reference `r`.
/// No check fires for a name against itself.
pub open spec fn fires(
    kind: CheckKind,
    c: Seq<char>,
    r: Seq<char>,
    table: Seq<(Seq<char>, Seq<char>)>,
) -> bool {
    c != r && match kind {
        CheckKind::OmittedCharacter => omitted_character(c, r),
        CheckKind::RepeatedCharacter => repeated_character(c, r),
        CheckKind::SwappedCharacters => swapped_characters(c, r),
        CheckKind::SubstitutedCharacter => substituted_character(c, r),
        CheckKind::Separator => separator_variation(c, r),
        CheckKind::Confusable => confusable(c, r, table),
        CheckKind::Bitflip => bitflip(c, r),
    }
}

// ---------------------------------------------------------------------------
// Common prefixes and suffixes
// ---------------------------------------------------------------------------

/// `p` is the length of the longest common prefix of `c` and `r`.
pub open spec fn is_prefix_len(c: Seq<char>, r: Seq<char>, p: int) -> bool {
    &&& 0 <= p <= c.len()
    &&& p <= r.len()
    &&& forall|j: int| 0 <= j < p ==> c[j] == r[j]
    &&& (p < c.len() && p < r.len() ==> c[p] != r[p])
}

/// The character of `s` that stands `j` places before its last one.
pub open spec fn from_end(s: Seq<char>, j: int) -> char {
    s[s.len() - 1 - j]
}

/// `s` is the length of the longest common suffix of `c` and `r`.
pub open spec fn is_suffix_len(c: Seq<char>, r: Seq<char>, s: int) -> bool {
    &&& 0 <= s <= c.len()
    &&& s <= r.len()
    &&& forall|j: int| 0 <= j < s ==> #[trigger] from_end(c, j) == from_end(r, j)
    &&& (s < c.len() && s < r.len() ==> from_end(c, s) != from_end(r, s))
}

/// The length of the longest common prefix of `c` and `r`.
pub fn prefix_len(c: &Vec<char>, r: &Vec<char>) -> (p: usize)
    ensures
        is_prefix_len(c@, r@, p as int),
{
    let mut p: usize = 0;
    while p < c.len() && p < r.len() && c[p] == r[p]
        invariant
            p <= c.len(),
            p <= r.len(),
            forall|j: int| 0 <= j < p ==> c@[j] == r@[j],
        decreases c.len() - p,
    {
        p += 1;
    }
    p
}

/// The length of the longest common suffix of `c` and `r`.
pub fn suffix_len(c: &Vec<char>, r: &Vec<char>) -> (s: usize)
    ensures
        is_suffix_len(c@, r@, s as int),
{
    let mut s: usize = 0;
    while s < c.len() && s < r.len() && c[c.len() - 1 - s] == r[r.len() - 1 - s]
        invariant
            s <= c.len(),
            s <= r.len(),
            forall|j: int| 0 <= j < s ==> #[trigger] from_end(c@, j) == from_end(r@, j),
        decreases c.len() - s,
    {
        s += 1;
    }
    s
}

// ---------------------------------------------------------------------------
// Each check, decided from the two lengths
// ---------------------------------------------------------------------------

/// One character is left out exactly where `r` is one longer than `c` and
/// the common prefix and suffix together cover `c`.
proof fn lemma_omitted_by_lengths(c: Seq<char>, r: Seq<char>, p: int, s: int)
    requires
        is_prefix_len(c, r, p),
        is_suffix_len(c, r, s),
    ensures
        omitted_character(c, r) <==> (r.len() == c.len() + 1 && p + s >= c.len()),
{
    if r.len() == c.len() + 1 && p + s >= c.len() {
        assert forall|j: int| p <= j < c.len() implies c[j] == r[j + 1] by {
            let k = c.len() - 1 - j;
            assert(0 <= k < s);
            assert(from_end(c, k) == from_end(r, k));
        }
        assert(c =~= r.remove(p));
    }
    if omitted_character(c, r) {
        let i = choose|i: int| 0 <= i < r.len() && c == #[trigger] r.remove(i);
        assert(r.len() == c.len() + 1);
        if p < i {
            assert(c[p] == r.remove(i)[p]);
        }
        if s < c.len() - i {
            let j = c.len() - 1 - s;
            assert(c[j] == r.remove(i)[j]);
        }
    }
}

/// One character is doubled exactly where `c` is one longer than `r` and
/// the common prefix and suffix overlap in `r` by one place.
proof fn lemma_repeated_by_lengths(c: Seq<char>, r: Seq<char>, p: int, s: int)
    requires
        is_prefix_len(c, r, p),
        is_suffix_len(c, r, s),
    ensures
        repeated_character(c, r) <==> (c.len() == r.len() + 1 && p + s >= c.len()),
{
    if c.len() == r.len() + 1 && p + s >= c.len() {
        assert(p >= 1);
        assert forall|j: int| p <= j < c.len() implies c[j] == r[j - 1] by {
            let k = c.len() - 1 - j;
            assert(0 <= k < s);
            assert(from_end(c, k) == from_end(r, k));
        }
        assert(c =~= r.insert(p - 1, r[p - 1]));
    }
    if repeated_character(c, r) {
        let i = choose|i: int| 0 <= i < r.len() && c == #[trigger] r.insert(i, r[i]);
        assert(c.len() == r.len() + 1);
        if p < i + 1 {
            assert(c[p] == r.insert(i, r[i])[p]);
        }
        if s < r.len() - i {
            let j = c.len() - 1 - s;
            assert(c[j] == r.insert(i, r[i])[j]);
        }
    }
}

/// Two adjacent characters are exchanged exactly where the common prefix and
/// suffix leave two places, which hold each other's character.
proof fn lemma_swapped_by_lengths(c: Seq<char>, r: Seq<char>, p: int, s: int)
    requires
        is_prefix_len(c, r, p),
        is_suffix_len(c, r, s),
    ensures
        swapped_characters(c, r) <==> (c.len() == r.len() && p + s == c.len() - 2 && c[p] == r[p
            + 1] && c[p + 1] == r[p]),
{
    if c.len() == r.len() && p + s == c.len() - 2 && c[p] == r[p + 1] && c[p + 1] == r[p] {
        assert forall|j: int| p + 2 <= j < c.len() implies c[j] == r[j] by {
            let k = c.len() - 1 - j;
            assert(0 <= k < s);
            assert(from_end(c, k) == from_end(r, k));
        }
        assert(c =~= swap_at(r, p));
    }
    if swapped_characters(c, r) {
        let i = choose|i: int|
            0 <= i < r.len() - 1 && r[i] != r[i + 1] && c == #[trigger] swap_at(r, i);
        assert(c.len() == r.len());
        assert(c[i] == r[i + 1]);
        assert(c[i + 1] == r[i]);
        if p < i {
            assert(c[p] == swap_at(r, i)[p]);
        }
        assert(p == i);
        if s < c.len() - i - 2 {
            let j = c.len() - 1 - s;
            assert(c[j] == swap_at(r, i)[j]);
        }
        if s > c.len() - i - 2 {
            let k = c.len() - i - 2;
            assert(from_end(c, k) == from_end(r, k));
        }
    }
}

/// One character is replaced exactly where the common prefix and suffix
/// leave one place; that place is then the only one that differs.
proof fn lemma_substituted_by_lengths(c: Seq<char>, r: Seq<char>, p: int, s: int)
    requires
        is_prefix_len(c, r, p),
        is_suffix_len(c, r, s),
    ensures
        (c.len() == r.len() && p + s == c.len() - 1) ==> differ_only_at(c, r, p),
        forall|i: int| differ_only_at(c, r, i) ==> i == p && p + s == c.len() - 1,
{
    if c.len() == r.len() && p + s == c.len() - 1 {
        assert forall|j: int| p + 1 <= j < c.len() implies c[j] == r[j] by {
            let k = c.len() - 1 - j;
            assert(0 <= k < s);
            assert(from_end(c, k) == from_end(r, k));
        }
        assert(c =~= r.update(p, c[p]));
    }
    assert forall|i: int| differ_only_at(c, r, i) implies i == p && p + s == c.len() - 1 by {
        if p < i {
            assert(c[p] == r.update(i, c[i])[p]);
        }
        if s < c.len() - i - 1 {
            let j = c.len() - 1 - s;
            assert(c[j] == r.update(i, c[i])[j]);
        }
        if s > c.len() - i - 1 {
            let k = c.len() - i - 1;
            assert(from_end(c, k) == from_end(r, k));
        }
    }
}

/// Whether both characters are ASCII and one bit apart.
pub fn one_bit_apart_chars(a: char, b: char) -> (apart: bool)
    ensures
        apart == one_bit_apart(a, b),
{
    let x: u32 = a as u32;
    let y: u32 = b as u32;
    let d: u32 = x ^ y;
    x < 128 && y < 128 && (d == 1 || d == 2 || d == 4 || d == 8 || d == 16 || d == 32 || d == 64)
}

/// Whether `c` is `r` with one character left out.
pub fn is_omitted_character(c: &Vec<char>, r: &Vec<char>) -> (hit: bool)
    ensures
        hit == omitted_character(c@, r@),
{
    let p = prefix_len(c, r);
    let s = suffix_len(c, r);
    proof {
        lemma_omitted_by_lengths(c@, r@, p as int, s as int);
    }
    r.len() >= 1 && c.len() == r.len() - 1 && s >= c.len() - p
}

/// Whether `c` is `r` with one character written twice in a row.
pub fn is_repeated_character(c: &Vec<char>, r: &Vec<char>) -> (hit: bool)
    ensures
        hit == repeated_character(c@, r@),
{
    let p = prefix_len(c, r);
    let s = suffix_len(c, r);
    proof {
        lemma_repeated_by_lengths(c@, r@, p as int, s as int);
    }
    c.len() >= 1 && r.len() == c.len() - 1 && s >= c.len() - p
}

/// Whether `c` is `r` with two adjacent characters exchanged.
pub fn is_swapped_characters(c: &Vec<char>, r: &Vec<char>) -> (hit: bool)
    ensures
        hit == swapped_characters(c@, r@),
{
    let p = prefix_len(c, r);
    let s = suffix_len(c, r);
    proof {
        lemma_swapped_by_lengths(c@, r@, p as int, s as int);
    }
    if c.len() != r.len() || c.len() < 2 || p > c.len() - 2 || s != c.len() - 2 - p {
        return false;
    }
    c[p] == r[p + 1] && c[p + 1] == r[p]
}

/// Whether `c` is `r` with one character replaced by another.
pub fn is_substituted_character(c: &Vec<char>, r: &Vec<char>) -> (hit: bool)
    ensures
        hit == substituted_character(c@, r@),
{
    let p = prefix_len(c, r);
    let s = suffix_len(c, r);
    proof {
        lemma_substituted_by_lengths(c@, r@, p as int, s as int);
    }
    c.len() == r.len() && c.len() >= 1 && p <= c.len() - 1 && s == c.len() - 1 - p
}

/// Whether `c` is `r` with one character replaced by one a single bit away.
pub fn is_bitflip(c: &Vec<char>, r: &Vec<char>) -> (hit: bool)
    ensures
        hit == bitflip(c@, r@),
{
    let p = prefix_len(c, r);
    let s = suffix_len(c, r);
    proof {
        lemma_substituted_by_lengths(c@, r@, p as int, s as int);
    }
    if c.len() != r.len() || c.len() < 1 || p > c.len() - 1 || s != c.len() - 1 - p {
        return false;
    }
    one_bit_apart_chars(c[p], r[p])
}

/// Whether `c` is `-` or `_`.
pub fn is_separator_char(c: char) -> (sep: bool)
    ensures
        sep == is_separator(c),
{
    c == '-' || c == '_'
}

/// `name` without its separators.
pub fn strip_separators(name: &Vec<char>) -> (kept: Vec<char>)
    ensures
        kept@ == without_separators(name@),
{
    let mut kept: Vec<char> = Vec::new();
    let mut i: usize = 0;
    while i < name.len()
        invariant
            i <= name.len(),
            kept@ == without_separators(name@.take(i as int)),
        decreases name.len() - i,
    {
        assert(name@.take(i + 1).drop_last() =~= name@.take(i as int));
        if !is_separator_char(name[i]) {
            kept.push(name[i]);
        }
        i += 1;
    }
    assert(name@.take(name.len() as int) =~= name@);
    kept
}

/// Whether `c` and `r` differ in their separators and in nothing else.
pub fn is_separator_variation(c: &Vec<char>, r: &Vec<char>) -> (hit: bool)
    ensures
        hit == separator_variation(c@, r@),
{
    if same_chars(c, r) {
        return false;
    }
    let plain_c = strip_separators(c);
    let plain_r = strip_separators(r);
    same_chars(&plain_c, &plain_r)
}

/// Whether `pattern` stands in `name` at `at`.
pub fn matches_at(name: &Vec<char>, at: usize, pattern: &Vec<char>) -> (found: bool)
    ensures
        found == (at + pattern.len() <= name.len() && name@.subrange(
            at as int,
            at + pattern.len(),
        ) == pattern@),
{
    if at > name.len() || pattern.len() > name.len() - at {
        return false;
    }
    let mut j: usize = 0;
    while j < pattern.len()
        invariant
            at + pattern.len() <= name.len(),
            j <= pattern.len(),
            forall|k: int| 0 <= k < j ==> name@[at + k] == pattern@[k],
        decreases pattern.len() - j,
    {
        if name[at + j] != pattern[j] {
            assert(name@.subrange(at as int, at + pattern.len())[j as int] != pattern@[j as int]);
            return false;
        }
        j += 1;
    }
    assert(name@.subrange(at as int, at + pattern.len()) =~= pattern@);
    true
}

/// A replacement at `i` is one where the lengths fit, `i` lies within the
/// common prefix, what follows the replaced part lies within the common
/// suffix, and each name holds its spelling at `i`.
proof fn lemma_replaces_at_by_lengths(
    c: Seq<char>,
    r: Seq<char>,
    p: int,
    s: int,
    i: int,
    a: Seq<char>,
    b: Seq<char>,
)
    requires
        is_prefix_len(c, r, p),
        is_suffix_len(c, r, s),
    ensures
        replaces_at(c, r, i, a, b) <==> {
            &&& c.len() - a.len() == r.len() - b.len()
            &&& 0 <= i <= r.len() - b.len()
            &&& i <= p
            &&& c.len() - a.len() - i <= s
            &&& r.subrange(i, i + b.len()) == b
            &&& c.subrange(i, i + a.len()) == a
        },
{
    let tail = c.len() - a.len() - i;
    if replaces_at(c, r, i, a, b) {
        let built = r.subrange(0, i) + a + r.subrange(i + b.len(), r.len() as int);
        assert(c.len() == built.len());
        assert(c.subrange(i, i + a.len()) =~= a) by {
            assert forall|k: int| 0 <= k < a.len() implies c[i + k] == a[k] by {
                assert(built[i + k] == a[k]);
            }
        }
        if p < i {
            assert(built[p] == r[p]);
        }
        if s < tail {
            assert(from_end(built, s) == from_end(r, s));
        }
    }
    if c.len() - a.len() == r.len() - b.len() && 0 <= i <= r.len() - b.len() && i <= p && tail
        <= s && r.subrange(i, i + b.len()) == b && c.subrange(i, i + a.len()) == a {
        let built = r.subrange(0, i) + a + r.subrange(i + b.len(), r.len() as int);
        assert(c.len() == built.len());
        assert forall|j: int| 0 <= j < c.len() implies c[j] == built[j] by {
            if j < i {
            } else if j < i + a.len() {
                assert(c.subrange(i, i + a.len())[j - i] == a[j - i]);
            } else {
                let k = c.len() - 1 - j;
                assert(0 <= k < s);
                assert(from_end(c, k) == from_end(r, k));
            }
        }
        assert(c =~= built);
    }
}

/// Whether `c` is `r` with one occurrence of `b` replaced by `a`, given the
/// lengths `p` and `s` of their longest common prefix and suffix.
fn is_replaced(
    c: &Vec<char>,
    r: &Vec<char>,
    p: usize,
    s: usize,
    a: &Vec<char>,
    b: &Vec<char>,
) -> (hit: bool)
    requires
        is_prefix_len(c@, r@, p as int),
        is_suffix_len(c@, r@, s as int),
    ensures
        hit == replaced(c@, r@, a@, b@),
{
    if a.len() > c.len() || b.len() > r.len() || c.len() - a.len() != r.len() - b.len() {
        proof {
            assert forall|i: int| !#[trigger] replaces_at(c@, r@, i, a@, b@) by {
                lemma_replaces_at_by_lengths(c@, r@, p as int, s as int, i, a@, b@);
            }
        }
        return false;
    }
    let rest: usize = c.len() - a.len();
    let low: usize = if rest > s { rest - s } else { 0 };
    let high: usize = if p < rest { p } else { rest };
    let mut i: usize = low;
    while i <= high
        invariant
            is_prefix_len(c@, r@, p as int),
            is_suffix_len(c@, r@, s as int),
            rest == c.len() - a.len(),
            rest == r.len() - b.len(),
            a.len() <= c.len(),
            b.len() <= r.len(),
            low == if rest > s { rest - s } else { 0 },
            high == if p < rest { p as int } else { rest as int },
            low <= i,
            forall|k: int| low <= k < i ==> !#[trigger] replaces_at(c@, r@, k, a@, b@),
        ensures
            low <= i,
            i > high || i == high,
            forall|k: int| low <= k <= i ==> !#[trigger] replaces_at(c@, r@, k, a@, b@),
        decreases high + 1 - i,
    {
        proof {
            lemma_replaces_at_by_lengths(c@, r@, p as int, s as int, i as int, a@, b@);
        }
        if matches_at(r, i, b) && matches_at(c, i, a) {
            return true;
        }
        if i == high {
            break;
        }
        i += 1;
    }
    proof {
        assert forall|k: int| !#[trigger] replaces_at(c@, r@, k, a@, b@) by {
            lemma_replaces_at_by_lengths(c@, r@, p as int, s as int, k, a@, b@);
        }
    }
    false
}

/// Whether `c` writes one spelling of a pair of `table` where `r` has the
/// other, at one place.
pub fn is_confusable(c: &Vec<char>, r: &Vec<char>, table: &Vec<Confusable>) -> (hit: bool)
    ensures
        hit == confusable(c@, r@, spellings(table@)),
{
    let p = prefix_len(c, r);
    let s = suffix_len(c, r);
    let mut k: usize = 0;
    while k < table.len()
        invariant
            is_prefix_len(c@, r@, p as int),
            is_suffix_len(c@, r@, s as int),
            k <= table.len(),
            forall|j: int| 0 <= j < k ==> !#[trigger] confused_by(c@, r@, spellings(table@)[j]),
        decreases table.len() - k,
    {
        let pair = &table[k];
        assert(spellings(table@)[k as int] == (pair.left@, pair.right@));
        if is_replaced(c, r, p, s, &pair.left, &pair.right) || is_replaced(
            c,
            r,
            p,
            s,
            &pair.right,
            &pair.left,
        ) {
            assert(confused_by(c@, r@, spellings(table@)[k as int]));
            return true;
        }
        k += 1;
    }
    false
}

/// Runs one check on one pair of names.
pub fn check_pair(kind: CheckKind, c: &Vec<char>, r: &Vec<char>, table: &Vec<Confusable>) -> (hit:
    bool)
    ensures
        hit == fires(kind, c@, r@, spellings(table@)),
{
    if same_chars(c, r) {
        return false;
    }
    match kind {
        CheckKind::OmittedCharacter => is_omitted_character(c, r),
        CheckKind::RepeatedCharacter => is_repeated_character(c, r),
        CheckKind::SwappedCharacters => is_swapped_characters(c, r),
        CheckKind::SubstitutedCharacter => is_substituted_character(c, r),
        CheckKind::Separator => is_separator_variation(c, r),
        CheckKind::Confusable => is_confusable(c, r, table),
        CheckKind::Bitflip => is_bitflip(c, r),
    }
}

/// Runs one check on the candidate name against one reference name, each
/// read without the whitespace around it and in lower case.
pub fn check_names(kind: CheckKind, candidate: &str, reference: &str, table: &Vec<Confusable>) -> (hit:
    bool)
    ensures
        hit == fires(kind, normalized(candidate@), normalized(reference@), spellings(table@)),
{
    let c = normalize(candidate);
    let r = normalize(reference);
    check_pair(kind, &c, &r, table)
}

} // verus!
