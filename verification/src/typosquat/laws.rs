//! Properties of the checks and of the harness that hold for all names.

use crate::typosquat::checks::{
    fires, is_separator, omitted_character, separator_variation, without_separators, CheckKind,
};
use crate::typosquat::harness::{hits, hits_of_check};
use crate::typosquat::names::normalized;
use vstd::prelude::*;

verus! {

/// No check fires for a name against itself.
pub proof fn lemma_no_check_fires_on_itself(
    kind: CheckKind,
    name: Seq<char>,
    table: Seq<(Seq<char>, Seq<char>)>,
)
    ensures
        !fires(kind, name, name, table),
{
}

/// `c` can be had from `r` by leaving characters out.
pub open spec fn is_subsequence(c: Seq<char>, r: Seq<char>) -> bool
    decreases r.len(),
{
    if c.len() == 0 {
        true
    } else if r.len() == 0 {
        false
    } else {
        (c[0] == r[0] && is_subsequence(c.drop_first(), r.drop_first())) || is_subsequence(
            c,
            r.drop_first(),
        )
    }
}

proof fn lemma_subsequence_is_no_longer(c: Seq<char>, r: Seq<char>)
    requires
        is_subsequence(c, r),
    ensures
        c.len() <= r.len(),
    decreases r.len(),
{
    if c.len() > 0 && r.len() > 0 {
        if c[0] == r[0] && is_subsequence(c.drop_first(), r.drop_first()) {
            lemma_subsequence_is_no_longer(c.drop_first(), r.drop_first());
        } else {
            lemma_subsequence_is_no_longer(c, r.drop_first());
        }
    }
}

proof fn lemma_subsequence_of_same_length(c: Seq<char>, r: Seq<char>)
    requires
        is_subsequence(c, r),
        c.len() == r.len(),
    ensures
        c == r,
    decreases r.len(),
{
    if c.len() == 0 {
        assert(c =~= r);
    } else {
        if c[0] == r[0] && is_subsequence(c.drop_first(), r.drop_first()) {
            lemma_subsequence_of_same_length(c.drop_first(), r.drop_first());
            assert(c =~= seq![c[0]] + c.drop_first());
            assert(r =~= seq![r[0]] + r.drop_first());
        } else {
            lemma_subsequence_is_no_longer(c, r.drop_first());
        }
    }
}

proof fn lemma_one_left_out(c: Seq<char>, r: Seq<char>)
    requires
        c.len() + 1 == r.len(),
        is_subsequence(c, r),
    ensures
        omitted_character(c, r),
    decreases r.len(),
{
    if c.len() == 0 {
        assert(c =~= r.remove(0));
    } else if c[0] == r[0] && is_subsequence(c.drop_first(), r.drop_first()) {
        lemma_one_left_out(c.drop_first(), r.drop_first());
        let i = choose|i: int|
            0 <= i < r.drop_first().len() && c.drop_first() == #[trigger] r.drop_first().remove(i);
        assert forall|j: int| 0 <= j < c.len() implies c[j] == r.remove(i + 1)[j] by {
            if j > 0 {
                assert(c[j] == c.drop_first()[j - 1]);
                assert(c.drop_first()[j - 1] == r.drop_first().remove(i)[j - 1]);
            }
        }
        assert(c =~= r.remove(i + 1));
    } else {
        lemma_subsequence_of_same_length(c, r.drop_first());
        assert(c =~= r.remove(0));
    }
}

/// Where the candidate is the reference with exactly one character left
/// out, the omitted-character check fires.
pub proof fn lemma_omission_fires(c: Seq<char>, r: Seq<char>, table: Seq<(Seq<char>, Seq<char>)>)
    requires
        c.len() == r.len() - 1,
        is_subsequence(c, r),
    ensures
        fires(CheckKind::OmittedCharacter, c, r, table),
{
    lemma_one_left_out(c, r);
}

/// Where two different names are the same once `-` and `_` are taken out,
/// the separator check fires.
pub proof fn lemma_separator_style_fires(
    c: Seq<char>,
    r: Seq<char>,
    table: Seq<(Seq<char>, Seq<char>)>,
)
    requires
        c != r,
        without_separators(c) == without_separators(r),
    ensures
        fires(CheckKind::Separator, c, r, table),
{
}

/// Taking the separators out of two names in a row is taking them out of each.
pub proof fn lemma_without_separators_concat(x: Seq<char>, y: Seq<char>)
    ensures
        without_separators(x + y) == without_separators(x) + without_separators(y),
    decreases y.len(),
{
    if y.len() == 0 {
        assert(x + y =~= x);
        assert(without_separators(x) + without_separators(y) =~= without_separators(x));
    } else {
        lemma_without_separators_concat(x, y.drop_last());
        assert((x + y).drop_last() =~= x + y.drop_last());
        assert((x + y).last() == y.last());
        assert(without_separators(x + y) =~= without_separators(x) + without_separators(y));
    }
}

proof fn lemma_without_one_separator(sep: char)
    requires
        is_separator(sep),
    ensures
        without_separators(seq![sep]) == Seq::<char>::empty(),
{
    assert(seq![sep].drop_last() =~= Seq::<char>::empty());
    reveal_with_fuel(without_separators, 2);
}

/// A name written with another separator at one place, or without that
/// separator, is a separator variation: `foo-bar`, `foo_bar` and `foobar`
/// are variations of one another.
pub proof fn lemma_separator_variants(
    before: Seq<char>,
    after: Seq<char>,
    table: Seq<(Seq<char>, Seq<char>)>,
)
    ensures
        fires(CheckKind::Separator, before + seq!['_'] + after, before + seq!['-'] + after, table),
        fires(CheckKind::Separator, before + seq!['-'] + after, before + seq!['_'] + after, table),
        fires(CheckKind::Separator, before + after, before + seq!['-'] + after, table),
        fires(CheckKind::Separator, before + after, before + seq!['_'] + after, table),
        fires(CheckKind::Separator, before + seq!['-'] + after, before + after, table),
        fires(CheckKind::Separator, before + seq!['_'] + after, before + after, table),
{
    let hyphen = before + seq!['-'] + after;
    let underscore = before + seq!['_'] + after;
    let plain = before + after;
    lemma_without_one_separator('-');
    lemma_without_one_separator('_');
    lemma_without_separators_concat(before, seq!['-']);
    lemma_without_separators_concat(before + seq!['-'], after);
    lemma_without_separators_concat(before, seq!['_']);
    lemma_without_separators_concat(before + seq!['_'], after);
    lemma_without_separators_concat(before, after);
    assert(without_separators(before) + Seq::<char>::empty() =~= without_separators(before));
    assert(hyphen[before.len() as int] == '-');
    assert(underscore[before.len() as int] == '_');
    assert(hyphen.len() != plain.len());
    assert(underscore.len() != plain.len());
}

/// Every hit of one check names a reference package of the harness, whose
/// normalized name differs from the candidate and for which the check fires.
pub proof fn lemma_hits_of_check_are_sound(
    kind: CheckKind,
    names: Seq<Seq<char>>,
    table: Seq<(Seq<char>, Seq<char>)>,
    candidate: Seq<char>,
    i: int,
)
    requires
        0 <= i < hits_of_check(kind, names, table, candidate).len(),
    ensures
        hits_of_check(kind, names, table, candidate)[i].0 == kind,
        exists|j: int|
            0 <= j < names.len() && #[trigger] names[j] == hits_of_check(
                kind,
                names,
                table,
                candidate,
            )[i].1 && candidate != normalized(names[j]) && fires(
                kind,
                candidate,
                normalized(names[j]),
                table,
            ),
    decreases names.len(),
{
    let before = hits_of_check(kind, names.drop_last(), table, candidate);
    if i < before.len() {
        lemma_hits_of_check_are_sound(kind, names.drop_last(), table, candidate, i);
        let j = choose|j: int|
            0 <= j < names.drop_last().len() && #[trigger] names.drop_last()[j] == before[i].1
                && candidate != normalized(names.drop_last()[j]) && fires(
                kind,
                candidate,
                normalized(names.drop_last()[j]),
                table,
            );
        assert(names[j] == names.drop_last()[j]);
    } else {
        assert(names[names.len() - 1] == names.last());
    }
}

/// One check reports each reference package at most once: it has no more
/// hits than there are reference packages.
pub proof fn lemma_hits_of_check_are_few(
    kind: CheckKind,
    names: Seq<Seq<char>>,
    table: Seq<(Seq<char>, Seq<char>)>,
    candidate: Seq<char>,
)
    ensures
        hits_of_check(kind, names, table, candidate).len() <= names.len(),
    decreases names.len(),
{
    if names.len() > 0 {
        lemma_hits_of_check_are_few(kind, names.drop_last(), table, candidate);
    }
}

/// Every hit of a harness comes from one of its checks and names one of its
/// reference packages, whose normalized name differs from the candidate and
/// for which that check fires.
pub proof fn lemma_hits_are_sound(
    kinds: Seq<CheckKind>,
    names: Seq<Seq<char>>,
    table: Seq<(Seq<char>, Seq<char>)>,
    candidate: Seq<char>,
    i: int,
)
    requires
        0 <= i < hits(kinds, names, table, candidate).len(),
    ensures
        kinds.contains(hits(kinds, names, table, candidate)[i].0),
        exists|j: int|
            0 <= j < names.len() && #[trigger] names[j] == hits(kinds, names, table, candidate)[i].1
                && candidate != normalized(names[j]) && fires(
                hits(kinds, names, table, candidate)[i].0,
                candidate,
                normalized(names[j]),
                table,
            ),
    decreases kinds.len(),
{
    let before = hits(kinds.drop_last(), names, table, candidate);
    if i < before.len() {
        lemma_hits_are_sound(kinds.drop_last(), names, table, candidate, i);
        let kind = before[i].0;
        let k = choose|k: int| 0 <= k < kinds.drop_last().len() && kinds.drop_last()[k] == kind;
        assert(kinds[k] == kind);
    } else {
        lemma_hits_of_check_are_sound(kinds.last(), names, table, candidate, i - before.len());
        assert(kinds[kinds.len() - 1] == kinds.last());
    }
}

/// Where an enabled check fires for the candidate against a reference
/// package, the harness reports that package for that check.
pub proof fn lemma_hits_are_complete(
    kinds: Seq<CheckKind>,
    names: Seq<Seq<char>>,
    table: Seq<(Seq<char>, Seq<char>)>,
    candidate: Seq<char>,
    k: int,
    j: int,
)
    requires
        0 <= k < kinds.len(),
        0 <= j < names.len(),
        fires(kinds[k], candidate, normalized(names[j]), table),
    ensures
        hits(kinds, names, table, candidate).contains((kinds[k], names[j])),
    decreases kinds.len(),
{
    let before = hits(kinds.drop_last(), names, table, candidate);
    let last = hits_of_check(kinds.last(), names, table, candidate);
    if k < kinds.len() - 1 {
        lemma_hits_are_complete(kinds.drop_last(), names, table, candidate, k, j);
        let i = choose|i: int| 0 <= i < before.len() && before[i] == (kinds[k], names[j]);
        assert((before + last)[i] == (kinds[k], names[j]));
    } else {
        lemma_hits_of_check_are_complete(kinds.last(), names, table, candidate, j);
        let i = choose|i: int| 0 <= i < last.len() && last[i] == (kinds[k], names[j]);
        assert((before + last)[before.len() + i] == (kinds[k], names[j]));
    }
}

proof fn lemma_hits_of_check_are_complete(
    kind: CheckKind,
    names: Seq<Seq<char>>,
    table: Seq<(Seq<char>, Seq<char>)>,
    candidate: Seq<char>,
    j: int,
)
    requires
        0 <= j < names.len(),
        fires(kind, candidate, normalized(names[j]), table),
    ensures
        hits_of_check(kind, names, table, candidate).contains((kind, names[j])),
    decreases names.len(),
{
    let before = hits_of_check(kind, names.drop_last(), table, candidate);
    let all = hits_of_check(kind, names, table, candidate);
    if j < names.len() - 1 {
        lemma_hits_of_check_are_complete(kind, names.drop_last(), table, candidate, j);
        let i = choose|i: int| 0 <= i < before.len() && before[i] == (kind, names[j]);
        assert(all[i] == (kind, names[j]));
    } else {
        assert(all[all.len() - 1] == (kind, names[j]));
    }
}

/// A harness without reference packages, or without checks, reports nothing.
pub proof fn lemma_nothing_to_compare(
    kinds: Seq<CheckKind>,
    names: Seq<Seq<char>>,
    table: Seq<(Seq<char>, Seq<char>)>,
    candidate: Seq<char>,
)
    requires
        kinds.len() == 0 || names.len() == 0,
    ensures
        hits(kinds, names, table, candidate) == Seq::<(CheckKind, Seq<char>)>::empty(),
    decreases kinds.len(),
{
    if kinds.len() > 0 {
        lemma_nothing_to_compare(kinds.drop_last(), names, table, candidate);
        assert(hits(kinds, names, table, candidate) =~= Seq::<(CheckKind, Seq<char>)>::empty());
    }
}

/// A harness that runs the omitted-character check reports every reference
/// package of whose normalized name the candidate leaves out exactly one
/// character.
pub proof fn lemma_omission_is_reported(
    kinds: Seq<CheckKind>,
    names: Seq<Seq<char>>,
    table: Seq<(Seq<char>, Seq<char>)>,
    candidate: Seq<char>,
    j: int,
)
    requires
        kinds.contains(CheckKind::OmittedCharacter),
        0 <= j < names.len(),
        candidate.len() == normalized(names[j]).len() - 1,
        is_subsequence(candidate, normalized(names[j])),
    ensures
        hits(kinds, names, table, candidate).contains((CheckKind::OmittedCharacter, names[j])),
{
    let k = choose|k: int| 0 <= k < kinds.len() && kinds[k] == CheckKind::OmittedCharacter;
    lemma_omission_fires(candidate, normalized(names[j]), table);
    lemma_hits_are_complete(kinds, names, table, candidate, k, j);
}

/// A harness that runs the separator check reports every reference package
/// whose normalized name differs from the candidate in nothing but `-` and
/// `_`.
pub proof fn lemma_separator_style_is_reported(
    kinds: Seq<CheckKind>,
    names: Seq<Seq<char>>,
    table: Seq<(Seq<char>, Seq<char>)>,
    candidate: Seq<char>,
    j: int,
)
    requires
        kinds.contains(CheckKind::Separator),
        0 <= j < names.len(),
        candidate != normalized(names[j]),
        without_separators(candidate) == without_separators(normalized(names[j])),
    ensures
        hits(kinds, names, table, candidate).contains((CheckKind::Separator, names[j])),
{
    let k = choose|k: int| 0 <= k < kinds.len() && kinds[k] == CheckKind::Separator;
    lemma_separator_style_fires(candidate, normalized(names[j]), table);
    lemma_hits_are_complete(kinds, names, table, candidate, k, j);
}

/// A harness reports no reference package whose normalized name is that of
/// the candidate.
pub proof fn lemma_own_name_is_never_reported(
    kinds: Seq<CheckKind>,
    names: Seq<Seq<char>>,
    table: Seq<(Seq<char>, Seq<char>)>,
    candidate: Seq<char>,
    i: int,
)
    requires
        0 <= i < hits(kinds, names, table, candidate).len(),
    ensures
        normalized(hits(kinds, names, table, candidate)[i].1) != candidate,
{
    lemma_hits_are_sound(kinds, names, table, candidate, i);
}

/// A harness has no more hits than it has checks times reference packages:
/// each check reports each reference package at most once.
pub proof fn lemma_hits_are_few(
    kinds: Seq<CheckKind>,
    names: Seq<Seq<char>>,
    table: Seq<(Seq<char>, Seq<char>)>,
    candidate: Seq<char>,
)
    ensures
        hits(kinds, names, table, candidate).len() <= kinds.len() * names.len(),
    decreases kinds.len(),
{
    if kinds.len() > 0 {
        lemma_hits_are_few(kinds.drop_last(), names, table, candidate);
        lemma_hits_of_check_are_few(kinds.last(), names, table, candidate);
        assert(kinds.len() * names.len() == kinds.drop_last().len() * names.len() + names.len())
            by (nonlinear_arith)
            requires
                kinds.drop_last().len() == kinds.len() - 1,
        ;
    }
}

} // verus!
