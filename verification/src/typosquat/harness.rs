//! The harness: the enabled checks together with the reference packages
//! that every candidate is compared with.

use crate::typosquat::checks::{check_pair, fires, spellings, CheckKind, Confusable};
use crate::typosquat::names::{normalize, normalized};
use crate::typosquat::squat::{squat_views, Squat};
use vstd::prelude::*;

verus! {

/// Which checks run. Each can be switched off by itself.
#[derive(Clone, Copy, Debug)]
pub struct CheckSet {
    pub omitted_character: bool,
    pub repeated_character: bool,
    pub swapped_characters: bool,
    pub substituted_character: bool,
    pub separator: bool,
    pub confusable: bool,
    pub bitflip: bool,
}

/// `kind` alone where `on` holds, nothing otherwise.
pub open spec fn one_if(on: bool, kind: CheckKind) -> Seq<CheckKind> {
    if on {
        seq![kind]
    } else {
        Seq::empty()
    }
}

/// The enabled checks in the order in which a harness runs them.
pub open spec fn enabled(set: CheckSet) -> Seq<CheckKind> {
    one_if(set.omitted_character, CheckKind::OmittedCharacter) + one_if(
        set.repeated_character,
        CheckKind::RepeatedCharacter,
    ) + one_if(set.swapped_characters, CheckKind::SwappedCharacters) + one_if(
        set.substituted_character,
        CheckKind::SubstitutedCharacter,
    ) + one_if(set.separator, CheckKind::Separator) + one_if(set.confusable, CheckKind::Confusable)
        + one_if(set.bitflip, CheckKind::Bitflip)
}

/// The set in which every check is switched on.
pub open spec fn every_check() -> CheckSet {
    CheckSet {
        omitted_character: true,
        repeated_character: true,
        swapped_characters: true,
        substituted_character: true,
        separator: true,
        confusable: true,
        bitflip: true,
    }
}

impl CheckSet {
    /// Every check switched on.
    pub fn all() -> (set: CheckSet)
        ensures
            set == every_check(),
    {
        CheckSet {
            omitted_character: true,
            repeated_character: true,
            swapped_characters: true,
            substituted_character: true,
            separator: true,
            confusable: true,
            bitflip: true,
        }
    }

    /// Every check switched off.
    pub fn none() -> (set: CheckSet)
        ensures
            enabled(set) =~= Seq::<CheckKind>::empty(),
    {
        CheckSet {
            omitted_character: false,
            repeated_character: false,
            swapped_characters: false,
            substituted_character: false,
            separator: false,
            confusable: false,
            bitflip: false,
        }
    }

    /// The enabled checks as a list.
    pub fn to_vec(&self) -> (kinds: Vec<CheckKind>)
        ensures
            kinds@ == enabled(*self),
    {
        let mut kinds: Vec<CheckKind> = Vec::new();
        assert(kinds@ + one_if(self.omitted_character, CheckKind::OmittedCharacter) =~= one_if(
            self.omitted_character,
            CheckKind::OmittedCharacter,
        ));
        push_if(&mut kinds, self.omitted_character, CheckKind::OmittedCharacter);
        push_if(&mut kinds, self.repeated_character, CheckKind::RepeatedCharacter);
        push_if(&mut kinds, self.swapped_characters, CheckKind::SwappedCharacters);
        push_if(&mut kinds, self.substituted_character, CheckKind::SubstitutedCharacter);
        push_if(&mut kinds, self.separator, CheckKind::Separator);
        push_if(&mut kinds, self.confusable, CheckKind::Confusable);
        push_if(&mut kinds, self.bitflip, CheckKind::Bitflip);
        kinds
    }
}

fn push_if(kinds: &mut Vec<CheckKind>, on: bool, kind: CheckKind)
    ensures
        final(kinds)@ == old(kinds)@ + one_if(on, kind),
{
    if on {
        kinds.push(kind);
    }
    assert(kinds@ =~= old(kinds)@ + one_if(on, kind));
}

/// A popular package that candidates are compared with.
#[derive(Debug)]
pub struct ReferencePackage {
    pub name: String,
    pub description: Option<String>,
}

/// The package under evaluation, as the data store holds it.
#[derive(Debug)]
pub struct CandidatePackage {
    pub name: String,
    pub description: Option<String>,
}

/// A reference package with the form of its name that the checks read.
pub struct Reference {
    package: ReferencePackage,
    norm: Vec<char>,
}

impl Reference {
    #[verifier::type_invariant]
    spec fn wf(self) -> bool {
        self.norm@ == normalized(self.package.name@)
    }

    pub closed spec fn name(self) -> Seq<char> {
        self.package.name@
    }

    fn new(package: ReferencePackage) -> (reference: Reference)
        ensures
            reference.name() == package.name@,
    {
        let norm = normalize(package.name.as_str());
        Reference { package, norm }
    }
}

/// The hits of one check over the reference names, in their order.
pub open spec fn hits_of_check(
    kind: CheckKind,
    names: Seq<Seq<char>>,
    table: Seq<(Seq<char>, Seq<char>)>,
    candidate: Seq<char>,
) -> Seq<(CheckKind, Seq<char>)>
    decreases names.len(),
{
    if names.len() == 0 {
        Seq::empty()
    } else {
        let before = hits_of_check(kind, names.drop_last(), table, candidate);
        if fires(kind, candidate, normalized(names.last()), table) {
            before.push((kind, names.last()))
        } else {
            before
        }
    }
}

/// The hits of all checks: check by check, and for each check reference by
/// reference. `candidate` is the normalized name of the candidate.
pub open spec fn hits(
    kinds: Seq<CheckKind>,
    names: Seq<Seq<char>>,
    table: Seq<(Seq<char>, Seq<char>)>,
    candidate: Seq<char>,
) -> Seq<(CheckKind, Seq<char>)>
    decreases kinds.len(),
{
    if kinds.len() == 0 {
        Seq::empty()
    } else {
        hits(kinds.drop_last(), names, table, candidate) + hits_of_check(
            kinds.last(),
            names,
            table,
            candidate,
        )
    }
}

/// The enabled checks and the reference packages, ready to evaluate candidates.
pub struct Harness {
    kinds: Vec<CheckKind>,
    confusables: Vec<Confusable>,
    references: Vec<Reference>,
}

impl Harness {
    /// The checks that this harness runs, in their order.
    pub closed spec fn checks(&self) -> Seq<CheckKind> {
        self.kinds@
    }

    /// The confusable spellings that this harness knows.
    pub closed spec fn table(&self) -> Seq<(Seq<char>, Seq<char>)> {
        spellings(self.confusables@)
    }

    /// The names of the reference packages, in their order.
    pub closed spec fn names(&self) -> Seq<Seq<char>> {
        self.references@.map_values(|reference: Reference| reference.name())
    }

    /// What `check_package` reports for a candidate of this name.
    pub open spec fn squats(&self, name: Seq<char>) -> Seq<(CheckKind, Seq<char>)> {
        hits(self.checks(), self.names(), self.table(), normalized(name))
    }

    /// A harness that runs the checks of `set` against `packages`.
    pub fn new(set: CheckSet, confusables: Vec<Confusable>, packages: Vec<ReferencePackage>) -> (harness:
        Harness)
        ensures
            harness.checks() == enabled(set),
            harness.table() == spellings(confusables@),
            harness.names() == packages@.map_values(|package: ReferencePackage| package.name@),
    {
        let ghost given = packages@;
        let mut references: Vec<Reference> = Vec::new();
        for package in it: packages
            invariant
                it.seq() == given,
                references@.len() == it.index(),
                forall|i: int|
                    0 <= i < references@.len() ==> (#[trigger] references@[i]).name() == given[i].name@,
        {
            references.push(Reference::new(package));
        }
        let harness = Harness { kinds: set.to_vec(), confusables, references };
        assert(harness.names() =~= given.map_values(|package: ReferencePackage| package.name@));
        harness
    }

    /// The number of reference packages.
    pub fn len(&self) -> (n: usize)
        ensures
            n == self.names().len(),
    {
        self.references.len()
    }

    /// Runs every enabled check on the candidate against every reference
    /// package and collects the hits: check by check, and within a check in
    /// the order of the reference packages. The same harness and the same
    /// name give the same list, whenever they are asked. The checks of this
    /// harness read names only: what else `package` holds changes nothing.
    #[allow(unused_variables)]
    pub fn check_package(&self, name: &str, package: &CandidatePackage) -> (squats: Vec<Squat>)
        ensures
            squat_views(squats@) == self.squats(name@),
    {
        let candidate = normalize(name);
        let ghost names = self.names();
        let ghost table = self.table();
        let mut squats: Vec<Squat> = Vec::new();
        let mut k: usize = 0;
        while k < self.kinds.len()
            invariant
                k <= self.kinds.len(),
                names == self.names(),
                table == self.table(),
                candidate@ == normalized(name@),
                squat_views(squats@) == hits(self.kinds@.take(k as int), names, table, candidate@),
            decreases self.kinds.len() - k,
        {
            let kind = self.kinds[k];
            let ghost before = squat_views(squats@);
            let mut j: usize = 0;
            while j < self.references.len()
                invariant
                    j <= self.references.len(),
                    names == self.names(),
                    table == self.table(),
                    squat_views(squats@) == before + hits_of_check(
                        kind,
                        names.take(j as int),
                        table,
                        candidate@,
                    ),
                decreases self.references.len() - j,
            {
                let reference = &self.references[j];
                proof {
                    use_type_invariant(reference);
                    assert(names.take(j + 1).drop_last() =~= names.take(j as int));
                    assert(names.take(j + 1).last() == reference.name());
                }
                if check_pair(kind, &candidate, &reference.norm, &self.confusables) {
                    let ghost old_views = squat_views(squats@);
                    let squat = Squat { check: kind, package: reference.package.name.clone() };
                    squats.push(squat);
                    assert(squat_views(squats@) =~= old_views.push((kind, reference.name())));
                    assert(squat_views(squats@) =~= before + hits_of_check(
                        kind,
                        names.take(j + 1),
                        table,
                        candidate@,
                    ));
                }
                j += 1;
            }
            proof {
                assert(names.take(self.references.len() as int) =~= names);
                assert(self.kinds@.take(k + 1).drop_last() =~= self.kinds@.take(k as int));
                assert(self.kinds@.take(k + 1).last() == kind);
            }
            k += 1;
        }
        assert(self.kinds@.take(self.kinds.len() as int) =~= self.kinds@);
        squats
    }
}

} // verus!
