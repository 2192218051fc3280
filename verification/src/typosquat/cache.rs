//! The popularity cache: the reference packages of the moment, the harness
//! that was compiled over them, and the people to notify.

use crate::typosquat::checks::{spellings, Confusable};
use crate::typosquat::harness::{enabled, every_check, CheckSet, Harness, ReferencePackage};
use vstd::prelude::*;

verus! {

/// How many of the most popular packages a cache keeps.
pub const TOP_PACKAGES: usize = 3000;

/// What a cache is built with, besides the recipients.
pub struct Config {
    /// The checks that the harness runs.
    pub checks: CheckSet,
    /// The spellings that the confusable check takes for one another.
    pub confusables: Vec<Confusable>,
    /// The number of reference packages that the cache keeps.
    pub top: usize,
}

/// The spellings that the standard configuration takes for one another.
pub open spec fn standard_spellings() -> Seq<(Seq<char>, Seq<char>)> {
    seq![("1"@, "l"@), ("1"@, "i"@), ("0"@, "o"@), ("rn"@, "m"@), ("vv"@, "w"@)]
}

impl Config {
    /// Every check, the standard confusable spellings, and the
    /// `TOP_PACKAGES` most popular packages.
    pub fn standard() -> (config: Config)
        ensures
            config.checks == every_check(),
            spellings(config.confusables@) == standard_spellings(),
            config.top == TOP_PACKAGES,
    {
        let mut confusables: Vec<Confusable> = Vec::new();
        confusables.push(Confusable::new("1", "l"));
        confusables.push(Confusable::new("1", "i"));
        confusables.push(Confusable::new("0", "o"));
        confusables.push(Confusable::new("rn", "m"));
        confusables.push(Confusable::new("vv", "w"));
        assert(spellings(confusables@) =~= standard_spellings());
        Config { checks: CheckSet::all(), confusables, top: TOP_PACKAGES }
    }
}

/// Why a cache could not be built.
#[derive(Debug)]
pub enum CacheError {
    /// The query for the most popular packages failed, for the reason given.
    Query(String),
}

/// The names of `packages`, in their order.
pub open spec fn package_names(packages: Seq<ReferencePackage>) -> Seq<Seq<char>> {
    packages.map_values(|package: ReferencePackage| package.name@)
}

/// The texts of `strings`, in their order.
pub open spec fn texts(strings: Seq<String>) -> Seq<Seq<char>> {
    strings.map_values(|s: String| s@)
}

/// The first `top` of `names`, or all of them where there are fewer.
pub open spec fn most_popular(names: Seq<Seq<char>>, top: int) -> Seq<Seq<char>> {
    if top < names.len() {
        names.take(top)
    } else {
        names
    }
}

/// A snapshot of the most popular packages and of the recipients of
/// notifications. Nothing changes it once it is built.
pub struct Cache {
    emails: Vec<String>,
    harness: Option<Harness>,
}

impl Cache {
    /// The addresses that notifications go to, in their order.
    pub closed spec fn recipients(&self) -> Seq<Seq<char>> {
        texts(self.emails@)
    }

    /// The harness of this cache, where it has one.
    pub closed spec fn harness(&self) -> Option<Harness> {
        self.harness
    }

    /// Builds a cache from what the query for the most popular packages
    /// returned: the packages with the most popular first, or the reason why
    /// the query failed. A failed query gives an error and no cache. Of the
    /// packages the first `config.top` are kept; where none is left, the
    /// cache has no harness.
    pub fn build(
        emails: Vec<String>,
        config: Config,
        top: Result<Vec<ReferencePackage>, String>,
    ) -> (built: Result<Cache, CacheError>)
        ensures
            match top {
                Err(reason) => built matches Err(CacheError::Query(why)) && why@ == reason@,
                Ok(packages) => {
                    let kept = most_popular(package_names(packages@), config.top as int);
                    &&& built matches Ok(cache)
                    &&& cache.recipients() == texts(emails@)
                    &&& kept.len() == 0 ==> cache.harness() is None
                    &&& kept.len() > 0 ==> {
                        &&& cache.harness() matches Some(harness)
                        &&& harness.checks() == enabled(config.checks)
                        &&& harness.table() == spellings(config.confusables@)
                        &&& harness.names() == kept
                    }
                },
            },
    {
        match top {
            Err(reason) => Err(CacheError::Query(reason)),
            Ok(packages) => {
                let ghost given = package_names(packages@);
                let mut packages = packages;
                packages.truncate(config.top);
                assert(package_names(packages@) =~= most_popular(given, config.top as int));
                if packages.len() == 0 {
                    Ok(Cache { emails, harness: None })
                } else {
                    let harness = Harness::new(config.checks, config.confusables, packages);
                    Ok(Cache { emails, harness: Some(harness) })
                }
            },
        }
    }

    /// The harness, or `None` where there is nothing to detect with.
    pub fn get_harness(&self) -> (harness: Option<&Harness>)
        ensures
            match self.harness() {
                Some(own) => harness == Some(&own),
                None => harness is None,
            },
    {
        self.harness.as_ref()
    }

    /// The addresses that notifications go to. The list can be read any
    /// number of times.
    pub fn iter_emails(&self) -> (emails: &Vec<String>)
        ensures
            texts(emails@) == self.recipients(),
    {
        &self.emails
    }
}

} // verus!
