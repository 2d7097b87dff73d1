//! A memory of which modules lie inside installed packages.

use vstd::prelude::*;
use crate::env::NpmResolver;
use crate::text::same_text;
use crate::urls::{url_normal_form, url_parse};

verus! {

/// Whether the module that a specifier names lies inside an installed
/// package: what the locator says of the URL that the specifier parses
/// to, and no where it is no URL.
pub open spec fn in_npm_answer<N: NpmResolver>(npm_resolver: &N, specifier: Seq<char>) -> bool {
    match url_normal_form(specifier) {
        Some(u) => npm_resolver.inside_npm_package(u),
        None => false,
    }
}

/// Whether a list of answers has one for the specifier.
pub open spec fn answered(seen: Seq<(String, bool)>, specifier: Seq<char>) -> bool {
    exists|i: int| 0 <= i < seen.len() && (#[trigger] seen[i]).0@ == specifier
}

/// The answers of a package locator, each kept once it is given.
pub struct InNpmPackageCache<'a, N: NpmResolver> {
    npm_resolver: &'a N,
    seen: Vec<(String, bool)>,
}

impl<'a, N: NpmResolver> InNpmPackageCache<'a, N> {
    /// Every answer kept is the answer of the locator.
    #[verifier::type_invariant]
    spec fn coherent(self) -> bool {
        forall|i: int|
            0 <= i < self.seen@.len() ==> (#[trigger] self.seen@[i]).1 == in_npm_answer(
                self.npm_resolver,
                self.seen@[i].0@,
            )
    }

    /// The locator whose answers are kept.
    pub closed spec fn locator(self) -> &'a N {
        self.npm_resolver
    }

    /// The number of answers kept.
    pub closed spec fn count(self) -> nat {
        self.seen@.len()
    }

    /// Whether the answer for the specifier is kept.
    pub closed spec fn holds(self, specifier: Seq<char>) -> bool {
        answered(self.seen@, specifier)
    }

    /// A memory without answers.
    pub fn new(npm_resolver: &'a N) -> (r: Self)
        ensures
            r.locator() == npm_resolver,
            r.count() == 0,
            forall|specifier: Seq<char>| !r.holds(specifier),
    {
        InNpmPackageCache { npm_resolver, seen: Vec::new() }
    }

    /// Whether the module that a specifier names lies inside an installed
    /// package. The answer is kept: the locator is asked once for each
    /// specifier, and a specifier whose answer is kept is answered from memory.
    pub fn in_npm_package_with_cache(&mut self, specifier: &str) -> (b: bool)
        ensures
            b == in_npm_answer(old(self).locator(), specifier@),
            final(self).locator() == old(self).locator(),
            final(self).holds(specifier@),
            forall|other: Seq<char>|
                final(self).holds(other) <==> old(self).holds(other) || other == specifier@,
            final(self).count() == if old(self).holds(specifier@) {
                old(self).count()
            } else {
                old(self).count() + 1
            },
    {
        proof {
            use_type_invariant(&*self);
        }
        let mut i: usize = 0;
        while i < self.seen.len()
            invariant
                i <= self.seen.len(),
                *self == *old(self),
                forall|j: int| 0 <= j < i ==> (#[trigger] self.seen@[j]).0@ != specifier@,
                forall|j: int|
                    0 <= j < self.seen@.len() ==> (#[trigger] self.seen@[j]).1 == in_npm_answer(
                        self.npm_resolver,
                        self.seen@[j].0@,
                    ),
            decreases self.seen.len() - i,
        {
            if same_text(self.seen[i].0.as_str(), specifier) {
                assert(self.seen@[i as int].0@ == specifier@);
                return self.seen[i].1;
            }
            i += 1;
        }
        assert(!self.holds(specifier@));
        let ghost before = self.seen@;
        let answer = match url_parse(specifier) {
            Some(u) => self.npm_resolver.in_npm_package(u.as_str()),
            None => false,
        };
        // The list is built anew and put in place as a whole: the answers
        // kept so far, then the new one.
        let mut fresh: Vec<(String, bool)> = Vec::new();
        let mut k: usize = 0;
        while k < self.seen.len()
            invariant
                k <= self.seen.len(),
                *self == *old(self),
                before == self.seen@,
                fresh@.len() == k,
                forall|j: int| 0 <= j < k ==> (#[trigger] fresh@[j]).0@ == before[j].0@,
                forall|j: int|
                    0 <= j < self.seen@.len() ==> (#[trigger] self.seen@[j]).1 == in_npm_answer(
                        self.npm_resolver,
                        self.seen@[j].0@,
                    ),
                forall|j: int|
                    0 <= j < k ==> (#[trigger] fresh@[j]).1 == in_npm_answer(
                        self.npm_resolver,
                        fresh@[j].0@,
                    ),
            decreases self.seen.len() - k,
        {
            fresh.push((self.seen[k].0.clone(), self.seen[k].1));
            k += 1;
        }
        fresh.push((specifier.to_owned(), answer));
        proof {
            let after = fresh@;
            assert(after[before.len() as int].0@ == specifier@);
            assert forall|other: Seq<char>| #[trigger]
                answered(after, other) <==> (answered(before, other) || other == specifier@) by {
                if answered(after, other) {
                    let i = choose|i: int| 0 <= i < after.len() && (#[trigger] after[i]).0@ == other;
                    if i < before.len() {
                        assert(before[i].0@ == other);
                    }
                }
                if answered(before, other) {
                    let i = choose|i: int|
                        0 <= i < before.len() && (#[trigger] before[i]).0@ == other;
                    assert(after[i].0@ == other);
                }
            }
        }
        *self = InNpmPackageCache { npm_resolver: self.npm_resolver, seen: fresh };
        answer
    }
}

} // verus!
