//! The walk over required packages, depth first, that builds the flat list of
//! dependencies.
//!
//! The walk decides which package to load next; loading it (from the vendor
//! directory, or from `composer.lock`) is left to the caller, who hands the
//! package back.

use vstd::prelude::*;
use crate::config::composer_json::{ComposerJson, ComposerLock, ComposerLockPackage};
use crate::config::composer_package::ComposerPackage;
use crate::config::strauss_config::StraussConfig;
use crate::strs::{is_prefix, seqs, starts_with, str_eq};

verus! {

/// A name the walk passes over: a platform requirement (`php` itself, or a
/// name starting with `ext-`), or a package already found.
pub open spec fn passed_over(name: Seq<char>, found: Seq<Seq<char>>) -> bool {
    name == "php"@ || is_prefix("ext-"@, name) || found.contains(name)
}

/// The names still to visit after taking the next one, and that name: names are
/// taken from the end, those passed over are dropped.
pub open spec fn next_of(pending: Seq<Seq<char>>, found: Seq<Seq<char>>) -> (Seq<Seq<char>>, Option<Seq<char>>)
    decreases pending.len(),
{
    if pending.len() == 0 {
        (pending, None)
    } else if passed_over(pending.last(), found) {
        next_of(pending.drop_last(), found)
    } else {
        (pending.drop_last(), Some(pending.last()))
    }
}

/// A depth-first walk over required packages. Names to visit are kept as a
/// stack: the next one is at the end, and a package's own requirements are
/// pushed in reverse so that the first is visited next.
pub struct DependencyWalk {
    pending: Vec<String>,
    found: Vec<(String, ComposerPackage)>,
}

impl DependencyWalk {
    /// The names still to visit, the next one last.
    pub closed spec fn pending_names(&self) -> Seq<Seq<char>> {
        seqs(self.pending@)
    }

    /// The names under which packages were found, in the order found.
    pub closed spec fn found_names(&self) -> Seq<Seq<char>> {
        self.found@.map_values(|e: (String, ComposerPackage)| e.0@)
    }

    /// The packages found, in the order found.
    pub closed spec fn found_packages(&self) -> Seq<ComposerPackage> {
        self.found@.map_values(|e: (String, ComposerPackage)| e.1)
    }

    /// No name is found twice.
    pub open spec fn wf(&self) -> bool {
        forall|a: int, b: int| 0 <= a < b < self.found_names().len() ==> self.found_names()[a] != self.found_names()[b]
    }

    /// A walk over the given names, in order.
    pub fn new(package_names: &Vec<String>) -> (r: Self)
        ensures
            r.wf(),
            r.pending_names() == seqs(package_names@).reverse(),
            r.found_names().len() == 0,
    {
        let mut pending: Vec<String> = Vec::new();
        let mut k: usize = package_names.len();
        while k > 0
            invariant
                k <= package_names@.len(),
                seqs(pending@) == seqs(package_names@).skip(k as int).reverse(),
            decreases k,
        {
            let ghost before = pending@;
            k -= 1;
            pending.push(package_names[k].clone());
            assert(seqs(pending@) =~= seqs(before).push(package_names@[k as int]@));
            assert(seqs(package_names@).skip(k as int) =~= seq![package_names@[k as int]@]
                + seqs(package_names@).skip(k + 1));
            assert(seqs(package_names@).skip(k as int).reverse() =~= seqs(package_names@).skip(k + 1).reverse().push(
                package_names@[k as int]@));
        }
        assert(seqs(package_names@).skip(0) =~= seqs(package_names@));
        let r = DependencyWalk { pending, found: Vec::new() };
        assert(r.found_names() =~= Seq::<Seq<char>>::empty());
        r
    }

    /// The next package to load (see [`next_of`]): platform requirements and names
    /// already found are passed over; none when nothing is left.
    pub fn next_package(&mut self) -> (r: Option<String>)
        requires
            old(self).wf(),
        ensures
            final(self).wf(),
            final(self).found_names() == old(self).found_names(),
            final(self).found_packages() == old(self).found_packages(),
            (final(self).pending_names(), match r { Some(n) => Some(n@), None => None })
                == next_of(old(self).pending_names(), old(self).found_names()),
            r matches Some(n) ==> !passed_over(n@, old(self).found_names()),
    {
        let ghost found = self.found_names();
        let ghost start = self.pending_names();
        proof {
            reveal_strlit("php");
            reveal_strlit("ext-");
        }
        loop
            invariant
                self.wf(),
                self.found_names() == found,
                self.found_packages() == old(self).found_packages(),
                found == old(self).found_names(),
                next_of(self.pending_names(), found) == next_of(start, found),
                start == old(self).pending_names(),
            decreases self.pending@.len(),
        {
            let ghost before = self.pending_names();
            let name = match self.pending.pop() {
                Some(n) => n,
                None => {
                    return None;
                },
            };
            assert(self.pending_names() =~= before.drop_last());
            assert(name@ == before.last());
            let skip = str_eq(name.as_str(), "php") || starts_with(name.as_str(), "ext-") || self.is_found(name.as_str());
            if !skip {
                return Some(name);
            }
        }
    }

    /// Whether a package was found under the name.
    fn is_found(&self, name: &str) -> (r: bool)
        ensures
            r == self.found_names().contains(name@),
    {
        let mut k: usize = 0;
        while k < self.found.len()
            invariant
                k <= self.found@.len(),
                forall|j: int| 0 <= j < k ==> self.found_names()[j] != name@,
            decreases self.found.len() - k,
        {
            if str_eq(self.found[k].0.as_str(), name) {
                assert(self.found_names()[k as int] == name@);
                return true;
            }
            k += 1;
        }
        false
    }

    /// Records the package loaded for a name and queues its own requirements, the
    /// first of them to be visited next. A name found before is given the new
    /// package.
    pub fn add_package(&mut self, name: String, package: ComposerPackage)
        requires
            old(self).wf(),
        ensures
            final(self).wf(),
            final(self).pending_names() == old(self).pending_names() + seqs(package.requires@).reverse(),
            old(self).found_names().contains(name@) ==> final(self).found_names() == old(self).found_names(),
            !old(self).found_names().contains(name@) ==> final(self).found_names() == old(self).found_names().push(name@)
                && final(self).found_packages() == old(self).found_packages().push(package),
    {
        let ghost pend = self.pending_names();
        let mut k: usize = package.requires.len();
        while k > 0
            invariant
                k <= package.requires@.len(),
                self.found == old(self).found,
                pend == old(self).pending_names(),
                seqs(self.pending@) == pend + seqs(package.requires@).skip(k as int).reverse(),
            decreases k,
        {
            let ghost before = self.pending@;
            k -= 1;
            self.pending.push(package.requires[k].clone());
            assert(seqs(self.pending@) =~= seqs(before).push(package.requires@[k as int]@));
            assert(seqs(package.requires@).skip(k as int) =~= seq![package.requires@[k as int]@]
                + seqs(package.requires@).skip(k + 1));
            assert(seqs(package.requires@).skip(k as int).reverse() =~= seqs(package.requires@).skip(k + 1).reverse().push(
                package.requires@[k as int]@));
        }
        assert(seqs(package.requires@).skip(0) =~= seqs(package.requires@));
        let ghost names = self.found_names();
        let mut i: usize = 0;
        while i < self.found.len()
            invariant
                i <= self.found@.len(),
                self.found == old(self).found,
                old(self).wf(),
                pend == old(self).pending_names(),
                seqs(self.pending@) == pend + seqs(package.requires@).reverse(),
                names == self.found_names(),
                forall|j: int| 0 <= j < i ==> names[j] != name@,
            decreases self.found.len() - i,
        {
            if str_eq(self.found[i].0.as_str(), name.as_str()) {
                assert(names[i as int] == name@);
                assert(old(self).found_names().contains(name@));
                self.found.set(i, (name, package));
                assert(self.found_names() =~= names);
                return;
            }
            i += 1;
        }
        let ghost fp = self.found_packages();
        assert(!names.contains(name@));
        self.found.push((name, package));
        assert(self.found_names() =~= names.push(name@));
        assert forall|a: int, b: int| 0 <= a < b < self.found_names().len()
            implies self.found_names()[a] != self.found_names()[b] by {
            if b == names.len() {
                assert(names[a] != name@);
            } else {
                assert(names == old(self).found_names());
                assert(old(self).found_names()[a] != old(self).found_names()[b]);
            }
        }
        assert(self.found_packages() =~= fp.push(package));
    }

    /// The packages found, in the order found.
    pub fn into_packages(self) -> (r: Vec<ComposerPackage>)
        ensures
            r@ == self.found_packages(),
    {
        let mut out: Vec<ComposerPackage> = Vec::new();
        let mut found = self.found;
        let ghost all = found@;
        let ghost fp = self.found_packages();
        assert(fp == all.map_values(|e: (String, ComposerPackage)| e.1));
        let mut rev: Vec<ComposerPackage> = Vec::new();
        while found.len() > 0
            invariant
                found@ == all.take(found@.len() as int),
                found@.len() <= all.len(),
                rev@ == all.skip(found@.len() as int).map_values(|e: (String, ComposerPackage)| e.1).reverse(),
            decreases found@.len(),
        {
            let ghost n = found@.len();
            let e = found.pop().unwrap();
            rev.push(e.1);
            assert(all.skip(n - 1) =~= seq![all[n - 1]] + all.skip(n as int));
            assert(all.skip(n - 1).map_values(|e: (String, ComposerPackage)| e.1).reverse()
                =~= all.skip(n as int).map_values(|e: (String, ComposerPackage)| e.1).reverse().push(all[n - 1].1));
            assert(found@ =~= all.take(n - 1));
        }
        while rev.len() > 0
            invariant
                out@ + rev@.reverse() == fp,
            decreases rev@.len(),
        {
            let ghost r0 = rev@;
            let x = rev.pop().unwrap();
            out.push(x);
            assert(r0.reverse() =~= seq![x] + rev@.reverse());
        }
        assert(rev@.reverse() =~= Seq::<ComposerPackage>::empty());
        assert(out@ =~= fp);
        out
    }
}

/// The packages the walk starts from: the configured packages, or else the
/// names the project requires, in order.
pub open spec fn starting_packages(config_packages: Seq<Seq<char>>, require: Option<Seq<(Seq<char>, Seq<char>)>>) -> Seq<Seq<char>> {
    if config_packages.len() > 0 {
        config_packages
    } else {
        match require {
            Some(r) => r.map_values(|p: (Seq<char>, Seq<char>)| p.0),
            None => Seq::empty(),
        }
    }
}

/// The views of name/constraint pairs.
pub open spec fn requirement_views(v: Seq<(String, String)>) -> Seq<(Seq<char>, Seq<char>)> {
    v.map_values(|p: (String, String)| (p.0@, p.1@))
}

/// The packages the walk starts from (see [`starting_packages`]).
pub fn packages_to_walk(config: &StraussConfig, project: &ComposerJson) -> (r: Vec<String>)
    ensures
        seqs(r@) == starting_packages(seqs(config.packages@), match project.require {
            Some(v) => Some(requirement_views(v@)),
            None => None,
        }),
{
    if config.packages.len() > 0 {
        return crate::strs::clone_strings(&config.packages);
    }
    let mut out: Vec<String> = Vec::new();
    match &project.require {
        Some(v) => {
            let mut k: usize = 0;
            while k < v.len()
                invariant
                    k <= v@.len(),
                    seqs(out@) == requirement_views(v@).map_values(|p: (Seq<char>, Seq<char>)| p.0).take(k as int),
                decreases v.len() - k,
            {
                let ghost before = out@;
                out.push(v[k].0.clone());
                assert(seqs(out@) =~= seqs(before).push(v@[k as int].0@));
                assert(requirement_views(v@).map_values(|p: (Seq<char>, Seq<char>)| p.0).take(k + 1)
                    =~= requirement_views(v@).map_values(|p: (Seq<char>, Seq<char>)| p.0).take(k as int).push(v@[k as int].0@));
                k += 1;
            }
            assert(requirement_views(v@).map_values(|p: (Seq<char>, Seq<char>)| p.0).take(v@.len() as int)
                =~= requirement_views(v@).map_values(|p: (Seq<char>, Seq<char>)| p.0));
        },
        None => {
            assert(seqs(out@) =~= Seq::<Seq<char>>::empty());
        },
    }
    out
}

/// The locked package of the name: the last entry of the lock's `packages` with
/// that name (`packages-dev` is not looked at).
pub fn locked_package<'a>(lock: &'a ComposerLock, name: &str) -> (r: Option<&'a ComposerLockPackage>)
    ensures
        match r {
            Some(p) => exists|i: int| 0 <= i < lock.packages@.len() && #[trigger] lock.packages@[i] == *p
                && p.name@ == name@ && (forall|j: int| i < j < lock.packages@.len() ==> (#[trigger] lock.packages@[j]).name@ != name@),
            None => forall|j: int| 0 <= j < lock.packages@.len() ==> (#[trigger] lock.packages@[j]).name@ != name@,
        },
{
    let mut k: usize = lock.packages.len();
    while k > 0
        invariant
            k <= lock.packages@.len(),
            forall|j: int| k <= j < lock.packages@.len() ==> (#[trigger] lock.packages@[j]).name@ != name@,
        decreases k,
    {
        k -= 1;
        if str_eq(lock.packages[k].name.as_str(), name) {
            let p = &lock.packages[k];
            assert(lock.packages@[k as int] == *p && p.name@ == name@);
            return Some(p);
        }
    }
    None
}

} // verus!
