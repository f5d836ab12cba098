//! Which files an autoloader of their package covers, and with which kinds.

use vstd::prelude::*;
use crate::config::composer_package::ComposerPackage;
use crate::helpers::filesystem::is_php_path;
use crate::strs::{concat3, is_prefix, seqs, starts_with, str_eq, to_owned, trim_end, trim_end_char};
use crate::types::discovered_files::{DiscoveredFiles, file_views};
use crate::types::file::{DiscoveredFile, FileView};

verus! {

/// An autoload rule: the autoloader kind it records, the vendor path it matches,
/// and whether that path must match exactly (a `files` entry) or as the start of
/// a PHP file's vendor path.
pub type AutoloadRule = (Seq<char>, Seq<char>, bool);

/// `name/path`, the path without trailing slashes.
pub open spec fn package_path(name: Seq<char>, path: Seq<char>) -> Seq<char> {
    name + seq!['/'] + trim_end(path, '/')
}

/// The rules of a PSR map: for each namespace in order, one per directory.
pub open spec fn psr_rules(name: Seq<char>, entries: Seq<(String, Vec<String>)>, kind: Seq<char>) -> Seq<AutoloadRule>
    decreases entries.len(),
{
    if entries.len() == 0 {
        Seq::empty()
    } else {
        psr_rules(name, entries.drop_last(), kind) + seqs(entries.last().1@).map_values(
            |path: Seq<char>| (kind, package_path(name, path), false),
        )
    }
}

/// The rules of a package: PSR-4, PSR-0, classmap, then files entries.
pub open spec fn package_rules(p: ComposerPackage) -> Seq<AutoloadRule> {
    psr_rules(p.name@, p.autoload_psr4@, "psr-4"@) + psr_rules(p.name@, p.autoload_psr0@, "psr-0"@)
        + seqs(p.autoload_classmap@).map_values(|c: Seq<char>| ("classmap"@, package_path(p.name@, c), false))
        + seqs(p.autoload_files@).map_values(|f: Seq<char>| ("files"@, p.name@ + seq!['/'] + f, true))
}

/// The rules of all packages, in order.
pub open spec fn all_rules(pkgs: Seq<ComposerPackage>) -> Seq<AutoloadRule>
    decreases pkgs.len(),
{
    if pkgs.len() == 0 {
        Seq::empty()
    } else {
        all_rules(pkgs.drop_last()) + package_rules(pkgs.last())
    }
}

/// Whether a rule covers a file.
pub open spec fn rule_applies(r: AutoloadRule, f: FileView) -> bool {
    if r.2 {
        f.vendor_relative_path == r.1
    } else {
        is_prefix(r.1, f.vendor_relative_path) && is_php_path(f.source_absolute_path)
    }
}

/// A file marked as autoloaded by a kind, recorded once.
pub open spec fn with_autoloader(f: FileView, kind: Seq<char>) -> FileView {
    FileView {
        is_autoloaded: true,
        autoloader_types: if f.autoloader_types.contains(kind) {
            f.autoloader_types
        } else {
            f.autoloader_types.push(kind)
        },
        ..f
    }
}

/// A file after the rules, in order.
pub open spec fn autoload_marked(f: FileView, rules: Seq<AutoloadRule>) -> FileView
    decreases rules.len(),
{
    if rules.len() == 0 {
        f
    } else {
        let g = autoload_marked(f, rules.drop_last());
        if rule_applies(rules.last(), g) {
            with_autoloader(g, rules.last().0)
        } else {
            g
        }
    }
}

/// Marking a file as autoloaded leaves its paths as they are.
pub proof fn lemma_autoload_keeps_path(f: FileView, rules: Seq<AutoloadRule>)
    ensures
        autoload_marked(f, rules).source_absolute_path == f.source_absolute_path,
    decreases rules.len(),
{
    if rules.len() > 0 {
        lemma_autoload_keeps_path(f, rules.drop_last());
    }
}

/// The view of exec rules.
pub open spec fn rules_view(v: Seq<(String, String, bool)>) -> Seq<AutoloadRule> {
    v.map_values(|r: (String, String, bool)| (r.0@, r.1@, r.2))
}

/// Appends the rules of a PSR map.
fn push_psr_rules(out: &mut Vec<(String, String, bool)>, name: &str, entries: &Vec<(String, Vec<String>)>, kind: &str)
    ensures
        rules_view(final(out)@) == rules_view(old(out)@) + psr_rules(name@, entries@, kind@),
{
    let ghost base = rules_view(out@);
    let mut i: usize = 0;
    while i < entries.len()
        invariant
            i <= entries.len(),
            rules_view(out@) == base + psr_rules(name@, entries@.take(i as int), kind@),
        decreases entries.len() - i,
    {
        let paths = &entries[i].1;
        let ghost mid = rules_view(out@);
        let ghost ps = seqs(paths@);
        let mut k: usize = 0;
        while k < paths.len()
            invariant
                k <= paths.len(),
                ps == seqs(paths@),
                rules_view(out@) == mid + ps.take(k as int).map_values(|path: Seq<char>| (kind@, package_path(name@, path), false)),
            decreases paths.len() - k,
        {
            let trimmed = trim_end_char(paths[k].as_str(), '/');
            let prefix = concat3(name, "/", trimmed.as_str());
            proof {
                reveal_strlit("/");
                assert("/"@ =~= seq!['/']);
                assert(prefix@ == package_path(name@, paths@[k as int]@));
            }
            let ghost pre = out@;
            out.push((to_owned(kind), prefix, false));
            proof {
                assert(rules_view(out@) == rules_view(pre).push((kind@, package_path(name@, ps[k as int]), false)));
                assert(ps.take(k + 1).map_values(|path: Seq<char>| (kind@, package_path(name@, path), false))
                    =~= ps.take(k as int).map_values(|path: Seq<char>| (kind@, package_path(name@, path), false))
                        .push((kind@, package_path(name@, ps[k as int]), false)));
            }
            k += 1;
        }
        proof {
            assert(ps.take(paths.len() as int) == ps);
            assert(entries@.take(i + 1).drop_last() == entries@.take(i as int));
            assert(entries@.take(i + 1).last() == entries@[i as int]);
        }
        i += 1;
    }
    assert(entries@.take(entries.len() as int) == entries@);
}

/// Appends one rule per entry of a list.
fn push_list_rules(out: &mut Vec<(String, String, bool)>, name: &str, entries: &Vec<String>, kind: &str, exact: bool)
    ensures
        rules_view(final(out)@) == rules_view(old(out)@) + seqs(entries@).map_values(
            |e: Seq<char>| (kind@, if exact { name@ + seq!['/'] + e } else { package_path(name@, e) }, exact),
        ),
{
    let ghost base = rules_view(out@);
    let ghost es = seqs(entries@);
    let mut k: usize = 0;
    while k < entries.len()
        invariant
            k <= entries.len(),
            es == seqs(entries@),
            rules_view(out@) == base + es.take(k as int).map_values(
                |e: Seq<char>| (kind@, if exact { name@ + seq!['/'] + e } else { package_path(name@, e) }, exact),
            ),
        decreases entries.len() - k,
    {
        let path = if exact {
            concat3(name, "/", entries[k].as_str())
        } else {
            let trimmed = trim_end_char(entries[k].as_str(), '/');
            concat3(name, "/", trimmed.as_str())
        };
        proof {
            reveal_strlit("/");
            assert("/"@ =~= seq!['/']);
            assert(path@ == (if exact { name@ + seq!['/'] + es[k as int] } else { package_path(name@, es[k as int]) }));
        }
        let ghost pre = out@;
        out.push((to_owned(kind), path, exact));
        proof {
            assert(rules_view(out@) == rules_view(pre).push((kind@, path@, exact)));
            assert(es.take(k + 1).map_values(
                |e: Seq<char>| (kind@, if exact { name@ + seq!['/'] + e } else { package_path(name@, e) }, exact),
            ) =~= es.take(k as int).map_values(
                |e: Seq<char>| (kind@, if exact { name@ + seq!['/'] + e } else { package_path(name@, e) }, exact),
            ).push((kind@, path@, exact)));
        }
        k += 1;
    }
    assert(es.take(entries.len() as int) == es);
}

/// The rules of all packages (see [`all_rules`]).
fn collect_rules(dependencies: &[ComposerPackage]) -> (r: Vec<(String, String, bool)>)
    ensures
        rules_view(r@) == all_rules(dependencies@),
{
    let mut out: Vec<(String, String, bool)> = Vec::new();
    let mut i: usize = 0;
    assert(rules_view(out@) =~= Seq::<AutoloadRule>::empty());
    while i < dependencies.len()
        invariant
            i <= dependencies.len(),
            rules_view(out@) == all_rules(dependencies@.take(i as int)),
        decreases dependencies.len() - i,
    {
        let p = &dependencies[i];
        let ghost base = rules_view(out@);
        push_psr_rules(&mut out, p.name.as_str(), &p.autoload_psr4, "psr-4");
        push_psr_rules(&mut out, p.name.as_str(), &p.autoload_psr0, "psr-0");
        push_list_rules(&mut out, p.name.as_str(), &p.autoload_classmap, "classmap", false);
        push_list_rules(&mut out, p.name.as_str(), &p.autoload_files, "files", true);
        proof {
            reveal_strlit("psr-4");
            reveal_strlit("psr-0");
            reveal_strlit("classmap");
            reveal_strlit("files");
            assert(seqs(p.autoload_classmap@).map_values(
                |e: Seq<char>| ("classmap"@, if false { p.name@ + seq!['/'] + e } else { package_path(p.name@, e) }, false),
            ) =~= seqs(p.autoload_classmap@).map_values(|c: Seq<char>| ("classmap"@, package_path(p.name@, c), false)));
            assert(seqs(p.autoload_files@).map_values(
                |e: Seq<char>| ("files"@, if true { p.name@ + seq!['/'] + e } else { package_path(p.name@, e) }, true),
            ) =~= seqs(p.autoload_files@).map_values(|f: Seq<char>| ("files"@, p.name@ + seq!['/'] + f, true)));
            assert(rules_view(out@) =~= base + package_rules(*p));
            assert(dependencies@.take(i + 1).drop_last() == dependencies@.take(i as int));
            assert(dependencies@.take(i + 1).last() == *p);
        }
        i += 1;
    }
    assert(dependencies@.take(dependencies.len() as int) == dependencies@);
    out
}

/// Whether a rule covers a file.
fn applies(rule: &(String, String, bool), f: &DiscoveredFile) -> (r: bool)
    ensures
        r == rule_applies((rule.0@, rule.1@, rule.2), f@),
{
    if rule.2 {
        str_eq(f.vendor_relative_path.as_str(), rule.1.as_str())
    } else {
        starts_with(f.vendor_relative_path.as_str(), rule.1.as_str()) && f.is_php_file()
    }
}

/// Marks the files each package's autoloaders cover: PSR-4 and PSR-0 directories
/// and classmap entries cover the PHP files below them, `files` entries the file
/// itself; each covered file is autoloaded and records the kinds once each.
pub fn enumerate_autoloaded_files(files: &mut DiscoveredFiles, dependencies: &[ComposerPackage])
    ensures
        final(files)@.len() == old(files)@.len(),
        forall|i: int| 0 <= i < old(files)@.len() ==> #[trigger] final(files)@[i] == autoload_marked(old(files)@[i], all_rules(dependencies@)),
{
    let rules = collect_rules(dependencies);
    let ghost start = old(files)@;
    let mut r: usize = 0;
    while r < rules.len()
        invariant
            r <= rules.len(),
            rules_view(rules@) == all_rules(dependencies@),
            files@.len() == start.len(),
            forall|i: int| 0 <= i < start.len() ==> #[trigger] files@[i] == autoload_marked(start[i], rules_view(rules@).take(r as int)),
        decreases rules.len() - r,
    {
        let rule = &rules[r];
        let ghost before = files@;
        let ghost prev = rules_view(rules@).take(r as int);
        let ghost next = rules_view(rules@).take(r + 1);
        let ghost rv = (rule.0@, rule.1@, rule.2);
        proof {
            assert(next.drop_last() == prev);
            assert(next.last() == rv);
        }
        let mut j: usize = 0;
        while j < files.len()
            invariant
                j <= files@.len(),
                files@.len() == before.len(),
                before.len() == start.len(),
                next.len() > 0,
                next.drop_last() == prev,
                next.last() == rv,
                rv == (rule.0@, rule.1@, rule.2),
                forall|i: int| 0 <= i < start.len() ==> #[trigger] before[i] == autoload_marked(start[i], prev),
                forall|i: int| 0 <= i < j ==> #[trigger] files@[i] == autoload_marked(start[i], next),
                forall|i: int| j <= i < files@.len() ==> #[trigger] files@[i] == before[i],
            decreases files@.len() - j,
        {
            let v = files.get_files();
            assert(file_views(v@)[j as int] == v@[j as int]@);
            assert(before[j as int] == autoload_marked(start[j as int], prev));
            let hit = applies(rule, &v[j]);
            if hit {
                let mut f = v[j].clone_file();
                f.is_autoloaded = true;
                f.add_autoloader(rule.0.clone());
                proof {
                    assert(f@ == with_autoloader(before[j as int], rv.0));
                    lemma_autoload_keeps_path(start[j as int], next);
                }
                files.update_at(j, f);
                assert(files@[j as int] == autoload_marked(start[j as int], next));
            } else {
                assert(files@[j as int] == autoload_marked(start[j as int], next));
            }
            j += 1;
        }
        r += 1;
    }
    assert(rules_view(rules@).take(rules.len() as int) == rules_view(rules@));
}

} // verus!
