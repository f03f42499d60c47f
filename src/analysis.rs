//! The analysis report: a verdict for every package, in three buckets
//! sorted by name.

use vstd::prelude::*;
use vstd::multiset::Multiset;
use crate::classify::{find_transitive_problematic_deps, is_listed, transitive_problematic};
use crate::package::{texts, BrewPackage};
use crate::reason::{count_reason, count_reason_text, get_problematic_reason, problematic_reason};
use crate::report::{analysis_views, AnalysisReport, AnalysisView, MigrationRisk, PackageAnalysis};
use crate::text::{lemma_text_lt_irreflexive, lemma_text_lt_transitive, text_less, text_lt};

verus! {

/// The distinct names of `names` that are denied, in the order they first
/// appear.
pub open spec fn denied_among(deny: Seq<Seq<char>>, names: Seq<Seq<char>>) -> Seq<Seq<char>>
    decreases names.len(),
{
    if names.len() == 0 {
        Seq::empty()
    } else {
        let rest = denied_among(deny, names.drop_last());
        if deny.contains(names.last()) && !rest.contains(names.last()) {
            rest.push(names.last())
        } else {
            rest
        }
    }
}

/// The verdict on package `p` of the list `pkgs`, with the names `deny`
/// denied.
pub open spec fn analysis_of(
    pkgs: Seq<BrewPackage>,
    deny: Seq<Seq<char>>,
    p: BrewPackage,
) -> AnalysisView {
    let name = p@.name;
    let version = p@.version;
    let direct = denied_among(deny, p@.dependencies);
    let deep = transitive_problematic(pkgs, deny, p);
    if deny.contains(name) {
        AnalysisView {
            name,
            version,
            risk: MigrationRisk::KeepInHomebrew,
            reason: problematic_reason(name),
            problematic: Seq::empty(),
        }
    } else if direct.len() > 0 {
        AnalysisView {
            name,
            version,
            risk: MigrationRisk::Risky,
            reason: count_reason("Depends on "@, direct.len()),
            problematic: direct,
        }
    } else if deep.len() > 0 {
        AnalysisView {
            name,
            version,
            risk: MigrationRisk::Risky,
            reason: count_reason("Has transitive dependency on "@, deep.len()),
            problematic: deep,
        }
    } else {
        AnalysisView {
            name,
            version,
            risk: MigrationRisk::Safe,
            reason: "No known problematic dependencies"@,
            problematic: Seq::empty(),
        }
    }
}

/// The verdicts of the packages of `list` that fall under `risk`, in list
/// order; dependencies are looked up in `pkgs`.
pub open spec fn bucket(
    pkgs: Seq<BrewPackage>,
    deny: Seq<Seq<char>>,
    list: Seq<BrewPackage>,
    risk: MigrationRisk,
) -> Seq<AnalysisView>
    decreases list.len(),
{
    if list.len() == 0 {
        Seq::empty()
    } else {
        let rest = bucket(pkgs, deny, list.drop_last(), risk);
        let a = analysis_of(pkgs, deny, list.last());
        if a.risk == risk {
            rest.push(a)
        } else {
            rest
        }
    }
}

/// Each verdict's name sorts no later than the next one's.
pub open spec fn sorted_by_name(v: Seq<AnalysisView>) -> bool {
    forall|i: int, j: int| 0 <= i < j < v.len() ==> !text_lt(v[j].name, v[i].name)
}

fn denied_dependencies(denylist: &Vec<String>, deps: &Vec<String>) -> (r: Vec<String>)
    ensures
        texts(r@) == denied_among(texts(denylist@), texts(deps@)),
{
    let ghost deny = texts(denylist@);
    let mut r: Vec<String> = Vec::new();
    let mut i: usize = 0;
    while i < deps.len()
        invariant
            i <= deps.len(),
            deny == texts(denylist@),
            texts(r@) == denied_among(deny, texts(deps@).subrange(0, i as int)),
        decreases deps.len() - i,
    {
        let ghost prefix = texts(deps@).subrange(0, i + 1);
        assert(prefix.drop_last() =~= texts(deps@).subrange(0, i as int));
        assert(prefix.last() == deps@[i as int]@);
        if is_listed(denylist, deps[i].as_str()) && !is_listed(&r, deps[i].as_str()) {
            let c = deps[i].clone();
            let ghost before = r@;
            r.push(c);
            assert(texts(r@) =~= texts(before).push(deps@[i as int]@));
        }
        i = i + 1;
    }
    assert(texts(deps@).subrange(0, deps.len() as int) =~= texts(deps@));
    r
}

/// The verdict on one package.
pub fn analyze_package(
    pkg: &BrewPackage,
    packages: &Vec<BrewPackage>,
    denylist: &Vec<String>,
) -> (r: PackageAnalysis)
    ensures
        r@ == analysis_of(packages@, texts(denylist@), *pkg),
{
    let ghost deny = texts(denylist@);
    if is_listed(denylist, pkg.name.as_str()) {
        let r = PackageAnalysis {
            name: pkg.name.clone(),
            version: pkg.version.clone(),
            risk: MigrationRisk::KeepInHomebrew,
            reason: get_problematic_reason(pkg.name.as_str()),
            problematic_dependencies: Vec::new(),
        };
        assert(r@.problematic =~= Seq::<Seq<char>>::empty());
        return r;
    }
    let direct = denied_dependencies(denylist, &pkg.dependencies);
    if direct.len() > 0 {
        return PackageAnalysis {
            name: pkg.name.clone(),
            version: pkg.version.clone(),
            risk: MigrationRisk::Risky,
            reason: count_reason_text("Depends on ", direct.len()),
            problematic_dependencies: direct,
        };
    }
    let deep = find_transitive_problematic_deps(pkg, packages, denylist);
    if deep.len() > 0 {
        PackageAnalysis {
            name: pkg.name.clone(),
            version: pkg.version.clone(),
            risk: MigrationRisk::Risky,
            reason: count_reason_text("Has transitive dependency on ", deep.len()),
            problematic_dependencies: deep,
        }
    } else {
        let r = PackageAnalysis {
            name: pkg.name.clone(),
            version: pkg.version.clone(),
            risk: MigrationRisk::Safe,
            reason: String::from_str("No known problematic dependencies"),
            problematic_dependencies: Vec::new(),
        };
        assert(r@.problematic =~= Seq::<Seq<char>>::empty());
        r
    }
}

/// The verdicts, sorted by name; the same verdicts as before.
pub fn sort_by_name(v: Vec<PackageAnalysis>) -> (r: Vec<PackageAnalysis>)
    ensures
        analysis_views(r@).to_multiset() == analysis_views(v@).to_multiset(),
        sorted_by_name(analysis_views(r@)),
{
    broadcast use vstd::seq_lib::group_to_multiset_ensures, vstd::multiset::group_multiset_axioms;

    let ghost all = analysis_views(v@).to_multiset();
    let mut rest = v;
    let mut sorted: Vec<PackageAnalysis> = Vec::new();
    proof {
        assert(analysis_views(sorted@) =~= Seq::<AnalysisView>::empty());
        assert(analysis_views(sorted@).to_multiset() =~= Multiset::empty());
    }
    while rest.len() > 0
        invariant
            analysis_views(sorted@).to_multiset().add(analysis_views(rest@).to_multiset()) == all,
            sorted_by_name(analysis_views(sorted@)),
        decreases rest.len(),
    {
        let ghost rest0 = rest@;
        let item = rest.remove(0);
        proof {
            assert(analysis_views(rest@) =~= analysis_views(rest0).remove(0));
            vstd::seq_lib::to_multiset_remove(analysis_views(rest0), 0);
        }
        let mut pos: usize = 0;
        while pos < sorted.len() && !text_less(item.name.as_str(), sorted[pos].name.as_str())
            invariant
                pos <= sorted@.len(),
                forall|i: int| 0 <= i < pos ==> !text_lt(item.name@, #[trigger] sorted@[i].name@),
            decreases sorted@.len() - pos,
        {
            pos = pos + 1;
        }
        let ghost s0 = analysis_views(sorted@);
        let ghost iv = item@;
        sorted.insert(pos, item);
        proof {
            let t = analysis_views(sorted@);
            assert(t =~= s0.insert(pos as int, iv));
            vstd::seq_lib::to_multiset_insert(s0, pos as int, iv);
            assert forall|i: int, j: int| 0 <= i < j < t.len() implies !text_lt(t[j].name, t[i].name) by {
                if i < pos && j == pos {
                    assert(s0[i] == t[i]);
                } else if i == pos && j > pos {
                    assert(t[j] == s0[j - 1]);
                    assert(text_lt(iv.name, s0[pos as int].name));
                    if text_lt(t[j].name, iv.name) {
                        lemma_text_lt_transitive(t[j].name, iv.name, s0[pos as int].name);
                        if j - 1 == pos {
                            lemma_text_lt_irreflexive(s0[pos as int].name);
                        }
                    }
                } else if j < pos {
                    assert(t[i] == s0[i] && t[j] == s0[j]);
                } else if i < pos {
                    assert(t[i] == s0[i] && t[j] == s0[j - 1]);
                } else {
                    assert(t[i] == s0[i - 1] && t[j] == s0[j - 1]);
                }
            }
            let mr0 = analysis_views(rest0).to_multiset();
            assert(analysis_views(rest0)[0] == iv);
            assert(analysis_views(rest0).contains(iv));
            analysis_views(rest0).to_multiset_ensures();
            assert(mr0.count(iv) > 0);
            assert(analysis_views(rest@).to_multiset() == mr0.remove(iv));
            assert(t.to_multiset() == s0.to_multiset().insert(iv));
            assert(mr0.remove(iv).insert(iv) =~= mr0);
            assert(t.to_multiset().add(mr0.remove(iv)) =~= s0.to_multiset().add(mr0));
        }
    }
    proof {
        assert(analysis_views(rest@) =~= Seq::<AnalysisView>::empty());
        assert(analysis_views(rest@).to_multiset() =~= Multiset::empty());
        assert(analysis_views(sorted@).to_multiset() =~= analysis_views(sorted@).to_multiset().add(
            Multiset::empty(),
        ));
    }
    sorted
}

/// Every package falls in exactly one bucket.
pub proof fn lemma_bucket_sizes(pkgs: Seq<BrewPackage>, deny: Seq<Seq<char>>, list: Seq<BrewPackage>)
    ensures
        bucket(pkgs, deny, list, MigrationRisk::Safe).len() + bucket(
            pkgs,
            deny,
            list,
            MigrationRisk::Risky,
        ).len() + bucket(pkgs, deny, list, MigrationRisk::KeepInHomebrew).len() == list.len(),
    decreases list.len(),
{
    if list.len() > 0 {
        lemma_bucket_sizes(pkgs, deny, list.drop_last());
    }
}

/// The verdicts on all packages, with the names on `denylist` denied:
/// each bucket holds the verdicts of its packages, sorted by name, and the
/// total is the number of packages.
pub fn analyze(packages: &Vec<BrewPackage>, denylist: &Vec<String>) -> (r: AnalysisReport)
    ensures
        r.total_packages == packages@.len(),
        r.total_packages == r.safe_to_migrate@.len() + r.risky@.len()
            + r.should_keep_in_homebrew@.len(),
        analysis_views(r.safe_to_migrate@).to_multiset() == bucket(
            packages@,
            texts(denylist@),
            packages@,
            MigrationRisk::Safe,
        ).to_multiset(),
        analysis_views(r.risky@).to_multiset() == bucket(
            packages@,
            texts(denylist@),
            packages@,
            MigrationRisk::Risky,
        ).to_multiset(),
        analysis_views(r.should_keep_in_homebrew@).to_multiset() == bucket(
            packages@,
            texts(denylist@),
            packages@,
            MigrationRisk::KeepInHomebrew,
        ).to_multiset(),
        sorted_by_name(analysis_views(r.safe_to_migrate@)),
        sorted_by_name(analysis_views(r.risky@)),
        sorted_by_name(analysis_views(r.should_keep_in_homebrew@)),
{
    let ghost pkgs = packages@;
    let ghost deny = texts(denylist@);
    let mut safe: Vec<PackageAnalysis> = Vec::new();
    let mut risky: Vec<PackageAnalysis> = Vec::new();
    let mut keep: Vec<PackageAnalysis> = Vec::new();
    let mut i: usize = 0;
    proof {
        assert(analysis_views(safe@) =~= Seq::<AnalysisView>::empty());
        assert(analysis_views(risky@) =~= Seq::<AnalysisView>::empty());
        assert(analysis_views(keep@) =~= Seq::<AnalysisView>::empty());
    }
    while i < packages.len()
        invariant
            i <= packages@.len(),
            pkgs == packages@,
            deny == texts(denylist@),
            analysis_views(safe@) == bucket(
                pkgs,
                deny,
                pkgs.subrange(0, i as int),
                MigrationRisk::Safe,
            ),
            analysis_views(risky@) == bucket(
                pkgs,
                deny,
                pkgs.subrange(0, i as int),
                MigrationRisk::Risky,
            ),
            analysis_views(keep@) == bucket(
                pkgs,
                deny,
                pkgs.subrange(0, i as int),
                MigrationRisk::KeepInHomebrew,
            ),
        decreases packages@.len() - i,
    {
        let a = analyze_package(&packages[i], packages, denylist);
        let ghost av = a@;
        let ghost prefix = pkgs.subrange(0, i + 1);
        assert(prefix.drop_last() =~= pkgs.subrange(0, i as int));
        assert(prefix.last() == pkgs[i as int]);
        match a.risk {
            MigrationRisk::Safe => {
                let ghost before = safe@;
                safe.push(a);
                assert(analysis_views(safe@) =~= analysis_views(before).push(av));
            },
            MigrationRisk::Risky => {
                let ghost before = risky@;
                risky.push(a);
                assert(analysis_views(risky@) =~= analysis_views(before).push(av));
            },
            MigrationRisk::KeepInHomebrew => {
                let ghost before = keep@;
                keep.push(a);
                assert(analysis_views(keep@) =~= analysis_views(before).push(av));
            },
        }
        i = i + 1;
    }
    proof {
        assert(pkgs.subrange(0, pkgs.len() as int) =~= pkgs);
        lemma_bucket_sizes(pkgs, deny, pkgs);
    }
    let safe = sort_by_name(safe);
    let risky = sort_by_name(risky);
    let keep = sort_by_name(keep);
    proof {
        analysis_views(safe@).to_multiset_ensures();
        analysis_views(risky@).to_multiset_ensures();
        analysis_views(keep@).to_multiset_ensures();
        bucket(pkgs, deny, pkgs, MigrationRisk::Safe).to_multiset_ensures();
        bucket(pkgs, deny, pkgs, MigrationRisk::Risky).to_multiset_ensures();
        bucket(pkgs, deny, pkgs, MigrationRisk::KeepInHomebrew).to_multiset_ensures();
    }
    AnalysisReport::build(packages.len(), safe, risky, keep)
}

} // verus!
