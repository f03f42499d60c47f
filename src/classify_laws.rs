//! What the risk analysis guarantees.

use vstd::prelude::*;
use vstd::multiset::Multiset;
use crate::analysis::{analysis_of, bucket, denied_among};
use crate::classify::{note, search_walk, transitive_problematic};
use crate::graph::{
    count_unmarked, lemma_count_unmarked_bound, lemma_count_unmarked_mono,
    lemma_count_unmarked_positive, lemma_resolve, resolve,
};
use crate::order::package_names;
use crate::package::BrewPackage;
use crate::report::{AnalysisView, MigrationRisk};

verus! {

/// The name `d` has been dealt with: the package it stands for is marked,
/// or, standing for none, it is noted when denied.
pub open spec fn handled(
    pkgs: Seq<BrewPackage>,
    deny: Seq<Seq<char>>,
    marks: Seq<bool>,
    found: Seq<Seq<char>>,
    d: Seq<char>,
) -> bool {
    match resolve(pkgs, d) {
        Some(z) => marks[z],
        None => deny.contains(d) ==> found.contains(d),
    }
}

/// Every marked package with a denied name has that name noted.
pub open spec fn marks_noted(
    pkgs: Seq<BrewPackage>,
    deny: Seq<Seq<char>>,
    marks: Seq<bool>,
    found: Seq<Seq<char>>,
) -> bool {
    forall|z: int|
        0 <= z < marks.len() && #[trigger] marks[z] && deny.contains(pkgs[z]@.name)
            ==> found.contains(pkgs[z]@.name)
}

/// Every marked package outside `pending` has all its dependency names dealt
/// with.
pub open spec fn closed_except(
    pkgs: Seq<BrewPackage>,
    deny: Seq<Seq<char>>,
    marks: Seq<bool>,
    found: Seq<Seq<char>>,
    pending: Set<int>,
) -> bool {
    forall|z: int, m: int|
        0 <= z < marks.len() && marks[z] && !pending.contains(z) && 0 <= m
            < pkgs[z]@.dependencies.len() ==> handled(
            pkgs,
            deny,
            marks,
            found,
            #[trigger] pkgs[z]@.dependencies[m],
        )
}

proof fn lemma_search_facts(
    pkgs: Seq<BrewPackage>,
    deny: Seq<Seq<char>>,
    names: Seq<Seq<char>>,
    k: int,
    marks: Seq<bool>,
    found: Seq<Seq<char>>,
    fuel: nat,
    pending: Set<int>,
)
    requires
        0 <= k,
        marks.len() == pkgs.len(),
    ensures
        ({
            let (m2, f2) = search_walk(pkgs, deny, names, k, marks, found, fuel);
            &&& m2.len() == marks.len()
            &&& forall|x: int| 0 <= x < marks.len() && marks[x] ==> m2[x]
            &&& count_unmarked(m2) <= count_unmarked(marks)
            &&& forall|d: Seq<char>| found.contains(d) ==> f2.contains(d)
            &&& forall|d: Seq<char>| f2.contains(d) ==> found.contains(d) || deny.contains(d)
            &&& (fuel > count_unmarked(marks) && marks_noted(pkgs, deny, marks, found)
                && closed_except(pkgs, deny, marks, found, pending)) ==> {
                &&& marks_noted(pkgs, deny, m2, f2)
                &&& closed_except(pkgs, deny, m2, f2, pending)
                &&& forall|m: int| k <= m < names.len() ==> handled(pkgs, deny, m2, f2, names[m])
            }
        }),
    decreases fuel, names.len() - k,
{
    if k >= names.len() {
        return;
    }
    let d = names[k];
    let (m2, f2) = search_walk(pkgs, deny, names, k, marks, found, fuel);
    lemma_resolve(pkgs, d);
    let f1 = note(deny, found, d);
    assert forall|x: Seq<char>| found.contains(x) implies f1.contains(x) by {
        let i = choose|i: int| 0 <= i < found.len() && found[i] == x;
        assert(f1[i] == x);
    }
    assert forall|x: Seq<char>| f1.contains(x) implies found.contains(x) || deny.contains(x) by {
        let i = choose|i: int| 0 <= i < f1.len() && f1[i] == x;
        if i < found.len() {
            assert(found[i] == x);
        }
    }
    if deny.contains(d) {
        if !found.contains(d) {
            assert(f1[found.len() as int] == d);
        }
        assert(f1.contains(d));
    }
    match resolve(pkgs, d) {
        Some(j) => {
            if !marks[j] && fuel > 0 {
                let marks1 = marks.update(j, true);
                let deps = pkgs[j]@.dependencies;
                lemma_count_unmarked_mono(marks, marks1);
                lemma_search_facts(pkgs, deny, deps, 0, marks1, f1, (fuel - 1) as nat, pending.insert(j));
                let (mi, fi) = search_walk(pkgs, deny, deps, 0, marks1, f1, (fuel - 1) as nat);
                lemma_search_facts(pkgs, deny, names, k + 1, mi, fi, fuel, pending);
                lemma_count_unmarked_mono(marks, m2);
                if fuel > count_unmarked(marks) && marks_noted(pkgs, deny, marks, found)
                    && closed_except(pkgs, deny, marks, found, pending) {
                    assert forall|z: int|
                        0 <= z < marks1.len() && #[trigger] marks1[z] && deny.contains(
                            pkgs[z]@.name,
                        ) implies f1.contains(pkgs[z]@.name) by {
                        if z != j {
                            assert(found.contains(pkgs[z]@.name));
                        }
                    }
                    assert(closed_except(pkgs, deny, marks1, f1, pending.insert(j))) by {
                        assert forall|z: int, m: int|
                            0 <= z < marks1.len() && marks1[z] && !pending.insert(j).contains(z) && 0
                                <= m < pkgs[z]@.dependencies.len() implies handled(
                            pkgs,
                            deny,
                            marks1,
                            f1,
                            #[trigger] pkgs[z]@.dependencies[m],
                        ) by {
                            assert(handled(pkgs, deny, marks, found, pkgs[z]@.dependencies[m]));
                            lemma_resolve(pkgs, pkgs[z]@.dependencies[m]);
                        }
                    }
                    lemma_count_unmarked_mono(marks1, mi);
                    assert(closed_except(pkgs, deny, mi, fi, pending)) by {
                        assert forall|z: int, m: int|
                            0 <= z < mi.len() && mi[z] && !pending.contains(z) && 0 <= m
                                < pkgs[z]@.dependencies.len() implies handled(
                            pkgs,
                            deny,
                            mi,
                            fi,
                            #[trigger] pkgs[z]@.dependencies[m],
                        ) by {
                            if z == j {
                                assert(handled(pkgs, deny, mi, fi, deps[m]));
                            }
                        }
                    }
                    assert forall|m: int| k <= m < names.len() implies handled(
                        pkgs,
                        deny,
                        m2,
                        f2,
                        names[m],
                    ) by {
                        if m == k {
                            lemma_resolve(pkgs, names[m]);
                        }
                    }
                }
            } else {
                lemma_search_facts(pkgs, deny, names, k + 1, marks, found, fuel, pending);
                if fuel > count_unmarked(marks) && !marks[j] {
                    lemma_count_unmarked_positive(marks, j);
                }
            }
        },
        None => {
            lemma_search_facts(pkgs, deny, names, k + 1, marks, f1, fuel, pending);
            if fuel > count_unmarked(marks) && marks_noted(pkgs, deny, marks, found)
                && closed_except(pkgs, deny, marks, found, pending) {
                assert(closed_except(pkgs, deny, marks, f1, pending)) by {
                    assert forall|z: int, m: int|
                        0 <= z < marks.len() && marks[z] && !pending.contains(z) && 0 <= m
                            < pkgs[z]@.dependencies.len() implies handled(
                        pkgs,
                        deny,
                        marks,
                        f1,
                        #[trigger] pkgs[z]@.dependencies[m],
                    ) by {
                        assert(handled(pkgs, deny, marks, found, pkgs[z]@.dependencies[m]));
                    }
                }
            }
        },
    }
}

/// The names of a list of verdicts.
pub open spec fn verdict_names(v: Seq<AnalysisView>) -> Seq<Seq<char>> {
    v.map_values(|a: AnalysisView| a.name)
}

/// Each package's verdict stands in the bucket of its risk.
pub proof fn lemma_bucket_holds(
    pkgs: Seq<BrewPackage>,
    deny: Seq<Seq<char>>,
    list: Seq<BrewPackage>,
    i: int,
)
    requires
        0 <= i < list.len(),
    ensures
        bucket(pkgs, deny, list, analysis_of(pkgs, deny, list[i]).risk).contains(
            analysis_of(pkgs, deny, list[i]),
        ),
    decreases list.len(),
{
    let a = analysis_of(pkgs, deny, list[i]);
    let rest = bucket(pkgs, deny, list.drop_last(), a.risk);
    if i == list.len() - 1 {
        assert(bucket(pkgs, deny, list, a.risk) == rest.push(a));
        assert(rest.push(a)[rest.len() as int] == a);
    } else {
        lemma_bucket_holds(pkgs, deny, list.drop_last(), i);
        assert(list.drop_last()[i] == list[i]);
        let b = bucket(pkgs, deny, list, a.risk);
        let p = choose|p: int| 0 <= p < rest.len() && rest[p] == a;
        assert(b[p] == a);
    }
}

/// Classification partitions: the names in the three buckets are the names
/// of the list, each as often as the list holds it, and the bucket sizes
/// add up to the list's length.
pub proof fn lemma_classification_partitions(
    pkgs: Seq<BrewPackage>,
    deny: Seq<Seq<char>>,
    list: Seq<BrewPackage>,
)
    ensures
        verdict_names(bucket(pkgs, deny, list, MigrationRisk::Safe)).to_multiset().add(
            verdict_names(bucket(pkgs, deny, list, MigrationRisk::Risky)).to_multiset(),
        ).add(verdict_names(bucket(pkgs, deny, list, MigrationRisk::KeepInHomebrew)).to_multiset())
            == package_names(list).to_multiset(),
        bucket(pkgs, deny, list, MigrationRisk::Safe).len() + bucket(
            pkgs,
            deny,
            list,
            MigrationRisk::Risky,
        ).len() + bucket(pkgs, deny, list, MigrationRisk::KeepInHomebrew).len() == list.len(),
    decreases list.len(),
{
    broadcast use vstd::seq_lib::group_to_multiset_ensures, vstd::multiset::group_multiset_axioms;

    crate::analysis::lemma_bucket_sizes(pkgs, deny, list);
    if list.len() == 0 {
        assert(verdict_names(bucket(pkgs, deny, list, MigrationRisk::Safe)) =~= Seq::empty());
        assert(verdict_names(bucket(pkgs, deny, list, MigrationRisk::Risky)) =~= Seq::empty());
        assert(verdict_names(bucket(pkgs, deny, list, MigrationRisk::KeepInHomebrew))
            =~= Seq::empty());
        assert(package_names(list) =~= Seq::empty());
        assert(Seq::<Seq<char>>::empty().to_multiset() =~= Multiset::empty());
    } else {
        let front = list.drop_last();
        lemma_classification_partitions(pkgs, deny, front);
        let a = analysis_of(pkgs, deny, list.last());
        assert(package_names(list) =~= package_names(front).push(list.last()@.name));
        assert(a.name == list.last()@.name);
        let rs = seq![MigrationRisk::Safe, MigrationRisk::Risky, MigrationRisk::KeepInHomebrew];
        assert forall|t: int| 0 <= t < 3 implies verdict_names(bucket(pkgs, deny, list, #[trigger] rs[t]))
            == if rs[t] == a.risk {
            verdict_names(bucket(pkgs, deny, front, rs[t])).push(a.name)
        } else {
            verdict_names(bucket(pkgs, deny, front, rs[t]))
        } by {
            if rs[t] == a.risk {
                assert(verdict_names(bucket(pkgs, deny, list, rs[t])) =~= verdict_names(
                    bucket(pkgs, deny, front, rs[t]),
                ).push(a.name));
            }
        }
        assert(rs[0] == MigrationRisk::Safe);
        assert(rs[1] == MigrationRisk::Risky);
        assert(rs[2] == MigrationRisk::KeepInHomebrew);
        let ms = verdict_names(bucket(pkgs, deny, front, MigrationRisk::Safe)).to_multiset();
        let mr = verdict_names(bucket(pkgs, deny, front, MigrationRisk::Risky)).to_multiset();
        let mk = verdict_names(bucket(pkgs, deny, front, MigrationRisk::KeepInHomebrew)).to_multiset();
        match a.risk {
            MigrationRisk::Safe => {
                assert(ms.insert(a.name).add(mr).add(mk) =~= ms.add(mr).add(mk).insert(a.name));
            },
            MigrationRisk::Risky => {
                assert(ms.add(mr.insert(a.name)).add(mk) =~= ms.add(mr).add(mk).insert(a.name));
            },
            MigrationRisk::KeepInHomebrew => {
                assert(ms.add(mr).add(mk.insert(a.name)) =~= ms.add(mr).add(mk).insert(a.name));
            },
        }
    }
}

/// Denylisted-name precedence: a package whose own name is denied is kept
/// back, whatever its dependencies, and its verdict stands in that bucket.
pub proof fn lemma_denied_name_kept(pkgs: Seq<BrewPackage>, deny: Seq<Seq<char>>, i: int)
    requires
        0 <= i < pkgs.len(),
        deny.contains(pkgs[i]@.name),
    ensures
        analysis_of(pkgs, deny, pkgs[i]).risk == MigrationRisk::KeepInHomebrew,
        bucket(pkgs, deny, pkgs, MigrationRisk::KeepInHomebrew).contains(
            analysis_of(pkgs, deny, pkgs[i]),
        ),
{
    lemma_bucket_holds(pkgs, deny, pkgs, i);
}

/// The denied names among a list are denied.
pub proof fn lemma_denied_among_denied(deny: Seq<Seq<char>>, names: Seq<Seq<char>>)
    ensures
        forall|x: Seq<char>| denied_among(deny, names).contains(x) ==> deny.contains(x),
    decreases names.len(),
{
    if names.len() > 0 {
        lemma_denied_among_denied(deny, names.drop_last());
        let rest = denied_among(deny, names.drop_last());
        assert forall|x: Seq<char>| denied_among(deny, names).contains(x) implies deny.contains(x) by {
            let i = choose|i: int| 0 <= i < denied_among(deny, names).len() && denied_among(
                deny,
                names,
            )[i] == x;
            if i < rest.len() {
                assert(rest[i] == x);
            }
        }
    }
}

/// The names that the search notes are denied.
pub proof fn lemma_transitive_denied(pkgs: Seq<BrewPackage>, deny: Seq<Seq<char>>, p: BrewPackage)
    ensures
        forall|x: Seq<char>| transitive_problematic(pkgs, deny, p).contains(x) ==> deny.contains(x),
{
    let marks = Seq::new(pkgs.len(), |i: int| false);
    lemma_search_facts(
        pkgs,
        deny,
        p@.dependencies,
        0,
        marks,
        Seq::empty(),
        (pkgs.len() + 1) as nat,
        Set::empty(),
    );
}

/// Transitive detection: when package `i` is not denied, lists the name
/// `q`, which is not denied and stands for a package that lists the denied
/// name `r`, package `i` is risky and never cites `q`; when none of its own
/// dependency names is denied, it cites `r`.
pub proof fn lemma_transitive_detection(
    pkgs: Seq<BrewPackage>,
    deny: Seq<Seq<char>>,
    i: int,
    a: int,
    b: int,
)
    requires
        0 <= i < pkgs.len(),
        !deny.contains(pkgs[i]@.name),
        0 <= a < pkgs[i]@.dependencies.len(),
        !deny.contains(pkgs[i]@.dependencies[a]),
        resolve(pkgs, pkgs[i]@.dependencies[a]) is Some,
        0 <= b < pkgs[resolve(pkgs, pkgs[i]@.dependencies[a])->0]@.dependencies.len(),
        deny.contains(pkgs[resolve(pkgs, pkgs[i]@.dependencies[a])->0]@.dependencies[b]),
    ensures
        ({
            let v = analysis_of(pkgs, deny, pkgs[i]);
            let q = pkgs[i]@.dependencies[a];
            let r = pkgs[resolve(pkgs, q)->0]@.dependencies[b];
            &&& v.risk == MigrationRisk::Risky
            &&& !v.problematic.contains(q)
            &&& denied_among(deny, pkgs[i]@.dependencies).len() == 0 ==> v.problematic.contains(r)
        }),
{
    let p = pkgs[i];
    let q = p@.dependencies[a];
    let j = resolve(pkgs, q)->0;
    let r = pkgs[j]@.dependencies[b];
    let marks = Seq::new(pkgs.len(), |x: int| false);
    let fuel = (pkgs.len() + 1) as nat;
    lemma_count_unmarked_bound(marks);
    lemma_resolve(pkgs, q);
    lemma_search_facts(pkgs, deny, p@.dependencies, 0, marks, Seq::empty(), fuel, Set::empty());
    let (m2, f2) = search_walk(pkgs, deny, p@.dependencies, 0, marks, Seq::empty(), fuel);
    assert(f2 == transitive_problematic(pkgs, deny, p));
    lemma_transitive_denied(pkgs, deny, p);
    lemma_denied_among_denied(deny, p@.dependencies);
    assert(handled(pkgs, deny, m2, f2, q));
    assert(m2[j]);
    assert(handled(pkgs, deny, m2, f2, pkgs[j]@.dependencies[b]));
    lemma_resolve(pkgs, r);
    assert(f2.contains(r));
    assert(f2.len() > 0);
}

/// With nothing denied every package is safe, and the safe bucket holds
/// the whole list.
pub proof fn lemma_empty_denylist_safe(pkgs: Seq<BrewPackage>)
    ensures
        forall|i: int|
            0 <= i < pkgs.len() ==> #[trigger] analysis_of(pkgs, Seq::empty(), pkgs[i]).risk
                == MigrationRisk::Safe,
        bucket(pkgs, Seq::empty(), pkgs, MigrationRisk::Safe).len() == pkgs.len(),
{
    let deny = Seq::<Seq<char>>::empty();
    assert forall|i: int| 0 <= i < pkgs.len() implies #[trigger] analysis_of(
        pkgs,
        deny,
        pkgs[i],
    ).risk == MigrationRisk::Safe by {
        let p = pkgs[i];
        assert(!deny.contains(p@.name));
        lemma_denied_among_denied(deny, p@.dependencies);
        lemma_transitive_denied(pkgs, deny, p);
        let direct = denied_among(deny, p@.dependencies);
        let deep = transitive_problematic(pkgs, deny, p);
        if direct.len() > 0 {
            assert(direct.contains(direct[0]));
            assert(!deny.contains(direct[0]));
        }
        if deep.len() > 0 {
            assert(deep.contains(deep[0]));
            assert(!deny.contains(deep[0]));
        }
    }
    assert(pkgs =~= pkgs.subrange(0, pkgs.len() as int));
    lemma_empty_denylist_buckets(pkgs, pkgs);
}

proof fn lemma_empty_denylist_buckets(pkgs: Seq<BrewPackage>, list: Seq<BrewPackage>)
    requires
        forall|i: int|
            0 <= i < pkgs.len() ==> #[trigger] analysis_of(pkgs, Seq::empty(), pkgs[i]).risk
                == MigrationRisk::Safe,
        list == pkgs.subrange(0, list.len() as int),
        list.len() <= pkgs.len(),
    ensures
        bucket(pkgs, Seq::empty(), list, MigrationRisk::Safe).len() == list.len(),
    decreases list.len(),
{
    if list.len() > 0 {
        let front = list.drop_last();
        assert(front =~= pkgs.subrange(0, front.len() as int));
        lemma_empty_denylist_buckets(pkgs, front);
        assert(list.last() == pkgs[list.len() - 1]);
    }
}

/// Name `b` is a dependency name of the package that name `a` stands for.
pub open spec fn link(pkgs: Seq<BrewPackage>, a: Seq<char>, b: Seq<char>) -> bool {
    match resolve(pkgs, a) {
        Some(j) => pkgs[j]@.dependencies.contains(b),
        None => false,
    }
}

/// `path` starts at one of the names `start` and follows dependency links.
pub open spec fn dependency_path(
    pkgs: Seq<BrewPackage>,
    start: Seq<Seq<char>>,
    path: Seq<Seq<char>>,
) -> bool {
    &&& path.len() >= 1
    &&& start.contains(path[0])
    &&& forall|t: int| 0 <= t < path.len() - 1 ==> #[trigger] link(pkgs, path[t], path[t + 1])
}

/// Name `n` is reachable from the names `start` along dependency links.
pub open spec fn reaches(pkgs: Seq<BrewPackage>, start: Seq<Seq<char>>, n: Seq<char>) -> bool {
    exists|path: Seq<Seq<char>>| #[trigger] dependency_path(pkgs, start, path) && path.last() == n
}

proof fn lemma_reaches_step(
    pkgs: Seq<BrewPackage>,
    start: Seq<Seq<char>>,
    a: Seq<char>,
    b: Seq<char>,
)
    requires
        reaches(pkgs, start, a),
        link(pkgs, a, b),
    ensures
        reaches(pkgs, start, b),
{
    let path = choose|path: Seq<Seq<char>>| #[trigger] dependency_path(pkgs, start, path)
        && path.last() == a;
    let longer = path.push(b);
    assert forall|t: int| 0 <= t < longer.len() - 1 implies #[trigger] link(
        pkgs,
        longer[t],
        longer[t + 1],
    ) by {
        if t < path.len() - 1 {
            assert(link(pkgs, path[t], path[t + 1]));
        }
    }
    assert(dependency_path(pkgs, start, longer));
}

proof fn lemma_search_sound(
    pkgs: Seq<BrewPackage>,
    deny: Seq<Seq<char>>,
    start: Seq<Seq<char>>,
    names: Seq<Seq<char>>,
    k: int,
    marks: Seq<bool>,
    found: Seq<Seq<char>>,
    fuel: nat,
)
    requires
        0 <= k,
        marks.len() == pkgs.len(),
        forall|m: int| k <= m < names.len() ==> reaches(pkgs, start, #[trigger] names[m]),
        forall|x: Seq<char>| found.contains(x) ==> reaches(pkgs, start, x),
    ensures
        forall|x: Seq<char>|
            search_walk(pkgs, deny, names, k, marks, found, fuel).1.contains(x) ==> reaches(
                pkgs,
                start,
                x,
            ),
    decreases fuel, names.len() - k,
{
    if k >= names.len() {
        return;
    }
    let d = names[k];
    assert(reaches(pkgs, start, d));
    let f1 = note(deny, found, d);
    assert forall|x: Seq<char>| f1.contains(x) implies reaches(pkgs, start, x) by {
        let i = choose|i: int| 0 <= i < f1.len() && f1[i] == x;
        if i < found.len() {
            assert(found[i] == x);
            assert(found.contains(x));
        } else {
            assert(x == d);
        }
    }
    lemma_resolve(pkgs, d);
    match resolve(pkgs, d) {
        Some(j) => {
            if !marks[j] && fuel > 0 {
                let deps = pkgs[j]@.dependencies;
                assert forall|m: int| 0 <= m < deps.len() implies reaches(
                    pkgs,
                    start,
                    #[trigger] deps[m],
                ) by {
                    assert(deps.contains(deps[m]));
                    lemma_reaches_step(pkgs, start, d, deps[m]);
                }
                lemma_search_sound(
                    pkgs,
                    deny,
                    start,
                    deps,
                    0,
                    marks.update(j, true),
                    f1,
                    (fuel - 1) as nat,
                );
                let (mi, fi) = search_walk(
                    pkgs,
                    deny,
                    deps,
                    0,
                    marks.update(j, true),
                    f1,
                    (fuel - 1) as nat,
                );
                lemma_search_facts(
                    pkgs,
                    deny,
                    deps,
                    0,
                    marks.update(j, true),
                    f1,
                    (fuel - 1) as nat,
                    Set::empty(),
                );
                lemma_search_sound(pkgs, deny, start, names, k + 1, mi, fi, fuel);
            } else {
                lemma_search_sound(pkgs, deny, start, names, k + 1, marks, found, fuel);
            }
        },
        None => {
            lemma_search_sound(pkgs, deny, start, names, k + 1, marks, f1, fuel);
        },
    }
}

/// The transitive search cites exactly the denied names that are reachable
/// from the package's dependency names along dependency links.
pub proof fn lemma_transitive_is_reachable_denied(
    pkgs: Seq<BrewPackage>,
    deny: Seq<Seq<char>>,
    p: BrewPackage,
)
    ensures
        forall|x: Seq<char>|
            transitive_problematic(pkgs, deny, p).contains(x) <==> deny.contains(x) && reaches(
                pkgs,
                p@.dependencies,
                x,
            ),
{
    let start = p@.dependencies;
    let marks = Seq::new(pkgs.len(), |x: int| false);
    let fuel = (pkgs.len() + 1) as nat;
    let found = transitive_problematic(pkgs, deny, p);
    lemma_count_unmarked_bound(marks);
    lemma_search_facts(pkgs, deny, start, 0, marks, Seq::empty(), fuel, Set::empty());
    let (m2, f2) = search_walk(pkgs, deny, start, 0, marks, Seq::empty(), fuel);
    assert forall|m: int| 0 <= m < start.len() implies reaches(pkgs, start, #[trigger] start[m]) by {
        assert(dependency_path(pkgs, start, seq![start[m]]));
    }
    lemma_search_sound(pkgs, deny, start, start, 0, marks, Seq::empty(), fuel);
    lemma_transitive_denied(pkgs, deny, p);
    assert forall|x: Seq<char>| deny.contains(x) && reaches(pkgs, start, x) implies found.contains(
        x,
    ) by {
        let path = choose|path: Seq<Seq<char>>| #[trigger] dependency_path(pkgs, start, path)
            && path.last() == x;
        lemma_path_handled(pkgs, deny, m2, f2, start, path, path.len() - 1);
        lemma_resolve(pkgs, x);
    }
}

proof fn lemma_path_handled(
    pkgs: Seq<BrewPackage>,
    deny: Seq<Seq<char>>,
    marks: Seq<bool>,
    found: Seq<Seq<char>>,
    start: Seq<Seq<char>>,
    path: Seq<Seq<char>>,
    t: int,
)
    requires
        marks.len() == pkgs.len(),
        closed_except(pkgs, deny, marks, found, Set::empty()),
        forall|m: int| 0 <= m < start.len() ==> handled(pkgs, deny, marks, found, start[m]),
        dependency_path(pkgs, start, path),
        0 <= t < path.len(),
    ensures
        handled(pkgs, deny, marks, found, path[t]),
    decreases t,
{
    if t == 0 {
        let m = choose|m: int| 0 <= m < start.len() && start[m] == path[0];
    } else {
        lemma_path_handled(pkgs, deny, marks, found, start, path, t - 1);
        let u = t - 1;
        assert(link(pkgs, path[u], path[u + 1]));
        assert(u + 1 == t);
        let j = resolve(pkgs, path[t - 1])->0;
        lemma_resolve(pkgs, path[t - 1]);
        let m = choose|m: int|
            0 <= m < pkgs[j]@.dependencies.len() && pkgs[j]@.dependencies[m] == path[t];
        assert(handled(pkgs, deny, marks, found, pkgs[j]@.dependencies[m]));
    }
}

} // verus!
