//! Risk analysis: each package is kept back when it is denied itself,
//! risky when a denied name is among its dependencies or reachable through
//! them, and safe otherwise.

use vstd::prelude::*;
use crate::graph::{
    count_unmarked, find_package, lemma_count_unmarked_bound, lemma_count_unmarked_mono,
    lemma_count_unmarked_positive, lemma_resolve, resolve,
};
use crate::package::{texts, BrewPackage};
use crate::text::text_eq;

verus! {

/// `found` with `d` added at the end, when `d` is denied and not yet there.
pub open spec fn note(deny: Seq<Seq<char>>, found: Seq<Seq<char>>, d: Seq<char>) -> Seq<Seq<char>> {
    if deny.contains(d) && !found.contains(d) {
        found.push(d)
    } else {
        found
    }
}

/// The search over `names` from position `k`: each name not seen before is
/// noted when denied, and a name that stands for a package not reached
/// before marks it and has that package's dependency names searched in
/// turn. `fuel` bounds the depth.
pub open spec fn search_walk(
    pkgs: Seq<BrewPackage>,
    deny: Seq<Seq<char>>,
    names: Seq<Seq<char>>,
    k: int,
    marks: Seq<bool>,
    found: Seq<Seq<char>>,
    fuel: nat,
) -> (Seq<bool>, Seq<Seq<char>>)
    decreases fuel, names.len() - k,
{
    if k < 0 || k >= names.len() {
        (marks, found)
    } else {
        let d = names[k];
        match resolve(pkgs, d) {
            Some(j) => {
                if !marks[j] && fuel > 0 {
                    let inner = search_walk(
                        pkgs,
                        deny,
                        pkgs[j]@.dependencies,
                        0,
                        marks.update(j, true),
                        note(deny, found, d),
                        (fuel - 1) as nat,
                    );
                    search_walk(pkgs, deny, names, k + 1, inner.0, inner.1, fuel)
                } else {
                    search_walk(pkgs, deny, names, k + 1, marks, found, fuel)
                }
            },
            None => search_walk(pkgs, deny, names, k + 1, marks, note(deny, found, d), fuel),
        }
    }
}

/// The denied names reachable from a package's dependencies, each once, in
/// the order the depth-first search meets them.
pub open spec fn transitive_problematic(
    pkgs: Seq<BrewPackage>,
    deny: Seq<Seq<char>>,
    p: BrewPackage,
) -> Seq<Seq<char>> {
    search_walk(
        pkgs,
        deny,
        p@.dependencies,
        0,
        Seq::new(pkgs.len(), |i: int| false),
        Seq::empty(),
        (pkgs.len() + 1) as nat,
    ).1
}

/// `name` is on the list.
pub fn is_listed(list: &Vec<String>, name: &str) -> (r: bool)
    ensures
        r == texts(list@).contains(name@),
{
    let mut i: usize = 0;
    while i < list.len()
        invariant
            i <= list.len(),
            forall|k: int| 0 <= k < i ==> texts(list@)[k] != name@,
        decreases list.len() - i,
    {
        if text_eq(list[i].as_str(), name) {
            assert(texts(list@)[i as int] == name@);
            return true;
        }
        i = i + 1;
    }
    false
}

fn note_name(denylist: &Vec<String>, found: &mut Vec<String>, d: &String)
    ensures
        texts(final(found)@) == note(texts(denylist@), texts(old(found)@), d@),
{
    if is_listed(denylist, d.as_str()) && !is_listed(found, d.as_str()) {
        let c = d.clone();
        let ghost before = found@;
        found.push(c);
        assert(texts(found@) =~= texts(before).push(d@));
    }
}

/// Searches the dependency names `names`, marking reached packages and
/// adding each denied name met to `found`.
fn find_transitive_deps_recursive(
    packages: &Vec<BrewPackage>,
    denylist: &Vec<String>,
    names: &Vec<String>,
    marks: &mut Vec<bool>,
    found: &mut Vec<String>,
    Ghost(fuel): Ghost<nat>,
)
    requires
        old(marks)@.len() == packages@.len(),
        fuel > count_unmarked(old(marks)@),
    ensures
        final(marks)@.len() == packages@.len(),
        count_unmarked(final(marks)@) <= count_unmarked(old(marks)@),
        (final(marks)@, texts(final(found)@)) == search_walk(
            packages@,
            texts(denylist@),
            texts(names@),
            0,
            old(marks)@,
            texts(old(found)@),
            fuel,
        ),
    decreases fuel,
{
    let ghost deny = texts(denylist@);
    let ghost nm = texts(names@);
    let ghost marks0 = marks@;
    let ghost found0 = texts(found@);
    let mut k: usize = 0;
    while k < names.len()
        invariant
            k <= names.len(),
            deny == texts(denylist@),
            nm == texts(names@),
            marks@.len() == packages@.len(),
            fuel > count_unmarked(marks@),
            count_unmarked(marks@) <= count_unmarked(marks0),
            search_walk(packages@, deny, nm, k as int, marks@, texts(found@), fuel) == search_walk(
                packages@,
                deny,
                nm,
                0,
                marks0,
                found0,
                fuel,
            ),
        decreases names.len() - k,
    {
        let ghost m1 = marks@;
        assert(nm[k as int] == names@[k as int]@);
        match find_package(packages, names[k].as_str()) {
            Some(j) => {
                proof {
                    lemma_resolve(packages@, nm[k as int]);
                }
                if !marks[j] {
                    proof {
                        lemma_count_unmarked_positive(marks@, j as int);
                    }
                    marks.set(j, true);
                    proof {
                        lemma_count_unmarked_mono(m1, marks@);
                    }
                    note_name(denylist, found, &names[k]);
                    find_transitive_deps_recursive(
                        packages,
                        denylist,
                        &packages[j].dependencies,
                        marks,
                        found,
                        Ghost((fuel - 1) as nat),
                    );
                }
            },
            None => {
                note_name(denylist, found, &names[k]);
            },
        }
        k = k + 1;
    }
}

/// The denied names reachable from the package's dependencies, each once,
/// in the order a depth-first search meets them.
pub fn find_transitive_problematic_deps(
    pkg: &BrewPackage,
    packages: &Vec<BrewPackage>,
    denylist: &Vec<String>,
) -> (r: Vec<String>)
    ensures
        texts(r@) == transitive_problematic(packages@, texts(denylist@), *pkg),
{
    let mut marks: Vec<bool> = Vec::new();
    let mut i: usize = 0;
    while i < packages.len()
        invariant
            i <= packages.len(),
            marks@ == Seq::new(i as nat, |x: int| false),
        decreases packages.len() - i,
    {
        marks.push(false);
        assert(marks@ =~= Seq::new((i + 1) as nat, |x: int| false));
        i = i + 1;
    }
    assert(marks@ =~= Seq::new(packages@.len(), |x: int| false));
    let mut found: Vec<String> = Vec::new();
    proof {
        lemma_count_unmarked_bound(marks@);
        assert(texts(found@) =~= Seq::<Seq<char>>::empty());
    }
    find_transitive_deps_recursive(
        packages,
        denylist,
        &pkg.dependencies,
        &mut marks,
        &mut found,
        Ghost((packages.len() + 1) as nat),
    );
    found
}

} // verus!
