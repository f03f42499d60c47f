//! The dependency graph over a package list: a name stands for the last
//! package of the list that carries it, and an edge runs from a package to
//! each listed dependency name that stands for a package of the list.

use vstd::prelude::*;
use crate::package::BrewPackage;
use crate::text::text_eq;

verus! {

/// The last index below `i` whose package is named `n`.
pub open spec fn resolve_below(pkgs: Seq<BrewPackage>, n: Seq<char>, i: int) -> Option<int>
    decreases i,
{
    if i <= 0 {
        None
    } else if pkgs[i - 1]@.name == n {
        Some(i - 1)
    } else {
        resolve_below(pkgs, n, i - 1)
    }
}

/// The package that a name stands for: the last one carrying it, if any.
pub open spec fn resolve(pkgs: Seq<BrewPackage>, n: Seq<char>) -> Option<int> {
    resolve_below(pkgs, n, pkgs.len() as int)
}

/// Package `j` is the one that its own name stands for.
pub open spec fn canonical(pkgs: Seq<BrewPackage>, j: int) -> bool {
    0 <= j < pkgs.len() && resolve(pkgs, pkgs[j]@.name) == Some(j)
}

/// Package `i` lists a dependency name that stands for package `j`.
pub open spec fn edge(pkgs: Seq<BrewPackage>, i: int, j: int) -> bool {
    exists|k: int|
        0 <= k < pkgs[i]@.dependencies.len() && #[trigger] resolve(
            pkgs,
            pkgs[i]@.dependencies[k],
        ) == Some(j)
}

/// No two packages of the list share a name.
pub open spec fn distinct_names(pkgs: Seq<BrewPackage>) -> bool {
    forall|i: int, j: int|
        0 <= i < pkgs.len() && 0 <= j < pkgs.len() && i != j ==> pkgs[i]@.name != pkgs[j]@.name
}

pub proof fn lemma_resolve_below(pkgs: Seq<BrewPackage>, n: Seq<char>, i: int)
    requires
        i <= pkgs.len(),
    ensures
        match resolve_below(pkgs, n, i) {
            Some(j) => 0 <= j < i && pkgs[j]@.name == n && forall|k: int|
                j < k < i ==> pkgs[k]@.name != n,
            None => forall|k: int| 0 <= k < i ==> pkgs[k]@.name != n,
        },
    decreases i,
{
    if i > 0 {
        lemma_resolve_below(pkgs, n, i - 1);
    }
}

/// What `resolve` gives, in closed form.
pub proof fn lemma_resolve(pkgs: Seq<BrewPackage>, n: Seq<char>)
    ensures
        match resolve(pkgs, n) {
            Some(j) => 0 <= j < pkgs.len() && pkgs[j]@.name == n && forall|k: int|
                j < k < pkgs.len() ==> pkgs[k]@.name != n,
            None => forall|k: int| 0 <= k < pkgs.len() ==> pkgs[k]@.name != n,
        },
{
    lemma_resolve_below(pkgs, n, pkgs.len() as int);
}

/// What a name stands for is always the package that its own name stands for.
pub proof fn lemma_resolve_canonical(pkgs: Seq<BrewPackage>, n: Seq<char>)
    ensures
        match resolve(pkgs, n) {
            Some(j) => canonical(pkgs, j),
            None => true,
        },
{
    lemma_resolve(pkgs, n);
}

/// With distinct names every package is the one its name stands for.
pub proof fn lemma_distinct_canonical(pkgs: Seq<BrewPackage>, j: int)
    requires
        distinct_names(pkgs),
        0 <= j < pkgs.len(),
    ensures
        canonical(pkgs, j),
{
    let n = pkgs[j]@.name;
    lemma_resolve(pkgs, n);
}

/// The index of the package that `name` stands for.
pub fn find_package(pkgs: &Vec<BrewPackage>, name: &str) -> (r: Option<usize>)
    ensures
        match r {
            Some(j) => resolve(pkgs@, name@) == Some(j as int),
            None => resolve(pkgs@, name@) == None::<int>,
        },
{
    let mut i: usize = pkgs.len();
    while i > 0
        invariant
            i <= pkgs.len(),
            resolve(pkgs@, name@) == resolve_below(pkgs@, name@, i as int),
        decreases i,
    {
        if text_eq(pkgs[i - 1].name.as_str(), name) {
            return Some(i - 1);
        }
        i = i - 1;
    }
    None
}

/// How many entries are still unmarked.
pub open spec fn count_unmarked(marks: Seq<bool>) -> nat
    decreases marks.len(),
{
    if marks.len() == 0 {
        0
    } else {
        count_unmarked(marks.drop_last()) + if marks.last() {
            0nat
        } else {
            1nat
        }
    }
}

/// Marking more entries never adds to the count; marking one that was
/// unmarked takes it down.
pub proof fn lemma_count_unmarked_mono(a: Seq<bool>, b: Seq<bool>)
    requires
        a.len() == b.len(),
        forall|x: int| 0 <= x < a.len() && a[x] ==> b[x],
    ensures
        count_unmarked(b) <= count_unmarked(a),
        (exists|x: int| 0 <= x < a.len() && !a[x] && b[x]) ==> count_unmarked(b) < count_unmarked(
            a,
        ),
    decreases a.len(),
{
    if a.len() > 0 {
        lemma_count_unmarked_mono(a.drop_last(), b.drop_last());
        if exists|x: int| 0 <= x < a.len() && !a[x] && b[x] {
            let x = choose|x: int| 0 <= x < a.len() && !a[x] && b[x];
            if x < a.len() - 1 {
                assert(!a.drop_last()[x] && b.drop_last()[x]);
            }
        }
    }
}

pub proof fn lemma_count_unmarked_bound(a: Seq<bool>)
    ensures
        count_unmarked(a) <= a.len(),
    decreases a.len(),
{
    if a.len() > 0 {
        lemma_count_unmarked_bound(a.drop_last());
    }
}

pub proof fn lemma_count_unmarked_positive(a: Seq<bool>, x: int)
    requires
        0 <= x < a.len(),
        !a[x],
    ensures
        count_unmarked(a) > 0,
{
    lemma_count_unmarked_mono(a, Seq::new(a.len(), |i: int| true));
}

} // verus!
