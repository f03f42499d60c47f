//! What the install order guarantees: every package once, and each after
//! the packages it depends on.

use vstd::prelude::*;
use vstd::set_lib::{lemma_int_range, set_int_range};
use crate::graph::{
    canonical, count_unmarked, distinct_names, edge, lemma_count_unmarked_bound,
    lemma_count_unmarked_mono, lemma_count_unmarked_positive, lemma_distinct_canonical,
    lemma_resolve_canonical, resolve,
};
use crate::order::{install_order, order_walk, package_names};
use crate::package::BrewPackage;

verus! {

/// Position `p` of `s` holds `x`.
pub open spec fn holds_at(s: Seq<int>, p: int, x: int) -> bool {
    0 <= p < s.len() && s[p] == x
}

proof fn lemma_walk_facts(
    pkgs: Seq<BrewPackage>,
    names: Seq<Seq<char>>,
    k: int,
    marks: Seq<bool>,
    out: Seq<int>,
    fuel: nat,
)
    requires
        0 <= k,
        marks.len() == pkgs.len(),
    ensures
        ({
            let (m2, o2) = order_walk(pkgs, names, k, marks, out, fuel);
            &&& m2.len() == marks.len()
            &&& forall|x: int| 0 <= x < marks.len() && marks[x] ==> m2[x]
            &&& count_unmarked(m2) <= count_unmarked(marks)
            &&& out.len() <= o2.len()
            &&& o2.subrange(0, out.len() as int) == out
            &&& forall|p: int|
                out.len() <= p < o2.len() ==> {
                    &&& canonical(pkgs, o2[p])
                    &&& !marks[o2[p]]
                    &&& m2[o2[p]]
                }
            &&& forall|p: int, q: int| out.len() <= p < q < o2.len() ==> o2[p] != o2[q]
            &&& forall|x: int|
                0 <= x < marks.len() && m2[x] && !marks[x] ==> exists|p: int|
                    out.len() <= p < o2.len() && holds_at(o2, p, x)
            &&& fuel > count_unmarked(marks) ==> forall|m: int, y: int|
                k <= m < names.len() && resolve(pkgs, names[m]) == Some(y) ==> m2[y]
        }),
    decreases fuel, names.len() - k,
{
    if k >= names.len() {
        assert(out.subrange(0, out.len() as int) =~= out);
        return;
    }
    lemma_resolve_canonical(pkgs, names[k]);
    match resolve(pkgs, names[k]) {
        Some(j) => {
            if !marks[j] && fuel > 0 {
                let marks1 = marks.update(j, true);
                let inner = order_walk(pkgs, pkgs[j]@.dependencies, 0, marks1, out, (fuel - 1) as nat);
                lemma_count_unmarked_mono(marks, marks1);
                lemma_walk_facts(pkgs, pkgs[j]@.dependencies, 0, marks1, out, (fuel - 1) as nat);
                let (mi, oi) = inner;
                let oj = oi.push(j);
                lemma_walk_facts(pkgs, names, k + 1, mi, oj, fuel);
                let (m2, o2) = order_walk(pkgs, names, k + 1, mi, oj, fuel);
                assert(o2.subrange(0, oj.len() as int) == oj);
                assert forall|p: int| 0 <= p < oj.len() implies o2[p] == oj[p] by {
                    assert(o2.subrange(0, oj.len() as int)[p] == o2[p]);
                }
                assert forall|p: int| 0 <= p < out.len() implies o2[p] == out[p] by {
                    assert(oi.subrange(0, out.len() as int)[p] == oi[p]);
                }
                assert(o2.subrange(0, out.len() as int) =~= out);
                lemma_count_unmarked_mono(marks, m2);
                assert forall|x: int|
                    0 <= x < marks.len() && m2[x] && !marks[x] implies exists|p: int|
                    out.len() <= p < o2.len() && holds_at(o2, p, x) by {
                    if x == j {
                        assert(holds_at(o2, oi.len() as int, x));
                    } else if mi[x] {
                        let p = choose|p: int| out.len() <= p < oi.len() && holds_at(oi, p, x);
                        assert(holds_at(o2, p, x));
                    } else {
                        let p = choose|p: int| oj.len() <= p < o2.len() && holds_at(o2, p, x);
                        assert(holds_at(o2, p, x));
                    }
                }
                assert forall|p: int, q: int| out.len() <= p < q < o2.len() implies o2[p]
                    != o2[q] by {
                    if q < oi.len() {
                    } else if q == oi.len() {
                        assert(!marks1[o2[p]]);
                    } else if p <= oi.len() {
                        assert(mi[o2[p]]);
                        assert(!mi[o2[q]]);
                    }
                }
                if fuel > count_unmarked(marks) {
                    assert forall|m: int, y: int|
                        k <= m < names.len() && resolve(pkgs, names[m]) == Some(y) implies m2[y] by {
                        if m == k {
                            assert(mi[j]);
                        }
                    }
                }
            } else {
                lemma_walk_facts(pkgs, names, k + 1, marks, out, fuel);
                if fuel > count_unmarked(marks) && !marks[j] {
                    lemma_count_unmarked_positive(marks, j);
                }
            }
        },
        None => {
            lemma_walk_facts(pkgs, names, k + 1, marks, out, fuel);
        },
    }
}

/// Every package placed is the one its own name stands for, no package is
/// placed twice, and every package that its own name stands for is placed.
pub proof fn lemma_order_places_each_once(pkgs: Seq<BrewPackage>)
    ensures
        forall|p: int|
            0 <= p < install_order(pkgs).len() ==> canonical(pkgs, #[trigger] install_order(pkgs)[p]),
        install_order(pkgs).no_duplicates(),
        forall|j: int| canonical(pkgs, j) ==> install_order(pkgs).contains(j),
{
    let n = pkgs.len();
    let marks = Seq::new(n, |i: int| false);
    let names = package_names(pkgs);
    lemma_count_unmarked_bound(marks);
    lemma_walk_facts(pkgs, names, 0, marks, Seq::empty(), (n + 1) as nat);
    let order = install_order(pkgs);
    let (m2, o2) = order_walk(pkgs, names, 0, marks, Seq::empty(), (n + 1) as nat);
    assert(o2 == order);
    assert forall|j: int| canonical(pkgs, j) implies order.contains(j) by {
        assert(names[j] == pkgs[j]@.name);
        assert(m2[j]);
        let p = choose|p: int| 0 <= p < o2.len() && holds_at(o2, p, j);
        assert(order[p] == j);
    }
}

/// Ordering is a permutation: with distinct names the install order holds
/// every index of the list exactly once.
pub proof fn lemma_order_is_permutation(pkgs: Seq<BrewPackage>)
    requires
        distinct_names(pkgs),
    ensures
        install_order(pkgs).len() == pkgs.len(),
        install_order(pkgs).no_duplicates(),
        forall|p: int|
            0 <= p < install_order(pkgs).len() ==> 0 <= #[trigger] install_order(pkgs)[p]
                < pkgs.len(),
        forall|i: int| 0 <= i < pkgs.len() ==> install_order(pkgs).contains(i),
{
    let order = install_order(pkgs);
    lemma_order_places_each_once(pkgs);
    assert forall|i: int| 0 <= i < pkgs.len() implies order.contains(i) by {
        lemma_distinct_canonical(pkgs, i);
    }
    assert(order.to_set() =~= set_int_range(0, pkgs.len() as int)) by {
        assert forall|x: int| order.to_set().contains(x) implies 0 <= x < pkgs.len() by {
            let p = choose|p: int| 0 <= p < order.len() && order[p] == x;
            assert(canonical(pkgs, order[p]));
        }
    }
    order.unique_seq_to_set();
    lemma_int_range(0, pkgs.len() as int);
}

/// Ordering tolerates dangling edges: a package whose dependency name
/// stands for nothing in the list is still placed.
pub proof fn lemma_order_places_dangling(pkgs: Seq<BrewPackage>, i: int, k: int)
    requires
        distinct_names(pkgs),
        0 <= i < pkgs.len(),
        0 <= k < pkgs[i]@.dependencies.len(),
        resolve(pkgs, pkgs[i]@.dependencies[k]) == None::<int>,
    ensures
        install_order(pkgs).contains(i),
{
    lemma_order_is_permutation(pkgs);
}

/// `rank` numbers the packages so that each dependency edge out of a
/// package that its name stands for goes to a lower number.
pub open spec fn ranked_by(pkgs: Seq<BrewPackage>, rank: spec_fn(int) -> int) -> bool {
    forall|i: int, j: int| canonical(pkgs, i) && edge(pkgs, i, j) ==> rank(j) < rank(i)
}

/// The dependency graph has no cycle: it has a topological numbering.
pub open spec fn acyclic(pkgs: Seq<BrewPackage>) -> bool {
    exists|rank: spec_fn(int) -> int| ranked_by(pkgs, rank)
}

/// Each placed package comes after every package its dependency names
/// stand for.
pub open spec fn placed_after_deps(pkgs: Seq<BrewPackage>, out: Seq<int>) -> bool {
    forall|p: int, m: int|
        0 <= p < out.len() && 0 <= m < pkgs[out[p]]@.dependencies.len() ==> match resolve(
            pkgs,
            #[trigger] pkgs[out[p]]@.dependencies[m],
        ) {
            Some(y) => exists|q: int| 0 <= q < p && #[trigger] holds_at(out, q, y),
            None => true,
        }
}

/// Reached but not yet placed.
pub open spec fn in_progress(marks: Seq<bool>, out: Seq<int>, x: int) -> bool {
    0 <= x < marks.len() && marks[x] && !out.contains(x)
}

proof fn lemma_walk_respects_edges(
    pkgs: Seq<BrewPackage>,
    rank: spec_fn(int) -> int,
    names: Seq<Seq<char>>,
    k: int,
    marks: Seq<bool>,
    out: Seq<int>,
    fuel: nat,
)
    requires
        0 <= k,
        ranked_by(pkgs, rank),
        marks.len() == pkgs.len(),
        fuel > count_unmarked(marks),
        forall|p: int| 0 <= p < out.len() ==> 0 <= out[p] < marks.len() && marks[out[p]],
        placed_after_deps(pkgs, out),
        forall|m: int, y: int, x: int|
            k <= m < names.len() && resolve(pkgs, names[m]) == Some(y) && in_progress(
                marks,
                out,
                x,
            ) ==> rank(y) < rank(x),
    ensures
        ({
            let (m2, o2) = order_walk(pkgs, names, k, marks, out, fuel);
            &&& placed_after_deps(pkgs, o2)
            &&& forall|x: int| in_progress(m2, o2, x) <==> in_progress(marks, out, x)
            &&& forall|p: int| 0 <= p < o2.len() ==> 0 <= o2[p] < m2.len() && m2[o2[p]]
            &&& forall|m: int, y: int|
                k <= m < names.len() && resolve(pkgs, names[m]) == Some(y) ==> o2.contains(y)
        }),
    decreases fuel, names.len() - k,
{
    lemma_walk_facts(pkgs, names, k, marks, out, fuel);
    if k >= names.len() {
        return;
    }
    let (m2, o2) = order_walk(pkgs, names, k, marks, out, fuel);
    assert forall|p: int| 0 <= p < out.len() implies o2[p] == out[p] by {
        assert(o2.subrange(0, out.len() as int)[p] == o2[p]);
    }
    lemma_resolve_canonical(pkgs, names[k]);
    match resolve(pkgs, names[k]) {
        Some(j) => {
            if !marks[j] && fuel > 0 {
                let marks1 = marks.update(j, true);
                let deps = pkgs[j]@.dependencies;
                lemma_count_unmarked_mono(marks, marks1);
                assert(!out.contains(j));
                assert forall|m: int, y: int, x: int|
                    0 <= m < deps.len() && resolve(pkgs, deps[m]) == Some(y) && in_progress(
                        marks1,
                        out,
                        x,
                    ) implies rank(y) < rank(x) by {
                    assert(edge(pkgs, j, y));
                    if x != j {
                        assert(in_progress(marks, out, x));
                    }
                }
                lemma_walk_facts(pkgs, deps, 0, marks1, out, (fuel - 1) as nat);
                lemma_walk_respects_edges(pkgs, rank, deps, 0, marks1, out, (fuel - 1) as nat);
                let (mi, oi) = order_walk(pkgs, deps, 0, marks1, out, (fuel - 1) as nat);
                let oj = oi.push(j);
                assert forall|p: int, m: int|
                    0 <= p < oj.len() && 0 <= m < pkgs[oj[p]]@.dependencies.len() implies match resolve(
                        pkgs,
                        #[trigger] pkgs[oj[p]]@.dependencies[m],
                    ) {
                        Some(y) => exists|q: int| 0 <= q < p && #[trigger] holds_at(oj, q, y),
                        None => true,
                    } by {
                    let y = resolve(pkgs, pkgs[oj[p]]@.dependencies[m])->0;
                    if resolve(pkgs, pkgs[oj[p]]@.dependencies[m]) is None {
                    } else if p < oi.len() {
                        let q = choose|q: int| 0 <= q < p && holds_at(oi, q, y);
                        assert(holds_at(oj, q, y));
                    } else {
                        assert(oi.contains(y));
                        let q = choose|q: int| 0 <= q < oi.len() && oi[q] == y;
                        assert(holds_at(oj, q, y));
                    }
                }
                assert forall|x: int| in_progress(mi, oj, x) <==> in_progress(marks, out, x) by {
                    assert(in_progress(mi, oi, x) <==> in_progress(marks1, out, x));
                    if x == j {
                        assert(oj[oi.len() as int] == j);
                    }
                    if oj.contains(x) && x != j {
                        let q = choose|q: int| 0 <= q < oj.len() && oj[q] == x;
                        assert(oi[q] == x);
                    }
                    if oi.contains(x) {
                        let q = choose|q: int| 0 <= q < oi.len() && oi[q] == x;
                        assert(oj[q] == x);
                    }
                }
                lemma_count_unmarked_mono(marks1, mi);
                lemma_walk_respects_edges(pkgs, rank, names, k + 1, mi, oj, fuel);
                lemma_walk_facts(pkgs, names, k + 1, mi, oj, fuel);
                assert(o2.subrange(0, oj.len() as int) == oj);
                assert(o2[oi.len() as int] == o2.subrange(0, oj.len() as int)[oi.len() as int]);
            } else {
                if !marks[j] {
                    lemma_count_unmarked_positive(marks, j);
                }
                assert(!in_progress(marks, out, j));
                assert(out.contains(j));
                lemma_walk_respects_edges(pkgs, rank, names, k + 1, marks, out, fuel);
                let q = choose|q: int| 0 <= q < out.len() && out[q] == j;
                assert(o2[q] == j);
            }
        },
        None => {
            lemma_walk_respects_edges(pkgs, rank, names, k + 1, marks, out, fuel);
        },
    }
}

/// Ordering respects edges: when the dependency graph has no cycle, every
/// package is placed after each package that one of its dependency names
/// stands for.
pub proof fn lemma_order_respects_edges(pkgs: Seq<BrewPackage>)
    requires
        acyclic(pkgs),
    ensures
        forall|a: int, b: int|
            0 <= a < install_order(pkgs).len() && 0 <= b < install_order(pkgs).len() && edge(
                pkgs,
                #[trigger] install_order(pkgs)[a],
                #[trigger] install_order(pkgs)[b],
            ) ==> b < a,
{
    let rank = choose|rank: spec_fn(int) -> int| ranked_by(pkgs, rank);
    let n = pkgs.len();
    let marks = Seq::new(n, |i: int| false);
    let names = package_names(pkgs);
    let order = install_order(pkgs);
    lemma_count_unmarked_bound(marks);
    lemma_walk_respects_edges(pkgs, rank, names, 0, marks, Seq::empty(), (n + 1) as nat);
    lemma_order_places_each_once(pkgs);
    assert forall|a: int, b: int|
        0 <= a < order.len() && 0 <= b < order.len() && edge(
            pkgs,
            #[trigger] order[a],
            #[trigger] order[b],
        ) implies b < a by {
        let m = choose|m: int|
            0 <= m < pkgs[order[a]]@.dependencies.len() && #[trigger] resolve(
                pkgs,
                pkgs[order[a]]@.dependencies[m],
            ) == Some(order[b]);
        assert(0 <= a < order.len() && 0 <= m < pkgs[order[a]]@.dependencies.len());
        let q = choose|q: int| 0 <= q < a && #[trigger] holds_at(order, q, order[b]);
        assert(order.no_duplicates());
    }
}

} // verus!
