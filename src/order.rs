//! Install order: a depth-first walk that places every package after the
//! packages its dependency names stand for.

use vstd::prelude::*;
use crate::graph::{
    count_unmarked, find_package, lemma_count_unmarked_bound, lemma_count_unmarked_mono,
    lemma_count_unmarked_positive, lemma_resolve, resolve,
};
use crate::package::{texts, BrewPackage};

verus! {

/// The walk over `names` from position `k`, with `marks` telling which
/// packages were already reached and `out` the packages placed so far.
/// Each name that stands for an unreached package marks it, walks its
/// dependency names, then places it. `fuel` bounds the depth.
pub open spec fn order_walk(
    pkgs: Seq<BrewPackage>,
    names: Seq<Seq<char>>,
    k: int,
    marks: Seq<bool>,
    out: Seq<int>,
    fuel: nat,
) -> (Seq<bool>, Seq<int>)
    decreases fuel, names.len() - k,
{
    if k < 0 || k >= names.len() {
        (marks, out)
    } else {
        match resolve(pkgs, names[k]) {
            Some(j) => {
                if !marks[j] && fuel > 0 {
                    let inner = order_walk(
                        pkgs,
                        pkgs[j]@.dependencies,
                        0,
                        marks.update(j, true),
                        out,
                        (fuel - 1) as nat,
                    );
                    order_walk(pkgs, names, k + 1, inner.0, inner.1.push(j), fuel)
                } else {
                    order_walk(pkgs, names, k + 1, marks, out, fuel)
                }
            },
            None => order_walk(pkgs, names, k + 1, marks, out, fuel),
        }
    }
}

/// The names of the packages, in list order.
pub open spec fn package_names(pkgs: Seq<BrewPackage>) -> Seq<Seq<char>> {
    pkgs.map_values(|p: BrewPackage| p@.name)
}

/// The install order, as indices into the list: the walk over every
/// package's name in list order, from nothing reached.
pub open spec fn install_order(pkgs: Seq<BrewPackage>) -> Seq<int> {
    order_walk(
        pkgs,
        package_names(pkgs),
        0,
        Seq::new(pkgs.len(), |i: int| false),
        Seq::empty(),
        (pkgs.len() + 1) as nat,
    ).1
}

fn order_names(
    pkgs: &Vec<BrewPackage>,
    names: &Vec<String>,
    marks: &mut Vec<bool>,
    out: &mut Vec<usize>,
    Ghost(fuel): Ghost<nat>,
)
    requires
        old(marks)@.len() == pkgs@.len(),
        fuel > count_unmarked(old(marks)@),
        forall|p: int| 0 <= p < old(out)@.len() ==> old(out)@[p] < pkgs@.len(),
    ensures
        final(marks)@.len() == pkgs@.len(),
        count_unmarked(final(marks)@) <= count_unmarked(old(marks)@),
        forall|p: int| 0 <= p < final(out)@.len() ==> final(out)@[p] < pkgs@.len(),
        (final(marks)@, final(out)@.map_values(|x: usize| x as int)) == order_walk(
            pkgs@,
            texts(names@),
            0,
            old(marks)@,
            old(out)@.map_values(|x: usize| x as int),
            fuel,
        ),
    decreases fuel,
{
    let ghost marks0 = marks@;
    let ghost out0 = out@.map_values(|x: usize| x as int);
    let mut k: usize = 0;
    while k < names.len()
        invariant
            k <= names.len(),
            marks@.len() == pkgs@.len(),
            fuel > count_unmarked(marks@),
            count_unmarked(marks@) <= count_unmarked(marks0),
            forall|p: int| 0 <= p < out@.len() ==> out@[p] < pkgs@.len(),
            order_walk(
                pkgs@,
                texts(names@),
                k as int,
                marks@,
                out@.map_values(|x: usize| x as int),
                fuel,
            ) == order_walk(pkgs@, texts(names@), 0, marks0, out0, fuel),
        decreases names.len() - k,
    {
        let ghost nm = texts(names@);
        let ghost m1 = marks@;
        assert(nm[k as int] == names@[k as int]@);
        match find_package(pkgs, names[k].as_str()) {
            Some(j) => {
                proof {
                    lemma_resolve(pkgs@, nm[k as int]);
                }
                if !marks[j] {
                    proof {
                        lemma_count_unmarked_positive(marks@, j as int);
                    }
                    marks.set(j, true);
                    proof {
                        lemma_count_unmarked_mono(m1, marks@);
                    }
                    order_names(pkgs, &pkgs[j].dependencies, marks, out, Ghost((fuel - 1) as nat));
                    let ghost o2 = out@;
                    out.push(j);
                    assert(out@.map_values(|x: usize| x as int) =~= o2.map_values(
                        |x: usize| x as int,
                    ).push(j as int));
                }
            },
            None => {},
        }
        k = k + 1;
    }
}

/// The packages in an order that installs each after the packages that its
/// dependency names stand for: a depth-first walk over the list in order,
/// placing each package after its dependencies, each reached package once.
pub fn topological_sort(packages: &Vec<BrewPackage>) -> (r: Vec<BrewPackage>)
    ensures
        r@.len() == install_order(packages@).len(),
        forall|p: int|
            0 <= p < r@.len() ==> #[trigger] r@[p]@ == packages@[install_order(packages@)[p]]@,
{
    let n = packages.len();
    let mut names: Vec<String> = Vec::new();
    let mut i: usize = 0;
    while i < n
        invariant
            n == packages@.len(),
            i <= n,
            texts(names@) == package_names(packages@).subrange(0, i as int),
        decreases n - i,
    {
        let s = packages[i].name.clone();
        assert(s@ == package_names(packages@)[i as int]);
        let ghost before = names@;
        names.push(s);
        assert(texts(names@) =~= texts(before).push(s@));
        assert(package_names(packages@).subrange(0, i + 1) =~= package_names(packages@).subrange(
            0,
            i as int,
        ).push(s@));
        i = i + 1;
    }
    assert(texts(names@) =~= package_names(packages@));
    let mut marks: Vec<bool> = Vec::new();
    let mut i: usize = 0;
    while i < n
        invariant
            n == packages@.len(),
            i <= n,
            marks@ == Seq::new(i as nat, |x: int| false),
        decreases n - i,
    {
        marks.push(false);
        assert(marks@ =~= Seq::new((i + 1) as nat, |x: int| false));
        i = i + 1;
    }
    assert(marks@ =~= Seq::new(packages@.len(), |x: int| false));
    let mut out: Vec<usize> = Vec::new();
    proof {
        lemma_count_unmarked_bound(marks@);
        assert(out@.map_values(|x: usize| x as int) =~= Seq::<int>::empty());
    }
    order_names(packages, &names, &mut marks, &mut out, Ghost((n + 1) as nat));
    let ghost order = install_order(packages@);
    assert(order == out@.map_values(|x: usize| x as int));
    let mut r: Vec<BrewPackage> = Vec::new();
    let mut p: usize = 0;
    while p < out.len()
        invariant
            p <= out@.len(),
            order == out@.map_values(|x: usize| x as int),
            forall|q: int| 0 <= q < out@.len() ==> out@[q] < packages@.len(),
            r@.len() == p,
            forall|q: int| 0 <= q < p ==> #[trigger] r@[q]@ == packages@[order[q]]@,
        decreases out@.len() - p,
    {
        let j = out[p];
        r.push(packages[j].duplicate());
        p = p + 1;
    }
    r
}

} // verus!
