//! The Brewfile text that lists the taps, formulae and casks to install.

use vstd::prelude::*;
use crate::classify::is_listed;
use crate::package::{texts, BrewPackage};

verus! {

/// The distinct taps of the packages, in the order they first appear.
pub open spec fn taps_in(pkgs: Seq<BrewPackage>) -> Seq<Seq<char>>
    decreases pkgs.len(),
{
    if pkgs.len() == 0 {
        Seq::empty()
    } else {
        let t = taps_in(pkgs.drop_last());
        match pkgs.last()@.tap {
            Some(x) => if t.contains(x) {
                t
            } else {
                t.push(x)
            },
            None => t,
        }
    }
}

/// One line `<kind> "<item>"` for each item.
pub open spec fn quoted_lines(kind: Seq<char>, items: Seq<Seq<char>>) -> Seq<char>
    decreases items.len(),
{
    if items.len() == 0 {
        Seq::empty()
    } else {
        quoted_lines(kind, items.drop_last()) + kind + " \""@ + items.last() + "\"\n"@
    }
}

/// The names of the packages.
pub open spec fn names_of(pkgs: Seq<BrewPackage>) -> Seq<Seq<char>> {
    pkgs.map_values(|p: BrewPackage| p@.name)
}

/// The first lines of every Brewfile.
pub open spec fn brewfile_header() -> Seq<char> {
    "# Zerobrew Migration Brewfile\n# Generated from Homebrew installation\n\n"@
}

/// The Brewfile for the formulae and casks: the header, a `tap` line for
/// each distinct tap of the formulae, a blank line, a `brew` line for each
/// formula, a blank line, and a `cask` line for each cask.
pub open spec fn brewfile(formulae: Seq<BrewPackage>, casks: Seq<BrewPackage>) -> Seq<char> {
    brewfile_header() + quoted_lines("tap"@, taps_in(formulae)) + "\n"@ + quoted_lines(
        "brew"@,
        names_of(formulae),
    ) + "\n"@ + quoted_lines("cask"@, names_of(casks))
}

fn append_quoted(out: &mut String, kind: &str, items: &Vec<String>)
    ensures
        final(out)@ == old(out)@ + quoted_lines(kind@, texts(items@)),
{
    let ghost start = out@;
    let mut i: usize = 0;
    proof {
        assert(texts(items@).subrange(0, 0) =~= Seq::<Seq<char>>::empty());
        assert(start =~= start + quoted_lines(kind@, texts(items@).subrange(0, 0)));
    }
    while i < items.len()
        invariant
            i <= items.len(),
            out@ == start + quoted_lines(kind@, texts(items@).subrange(0, i as int)),
        decreases items.len() - i,
    {
        let ghost prefix = texts(items@).subrange(0, i + 1);
        assert(prefix.drop_last() =~= texts(items@).subrange(0, i as int));
        out.append(kind);
        out.append(" \"");
        out.append(items[i].as_str());
        out.append("\"\n");
        assert(out@ =~= start + quoted_lines(kind@, prefix));
        i = i + 1;
    }
    assert(texts(items@).subrange(0, items.len() as int) =~= texts(items@));
}

fn distinct_taps(pkgs: &Vec<BrewPackage>) -> (r: Vec<String>)
    ensures
        texts(r@) == taps_in(pkgs@),
{
    let mut r: Vec<String> = Vec::new();
    let mut i: usize = 0;
    while i < pkgs.len()
        invariant
            i <= pkgs.len(),
            texts(r@) == taps_in(pkgs@.subrange(0, i as int)),
        decreases pkgs.len() - i,
    {
        let ghost prefix = pkgs@.subrange(0, i + 1);
        assert(prefix.drop_last() =~= pkgs@.subrange(0, i as int));
        match &pkgs[i].tap {
            Some(t) => {
                if !is_listed(&r, t.as_str()) {
                    let c = t.clone();
                    let ghost before = r@;
                    r.push(c);
                    assert(texts(r@) =~= texts(before).push(t@));
                }
            },
            None => {},
        }
        i = i + 1;
    }
    assert(pkgs@.subrange(0, pkgs.len() as int) =~= pkgs@);
    r
}

fn package_names(pkgs: &Vec<BrewPackage>) -> (r: Vec<String>)
    ensures
        texts(r@) == names_of(pkgs@),
{
    let mut r: Vec<String> = Vec::new();
    let mut i: usize = 0;
    while i < pkgs.len()
        invariant
            i <= pkgs.len(),
            texts(r@) == names_of(pkgs@).subrange(0, i as int),
        decreases pkgs.len() - i,
    {
        let c = pkgs[i].name.clone();
        let ghost before = r@;
        r.push(c);
        assert(texts(r@) =~= texts(before).push(pkgs@[i as int]@.name));
        assert(names_of(pkgs@).subrange(0, i + 1) =~= names_of(pkgs@).subrange(0, i as int).push(
            pkgs@[i as int]@.name,
        ));
        i = i + 1;
    }
    assert(names_of(pkgs@).subrange(0, pkgs.len() as int) =~= names_of(pkgs@));
    r
}

/// The Brewfile text for the formulae and casks.
pub fn brewfile_content(formulae: &Vec<BrewPackage>, casks: &Vec<BrewPackage>) -> (r: String)
    ensures
        r@ == brewfile(formulae@, casks@),
{
    let mut content = String::from_str("# Zerobrew Migration Brewfile\n");
    content.append("# Generated from Homebrew installation\n\n");
    proof {
        reveal_strlit("# Zerobrew Migration Brewfile\n");
        reveal_strlit("# Generated from Homebrew installation\n\n");
        reveal_strlit("# Zerobrew Migration Brewfile\n# Generated from Homebrew installation\n\n");
        assert(content@ =~= brewfile_header());
    }
    let taps = distinct_taps(formulae);
    append_quoted(&mut content, "tap", &taps);
    content.append("\n");
    let names = package_names(formulae);
    append_quoted(&mut content, "brew", &names);
    content.append("\n");
    let cask_names = package_names(casks);
    append_quoted(&mut content, "cask", &cask_names);
    content
}

} // verus!
