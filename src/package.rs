//! The package record handed in by the package-listing side.

use vstd::prelude::*;

verus! {

/// The characters of each string of a list.
pub open spec fn texts(v: Seq<String>) -> Seq<Seq<char>> {
    v.map_values(|s: String| s@)
}

/// An installed package with its metadata.
#[derive(Debug, Clone)]
pub struct BrewPackage {
    pub name: String,
    pub version: String,
    pub tap: Option<String>,
    pub is_cask: bool,
    pub dependencies: Vec<String>,
    pub pinned: bool,
}

/// What a package holds, as plain values.
pub struct PackageView {
    pub name: Seq<char>,
    pub version: Seq<char>,
    pub tap: Option<Seq<char>>,
    pub is_cask: bool,
    pub dependencies: Seq<Seq<char>>,
    pub pinned: bool,
}

impl View for BrewPackage {
    type V = PackageView;

    open spec fn view(&self) -> PackageView {
        PackageView {
            name: self.name@,
            version: self.version@,
            tap: match self.tap {
                Some(t) => Some(t@),
                None => None,
            },
            is_cask: self.is_cask,
            dependencies: texts(self.dependencies@),
            pinned: self.pinned,
        }
    }
}

/// A copy of a list of strings.
pub fn copy_strings(v: &Vec<String>) -> (r: Vec<String>)
    ensures
        texts(r@) == texts(v@),
{
    let mut r: Vec<String> = Vec::new();
    let mut i: usize = 0;
    while i < v.len()
        invariant
            i <= v.len(),
            texts(r@) == texts(v@).subrange(0, i as int),
        decreases v.len() - i,
    {
        let s = v[i].clone();
        assert(s@ == v@[i as int]@);
        let ghost before = r@;
        r.push(s);
        assert(r@ == before.push(s));
        assert(texts(r@) =~= texts(before).push(s@));
        assert(texts(v@).subrange(0, i + 1) =~= texts(v@).subrange(0, i as int).push(s@));
        i = i + 1;
    }
    assert(texts(v@) =~= texts(v@).subrange(0, v.len() as int));
    r
}

impl BrewPackage {
    /// A field-by-field copy of the package.
    pub fn duplicate(&self) -> (r: BrewPackage)
        ensures
            r@ == self@,
    {
        let tap = match &self.tap {
            Some(t) => Some(t.clone()),
            None => None,
        };
        BrewPackage {
            name: self.name.clone(),
            version: self.version.clone(),
            tap,
            is_cask: self.is_cask,
            dependencies: copy_strings(&self.dependencies),
            pinned: self.pinned,
        }
    }
}

} // verus!
