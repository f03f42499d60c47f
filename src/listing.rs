//! Reading the package manager's listings: one package per line, its name
//! and version being the first two words; and plain line lists.

use vstd::prelude::*;
use crate::package::{texts, BrewPackage, PackageView};
use crate::classify::is_listed;

verus! {

/// Unicode white space, as `char::is_whitespace` has it.
pub open spec fn is_space(c: char) -> bool {
    let u = c as u32;
    (9 <= u && u <= 13) || u == 32 || u == 0x85 || u == 0xA0 || u == 0x1680 || (0x2000 <= u && u
        <= 0x200A) || u == 0x2028 || u == 0x2029 || u == 0x202F || u == 0x205F || u == 0x3000
}

fn char_is_space(c: char) -> (r: bool)
    ensures
        r == is_space(c),
{
    let u = c as u32;
    (9 <= u && u <= 13) || u == 32 || u == 0x85 || u == 0xA0 || u == 0x1680 || (0x2000 <= u && u
        <= 0x200A) || u == 0x2028 || u == 0x2029 || u == 0x202F || u == 0x205F || u == 0x3000
}

/// The first position from `i` on, below `hi`, that is not white space;
/// `hi` if none.
pub open spec fn skip_spaces(s: Seq<char>, i: int, hi: int) -> int
    decreases hi - i,
{
    if i >= hi {
        hi
    } else if is_space(s[i]) {
        skip_spaces(s, i + 1, hi)
    } else {
        i
    }
}

/// The first position from `i` on, below `hi`, that is white space; `hi`
/// if none.
pub open spec fn word_end(s: Seq<char>, i: int, hi: int) -> int
    decreases hi - i,
{
    if i >= hi {
        hi
    } else if is_space(s[i]) {
        i
    } else {
        word_end(s, i + 1, hi)
    }
}

/// The first two words of `s[lo..hi)`, when it has at least two.
pub open spec fn first_two_words(s: Seq<char>, lo: int, hi: int) -> Option<(Seq<char>, Seq<char>)> {
    let a = skip_spaces(s, lo, hi);
    let b = word_end(s, a, hi);
    let c = skip_spaces(s, b, hi);
    let d = word_end(s, c, hi);
    if c < hi {
        Some((s.subrange(a, b), s.subrange(c, d)))
    } else {
        None
    }
}

/// The (name, version) entries of the listing `s`, scanning from position
/// `i` with the current line begun at `lo`: one for each line of at least
/// two words.
pub open spec fn listing_from(s: Seq<char>, lo: int, i: int) -> Seq<(Seq<char>, Seq<char>)>
    decreases s.len() - i,
{
    if i >= s.len() {
        match first_two_words(s, lo, s.len() as int) {
            Some(w) => seq![w],
            None => Seq::empty(),
        }
    } else if s[i] == '\n' {
        let rest = listing_from(s, i + 1, i + 1);
        match first_two_words(s, lo, i) {
            Some(w) => seq![w] + rest,
            None => rest,
        }
    } else {
        listing_from(s, lo, i + 1)
    }
}

/// The (name, version) entries of a listing.
pub open spec fn listing_entries(s: Seq<char>) -> Seq<(Seq<char>, Seq<char>)> {
    listing_from(s, 0, 0)
}

/// The package that a listing entry describes.
pub open spec fn listed_package(
    e: (Seq<char>, Seq<char>),
    pinned: Seq<Seq<char>>,
    is_cask: bool,
) -> PackageView {
    PackageView {
        name: e.0,
        version: e.1,
        tap: None,
        is_cask,
        dependencies: Seq::empty(),
        pinned: pinned.contains(e.0),
    }
}

fn chars_of(s: &str) -> (r: Vec<char>)
    ensures
        r@ == s@,
{
    let n = s.unicode_len();
    let mut r: Vec<char> = Vec::new();
    let mut i: usize = 0;
    while i < n
        invariant
            n == s@.len(),
            i <= n,
            r@ == s@.subrange(0, i as int),
        decreases n - i,
    {
        r.push(s.get_char(i));
        assert(r@ =~= s@.subrange(0, i + 1));
        i = i + 1;
    }
    assert(s@ =~= s@.subrange(0, n as int));
    r
}

fn skip_spaces_at(cs: &Vec<char>, i: usize, hi: usize) -> (r: usize)
    requires
        i <= hi <= cs@.len(),
    ensures
        r == skip_spaces(cs@, i as int, hi as int),
        i <= r <= hi,
    decreases hi - i,
{
    if i >= hi {
        hi
    } else if char_is_space(cs[i]) {
        skip_spaces_at(cs, i + 1, hi)
    } else {
        i
    }
}

fn word_end_at(cs: &Vec<char>, i: usize, hi: usize) -> (r: usize)
    requires
        i <= hi <= cs@.len(),
    ensures
        r == word_end(cs@, i as int, hi as int),
        i <= r <= hi,
    decreases hi - i,
{
    if i >= hi {
        hi
    } else if char_is_space(cs[i]) {
        i
    } else {
        word_end_at(cs, i + 1, hi)
    }
}

fn line_package(
    s: &str,
    cs: &Vec<char>,
    lo: usize,
    hi: usize,
    pinned: &Vec<String>,
    is_cask: bool,
) -> (r: Option<BrewPackage>)
    requires
        cs@ == s@,
        lo <= hi <= cs@.len(),
    ensures
        match first_two_words(cs@, lo as int, hi as int) {
            Some(w) => r is Some && r->0@ == listed_package(w, texts(pinned@), is_cask),
            None => r is None,
        },
{
    let a = skip_spaces_at(cs, lo, hi);
    let b = word_end_at(cs, a, hi);
    let c = skip_spaces_at(cs, b, hi);
    let d = word_end_at(cs, c, hi);
    if c < hi {
        let name = String::from_str(s.substring_char(a, b));
        let version = String::from_str(s.substring_char(c, d));
        let pin = is_listed(pinned, name.as_str());
        let r = BrewPackage {
            name,
            version,
            tap: None,
            is_cask,
            dependencies: Vec::new(),
            pinned: pin,
        };
        assert(r@.dependencies =~= Seq::<Seq<char>>::empty());
        Some(r)
    } else {
        None
    }
}

/// The packages of a listing such as `brew list --versions` prints: one
/// per line with at least two words, the first word its name and the
/// second its version; it is pinned when its name is on `pinned`.
pub fn parse_listing(output: &str, pinned: &Vec<String>, is_cask: bool) -> (r: Vec<BrewPackage>)
    ensures
        r@.len() == listing_entries(output@).len(),
        forall|p: int|
            0 <= p < r@.len() ==> #[trigger] r@[p]@ == listed_package(
                listing_entries(output@)[p],
                texts(pinned@),
                is_cask,
            ),
{
    let cs = chars_of(output);
    let n = cs.len();
    let ghost s = output@;
    let mut r: Vec<BrewPackage> = Vec::new();
    let mut lo: usize = 0;
    let mut i: usize = 0;
    while i < n
        invariant
            cs@ == s,
            s == output@,
            n == s.len(),
            lo <= i <= n,
            r@.len() + listing_from(s, lo as int, i as int).len() == listing_entries(s).len(),
            forall|p: int|
                0 <= p < r@.len() ==> #[trigger] r@[p]@ == listed_package(
                    listing_entries(s)[p],
                    texts(pinned@),
                    is_cask,
                ),
            forall|p: int|
                0 <= p < listing_from(s, lo as int, i as int).len() ==> listing_from(
                    s,
                    lo as int,
                    i as int,
                )[p] == listing_entries(s)[r@.len() + p],
        decreases n - i,
    {
        if cs[i] == '\n' {
            let ghost before = listing_from(s, lo as int, i as int);
            let ghost rest = listing_from(s, i + 1, i + 1);
            match line_package(output, &cs, lo, i, pinned, is_cask) {
                Some(pkg) => {
                    let ghost w = first_two_words(s, lo as int, i as int)->0;
                    assert(before == seq![w] + rest);
                    assert(before[0] == w);
                    assert forall|p: int| 0 <= p < rest.len() implies rest[p] == listing_entries(
                        s,
                    )[r@.len() + 1 + p] by {
                        assert(before[p + 1] == rest[p]);
                    }
                    r.push(pkg);
                },
                None => {},
            }
            lo = i + 1;
        }
        i = i + 1;
    }
    match line_package(output, &cs, lo, n, pinned, is_cask) {
        Some(pkg) => {
            assert(listing_from(s, lo as int, n as int)[0] == listing_entries(s)[r@.len() as int]);
            r.push(pkg);
        },
        None => {},
    }
    r
}

/// A line without the carriage return that ended it.
pub open spec fn strip_cr(line: Seq<char>) -> Seq<char> {
    if line.len() > 0 && line.last() == '\r' {
        line.drop_last()
    } else {
        line
    }
}

/// The lines of `s`, scanning from position `i` with the current line
/// begun at `lo`: a line ends at a line feed, which with a carriage return
/// just before it is not part of the line; a last line without a line feed
/// counts when it is not empty.
pub open spec fn lines_from(s: Seq<char>, lo: int, i: int) -> Seq<Seq<char>>
    decreases s.len() - i,
{
    if i >= s.len() {
        if lo < s.len() {
            seq![s.subrange(lo, s.len() as int)]
        } else {
            Seq::empty()
        }
    } else if s[i] == '\n' {
        seq![strip_cr(s.subrange(lo, i))] + lines_from(s, i + 1, i + 1)
    } else {
        lines_from(s, lo, i + 1)
    }
}

/// The lines of `s`, as `str::lines` splits them.
pub open spec fn text_lines(s: Seq<char>) -> Seq<Seq<char>> {
    lines_from(s, 0, 0)
}

/// The lines of a command's output, such as the pinned packages or the
/// dependencies of one package, one per line.
pub fn output_lines(output: &str) -> (r: Vec<String>)
    ensures
        texts(r@) == text_lines(output@),
{
    let cs = chars_of(output);
    let n = cs.len();
    let ghost s = output@;
    let mut r: Vec<String> = Vec::new();
    let mut lo: usize = 0;
    let mut i: usize = 0;
    while i < n
        invariant
            cs@ == s,
            s == output@,
            n == s.len(),
            lo <= i <= n,
            texts(r@) + lines_from(s, lo as int, i as int) == text_lines(s),
        decreases n - i,
    {
        if cs[i] == '\n' {
            let mut end = i;
            if end > lo && cs[end - 1] == '\r' {
                end = end - 1;
            }
            let line = String::from_str(output.substring_char(lo, end));
            assert(line@ == strip_cr(s.subrange(lo as int, i as int)));
            let ghost before = r@;
            r.push(line);
            assert(texts(r@) =~= texts(before).push(line@));
            assert(texts(r@) + lines_from(s, i + 1, i + 1) =~= texts(before) + lines_from(
                s,
                lo as int,
                i as int,
            ));
            lo = i + 1;
        }
        i = i + 1;
    }
    if lo < n {
        let line = String::from_str(output.substring_char(lo, n));
        let ghost before = r@;
        r.push(line);
        assert(texts(r@) =~= texts(before) + lines_from(s, lo as int, n as int));
    } else {
        assert(texts(r@) =~= texts(r@) + lines_from(s, lo as int, n as int));
    }
    r
}

} // verus!
