//! Which package a new screen is bound to.
//!
//! A screen asks for a package by its full name or by a prefix. A full name
//! that is installed is bound as it is. Anything else is taken as a prefix: of
//! the installed packages that begin with it and are bound to no screen yet,
//! the one that comes first in the dictionary is bound.

use crate::a11y::opt_chars;
use crate::text::{
    chars_of, comes_first, has_prefix, lemma_lex_less_irreflexive, lemma_lex_less_transitive,
    lex_less, lines_of, same_chars, slice_of, split_lines, starts_with, string_of, trim, trimmed,
};
use vstd::prelude::*;

verus! {

/// The character sequences that a vector of strings holds.
pub open spec fn strings_view(v: Seq<String>) -> Seq<Seq<char>> {
    v.map_values(|s: String| s@)
}

/// Whether `list` holds the string `s`.
pub fn contains_string(list: &Vec<String>, s: &Vec<char>) -> (r: bool)
    ensures
        r == strings_view(list@).contains(s@),
{
    let ghost all = strings_view(list@);
    let mut i: usize = 0;
    while i < list.len()
        invariant
            i <= list.len(),
            all == strings_view(list@),
            forall|k: int| 0 <= k < i ==> all[k] != s@,
        decreases list.len() - i,
    {
        let item = chars_of(list[i].as_str());
        assert(all[i as int] == item@);
        if same_chars(&item, s) {
            return true;
        }
        i += 1;
    }
    false
}

/// Whether the package `p` may be bound for the prefix `prefix`: it begins
/// with the prefix and is bound to no screen.
pub open spec fn is_free(p: Seq<char>, prefix: Seq<char>, assigned: Seq<Seq<char>>) -> bool {
    has_prefix(p, prefix) && !assigned.contains(p)
}

/// Of two packages, the one that comes first in the dictionary.
pub open spec fn earlier(best: Option<Seq<char>>, p: Seq<char>) -> Seq<char> {
    match best {
        Some(b) => if lex_less(p, b) {
            p
        } else {
            b
        },
        None => p,
    }
}

/// Among the first `k` installed packages, the free one that comes first in
/// the dictionary.
pub open spec fn smallest_free_upto(
    installed: Seq<Seq<char>>,
    prefix: Seq<char>,
    assigned: Seq<Seq<char>>,
    k: int,
) -> Option<Seq<char>>
    decreases k,
{
    if k <= 0 {
        None
    } else if is_free(installed[k - 1], prefix, assigned) {
        Some(earlier(smallest_free_upto(installed, prefix, assigned, k - 1), installed[k - 1]))
    } else {
        smallest_free_upto(installed, prefix, assigned, k - 1)
    }
}

/// Among the installed packages, the free one that comes first in the
/// dictionary.
pub open spec fn smallest_free(
    installed: Seq<Seq<char>>,
    prefix: Seq<char>,
    assigned: Seq<Seq<char>>,
) -> Option<Seq<char>> {
    smallest_free_upto(installed, prefix, assigned, installed.len() as int)
}

/// The package that a screen asking for `wanted` is bound to: `wanted` itself
/// where it is installed, else the smallest free package with that prefix.
pub open spec fn resolved_package(
    wanted: Seq<char>,
    installed: Seq<Seq<char>>,
    assigned: Seq<Seq<char>>,
) -> Option<Seq<char>> {
    if installed.contains(wanted) {
        Some(wanted)
    } else {
        smallest_free(installed, wanted, assigned)
    }
}

/// The package picked for a prefix is installed and free, and no installed
/// free package comes before it in the dictionary; none is picked only where
/// no installed package is free.
pub proof fn lemma_smallest_free_is_least(
    installed: Seq<Seq<char>>,
    prefix: Seq<char>,
    assigned: Seq<Seq<char>>,
    k: int,
)
    requires
        0 <= k <= installed.len(),
    ensures
        match smallest_free_upto(installed, prefix, assigned, k) {
            Some(p) => {
                &&& exists|i: int| 0 <= i < k && installed[i] == p
                &&& is_free(p, prefix, assigned)
                &&& forall|i: int|
                    0 <= i < k && is_free(#[trigger] installed[i], prefix, assigned) ==> !lex_less(
                        installed[i],
                        p,
                    )
            },
            None => forall|i: int|
                0 <= i < k ==> !is_free(#[trigger] installed[i], prefix, assigned),
        },
    decreases k,
{
    if k > 0 {
        lemma_smallest_free_upto_step(installed, prefix, assigned, k);
    }
}

proof fn lemma_smallest_free_upto_step(
    installed: Seq<Seq<char>>,
    prefix: Seq<char>,
    assigned: Seq<Seq<char>>,
    k: int,
)
    requires
        0 < k <= installed.len(),
    ensures
        match smallest_free_upto(installed, prefix, assigned, k) {
            Some(p) => {
                &&& exists|i: int| 0 <= i < k && installed[i] == p
                &&& is_free(p, prefix, assigned)
                &&& forall|i: int|
                    0 <= i < k && is_free(#[trigger] installed[i], prefix, assigned) ==> !lex_less(
                        installed[i],
                        p,
                    )
            },
            None => forall|i: int|
                0 <= i < k ==> !is_free(#[trigger] installed[i], prefix, assigned),
        },
    decreases k, 0nat,
{
    lemma_smallest_free_is_least(installed, prefix, assigned, k - 1);
    let before = smallest_free_upto(installed, prefix, assigned, k - 1);
    let last = installed[k - 1];
    if is_free(last, prefix, assigned) {
        let p = earlier(before, last);
        lemma_lex_less_irreflexive(last, 0);
        match before {
            Some(b) => {
                if lex_less(last, b) {
                    assert(installed[k - 1] == p);
                    assert forall|i: int|
                        0 <= i < k && is_free(
                            #[trigger] installed[i],
                            prefix,
                            assigned,
                        ) implies !lex_less(installed[i], p) by {
                        if i < k - 1 && lex_less(installed[i], p) {
                            lemma_lex_less_transitive(installed[i], p, b, 0);
                        }
                    }
                } else {
                    let w = choose|i: int| 0 <= i < k - 1 && installed[i] == b;
                    assert(0 <= w < k && installed[w] == p);
                }
            },
            None => {
                assert(installed[k - 1] == p);
            },
        }
    } else {
        match before {
            Some(b) => {
                let w = choose|i: int| 0 <= i < k - 1 && installed[i] == b;
                assert(0 <= w < k && installed[w] == b);
            },
            None => {},
        }
    }
}

/// Among the installed packages that begin with `prefix` and are not among
/// `assigned`, the one that comes first in the dictionary.
pub fn allocate_from_prefix(prefix: &str, installed: &Vec<String>, assigned: &Vec<String>) -> (r:
    Option<String>)
    ensures
        opt_chars(r) == smallest_free(strings_view(installed@), prefix@, strings_view(assigned@)),
{
    let ghost all = strings_view(installed@);
    let ghost taken = strings_view(assigned@);
    let wanted = chars_of(prefix);
    let mut best: Option<Vec<char>> = None;
    let mut i: usize = 0;
    while i < installed.len()
        invariant
            i <= installed.len(),
            all == strings_view(installed@),
            taken == strings_view(assigned@),
            wanted@ == prefix@,
            match best {
                Some(b) => smallest_free_upto(all, prefix@, taken, i as int) == Some(b@),
                None => smallest_free_upto(all, prefix@, taken, i as int) is None,
            },
        decreases installed.len() - i,
    {
        let candidate = chars_of(installed[i].as_str());
        assert(all[i as int] == candidate@);
        if starts_with(&candidate, &wanted) && !contains_string(assigned, &candidate) {
            best = match best {
                Some(b) => if comes_first(&candidate, &b) {
                    Some(candidate)
                } else {
                    Some(b)
                },
                None => Some(candidate),
            };
        }
        i += 1;
    }
    match best {
        Some(b) => Some(string_of(&b)),
        None => None,
    }
}

/// The package that a screen asking for `wanted` is bound to: `wanted` itself
/// where it is installed, else the smallest installed package that begins
/// with `wanted` and is not among `assigned`; none where there is no such
/// package.
pub fn resolve_package(wanted: &str, installed: &Vec<String>, assigned: &Vec<String>) -> (r:
    Option<String>)
    ensures
        opt_chars(r) == resolved_package(
            wanted@,
            strings_view(installed@),
            strings_view(assigned@),
        ),
{
    let w = chars_of(wanted);
    if contains_string(installed, &w) {
        Some(string_of(&w))
    } else {
        allocate_from_prefix(wanted, installed, assigned)
    }
}

// ---------------------------------------------------------------------------
// Reading the list of installed packages
// ---------------------------------------------------------------------------

/// The package that a line of a package listing names: what follows the word
/// `package:` at its beginning, without white space around it. A line that
/// does not begin so names none.
pub open spec fn package_of_line(line: Seq<char>) -> Option<Seq<char>> {
    if has_prefix(line, "package:"@) {
        Some(trimmed(line.skip("package:"@.len() as int)))
    } else {
        None
    }
}

/// The packages that the first `k` lines name, in order.
pub open spec fn packages_upto(lines: Seq<Seq<char>>, k: int) -> Seq<Seq<char>>
    decreases k,
{
    if k <= 0 {
        Seq::empty()
    } else {
        match package_of_line(lines[k - 1]) {
            Some(p) => packages_upto(lines, k - 1).push(p),
            None => packages_upto(lines, k - 1),
        }
    }
}

/// The packages that a package listing names, in the order of its lines.
pub open spec fn listed_packages(listing: Seq<char>) -> Seq<Seq<char>> {
    packages_upto(lines_of(listing), lines_of(listing).len() as int)
}

/// The packages that a package listing names, in the order of its lines.
pub fn parse_package_list(listing: &str) -> (r: Vec<String>)
    ensures
        strings_view(r@) == listed_packages(listing@),
{
    let text = chars_of(listing);
    let lines = split_lines(&text);
    let ghost all = lines_of(listing@);
    let word = chars_of("package:");
    let mut r: Vec<String> = Vec::new();
    let mut i: usize = 0;
    assert(strings_view(r@) =~= packages_upto(all, 0));
    assert(all.len() == lines@.len());
    while i < lines.len()
        invariant
            i <= lines.len(),
            all.len() == lines@.len(),
            all == crate::text::buffers_view(lines@),
            word@ == "package:"@,
            strings_view(r@) == packages_upto(all, i as int),
        decreases lines.len() - i,
    {
        let line = &lines[i];
        assert(all[i as int] == line@);
        if starts_with(line, &word) {
            let rest = slice_of(line, word.len(), line.len());
            assert(rest@ =~= line@.skip(word@.len() as int));
            let name = trim(&rest);
            let ghost before = strings_view(r@);
            r.push(string_of(&name));
            assert(strings_view(r@) =~= before.push(name@));
        }
        i += 1;
    }
    r
}

} // verus!
