//! The matcher: resolves a query to at most one element of a table, by
//! atomic number, by symbol, by name, or by the name closest to the query.

use vstd::prelude::*;
use crate::distance::{edit_distance, levenshtein};
use crate::element::Element;
use crate::text::{lowercase, lowercased, parse_u32, parsed_u32, trim, trimmed};

verus! {

/// The greatest edit distance at which a name is still taken for the query.
pub const MAX_DISTANCE: usize = 3;

/// What an element is looked up by.
pub enum Key {
    /// Its atomic number.
    Number(u32),
    /// Its symbol, in lower case.
    Symbol(Seq<char>),
    /// Its name, in lower case.
    Name(Seq<char>),
}

/// Whether the element `e` has the key `key`. Symbols and names are compared
/// in lower case.
pub open spec fn matches_key(e: Element, key: Key) -> bool {
    match key {
        Key::Number(n) => e.number == Some(n),
        Key::Symbol(t) => e.symbol matches Some(s) && lowercased(s@) == t,
        Key::Name(t) => e.name matches Some(s) && lowercased(s@) == t,
    }
}

/// Whether `i` is the place of the first element of `els` that has `key`.
pub open spec fn is_first_match(els: Seq<Element>, key: Key, i: int) -> bool {
    &&& 0 <= i < els.len()
    &&& matches_key(els[i], key)
    &&& forall|j: int| 0 <= j < i ==> !matches_key(#[trigger] els[j], key)
}

/// The place of the first element of `els` that has `key`, if any has.
pub open spec fn first_match(els: Seq<Element>, key: Key) -> Option<int> {
    if exists|i: int| is_first_match(els, key, i) {
        Some(choose|i: int| is_first_match(els, key, i))
    } else {
        None
    }
}

/// The edit distance from the lower-case name of `e` to `needle`; none for
/// an element without a name.
pub open spec fn name_distance(e: Element, needle: Seq<char>) -> Option<nat> {
    match e.name {
        Some(s) => Some(edit_distance(lowercased(s@), needle)),
        None => None,
    }
}

/// Whether `i` is the place of the named element of `els` whose name is
/// closest to `needle`: the first one among those at the least distance.
pub open spec fn is_closest_name(els: Seq<Element>, needle: Seq<char>, i: int) -> bool {
    &&& 0 <= i < els.len()
    &&& els[i].name is Some
    &&& forall|j: int|
        0 <= j < els.len() && (#[trigger] els[j]).name is Some ==> {
            let di = name_distance(els[i], needle)->0;
            let dj = name_distance(els[j], needle)->0;
            di < dj || (di == dj && i <= j)
        }
}

/// The place of the named element closest to `needle`, if any element has a
/// name.
pub open spec fn closest_name(els: Seq<Element>, needle: Seq<char>) -> Option<int> {
    if exists|i: int| is_closest_name(els, needle, i) {
        Some(choose|i: int| is_closest_name(els, needle, i))
    } else {
        None
    }
}

/// The closest name, taken only when it is within `MAX_DISTANCE` of
/// `needle`.
pub open spec fn fuzzy_match(els: Seq<Element>, needle: Seq<char>) -> Option<int> {
    match closest_name(els, needle) {
        Some(i) => if name_distance(els[i], needle)->0 <= MAX_DISTANCE {
            Some(i)
        } else {
            None
        },
        None => None,
    }
}

/// The needle of a query: the query trimmed, then in lower case.
pub open spec fn normalized(query: Seq<char>) -> Seq<char> {
    lowercased(trimmed(query))
}

/// The atomic number that a needle asks for: the needle read as a decimal
/// numeral, where that gives a positive number.
pub open spec fn numeric_key(needle: Seq<char>) -> Option<u32> {
    match parsed_u32(needle) {
        Some(n) => if n > 0 {
            Some(n)
        } else {
            None
        },
        None => None,
    }
}

/// The element that a needle which is no positive number stands for: the
/// first with that symbol; failing that, the first with that name; failing
/// that, the one with the closest name, if that is close enough.
pub open spec fn resolve_text(els: Seq<Element>, needle: Seq<char>) -> Option<int> {
    if first_match(els, Key::Symbol(needle)) is Some {
        first_match(els, Key::Symbol(needle))
    } else if first_match(els, Key::Name(needle)) is Some {
        first_match(els, Key::Name(needle))
    } else {
        fuzzy_match(els, needle)
    }
}

/// The place in `els` of the element that `query` stands for, if any. A
/// query that is a positive number stands for the element with that atomic
/// number and for nothing else; any other query is matched as text.
pub open spec fn resolve(els: Seq<Element>, query: Seq<char>) -> Option<int> {
    let needle = normalized(query);
    match numeric_key(needle) {
        Some(n) => first_match(els, Key::Number(n)),
        None => resolve_text(els, needle),
    }
}

/// The element of `els` that `query` stands for, if any.
pub open spec fn answer(els: Seq<Element>, query: Seq<char>) -> Option<Element> {
    match resolve(els, query) {
        Some(i) => Some(els[i]),
        None => None,
    }
}

/// Whether the place `r` found by a search is the place `m` that was asked
/// for.
pub open spec fn found(r: Option<usize>, m: Option<int>) -> bool {
    match r {
        Some(i) => m == Some(i as int),
        None => m is None,
    }
}

/// The first place that has a key is the only one that `first_match` gives.
pub proof fn lemma_first_match_unique(els: Seq<Element>, key: Key, i: int)
    requires
        is_first_match(els, key, i),
    ensures
        first_match(els, key) == Some(i),
{
    let c = choose|k: int| is_first_match(els, key, k);
    assert(is_first_match(els, key, c));
    if c < i {
        assert(!matches_key(els[c], key));
    } else if i < c {
        assert(!matches_key(els[i], key));
    }
}

/// Where no element has a key, `first_match` gives nothing.
pub proof fn lemma_first_match_none(els: Seq<Element>, key: Key)
    requires
        forall|j: int| 0 <= j < els.len() ==> !matches_key(#[trigger] els[j], key),
    ensures
        first_match(els, key) is None,
{
}

/// The closest name is the only one that `closest_name` gives.
pub proof fn lemma_closest_name_unique(els: Seq<Element>, needle: Seq<char>, i: int)
    requires
        is_closest_name(els, needle, i),
    ensures
        closest_name(els, needle) == Some(i),
{
    let c = choose|k: int| is_closest_name(els, needle, k);
    assert(is_closest_name(els, needle, c));
    assert(els[c].name is Some);
    assert(els[i].name is Some);
}

/// Where no element has a name, `closest_name` gives nothing.
pub proof fn lemma_closest_name_none(els: Seq<Element>, needle: Seq<char>)
    requires
        forall|j: int| 0 <= j < els.len() ==> (#[trigger] els[j]).name is None,
    ensures
        closest_name(els, needle) is None,
{
}

/// The needle of `query`: the query without surrounding whitespace, in
/// lower case.
pub fn normalize(query: &str) -> (needle: String)
    ensures
        needle@ == normalized(query@),
{
    lowercase(trim(query))
}

/// The place of the first element with atomic number `n`.
pub fn find_number(els: &Vec<Element>, n: u32) -> (r: Option<usize>)
    ensures
        found(r, first_match(els@, Key::Number(n))),
{
    let mut i: usize = 0;
    while i < els.len()
        invariant
            i <= els.len(),
            forall|j: int| 0 <= j < i ==> !matches_key(#[trigger] els@[j], Key::Number(n)),
        decreases els.len() - i,
    {
        match els[i].number {
            Some(m) => {
                if m == n {
                    proof {
                        lemma_first_match_unique(els@, Key::Number(n), i as int);
                    }
                    return Some(i);
                }
            },
            None => {},
        }
        i = i + 1;
    }
    proof {
        lemma_first_match_none(els@, Key::Number(n));
    }
    None
}

/// The place of the first element whose symbol, in lower case, is `needle`.
pub fn find_symbol(els: &Vec<Element>, needle: &String) -> (r: Option<usize>)
    ensures
        found(r, first_match(els@, Key::Symbol(needle@))),
{
    let mut i: usize = 0;
    while i < els.len()
        invariant
            i <= els.len(),
            forall|j: int| 0 <= j < i ==> !matches_key(#[trigger] els@[j], Key::Symbol(needle@)),
        decreases els.len() - i,
    {
        match &els[i].symbol {
            Some(s) => {
                let low = lowercase(s.as_str());
                if low == *needle {
                    proof {
                        lemma_first_match_unique(els@, Key::Symbol(needle@), i as int);
                    }
                    return Some(i);
                }
            },
            None => {},
        }
        i = i + 1;
    }
    proof {
        lemma_first_match_none(els@, Key::Symbol(needle@));
    }
    None
}

/// The place of the first element whose name, in lower case, is `needle`;
/// where there is none, the place of the element whose name is closest to
/// `needle`, if it is within `MAX_DISTANCE`.
pub fn find_name(els: &Vec<Element>, needle: &String) -> (r: Option<usize>)
    ensures
        found(
            r,
            if first_match(els@, Key::Name(needle@)) is Some {
                first_match(els@, Key::Name(needle@))
            } else {
                fuzzy_match(els@, needle@)
            },
        ),
{
    let mut best: Option<(usize, usize)> = None;
    let mut i: usize = 0;
    while i < els.len()
        invariant
            i <= els.len(),
            forall|j: int| 0 <= j < i ==> !matches_key(#[trigger] els@[j], Key::Name(needle@)),
            best is None ==> forall|j: int| 0 <= j < i ==> (#[trigger] els@[j]).name is None,
            best matches Some((b, d)) ==> {
                &&& b < i
                &&& name_distance(els@[b as int], needle@) == Some(d as nat)
                &&& forall|j: int|
                    0 <= j < i && (#[trigger] els@[j]).name is Some ==> {
                        let dj = name_distance(els@[j], needle@)->0;
                        d < dj || (d == dj && b <= j)
                    }
            },
        decreases els.len() - i,
    {
        match &els[i].name {
            Some(s) => {
                let low = lowercase(s.as_str());
                if low == *needle {
                    proof {
                        lemma_first_match_unique(els@, Key::Name(needle@), i as int);
                    }
                    return Some(i);
                }
                let d = levenshtein(low.as_str(), needle.as_str());
                let closer = match best {
                    Some((_, least)) => d < least,
                    None => true,
                };
                if closer {
                    best = Some((i, d));
                }
            },
            None => {},
        }
        i = i + 1;
    }
    proof {
        lemma_first_match_none(els@, Key::Name(needle@));
    }
    match best {
        Some((b, d)) => {
            proof {
                lemma_closest_name_unique(els@, needle@, b as int);
            }
            if d <= MAX_DISTANCE {
                Some(b)
            } else {
                None
            }
        },
        None => {
            proof {
                lemma_closest_name_none(els@, needle@);
            }
            None
        },
    }
}

/// The place in `els` of the element that `filter` stands for.
pub fn find_index(els: &Vec<Element>, filter: &str) -> (r: Option<usize>)
    ensures
        found(r, resolve(els@, filter@)),
{
    let needle = normalize(filter);
    let number = match parse_u32(needle.as_str()) {
        Some(n) => n,
        None => 0,
    };
    if number > 0 {
        find_number(els, number)
    } else {
        match find_symbol(els, &needle) {
            Some(i) => Some(i),
            None => find_name(els, &needle),
        }
    }
}

/// The element of `els` that `filter` stands for: the one at the place that
/// `resolve` gives, or none where `resolve` gives none. The table is used
/// up; the element comes out of it as it stood there.
pub fn find_element(els: Vec<Element>, filter: String) -> (r: Option<Element>)
    ensures
        r == answer(els@, filter@),
{
    let mut els = els;
    match find_index(&els, filter.as_str()) {
        Some(i) => Some(els.remove(i)),
        None => None,
    }
}

} // verus!
