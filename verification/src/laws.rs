//! What holds of the matcher on every table and every query.

use vstd::prelude::*;
use crate::distance::lemma_distance_zero;
use crate::element::{well_formed, Element};
use crate::matcher::{
    answer, closest_name, first_match, fuzzy_match, is_closest_name, is_first_match,
    lemma_first_match_none, lemma_first_match_unique, matches_key, name_distance, normalized,
    numeric_key, resolve, Key, MAX_DISTANCE,
};
use crate::text::{
    ascii_lowercased, decimal_text, is_ascii_text, lemma_decimal_text_normal,
    lemma_parse_decimal_text, lemma_trim_keeps_ascii, lemma_trimmed_lowercased,
};

verus! {

/// Where some element has a key, `first_match` gives the first that has
/// it, which stands no later.
pub proof fn lemma_first_match_exists(els: Seq<Element>, key: Key, i: int)
    requires
        0 <= i < els.len(),
        matches_key(els[i], key),
    ensures
        first_match(els, key) matches Some(j) && j <= i && is_first_match(els, key, j),
    decreases i,
{
    if exists|j: int| 0 <= j < i && matches_key(#[trigger] els[j], key) {
        let j = choose|j: int| 0 <= j < i && matches_key(#[trigger] els[j], key);
        lemma_first_match_exists(els, key, j);
    } else {
        lemma_first_match_unique(els, key, i);
    }
}

/// A query that is the decimal numeral of an element's atomic number finds
/// an element with that number; in a well-formed table it finds that very
/// element.
pub proof fn lemma_number_query(els: Seq<Element>, i: int, n: u32)
    requires
        0 <= i < els.len(),
        els[i].number == Some(n),
        n > 0,
    ensures
        resolve(els, decimal_text(n as nat)) matches Some(j) && j <= i && els[j].number == Some(n),
        well_formed(els) ==> resolve(els, decimal_text(n as nat)) == Some(i),
        well_formed(els) ==> answer(els, decimal_text(n as nat)) == Some(els[i]),
{
    lemma_decimal_text_normal(n as nat);
    lemma_parse_decimal_text(n);
    assert(numeric_key(normalized(decimal_text(n as nat))) == Some(n));
    lemma_first_match_exists(els, Key::Number(n), i);
}

/// A query that is a positive number finds nothing in a table where no
/// element has that atomic number, whatever the names and symbols are.
pub proof fn lemma_unknown_number(els: Seq<Element>, query: Seq<char>, n: u32)
    requires
        numeric_key(normalized(query)) == Some(n),
        forall|j: int| 0 <= j < els.len() ==> (#[trigger] els[j]).number != Some(n),
    ensures
        resolve(els, query) is None,
{
    lemma_first_match_none(els, Key::Number(n));
}

/// The answer to a query that is a positive number rests on the atomic
/// numbers alone: two tables that agree on them, place by place, give the
/// same place, however their names and symbols differ.
pub proof fn lemma_numeric_query_ignores_text(a: Seq<Element>, b: Seq<Element>, query: Seq<char>)
    requires
        a.len() == b.len(),
        forall|j: int| 0 <= j < a.len() ==> (#[trigger] a[j]).number == b[j].number,
        numeric_key(normalized(query)) is Some,
    ensures
        resolve(a, query) == resolve(b, query),
        resolve(a, query) matches Some(i) ==> a[i].number == numeric_key(normalized(query)),
{
    let n = numeric_key(normalized(query))->0;
    let key = Key::Number(n);
    if exists|j: int| 0 <= j < a.len() && matches_key(#[trigger] a[j], key) {
        let j = choose|j: int| 0 <= j < a.len() && matches_key(#[trigger] a[j], key);
        lemma_first_match_exists(a, key, j);
        let i = first_match(a, key)->0;
        assert(is_first_match(b, key, i)) by {
            assert(matches_key(b[i], key)) by {
                assert(a[i].number == b[i].number);
            }
            assert forall|k: int| 0 <= k < i implies !matches_key(#[trigger] b[k], key) by {
                assert(a[k].number == b[k].number);
                assert(!matches_key(a[k], key));
            }
        }
        lemma_first_match_unique(b, key, i);
    } else {
        lemma_first_match_none(a, key);
        assert forall|k: int| 0 <= k < b.len() implies !matches_key(#[trigger] b[k], key) by {
            assert(a[k].number == b[k].number);
            assert(!matches_key(a[k], key));
        }
        lemma_first_match_none(b, key);
    }
}

/// A query that is no positive number, that is no element's symbol, and
/// that is further than `MAX_DISTANCE` from every name, finds nothing.
pub proof fn lemma_far_query(els: Seq<Element>, query: Seq<char>)
    requires
        numeric_key(normalized(query)) is None,
        forall|j: int|
            0 <= j < els.len() ==> !matches_key(#[trigger] els[j], Key::Symbol(normalized(query))),
        forall|j: int|
            0 <= j < els.len() && (#[trigger] els[j]).name is Some ==> name_distance(
                els[j],
                normalized(query),
            )->0 > MAX_DISTANCE,
    ensures
        resolve(els, query) is None,
{
    let needle = normalized(query);
    lemma_first_match_none(els, Key::Symbol(needle));
    assert forall|j: int| 0 <= j < els.len() implies !matches_key(
        #[trigger] els[j],
        Key::Name(needle),
    ) by {
        if els[j].name is Some {
            lemma_distance_zero(crate::text::lowercased(els[j].name->0@), needle);
        }
    }
    lemma_first_match_none(els, Key::Name(needle));
    if closest_name(els, needle) is Some {
        let c = choose|k: int| is_closest_name(els, needle, k);
        assert(is_closest_name(els, needle, c));
    }
    assert(fuzzy_match(els, needle) is None);
}

/// An element whose name, in lower case, is the needle is at distance zero
/// from it, so no other name is closer: where a query has no symbol match,
/// an exact name match and the closest name are the same element.
pub proof fn lemma_exact_name_is_closest(els: Seq<Element>, needle: Seq<char>)
    requires
        first_match(els, Key::Name(needle)) is Some,
    ensures
        fuzzy_match(els, needle) == first_match(els, Key::Name(needle)),
{
    let key = Key::Name(needle);
    let i = choose|k: int| is_first_match(els, key, k);
    assert(is_first_match(els, key, i));
    lemma_distance_zero(crate::text::lowercased(els[i].name->0@), needle);
    assert(is_closest_name(els, needle, i)) by {
        assert forall|j: int| 0 <= j < els.len() && (#[trigger] els[j]).name is Some implies {
            let di = name_distance(els[i], needle)->0;
            let dj = name_distance(els[j], needle)->0;
            di < dj || (di == dj && i <= j)
        } by {
            lemma_distance_zero(crate::text::lowercased(els[j].name->0@), needle);
            if j < i {
                assert(!matches_key(els[j], key));
            }
        }
    }
    crate::matcher::lemma_closest_name_unique(els, needle, i);
}

/// A query that is no positive number and that is, in lower case, the
/// symbol of an element finds an element with that symbol, whatever the
/// case of its letters; in a well-formed table it finds that very element.
pub proof fn lemma_symbol_query(els: Seq<Element>, i: int, query: Seq<char>)
    requires
        0 <= i < els.len(),
        numeric_key(normalized(query)) is None,
        matches_key(els[i], Key::Symbol(normalized(query))),
    ensures
        resolve(els, query) matches Some(j) && j <= i && matches_key(
            els[j],
            Key::Symbol(normalized(query)),
        ),
        well_formed(els) ==> resolve(els, query) == Some(i),
{
    lemma_first_match_exists(els, Key::Symbol(normalized(query)), i);
}

/// A query that is no positive number and no element's symbol, and that
/// is, in lower case, the name of an element, finds an element with that
/// name, whatever the case of its letters; in a well-formed table it finds
/// that very element.
pub proof fn lemma_name_query(els: Seq<Element>, i: int, query: Seq<char>)
    requires
        0 <= i < els.len(),
        numeric_key(normalized(query)) is None,
        forall|j: int|
            0 <= j < els.len() ==> !matches_key(#[trigger] els[j], Key::Symbol(normalized(query))),
        matches_key(els[i], Key::Name(normalized(query))),
    ensures
        resolve(els, query) matches Some(j) && j <= i && matches_key(
            els[j],
            Key::Name(normalized(query)),
        ),
        well_formed(els) ==> resolve(els, query) == Some(i),
{
    lemma_first_match_none(els, Key::Symbol(normalized(query)));
    lemma_first_match_exists(els, Key::Name(normalized(query)), i);
}

/// Where some element has a name, one of the named elements is the
/// closest to the needle, and none is closer than it.
pub proof fn lemma_closest_name_exists(els: Seq<Element>, needle: Seq<char>, i: int)
    requires
        0 <= i < els.len(),
        els[i].name is Some,
    ensures
        closest_name(els, needle) matches Some(c) && is_closest_name(els, needle, c)
            && name_distance(els[c], needle)->0 <= name_distance(els[i], needle)->0,
    decreases name_distance(els[i], needle)->0, i,
{
    let di = name_distance(els[i], needle)->0;
    if exists|j: int|
        0 <= j < els.len() && (#[trigger] els[j]).name is Some && (name_distance(els[j], needle)->0
            < di || (name_distance(els[j], needle)->0 == di && j < i)) {
        let j = choose|j: int|
            0 <= j < els.len() && (#[trigger] els[j]).name is Some && (name_distance(
                els[j],
                needle,
            )->0 < di || (name_distance(els[j], needle)->0 == di && j < i));
        lemma_closest_name_exists(els, needle, j);
    } else {
        assert(is_closest_name(els, needle, i));
        crate::matcher::lemma_closest_name_unique(els, needle, i);
    }
}

/// A query that is no positive number and no element's symbol, and that
/// is within `MAX_DISTANCE` of some element's name, finds the element
/// whose name is closest to it, which is at least as close as that one.
pub proof fn lemma_close_name_query(els: Seq<Element>, i: int, query: Seq<char>)
    requires
        0 <= i < els.len(),
        numeric_key(normalized(query)) is None,
        forall|j: int|
            0 <= j < els.len() ==> !matches_key(#[trigger] els[j], Key::Symbol(normalized(query))),
        els[i].name is Some,
        name_distance(els[i], normalized(query))->0 <= MAX_DISTANCE,
    ensures
        resolve(els, query) matches Some(c) && is_closest_name(els, normalized(query), c)
            && name_distance(els[c], normalized(query))->0 <= name_distance(
            els[i],
            normalized(query),
        )->0,
{
    let needle = normalized(query);
    lemma_first_match_none(els, Key::Symbol(needle));
    lemma_closest_name_exists(els, needle, i);
    if first_match(els, Key::Name(needle)) is Some {
        lemma_exact_name_is_closest(els, needle);
    }
}

/// The case of the ASCII letters of a query does not matter: two queries
/// of ASCII characters that are the same in lower case have the same
/// needle, and find the same element.
pub proof fn lemma_query_case_ignored(els: Seq<Element>, first: Seq<char>, second: Seq<char>)
    requires
        is_ascii_text(first),
        is_ascii_text(second),
        ascii_lowercased(first) == ascii_lowercased(second),
    ensures
        normalized(first) == normalized(second),
        resolve(els, first) == resolve(els, second),
{
    lemma_trim_keeps_ascii(first);
    lemma_trim_keeps_ascii(second);
    lemma_trimmed_lowercased(first);
    lemma_trimmed_lowercased(second);
}

/// Asking twice gives the same answer: whatever two searches of one table
/// for one query return, they return the same.
pub proof fn lemma_same_query_same_answer(
    els: Seq<Element>,
    query: Seq<char>,
    first: Option<Element>,
    second: Option<Element>,
)
    requires
        first == answer(els, query),
        second == answer(els, query),
    ensures
        first == second,
{
}

} // verus!
