//! The record of one chemical element, and what holds of a whole table of
//! them.

use vstd::prelude::*;
use crate::text::{lowercase, lowercased};

verus! {

/// One entry of the periodic table. Every property is optional: a record
/// holds only what is known of the element.
///
/// Measured quantities (`atomic_mass`, `boil`, `density`, `melt`,
/// `molar_heat`, `electron_affinity`, `electronegativity_pauling` and each
/// of the `ionization_energies`) are held as their decimal text.
#[derive(Debug, Clone, Default, PartialEq, Eq)]
pub struct Element {
    pub name: Option<String>,
    pub appearance: Option<String>,
    pub phase: Option<String>,
    pub source: Option<String>,
    pub spectral_img: Option<String>,
    pub summary: Option<String>,
    pub symbol: Option<String>,
    pub category: Option<String>,
    pub discovered_by: Option<String>,
    pub color: Option<String>,
    pub named_by: Option<String>,
    pub electron_configuration: Option<String>,
    pub atomic_mass: Option<String>,
    pub boil: Option<String>,
    pub density: Option<String>,
    pub melt: Option<String>,
    pub molar_heat: Option<String>,
    pub electron_affinity: Option<String>,
    pub electronegativity_pauling: Option<String>,
    pub number: Option<u32>,
    pub period: Option<u32>,
    pub xpos: Option<u32>,
    pub ypos: Option<u32>,
    pub ionization_energies: Option<Vec<String>>,
    pub shells: Option<Vec<u32>>,
}

/// The characters of an optional text.
pub open spec fn text_of(t: Option<String>) -> Option<Seq<char>> {
    match t {
        Some(s) => Some(s@),
        None => None,
    }
}

/// The lower-case form of an optional text.
pub open spec fn folded(t: Option<String>) -> Option<Seq<char>> {
    match t {
        Some(s) => Some(lowercased(s@)),
        None => None,
    }
}

/// Whether two elements can stand in one table: they differ in atomic
/// number, in name and in symbol, as far as the first has them. Names and
/// symbols are compared in lower case.
pub open spec fn distinct(a: Element, b: Element) -> bool {
    &&& a.number is Some ==> a.number != b.number
    &&& a.name is Some ==> folded(a.name) != folded(b.name)
    &&& a.symbol is Some ==> folded(a.symbol) != folded(b.symbol)
}

/// What holds of a table of elements: an atomic number is positive and
/// belongs to one element only, and no two elements share a name or a
/// symbol, whatever the case of the letters.
pub open spec fn well_formed(els: Seq<Element>) -> bool {
    &&& forall|i: int| 0 <= i < els.len() ==> (#[trigger] els[i]).number != Some(0u32)
    &&& forall|i: int, j: int|
        #![trigger els[i], els[j]]
        0 <= i < j < els.len() ==> distinct(els[i], els[j])
}

/// The lower-case form of an optional text.
fn fold(t: &Option<String>) -> (r: Option<String>)
    ensures
        text_of(r) == folded(*t),
{
    match t {
        Some(s) => Some(lowercase(s.as_str())),
        None => None,
    }
}

/// The lower-case name and the lower-case symbol of each element.
fn fold_all(els: &Vec<Element>) -> (r: (Vec<Option<String>>, Vec<Option<String>>))
    ensures
        r.0.len() == els.len(),
        r.1.len() == els.len(),
        forall|k: int| 0 <= k < els.len() ==> text_of(#[trigger] r.0@[k]) == folded(els@[k].name),
        forall|k: int|
            0 <= k < els.len() ==> text_of(#[trigger] r.1@[k]) == folded(els@[k].symbol),
{
    let mut names: Vec<Option<String>> = Vec::new();
    let mut symbols: Vec<Option<String>> = Vec::new();
    let mut i: usize = 0;
    while i < els.len()
        invariant
            i <= els.len(),
            names.len() == i,
            symbols.len() == i,
            forall|k: int| 0 <= k < i ==> text_of(#[trigger] names@[k]) == folded(els@[k].name),
            forall|k: int| 0 <= k < i ==> text_of(#[trigger] symbols@[k]) == folded(els@[k].symbol),
        decreases els.len() - i,
    {
        names.push(fold(&els[i].name));
        symbols.push(fold(&els[i].symbol));
        i = i + 1;
    }
    (names, symbols)
}

/// Whether both texts are there and are the same.
fn same_text(a: &Option<String>, b: &Option<String>) -> (r: bool)
    ensures
        r == (a is Some && text_of(*a) == text_of(*b)),
{
    match a {
        Some(x) => match b {
            Some(y) => *x == *y,
            None => false,
        },
        None => false,
    }
}

/// Whether both numbers are there and are the same.
fn same_number(a: Option<u32>, b: Option<u32>) -> (r: bool)
    ensures
        r == (a is Some && a == b),
{
    match a {
        Some(x) => match b {
            Some(y) => x == y,
            None => false,
        },
        None => false,
    }
}

/// Whether the table `els` is well formed.
pub fn is_well_formed(els: &Vec<Element>) -> (ok: bool)
    ensures
        ok == well_formed(els@),
{
    let n: usize = els.len();
    let (names, symbols) = fold_all(els);
    let mut i: usize = 0;
    while i < n
        invariant
            i <= n == els.len(),
            names.len() == n,
            symbols.len() == n,
            forall|k: int| 0 <= k < n ==> text_of(#[trigger] names@[k]) == folded(els@[k].name),
            forall|k: int| 0 <= k < n ==> text_of(#[trigger] symbols@[k]) == folded(els@[k].symbol),
            forall|a: int| 0 <= a < i ==> (#[trigger] els@[a]).number != Some(0u32),
            forall|a: int, b: int|
                #![trigger els@[a], els@[b]]
                0 <= a < i && a < b < n ==> distinct(els@[a], els@[b]),
        decreases n - i,
    {
        if same_number(els[i].number, Some(0)) {
            assert(els@[i as int].number == Some(0u32));
            return false;
        }
        let mut j: usize = i + 1;
        while j < n
            invariant
                i < j <= n == els.len(),
                names.len() == n,
                symbols.len() == n,
                forall|k: int| 0 <= k < n ==> text_of(#[trigger] names@[k]) == folded(els@[k].name),
                forall|k: int|
                    0 <= k < n ==> text_of(#[trigger] symbols@[k]) == folded(els@[k].symbol),
                forall|b: int| i < b < j ==> distinct(els@[i as int], #[trigger] els@[b]),
            decreases n - j,
        {
            if same_number(els[i].number, els[j].number) || same_text(&names[i], &names[j])
                || same_text(&symbols[i], &symbols[j]) {
                assert(!distinct(els@[i as int], els@[j as int]));
                return false;
            }
            j = j + 1;
        }
        i = i + 1;
    }
    true
}

} // verus!
