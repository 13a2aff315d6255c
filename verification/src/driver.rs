//! The decisions of the command line: what the arguments ask for, what a
//! line typed at the prompt asks for, and what is written in answer.

use vstd::prelude::*;
use vstd::string::*;
use crate::element::{text_of, Element};
use crate::matcher::{answer, find_element};
use crate::render::{is_rendering, render, rendering, texts, RenderError};
use crate::style::Style;
use crate::text::{trim, trimmed};

verus! {

/// Whether an argument is the flag that switches colours off.
pub open spec fn is_flag(arg: Seq<char>) -> bool {
    arg == "--no-colors"@
}

/// Whether `i` is the place of the query among the arguments: the first
/// argument after the program's name that is not the flag.
pub open spec fn is_query_at(args: Seq<String>, i: int) -> bool {
    &&& 1 <= i < args.len()
    &&& !is_flag(args[i]@)
    &&& forall|j: int| 1 <= j < i ==> is_flag(#[trigger] args[j]@)
}

/// The query that the arguments hold, if they hold one.
pub open spec fn query_of(args: Seq<String>) -> Option<Seq<char>> {
    if exists|i: int| is_query_at(args, i) {
        Some(args[choose|i: int| is_query_at(args, i)]@)
    } else {
        None
    }
}

/// Whether the arguments leave colours on: none of them, after the
/// program's name, is the flag.
pub open spec fn wants_colors(args: Seq<String>) -> bool {
    forall|j: int| 1 <= j < args.len() ==> !is_flag(#[trigger] args[j]@)
}

/// The query is the argument at its one place.
pub proof fn lemma_query_unique(args: Seq<String>, i: int)
    requires
        is_query_at(args, i),
    ensures
        query_of(args) == Some(args[i]@),
{
    let c = choose|k: int| is_query_at(args, k);
    assert(is_query_at(args, c));
    if c < i {
        assert(is_flag(args[c]@));
    } else if i < c {
        assert(is_flag(args[i]@));
    }
}

/// Reads the arguments of the program, the first of which is its name: the
/// query, if one is given, and whether colours stay on.
pub fn check_arguments(args: &Vec<String>) -> (r: (Option<String>, bool))
    ensures
        text_of(r.0) == query_of(args@),
        r.1 == wants_colors(args@),
{
    let mut filter: Option<String> = None;
    let mut use_colors = true;
    let mut i: usize = 1;
    while i < args.len()
        invariant
            1 <= i,
            use_colors == (forall|j: int| 1 <= j < i && j < args.len() ==> !is_flag(#[trigger] args@[j]@)),
            filter is None ==> forall|j: int|
                1 <= j < i && j < args.len() ==> is_flag(#[trigger] args@[j]@),
            filter matches Some(q) ==> exists|k: int|
                is_query_at(args@, k) && k < i && q@ == (#[trigger] args@[k])@,
        decreases args.len() - i,
    {
        let flag = String::from_str("--no-colors");
        if args[i] == flag {
            use_colors = false;
        } else if filter.is_none() {
            filter = Some(args[i].clone());
            assert(is_query_at(args@, i as int));
        }
        i = i + 1;
    }
    proof {
        if filter is Some {
            let q = filter->0;
            let k = choose|k: int| is_query_at(args@, k) && q@ == (#[trigger] args@[k])@;
            lemma_query_unique(args@, k);
        } else {
            assert forall|k: int| !is_query_at(args@, k) by {
                if 1 <= k < args@.len() {
                    assert(is_flag(args@[k]@));
                }
            }
        }
    }
    (filter, use_colors)
}

/// What the prompt asks for.
pub fn prompt() -> (r: &'static str)
    ensures
        r@ == "Name, Symbol, or Number"@,
{
    "Name, Symbol, or Number"
}

/// The query in a line typed at the prompt: the line without whitespace at
/// either end.
pub fn ask_filter(input: &str) -> (r: String)
    ensures
        r@ == trimmed(input@),
{
    String::from_str(trim(input))
}

/// What is written in answer to `query`: nothing for a query that is empty
/// once trimmed, and nothing where no element answers it; else all that is
/// written for the element, in the given style.
pub open spec fn response(els: Seq<Element>, query: Seq<char>, style: Style) -> Result<
    Seq<Seq<char>>,
    RenderError,
> {
    if trimmed(query).len() == 0 {
        Ok(Seq::empty())
    } else {
        match answer(els, query) {
            Some(el) => rendering(el, style),
            None => Ok(Seq::empty()),
        }
    }
}

/// Answers `query` from the table `els` in the given style. A query that
/// is empty once trimmed is not looked up.
pub fn respond(els: Vec<Element>, query: &str, style: &Style) -> (r: Result<
    Vec<String>,
    RenderError,
>)
    ensures
        is_rendering(r, response(els@, query@, *style)),
{
    if trim(query).is_empty() {
        let none: Vec<String> = Vec::new();
        assert(texts(none@) =~= Seq::<Seq<char>>::empty());
        return Ok(none);
    }
    match find_element(els, String::from_str(query)) {
        Some(el) => render(&el, style),
        None => {
            let none: Vec<String> = Vec::new();
            assert(texts(none@) =~= Seq::<Seq<char>>::empty());
            Ok(none)
        },
    }
}

/// Answers `query` from the table `els`, for a terminal where `use_colors`
/// is set and undecorated where it is not.
pub fn lookup(els: Vec<Element>, query: &str, use_colors: bool) -> (r: Result<
    Vec<String>,
    RenderError,
>)
    ensures
        exists|style: Style|
            {
                &&& use_colors ==> style.is_terminal()
                &&& !use_colors ==> style.is_plain()
                &&& #[trigger] is_rendering(r, response(els@, query@, style))
            },
{
    let style = Style::of(use_colors);
    respond(els, query, &style)
}

/// A query that is empty, or all whitespace, is answered with nothing,
/// whatever the table holds.
pub proof fn lemma_blank_query(els: Seq<Element>, query: Seq<char>, style: Style)
    requires
        forall|i: int| 0 <= i < query.len() ==> crate::text::is_whitespace(#[trigger] query[i]),
    ensures
        response(els, query, style) == Ok::<Seq<Seq<char>>, RenderError>(Seq::empty()),
{
    crate::text::lemma_trim_blank(query);
}

} // verus!
