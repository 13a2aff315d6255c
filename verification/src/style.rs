//! The escape sequences that set apart the title and the labels of a
//! rendered element on a terminal.

use vstd::prelude::*;
use vstd::string::*;

verus! {

/// The sequence that switches bold text on.
pub open spec fn bold_sequence() -> Seq<char> {
    seq!['\u{1b}', '[', '1', 'm']
}

/// The sequence that sets the text colour to cyan.
pub open spec fn cyan_sequence() -> Seq<char> {
    seq!['\u{1b}', '[', '3', '8', ';', '5', ';', '6', 'm']
}

/// The sequence that sets the text colour to blue.
pub open spec fn blue_sequence() -> Seq<char> {
    seq!['\u{1b}', '[', '3', '8', ';', '5', ';', '4', 'm']
}

/// The sequence that sets the text colour back to the terminal's own.
pub open spec fn default_colour_sequence() -> Seq<char> {
    seq!['\u{1b}', '[', '3', '9', 'm']
}

/// The sequence that switches every text attribute off.
pub open spec fn plain_sequence() -> Seq<char> {
    seq!['\u{1b}', '[', 'm']
}

/// What is written around the title and around each label.
#[derive(Debug, Clone, Default, PartialEq, Eq)]
pub struct Style {
    /// Written before the title.
    pub title_on: String,
    /// Written after the title.
    pub title_off: String,
    /// Written before a label.
    pub label_on: String,
    /// Written after a label.
    pub label_off: String,
}

impl Style {
    /// Whether the style writes nothing: text comes out undecorated.
    pub open spec fn is_plain(self) -> bool {
        &&& self.title_on@ == Seq::<char>::empty()
        &&& self.title_off@ == Seq::<char>::empty()
        &&& self.label_on@ == Seq::<char>::empty()
        &&& self.label_off@ == Seq::<char>::empty()
    }

    /// Whether the style is that of a terminal: the title in bold and,
    /// where colours are in use, in cyan; the labels, where colours are in
    /// use, in blue; after each, the colour and the attributes set back.
    pub open spec fn is_terminal(self) -> bool {
        &&& self.title_on@ == bold_sequence() + cyan_sequence() || self.title_on@
            == bold_sequence()
        &&& self.title_off@ == default_colour_sequence() + plain_sequence()
        &&& self.label_on@ == blue_sequence() || self.label_on@ == Seq::<char>::empty()
        &&& self.label_off@ == default_colour_sequence()
    }

    /// The style that decorates nothing.
    pub fn plain() -> (r: Style)
        ensures
            r.is_plain(),
    {
        Style {
            title_on: String::new(),
            title_off: String::new(),
            label_on: String::new(),
            label_off: String::new(),
        }
    }

    /// The style for a terminal.
    pub fn terminal() -> (r: Style)
        ensures
            r.is_terminal(),
    {
        let mut title_on = bold();
        let cyan = cyan();
        title_on.append(cyan.as_str());
        let mut title_off = default_colour();
        let off = attributes_off();
        title_off.append(off.as_str());
        let r = Style { title_on, title_off, label_on: blue(), label_off: default_colour() };
        assert(r.title_on@ == bold_sequence() + cyan_sequence() || r.title_on@ =~= bold_sequence());
        r
    }

    /// The style for output with or without colours.
    pub fn of(use_colors: bool) -> (r: Style)
        ensures
            use_colors ==> r.is_terminal(),
            !use_colors ==> r.is_plain(),
    {
        if use_colors {
            Style::terminal()
        } else {
            Style::plain()
        }
    }
}

/// Formats `termion::style::Bold`. Assumed: it writes the sequence that
/// switches bold text on.
#[verifier::external_body]
fn bold() -> (r: String)
    ensures
        r@ == bold_sequence(),
{
    format!("{}", termion::style::Bold)
}

/// Formats `termion::style::Reset`. Assumed: it writes the sequence that
/// switches every attribute off.
#[verifier::external_body]
fn attributes_off() -> (r: String)
    ensures
        r@ == plain_sequence(),
{
    format!("{}", termion::style::Reset)
}

/// Formats `termion::color::Fg` of `termion::color::Cyan`. Assumed: it
/// writes the sequence for cyan text, or nothing where the environment
/// switches colours off.
#[verifier::external_body]
fn cyan() -> (r: String)
    ensures
        r@ == cyan_sequence() || r@ == Seq::<char>::empty(),
{
    format!("{}", termion::color::Fg(termion::color::Cyan))
}

/// Formats `termion::color::Fg` of `termion::color::Blue`. Assumed: it
/// writes the sequence for blue text, or nothing where the environment
/// switches colours off.
#[verifier::external_body]
fn blue() -> (r: String)
    ensures
        r@ == blue_sequence() || r@ == Seq::<char>::empty(),
{
    format!("{}", termion::color::Fg(termion::color::Blue))
}

/// Formats `termion::color::Fg` of `termion::color::Reset`. Assumed: it
/// writes the sequence that sets the text colour back.
#[verifier::external_body]
fn default_colour() -> (r: String)
    ensures
        r@ == default_colour_sequence(),
{
    format!("{}", termion::color::Fg(termion::color::Reset))
}

} // verus!
