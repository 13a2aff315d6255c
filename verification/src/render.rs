//! The renderer: an element as the lines of text that show it.

use vstd::prelude::*;
use vstd::string::*;
use vstd::utf8::encode_utf8;
use crate::element::{text_of, Element};
use crate::style::Style;
use crate::text::{decimal_string, decimal_text, trim, trimmed};

verus! {

/// The width to which the text of a property is wrapped.
pub const MAX_WIDTH: usize = 80;

/// How the text of a property is cased before it is shown.
#[derive(Debug, Clone, Copy, PartialEq, Eq)]
pub enum Case {
    /// As it stands.
    Plain,
    /// Each Word With A Capital.
    Title,
    /// The first word with a capital.
    Sentence,
}

/// Why an element cannot be rendered.
#[derive(Debug, Clone, Copy, PartialEq, Eq)]
pub enum RenderError {
    /// The element has no name.
    MissingName,
    /// The element has a name but no symbol.
    MissingSymbol,
}

/// One property of an element, ready to be shown.
#[derive(Debug, Clone, PartialEq, Eq)]
pub struct Field {
    /// What the property is called.
    pub label: &'static str,
    /// Its text, where the element has the property.
    pub value: Option<String>,
    /// How the text is cased.
    pub case: Case,
}

/// What a `Field` stands for.
pub struct Row {
    pub label: Seq<char>,
    pub value: Option<Seq<char>>,
    pub case: Case,
}

impl View for Field {
    type V = Row;

    open spec fn view(&self) -> Row {
        Row { label: self.label@, value: text_of(self.value), case: self.case }
    }
}

/// The title-case form of a text, as `inflector` gives it.
pub uninterp spec fn title_cased(s: Seq<char>) -> Seq<char>;

/// The sentence-case form of a text, as `inflector` gives it.
pub uninterp spec fn sentence_cased(s: Seq<char>) -> Seq<char>;

/// A text broken into lines of at most `width` columns, as `textwrap`
/// breaks it.
pub uninterp spec fn filled(s: Seq<char>, width: usize) -> Seq<char>;

/// A text with `prefix` put before each of its lines, as `textwrap` puts
/// it.
pub uninterp spec fn indented(s: Seq<char>, prefix: Seq<char>) -> Seq<char>;

/// Calls `inflector::cases::titlecase::to_title_case`. Assumed: the result
/// is a function of the text alone.
#[verifier::external_body]
fn title_case(s: &str) -> (r: String)
    ensures
        r@ == title_cased(s@),
{
    inflector::cases::titlecase::to_title_case(s)
}

/// Calls `inflector::cases::sentencecase::to_sentence_case`. Assumed: the
/// result is a function of the text alone.
#[verifier::external_body]
fn sentence_case(s: &str) -> (r: String)
    ensures
        r@ == sentence_cased(s@),
{
    inflector::cases::sentencecase::to_sentence_case(s)
}

/// Calls `textwrap::fill` with a plain width. Assumed: the result is a
/// function of the text and the width alone.
#[verifier::external_body]
fn fill(s: &str, width: usize) -> (r: String)
    ensures
        r@ == filled(s@, width),
{
    textwrap::fill(s, width)
}

/// Calls `textwrap::indent`. Assumed: the result is a function of the text
/// and the prefix alone.
#[verifier::external_body]
fn indent(s: &str, prefix: &str) -> (r: String)
    ensures
        r@ == indented(s@, prefix@),
{
    textwrap::indent(s, prefix)
}

/// `n` spaces.
pub open spec fn spaces(n: nat) -> Seq<char> {
    Seq::new(n, |i: int| ' ')
}

/// The texts of `items`, each but the first with `sep` before it.
pub open spec fn joined(items: Seq<Seq<char>>, sep: Seq<char>) -> Seq<char>
    decreases items.len(),
{
    if items.len() == 0 {
        Seq::empty()
    } else if items.len() == 1 {
        items[0]
    } else {
        joined(items.drop_last(), sep) + sep + items.last()
    }
}

/// The characters of each of a list of texts.
pub open spec fn texts(v: Seq<String>) -> Seq<Seq<char>> {
    Seq::new(v.len(), |i: int| v[i]@)
}

/// The decimal numeral of each of a list of numbers.
pub open spec fn numerals(v: Seq<u32>) -> Seq<Seq<char>> {
    Seq::new(v.len(), |i: int| decimal_text(v[i] as nat))
}

/// What each of a list of fields stands for.
pub open spec fn field_rows(v: Seq<Field>) -> Seq<Row> {
    Seq::new(v.len(), |i: int| v[i]@)
}

/// The text of a property in the case asked for.
pub open spec fn cased(v: Seq<char>, case: Case) -> Seq<char> {
    match case {
        Case::Plain => v,
        Case::Title => title_cased(v),
        Case::Sentence => sentence_cased(v),
    }
}

/// The prefix that puts a continuation line under the text of its property:
/// as many spaces as the label has bytes, and two for the colon and the
/// space after it.
pub open spec fn margin(label: Seq<char>) -> Seq<char> {
    spaces(encode_utf8(label).len() + 2)
}

/// A label, decorated, then a colon, a space and `body` without whitespace
/// at either end.
pub open spec fn labelled(label: Seq<char>, body: Seq<char>, style: Style) -> Seq<char> {
    style.label_on@ + label + style.label_off@ + ": "@ + trimmed(body)
}

/// The entry that shows the property `label` with the text `v`: behind the
/// label, the text in the case asked for, wrapped to `MAX_WIDTH`, with each
/// line indented by the margin.
pub open spec fn entry(label: Seq<char>, v: Seq<char>, case: Case, style: Style) -> Seq<char> {
    labelled(label, indented(filled(cased(v, case), MAX_WIDTH), margin(label)), style)
}

/// The entries that a row gives: one where the property is there, none
/// where it is not.
pub open spec fn row_entries(row: Row, style: Style) -> Seq<Seq<char>> {
    match row.value {
        Some(v) => seq![entry(row.label, v, row.case, style)],
        None => Seq::empty(),
    }
}

/// The entries that show `rows`, in their order.
pub open spec fn shown(rows: Seq<Row>, style: Style) -> Seq<Seq<char>>
    decreases rows.len(),
{
    if rows.len() == 0 {
        Seq::empty()
    } else {
        shown(rows.drop_last(), style) + row_entries(rows.last(), style)
    }
}

/// The title of an element: a line break, the name, the symbol in round
/// brackets, a line break; name and symbol decorated as one.
pub open spec fn title(name: Seq<char>, symbol: Seq<char>, style: Style) -> Seq<char> {
    "\n"@ + style.title_on@ + name + " ("@ + symbol + ")"@ + style.title_off@ + "\n"@
}

/// The decimal numeral of an optional number.
pub open spec fn numeral_of(n: Option<u32>) -> Option<Seq<char>> {
    match n {
        Some(n) => Some(decimal_text(n as nat)),
        None => None,
    }
}

/// The numerals of an optional list of numbers, with a comma and a space
/// between them.
pub open spec fn numerals_of(v: Option<Vec<u32>>) -> Option<Seq<char>> {
    match v {
        Some(v) => Some(joined(numerals(v@), ", "@)),
        None => None,
    }
}

/// The texts of an optional list, with a comma and a space between them.
pub open spec fn list_of(v: Option<Vec<String>>) -> Option<Seq<char>> {
    match v {
        Some(v) => Some(joined(texts(v@), ", "@)),
        None => None,
    }
}

/// The properties of an element in the order in which they are shown, each
/// with its label and its case.
pub open spec fn rows(el: Element) -> Seq<Row> {
    seq![
        Row { label: "Atomic Number"@, value: numeral_of(el.number), case: Case::Plain },
        Row { label: "Period Number"@, value: numeral_of(el.period), case: Case::Plain },
        Row { label: "Category"@, value: text_of(el.category), case: Case::Title },
        Row { label: "Summary"@, value: text_of(el.summary), case: Case::Plain },
        Row { label: "Discovered By"@, value: text_of(el.discovered_by), case: Case::Plain },
        Row { label: "Named By"@, value: text_of(el.named_by), case: Case::Plain },
        Row { label: "Appearance"@, value: text_of(el.appearance), case: Case::Sentence },
        Row { label: "Atomic Mass"@, value: text_of(el.atomic_mass), case: Case::Plain },
        Row { label: "Phase"@, value: text_of(el.phase), case: Case::Plain },
        Row { label: "Density"@, value: text_of(el.density), case: Case::Plain },
        Row { label: "Color"@, value: text_of(el.color), case: Case::Title },
        Row { label: "Molar Heat"@, value: text_of(el.molar_heat), case: Case::Plain },
        Row { label: "Melting Point"@, value: text_of(el.melt), case: Case::Plain },
        Row { label: "Boiling Point"@, value: text_of(el.boil), case: Case::Plain },
        Row { label: "Shells"@, value: numerals_of(el.shells), case: Case::Plain },
        Row {
            label: "Electron Configuration"@,
            value: text_of(el.electron_configuration),
            case: Case::Plain,
        },
        Row {
            label: "Electron Affinity"@,
            value: text_of(el.electron_affinity),
            case: Case::Plain,
        },
        Row {
            label: "Electronegativity Pauling"@,
            value: text_of(el.electronegativity_pauling),
            case: Case::Plain,
        },
        Row {
            label: "Ionization Energies"@,
            value: list_of(el.ionization_energies),
            case: Case::Plain,
        },
        Row { label: "X Pos"@, value: numeral_of(el.xpos), case: Case::Plain },
        Row { label: "Y Pos"@, value: numeral_of(el.ypos), case: Case::Plain },
        Row { label: "Source"@, value: text_of(el.source), case: Case::Plain },
        Row { label: "Spectral Image"@, value: text_of(el.spectral_img), case: Case::Plain },
    ]
}

/// All that is written for an element that has a name and a symbol: the
/// title, an entry for each property that is there, and an empty entry.
pub open spec fn rendered(el: Element, style: Style) -> Seq<Seq<char>>
    recommends
        el.name is Some,
        el.symbol is Some,
{
    seq![title(el.name->0@, el.symbol->0@, style)] + shown(rows(el), style) + seq![
        Seq::<char>::empty(),
    ]
}

/// What rendering an element gives: for one without a name or without a
/// symbol the error that says so, for any other all that is written for it.
pub open spec fn rendering(el: Element, style: Style) -> Result<Seq<Seq<char>>, RenderError> {
    if el.name is None {
        Err(RenderError::MissingName)
    } else if el.symbol is None {
        Err(RenderError::MissingSymbol)
    } else {
        Ok(rendered(el, style))
    }
}

/// Whether `r` is the rendering `m`.
pub open spec fn is_rendering(
    r: Result<Vec<String>, RenderError>,
    m: Result<Seq<Seq<char>>, RenderError>,
) -> bool {
    match r {
        Ok(lines) => m == Ok::<Seq<Seq<char>>, RenderError>(texts(lines@)),
        Err(e) => m == Err::<Seq<Seq<char>>, RenderError>(e),
    }
}

/// The margin under the text of the property `label`.
pub fn pad(label: &str) -> (r: String)
    ensures
        r@ == margin(label@),
{
    proof {
        reveal_strlit(" ");
    }
    let n: usize = label.as_bytes().len();
    let mut r = String::new();
    let mut i: usize = 0;
    while i < n
        invariant
            i <= n,
            r@ == spaces(i as nat),
            " "@ == seq![' '],
        decreases n - i,
    {
        r.append(" ");
        i = i + 1;
        assert(r@ =~= spaces(i as nat));
    }
    r.append(" ");
    r.append(" ");
    assert(r@ =~= spaces((n + 2) as nat));
    r
}

/// The texts of `items` in one text, with `sep` between them.
pub fn join(items: &Vec<String>, sep: &str) -> (r: String)
    ensures
        r@ == joined(texts(items@), sep@),
{
    let mut r = String::new();
    let mut i: usize = 0;
    assert(texts(items@).take(0) =~= Seq::<Seq<char>>::empty());
    while i < items.len()
        invariant
            i <= items.len(),
            r@ == joined(texts(items@).take(i as int), sep@),
        decreases items.len() - i,
    {
        let ghost prev = texts(items@).take(i as int);
        let ghost next = texts(items@).take(i + 1);
        assert(next.drop_last() =~= prev);
        assert(next.last() == items@[i as int]@);
        if i > 0 {
            r.append(sep);
        }
        r.append(items[i].as_str());
        assert(r@ =~= joined(next, sep@)) by {
            if i == 0 {
                assert(prev.len() == 0);
                assert(next.len() == 1);
            }
        }
        i = i + 1;
    }
    assert(texts(items@).take(items.len() as int) =~= texts(items@));
    r
}

/// The decimal numeral of each of `numbers`.
pub fn numeral_list(numbers: &Vec<u32>) -> (r: Vec<String>)
    ensures
        texts(r@) == numerals(numbers@),
{
    let mut r: Vec<String> = Vec::new();
    let mut i: usize = 0;
    while i < numbers.len()
        invariant
            i <= numbers.len(),
            r.len() == i,
            forall|j: int| 0 <= j < i ==> (#[trigger] r@[j])@ == decimal_text(numbers@[j] as nat),
        decreases numbers.len() - i,
    {
        r.push(decimal_string(numbers[i]));
        i = i + 1;
    }
    assert(texts(r@) =~= numerals(numbers@));
    r
}

/// The label, decorated, then a colon, a space and `body` without
/// whitespace at either end.
pub fn label_line(label: &str, body: &str, style: &Style) -> (r: String)
    ensures
        r@ == labelled(label@, body@, *style),
{
    let mut r = style.label_on.clone();
    r.append(label);
    r.append(style.label_off.as_str());
    r.append(": ");
    r.append(trim(body));
    assert(r@ =~= labelled(label@, body@, *style));
    r
}

/// The entry that shows the property `label`, where there is a `value`:
/// the value in the case asked for, wrapped, indented under itself, behind
/// the label.
pub fn field_line(label: &str, value: Option<&str>, case: Case, style: &Style) -> (r: Option<
    String,
>)
    ensures
        match value {
            Some(v) => r matches Some(line) && line@ == entry(label@, v@, case, *style),
            None => r is None,
        },
{
    match value {
        Some(v) => {
            let text = match case {
                Case::Plain => String::from_str(v),
                Case::Title => title_case(v),
                Case::Sentence => sentence_case(v),
            };
            let wrapped = fill(text.as_str(), MAX_WIDTH);
            let space = pad(label);
            let body = indent(wrapped.as_str(), space.as_str());
            Some(label_line(label, body.as_str(), style))
        },
        None => None,
    }
}

/// The title of an element called `name`, with the symbol `symbol`.
pub fn title_line(name: &str, symbol: &str, style: &Style) -> (r: String)
    ensures
        r@ == title(name@, symbol@, *style),
{
    let mut r = String::from_str("\n");
    r.append(style.title_on.as_str());
    r.append(name);
    r.append(" (");
    r.append(symbol);
    r.append(")");
    r.append(style.title_off.as_str());
    r.append("\n");
    assert(r@ =~= title(name@, symbol@, *style));
    r
}

/// A field for a property that is a text.
fn text_field(label: &'static str, value: &Option<String>, case: Case) -> (r: Field)
    ensures
        r@ == (Row { label: label@, value: text_of(*value), case }),
{
    let value = match value {
        Some(s) => Some(s.clone()),
        None => None,
    };
    Field { label, value, case }
}

/// A field for a property that is a number.
fn number_field(label: &'static str, value: Option<u32>) -> (r: Field)
    ensures
        r@ == (Row { label: label@, value: numeral_of(value), case: Case::Plain }),
{
    let value = match value {
        Some(n) => Some(decimal_string(n)),
        None => None,
    };
    Field { label, value, case: Case::Plain }
}

/// The properties of `el` in the order in which they are shown.
pub fn fields(el: &Element) -> (r: Vec<Field>)
    ensures
        field_rows(r@) == rows(*el),
{
    let shells = match &el.shells {
        Some(v) => {
            let list = numeral_list(v);
            Some(join(&list, ", "))
        },
        None => None,
    };
    let energies = match &el.ionization_energies {
        Some(v) => Some(join(v, ", ")),
        None => None,
    };
    let mut r: Vec<Field> = Vec::new();
    r.push(number_field("Atomic Number", el.number));
    r.push(number_field("Period Number", el.period));
    r.push(text_field("Category", &el.category, Case::Title));
    r.push(text_field("Summary", &el.summary, Case::Plain));
    r.push(text_field("Discovered By", &el.discovered_by, Case::Plain));
    r.push(text_field("Named By", &el.named_by, Case::Plain));
    r.push(text_field("Appearance", &el.appearance, Case::Sentence));
    r.push(text_field("Atomic Mass", &el.atomic_mass, Case::Plain));
    r.push(text_field("Phase", &el.phase, Case::Plain));
    r.push(text_field("Density", &el.density, Case::Plain));
    r.push(text_field("Color", &el.color, Case::Title));
    r.push(text_field("Molar Heat", &el.molar_heat, Case::Plain));
    r.push(text_field("Melting Point", &el.melt, Case::Plain));
    r.push(text_field("Boiling Point", &el.boil, Case::Plain));
    r.push(Field { label: "Shells", value: shells, case: Case::Plain });
    r.push(text_field("Electron Configuration", &el.electron_configuration, Case::Plain));
    r.push(text_field("Electron Affinity", &el.electron_affinity, Case::Plain));
    r.push(text_field("Electronegativity Pauling", &el.electronegativity_pauling, Case::Plain));
    r.push(Field { label: "Ionization Energies", value: energies, case: Case::Plain });
    r.push(number_field("X Pos", el.xpos));
    r.push(number_field("Y Pos", el.ypos));
    r.push(text_field("Source", &el.source, Case::Plain));
    r.push(text_field("Spectral Image", &el.spectral_img, Case::Plain));
    assert(field_rows(r@) =~= rows(*el));
    r
}

/// Adds to `out` the entries that show `fields`: one for each field whose
/// property is there, in their order.
pub fn show_fields(out: &mut Vec<String>, fields: &Vec<Field>, style: &Style)
    ensures
        texts(final(out)@) == texts(old(out)@) + shown(field_rows(fields@), *style),
{
    let ghost all = field_rows(fields@);
    let mut i: usize = 0;
    assert(all.take(0) =~= Seq::<Row>::empty());
    assert(texts(out@) =~= texts(old(out)@) + shown(all.take(0), *style));
    while i < fields.len()
        invariant
            i <= fields.len(),
            all == field_rows(fields@),
            texts(out@) == texts(old(out)@) + shown(all.take(i as int), *style),
        decreases fields.len() - i,
    {
        let ghost before = texts(out@);
        proof {
            assert(all.take(i + 1).drop_last() =~= all.take(i as int));
            assert(all.take(i + 1).last() == fields@[i as int]@);
        }
        let f = &fields[i];
        let value = match &f.value {
            Some(s) => Some(s.as_str()),
            None => None,
        };
        match field_line(f.label, value, f.case, style) {
            Some(line) => {
                out.push(line);
                assert(texts(out@) =~= before + row_entries(fields@[i as int]@, *style));
            },
            None => {
                assert(texts(out@) =~= before + row_entries(fields@[i as int]@, *style));
            },
        }
        i = i + 1;
        assert(texts(out@) =~= texts(old(out)@) + shown(all.take(i as int), *style));
    }
    assert(all.take(fields.len() as int) =~= all);
}

/// All that is written for `el` in the given style: the title, an entry for
/// each property that the element has, and an empty entry. An element
/// without a name or without a symbol has no title, and is not rendered.
pub fn render(el: &Element, style: &Style) -> (r: Result<Vec<String>, RenderError>)
    ensures
        is_rendering(r, rendering(*el, *style)),
{
    let name = match &el.name {
        Some(s) => s,
        None => {
            return Err(RenderError::MissingName);
        },
    };
    let symbol = match &el.symbol {
        Some(s) => s,
        None => {
            return Err(RenderError::MissingSymbol);
        },
    };
    let mut out: Vec<String> = Vec::new();
    out.push(title_line(name.as_str(), symbol.as_str(), style));
    let ghost head = texts(out@);
    assert(head =~= seq![title(name@, symbol@, *style)]);
    let all = fields(el);
    show_fields(&mut out, &all, style);
    let ghost body = texts(out@);
    assert(body == head + shown(rows(*el), *style));
    out.push(String::new());
    assert(texts(out@) =~= body + seq![Seq::<char>::empty()]);
    Ok(out)
}

/// All that is written for `el`, for a terminal where `use_colors` is set
/// and undecorated where it is not.
pub fn show_info(el: &Element, use_colors: bool) -> (r: Result<Vec<String>, RenderError>)
    ensures
        exists|style: Style|
            {
                &&& use_colors ==> style.is_terminal()
                &&& !use_colors ==> style.is_plain()
                &&& #[trigger] is_rendering(r, rendering(*el, style))
            },
{
    let style = Style::of(use_colors);
    render(el, &style)
}

/// A property that is not there shows as nothing: the entries are those of
/// the rows without it.
pub proof fn lemma_absent_field_omitted(rows: Seq<Row>, k: int, style: Style)
    requires
        0 <= k < rows.len(),
        rows[k].value is None,
    ensures
        shown(rows, style) == shown(rows.remove(k), style),
    decreases rows.len(),
{
    if k == rows.len() - 1 {
        assert(rows.remove(k) =~= rows.drop_last());
        assert(shown(rows, style) =~= shown(rows.drop_last(), style));
    } else {
        lemma_absent_field_omitted(rows.drop_last(), k, style);
        assert(rows.remove(k).drop_last() =~= rows.drop_last().remove(k));
        assert(rows.remove(k).last() == rows.last());
    }
}

/// There are as many entries as there are properties that are there, and
/// none where there is none.
pub proof fn lemma_shown_len(rows: Seq<Row>, style: Style)
    ensures
        shown(rows, style).len() == rows.filter(|r: Row| r.value is Some).len(),
    decreases rows.len(),
{
    reveal(Seq::filter);
    if rows.len() > 0 {
        lemma_shown_len(rows.drop_last(), style);
    }
}

} // verus!
