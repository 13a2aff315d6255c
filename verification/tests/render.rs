use periodic_table::element::Element;
use periodic_table::render::{
    field_line, fields, join, label_line, numeral_list, pad, render, show_fields, show_info,
    title_line, Case, Field, RenderError, MAX_WIDTH,
};
use periodic_table::style::Style;

fn text(s: &str) -> Option<String> {
    Some(s.to_string())
}

fn hydrogen() -> Element {
    Element {
        name: text("Hydrogen"),
        symbol: text("H"),
        number: Some(1),
        period: Some(1),
        category: text("diatomic nonmetal"),
        appearance: text("colorless gas"),
        atomic_mass: text("1.008"),
        phase: text("Gas"),
        color: text("pale blue"),
        shells: Some(vec![1]),
        ionization_energies: Some(vec!["1312".to_string()]),
        xpos: Some(1),
        ypos: Some(1),
        ..Element::default()
    }
}

fn brackets() -> Style {
    Style {
        title_on: "<t>".to_string(),
        title_off: "</t>".to_string(),
        label_on: "<l>".to_string(),
        label_off: "</l>".to_string(),
    }
}

#[test]
fn plain_rendering_of_an_element() {
    let lines = render(&hydrogen(), &Style::plain()).unwrap();
    assert_eq!(
        lines,
        vec![
            "\nHydrogen (H)\n",
            "Atomic Number: 1",
            "Period Number: 1",
            "Category: Diatomic Nonmetal",
            "Appearance: Colorless gas",
            "Atomic Mass: 1.008",
            "Phase: Gas",
            "Color: Pale Blue",
            "Shells: 1",
            "Ionization Energies: 1312",
            "X Pos: 1",
            "Y Pos: 1",
            "",
        ]
    );
}

#[test]
fn show_info_without_colors_is_plain() {
    assert_eq!(show_info(&hydrogen(), false), render(&hydrogen(), &Style::plain()));
}

#[test]
fn styled_rendering_decorates_title_and_labels() {
    let el = Element { name: text("Iron"), symbol: text("Fe"), number: Some(26), ..Element::default() };
    let lines = render(&el, &brackets()).unwrap();
    assert_eq!(lines, vec!["\n<t>Iron (Fe)</t>\n", "<l>Atomic Number</l>: 26", ""]);
}

#[test]
fn absent_fields_give_no_entry() {
    let el = Element { name: text("Iron"), symbol: text("Fe"), ..Element::default() };
    assert_eq!(render(&el, &Style::plain()).unwrap(), vec!["\nIron (Fe)\n", ""]);
    let lines = render(&hydrogen(), &Style::plain()).unwrap();
    for label in ["Summary", "Discovered By", "Named By", "Density", "Molar Heat", "Source"] {
        assert!(lines.iter().all(|line| !line.starts_with(label)));
    }
    assert_eq!(lines.len(), 13);
}

#[test]
fn every_field_present_gives_every_entry() {
    let el = Element {
        name: text("N"),
        appearance: text("a"),
        phase: text("b"),
        source: text("c"),
        spectral_img: text("d"),
        summary: text("e"),
        symbol: text("S"),
        category: text("f"),
        discovered_by: text("g"),
        color: text("h"),
        named_by: text("i"),
        electron_configuration: text("j"),
        atomic_mass: text("1.5"),
        boil: text("2.5"),
        density: text("3.5"),
        melt: text("4.5"),
        molar_heat: text("5.5"),
        electron_affinity: text("6.5"),
        electronegativity_pauling: text("7.5"),
        number: Some(1),
        period: Some(2),
        xpos: Some(3),
        ypos: Some(4),
        ionization_energies: Some(vec!["8.5".to_string(), "9.5".to_string()]),
        shells: Some(vec![2, 8, 1]),
    };
    assert_eq!(
        render(&el, &Style::plain()).unwrap(),
        vec![
            "\nN (S)\n",
            "Atomic Number: 1",
            "Period Number: 2",
            "Category: F",
            "Summary: e",
            "Discovered By: g",
            "Named By: i",
            "Appearance: A",
            "Atomic Mass: 1.5",
            "Phase: b",
            "Density: 3.5",
            "Color: H",
            "Molar Heat: 5.5",
            "Melting Point: 4.5",
            "Boiling Point: 2.5",
            "Shells: 2, 8, 1",
            "Electron Configuration: j",
            "Electron Affinity: 6.5",
            "Electronegativity Pauling: 7.5",
            "Ionization Energies: 8.5, 9.5",
            "X Pos: 3",
            "Y Pos: 4",
            "Source: c",
            "Spectral Image: d",
            "",
        ]
    );
}

#[test]
fn element_without_name_or_symbol_is_not_rendered() {
    let nameless = Element { symbol: text("Fe"), ..Element::default() };
    assert_eq!(render(&nameless, &Style::plain()), Err(RenderError::MissingName));
    assert_eq!(render(&Element::default(), &Style::plain()), Err(RenderError::MissingName));
    let unsigned = Element { name: text("Iron"), ..Element::default() };
    assert_eq!(render(&unsigned, &Style::plain()), Err(RenderError::MissingSymbol));
    assert_eq!(show_info(&unsigned, true), Err(RenderError::MissingSymbol));
}

#[test]
fn long_text_is_wrapped_and_indented_under_itself() {
    assert_eq!(MAX_WIDTH, 80);
    let first = "a".repeat(70);
    let second = "b".repeat(20);
    let value = format!("{} {}", first, second);
    let line = field_line("Summary", Some(&value), Case::Plain, &Style::plain()).unwrap();
    assert_eq!(line, format!("Summary: {}\n         {}", first, second));
}

#[test]
fn wrapped_lines_keep_within_the_width() {
    let value = "Hydrogen is a chemical element with chemical symbol H and atomic number 1. \
                 With an atomic weight of 1.00794 u, hydrogen is the lightest element on the \
                 periodic table.";
    let line = field_line("Summary", Some(value), Case::Plain, &Style::plain()).unwrap();
    let body = line.strip_prefix("Summary: ").unwrap();
    let rows: Vec<&str> = body.split('\n').collect();
    assert!(rows.len() >= 2);
    assert!(rows[0].len() <= MAX_WIDTH);
    for row in &rows[1..] {
        let rest = row.strip_prefix("         ").unwrap();
        assert!(!rest.starts_with(' '));
        assert!(rest.len() <= MAX_WIDTH);
    }
    let words: Vec<&str> = body.split_whitespace().collect();
    assert_eq!(words.join(" "), value);
}

#[test]
fn field_line_cases_the_value() {
    let plain = Style::plain();
    assert_eq!(field_line("Category", Some("noble gas"), Case::Title, &plain).unwrap(), "Category: Noble Gas");
    assert_eq!(field_line("Category", Some("noble gas"), Case::Sentence, &plain).unwrap(), "Category: Noble gas");
    assert_eq!(field_line("Category", Some("noble gas"), Case::Plain, &plain).unwrap(), "Category: noble gas");
    assert_eq!(field_line("Color", Some("silveryWhite"), Case::Title, &plain).unwrap(), "Color: Silvery White");
    assert_eq!(field_line("Appearance", Some("SILVERY_white"), Case::Sentence, &plain).unwrap(), "Appearance: Silvery white");
}

#[test]
fn field_line_of_an_absent_value_is_none() {
    assert_eq!(field_line("Category", None, Case::Title, &Style::plain()), None);
    assert_eq!(field_line("Category", None, Case::Plain, &brackets()), None);
}

#[test]
fn label_line_trims_the_body() {
    assert_eq!(label_line("Phase", "   Gas \n", &Style::plain()), "Phase: Gas");
    assert_eq!(label_line("Phase", "Gas", &brackets()), "<l>Phase</l>: Gas");
    assert_eq!(label_line("Phase", "  ", &Style::plain()), "Phase: ");
}

#[test]
fn title_line_holds_name_and_symbol() {
    assert_eq!(title_line("Iron", "Fe", &Style::plain()), "\nIron (Fe)\n");
    assert_eq!(title_line("Iron", "Fe", &brackets()), "\n<t>Iron (Fe)</t>\n");
}

#[test]
fn pad_is_as_wide_as_label_colon_and_space() {
    assert_eq!(pad(""), "  ");
    assert_eq!(pad("X Pos"), "       ");
    assert_eq!(pad("Électron"), " ".repeat(11));
}

#[test]
fn join_puts_the_separator_between_items() {
    assert_eq!(join(&Vec::new(), ", "), "");
    assert_eq!(join(&vec!["a".to_string()], ", "), "a");
    assert_eq!(join(&vec!["a".to_string(), "b".to_string(), "c".to_string()], ", "), "a, b, c");
}

#[test]
fn numeral_list_writes_each_number() {
    assert_eq!(numeral_list(&vec![2, 8, 18, 32, 0]), vec!["2", "8", "18", "32", "0"]);
    assert_eq!(numeral_list(&Vec::new()), Vec::<String>::new());
}

#[test]
fn fields_come_in_the_order_shown() {
    let all = fields(&hydrogen());
    assert_eq!(all.len(), 23);
    let labels: Vec<&str> = all.iter().map(|f| f.label).collect();
    assert_eq!(
        labels,
        vec![
            "Atomic Number",
            "Period Number",
            "Category",
            "Summary",
            "Discovered By",
            "Named By",
            "Appearance",
            "Atomic Mass",
            "Phase",
            "Density",
            "Color",
            "Molar Heat",
            "Melting Point",
            "Boiling Point",
            "Shells",
            "Electron Configuration",
            "Electron Affinity",
            "Electronegativity Pauling",
            "Ionization Energies",
            "X Pos",
            "Y Pos",
            "Source",
            "Spectral Image",
        ]
    );
    assert_eq!(all[0], Field { label: "Atomic Number", value: text("1"), case: Case::Plain });
    assert_eq!(all[2], Field { label: "Category", value: text("diatomic nonmetal"), case: Case::Title });
    assert_eq!(all[3], Field { label: "Summary", value: None, case: Case::Plain });
    assert_eq!(all[6].case, Case::Sentence);
    assert_eq!(all[10].case, Case::Title);
}

#[test]
fn show_fields_adds_to_what_is_there() {
    let mut out = vec!["first".to_string()];
    let list = vec![
        Field { label: "A", value: text("1"), case: Case::Plain },
        Field { label: "B", value: None, case: Case::Plain },
        Field { label: "C", value: text("three"), case: Case::Title },
    ];
    show_fields(&mut out, &list, &Style::plain());
    assert_eq!(out, vec!["first", "A: 1", "C: Three"]);
}

#[test]
fn plain_style_is_empty() {
    assert_eq!(Style::plain(), Style::default());
    assert_eq!(Style::of(false), Style::plain());
}

#[test]
fn terminal_style_holds_escape_sequences() {
    let style = Style::terminal();
    assert!(style.title_on == "\u{1b}[1m\u{1b}[38;5;6m" || style.title_on == "\u{1b}[1m");
    assert_eq!(style.title_off, "\u{1b}[39m\u{1b}[m");
    assert!(style.label_on == "\u{1b}[38;5;4m" || style.label_on.is_empty());
    assert_eq!(style.label_off, "\u{1b}[39m");
    assert_eq!(Style::of(true), style);
}

#[test]
fn show_info_with_colors_resets_after_each_label() {
    let el = Element { name: text("Iron"), symbol: text("Fe"), number: Some(26), ..Element::default() };
    let lines = show_info(&el, true).unwrap();
    assert_eq!(lines.len(), 3);
    assert!(lines[0].starts_with("\n\u{1b}[1m"));
    assert!(lines[0].ends_with("Iron (Fe)\u{1b}[39m\u{1b}[m\n"));
    assert!(lines[1].ends_with("Atomic Number\u{1b}[39m: 26"));
    assert_eq!(lines[2], "");
}
