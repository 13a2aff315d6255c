use periodic_table::element::{is_well_formed, Element};
use periodic_table::matcher::{
    find_element, find_index, find_name, find_number, find_symbol, normalize, MAX_DISTANCE,
};

fn element(name: &str, symbol: &str, number: u32) -> Element {
    Element {
        name: Some(name.to_string()),
        symbol: Some(symbol.to_string()),
        number: Some(number),
        ..Element::default()
    }
}

fn table() -> Vec<Element> {
    vec![
        element("Hydrogen", "H", 1),
        element("Helium", "He", 2),
        element("Carbon", "C", 6),
        element("Oxygen", "O", 8),
        element("Iron", "Fe", 26),
        element("Tin", "Sn", 50),
        element("Oganesson", "Og", 118),
    ]
}

fn name_of(found: Option<Element>) -> Option<String> {
    found.and_then(|el| el.name)
}

fn resolve(query: &str) -> Option<String> {
    name_of(find_element(table(), query.to_string()))
}

#[test]
fn exact_number_match_for_every_element() {
    for el in table() {
        let query = el.number.unwrap().to_string();
        assert_eq!(find_element(table(), query), Some(el));
    }
}

#[test]
fn unknown_number_finds_nothing() {
    assert_eq!(find_element(table(), "9999".to_string()), None);
}

#[test]
fn symbol_match_ignores_case() {
    assert_eq!(resolve("fe"), Some("Iron".to_string()));
    assert_eq!(resolve("Fe"), Some("Iron".to_string()));
    assert_eq!(resolve("FE"), Some("Iron".to_string()));
}

#[test]
fn name_match_ignores_case() {
    assert_eq!(resolve("oxygen"), Some("Oxygen".to_string()));
    assert_eq!(resolve("OXYGEN"), Some("Oxygen".to_string()));
    assert_eq!(resolve("Oxygen"), Some("Oxygen".to_string()));
}

#[test]
fn close_name_is_taken() {
    assert_eq!(resolve("carbn"), Some("Carbon".to_string()));
    assert_eq!(resolve("Carbn"), Some("Carbon".to_string()));
}

#[test]
fn name_at_distance_three_is_taken() {
    assert_eq!(MAX_DISTANCE, 3);
    assert_eq!(resolve("oxyxxx"), Some("Oxygen".to_string()));
}

#[test]
fn name_at_distance_four_is_not_taken() {
    let els = vec![element("Oganesson", "Og", 118)];
    assert_eq!(find_element(els, "oganxxxxn".to_string()), None);
}

#[test]
fn far_query_finds_nothing() {
    assert_eq!(resolve("zzzzzzzzzz"), None);
    assert_eq!(resolve("qwrtypsdfg"), None);
}

#[test]
fn numeric_query_never_falls_back_to_names() {
    assert_eq!(resolve("8"), Some("Oxygen".to_string()));
    let els = vec![element("8", "Ei", 99), element("Tin", "Sn", 50)];
    assert_eq!(find_element(els.clone(), "8".to_string()), None);
    assert_eq!(find_element(els, "7".to_string()), None);
}

#[test]
fn numeric_query_is_trimmed_and_may_carry_a_plus() {
    assert_eq!(resolve("  26 "), Some("Iron".to_string()));
    assert_eq!(resolve("+8"), Some("Oxygen".to_string()));
    assert_eq!(resolve("008"), Some("Oxygen".to_string()));
}

#[test]
fn zero_is_matched_as_text() {
    let els = vec![element("Nought", "0", 7), element("Tin", "Sn", 50)];
    assert_eq!(name_of(find_element(els, "0".to_string())), Some("Nought".to_string()));
    assert_eq!(resolve("0"), Some("Tin".to_string()));
}

#[test]
fn numeral_beyond_32_bits_is_matched_as_text() {
    assert_eq!(resolve("4294967296"), None);
    let els = vec![element("4294967296", "Big", 1)];
    assert_eq!(name_of(find_element(els, "4294967296".to_string())), Some("4294967296".to_string()));
}

#[test]
fn same_query_same_answer() {
    for query in ["fe", "8", "carbn", "zzzzzzzzzz", ""] {
        let first = find_element(table(), query.to_string());
        let second = find_element(table(), query.to_string());
        assert_eq!(first, second);
    }
}

#[test]
fn query_is_trimmed_before_matching() {
    assert_eq!(resolve("  fe\t"), Some("Iron".to_string()));
    assert_eq!(resolve("\n helium \n"), Some("Helium".to_string()));
}

#[test]
fn symbol_is_tried_before_any_name() {
    let els = vec![element("He", "X", 1), element("Helium", "He", 2)];
    assert_eq!(name_of(find_element(els, "he".to_string())), Some("Helium".to_string()));
}

#[test]
fn exact_name_is_tried_before_close_names() {
    let els = vec![element("Tina", "A", 1), element("Tin", "Sn", 50)];
    assert_eq!(name_of(find_element(els, "tin".to_string())), Some("Tin".to_string()));
}

#[test]
fn first_of_equally_close_names_is_taken() {
    let els = vec![element("Aa", "X", 1), element("Ab", "Y", 2)];
    assert_eq!(name_of(find_element(els, "ac".to_string())), Some("Aa".to_string()));
    let els = vec![element("Abcd", "X", 1), element("Ab", "Y", 2), element("Ac", "Z", 3)];
    assert_eq!(name_of(find_element(els, "ad".to_string())), Some("Ab".to_string()));
}

#[test]
fn symbols_are_not_matched_loosely() {
    let els = vec![Element { symbol: Some("Fe".to_string()), number: Some(26), ..Element::default() }];
    assert_eq!(find_element(els.clone(), "fx".to_string()), None);
    assert_eq!(find_element(els, "fe".to_string()).unwrap().number, Some(26));
}

#[test]
fn elements_without_fields_are_passed_over() {
    let els = vec![Element::default(), element("Iron", "Fe", 26)];
    assert_eq!(find_index(&els, "26"), Some(1));
    assert_eq!(find_index(&els, "fe"), Some(1));
    assert_eq!(find_index(&els, "iron"), Some(1));
    assert_eq!(find_index(&els, "irn"), Some(1));
    assert_eq!(find_index(&vec![Element::default()], "irn"), None);
    assert_eq!(find_index(&Vec::new(), "irn"), None);
}

#[test]
fn letters_outside_ascii_are_folded() {
    let els = vec![element("Étain", "Sn", 50)];
    assert_eq!(find_index(&els, "éTAIN"), Some(0));
    assert_eq!(find_index(&els, "ÉTAIN"), Some(0));
}

#[test]
fn find_index_gives_the_place() {
    let els = table();
    assert_eq!(find_index(&els, "h"), Some(0));
    assert_eq!(find_index(&els, "118"), Some(6));
    assert_eq!(find_index(&els, "tin"), Some(5));
    assert_eq!(find_index(&els, "9999"), None);
}

#[test]
fn searches_by_one_key() {
    let els = table();
    assert_eq!(find_number(&els, 6), Some(2));
    assert_eq!(find_number(&els, 7), None);
    assert_eq!(find_symbol(&els, &"sn".to_string()), Some(5));
    assert_eq!(find_symbol(&els, &"Sn".to_string()), None);
    assert_eq!(find_name(&els, &"helium".to_string()), Some(1));
    assert_eq!(find_name(&els, &"heliun".to_string()), Some(1));
    assert_eq!(find_name(&els, &"zzzzzzzzzz".to_string()), None);
}

#[test]
fn first_of_two_with_one_number_is_found() {
    let els = vec![element("A", "A", 5), element("B", "B", 5)];
    assert_eq!(find_number(&els, 5), Some(0));
    assert!(!is_well_formed(&els));
}

#[test]
fn normalize_trims_and_folds() {
    assert_eq!(normalize("  Fe "), "fe");
    assert_eq!(normalize("OXYGEN"), "oxygen");
    assert_eq!(normalize("   "), "");
    assert_eq!(normalize("a B"), "a b");
}

#[test]
fn table_with_distinct_elements_is_well_formed() {
    assert!(is_well_formed(&table()));
    assert!(is_well_formed(&Vec::new()));
    assert!(is_well_formed(&vec![Element::default(), Element::default()]));
}

#[test]
fn table_with_a_clash_is_not_well_formed() {
    assert!(!is_well_formed(&vec![element("A", "A", 0)]));
    assert!(!is_well_formed(&vec![element("A", "A", 1), element("B", "B", 1)]));
    assert!(!is_well_formed(&vec![element("Iron", "A", 1), element("IRON", "B", 2)]));
    assert!(!is_well_formed(&vec![element("A", "Fe", 1), element("B", "FE", 2)]));
    assert!(is_well_formed(&vec![element("A", "Fe", 1), element("Fe", "A", 2)]));
}
