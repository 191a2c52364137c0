use mtg_formatter::{format_records, join_lines, MtgRecord};

fn card(quantity: &str, name: &str, edition: &str, foil: Option<&str>) -> MtgRecord {
    MtgRecord {
        quantity: quantity.to_string(),
        name: name.to_string(),
        edition: edition.to_string(),
        foil: foil.map(|marker| marker.to_string()),
    }
}

#[test]
fn plain_card_has_the_base_line_only() {
    let record = card("1", "Sol Ring", "C21", None);
    assert_eq!(record.archidekt_txt(None), "1 Sol Ring (C21)");
}

#[test]
fn foil_card_gets_the_foil_mark() {
    let record = card("1", "Sol Ring", "C21", Some("foil"));
    assert_eq!(record.archidekt_txt(None), "1 Sol Ring (C21) *F*");
}

#[test]
fn any_foil_marker_counts_as_foil() {
    for marker in ["foil", "1", "x", "etched", " "] {
        let record = card("4", "Island", "UNF", Some(marker));
        assert_eq!(record.archidekt_txt(None), "4 Island (UNF) *F*");
    }
}

#[test]
fn empty_foil_marker_is_no_foil() {
    let record = card("1", "Sol Ring", "C21", Some(""));
    assert_eq!(record.archidekt_txt(None), "1 Sol Ring (C21)");
    assert_eq!(
        record.archidekt_txt(Some("Sol Ring")),
        "1 Sol Ring (C21) [Commander{top}]"
    );
    assert_eq!(
        format_records(vec![record], None),
        vec!["1 Sol Ring (C21)".to_string()]
    );
}

#[test]
fn commander_gets_the_commander_mark() {
    let record = card("1", "Sol Ring", "C21", None);
    assert_eq!(
        record.archidekt_txt(Some("Sol Ring")),
        "1 Sol Ring (C21) [Commander{top}]"
    );
}

#[test]
fn foil_commander_gets_both_marks_foil_first() {
    let record = card("1", "Sol Ring", "C21", Some("foil"));
    assert_eq!(
        record.archidekt_txt(Some("Sol Ring")),
        "1 Sol Ring (C21) *F* [Commander{top}]"
    );
}

#[test]
fn commander_name_is_matched_exactly() {
    let record = card("1", "Sol Ring", "C21", None);
    for other in ["sol ring", "Sol Ring ", " Sol Ring", "Sol", "", "Sol  Ring"] {
        assert_eq!(record.archidekt_txt(Some(other)), "1 Sol Ring (C21)");
    }
}

#[test]
fn quantity_is_kept_as_text() {
    let record = card("2x", "Lim-Dûl's Vault", "ALL", None);
    assert_eq!(record.archidekt_txt(None), "2x Lim-Dûl's Vault (ALL)");
}

#[test]
fn empty_fields_still_give_the_punctuation() {
    let record = card("", "", "", None);
    assert_eq!(record.archidekt_txt(None), "  ()");
    assert_eq!(record.archidekt_txt(Some("")), "  () [Commander{top}]");
}

#[test]
fn records_are_formatted_in_order() {
    let records = vec![
        card("1", "Sol Ring", "C21", None),
        card("3", "Forest", "M21", Some("foil")),
        card("1", "Atraxa, Praetors' Voice", "C16", None),
    ];
    let lines = format_records(records, Some("Atraxa, Praetors' Voice"));
    assert_eq!(
        lines,
        vec![
            "1 Sol Ring (C21)".to_string(),
            "3 Forest (M21) *F*".to_string(),
            "1 Atraxa, Praetors' Voice (C16) [Commander{top}]".to_string(),
        ]
    );
}

#[test]
fn no_records_give_no_lines() {
    assert_eq!(format_records(Vec::new(), Some("Sol Ring")), Vec::<String>::new());
}

#[test]
fn every_card_of_the_commanders_name_is_marked() {
    let records = vec![
        card("1", "Sol Ring", "C21", None),
        card("1", "Sol Ring", "CMR", Some("foil")),
    ];
    let lines = format_records(records, Some("Sol Ring"));
    assert_eq!(lines[0], "1 Sol Ring (C21) [Commander{top}]");
    assert_eq!(lines[1], "1 Sol Ring (CMR) *F* [Commander{top}]");
}

#[test]
fn unmatched_commander_changes_no_line() {
    let records = vec![
        card("1", "Sol Ring", "C21", None),
        card("3", "Forest", "M21", Some("foil")),
    ];
    let with = format_records(records.clone(), Some("Black Lotus"));
    let without = format_records(records, None);
    assert_eq!(with, without);
}

#[test]
fn formatting_twice_gives_the_same_lines() {
    let records = vec![
        card("1", "Sol Ring", "C21", None),
        card("3", "Forest", "M21", Some("foil")),
    ];
    let first = format_records(records.clone(), Some("Forest"));
    let second = format_records(records, Some("Forest"));
    assert_eq!(first, second);
    assert_eq!(join_lines(&first), join_lines(&second));
}

#[test]
fn lines_are_joined_by_single_line_feeds() {
    let lines = vec!["a".to_string(), "b".to_string(), "c".to_string()];
    assert_eq!(join_lines(&lines), "a\nb\nc");
}

#[test]
fn one_line_is_joined_to_itself() {
    assert_eq!(join_lines(&vec!["1 Sol Ring (C21)".to_string()]), "1 Sol Ring (C21)");
}

#[test]
fn no_lines_are_joined_to_the_empty_text() {
    assert_eq!(join_lines(&Vec::new()), "");
}

#[test]
fn empty_lines_are_kept_when_joining() {
    let lines = vec!["".to_string(), "".to_string()];
    assert_eq!(join_lines(&lines), "\n");
}
