use mtg_formatter::{convert, format_records, join_lines, parse_csv, ParseError};

const HEADED: &str = "QuantityX,Name,Edition code,Foil\n1,Sol Ring,C21,\n";

#[test]
fn headed_row_becomes_its_line() {
    assert_eq!(convert(HEADED, None), Ok("1 Sol Ring (C21)".to_string()));
}

#[test]
fn headed_foil_row_becomes_its_line() {
    for marker in ["foil", "1", "yes"] {
        let text = format!("QuantityX,Name,Edition code,Foil\n1,Sol Ring,C21,{}\n", marker);
        assert_eq!(convert(&text, None), Ok("1 Sol Ring (C21) *F*".to_string()));
    }
}

#[test]
fn headed_commander_row_becomes_its_line() {
    assert_eq!(
        convert(HEADED, Some("Sol Ring")),
        Ok("1 Sol Ring (C21) [Commander{top}]".to_string())
    );
    let foil = "QuantityX,Name,Edition code,Foil\n1,Sol Ring,C21,foil\n";
    assert_eq!(
        convert(foil, Some("Sol Ring")),
        Ok("1 Sol Ring (C21) *F* [Commander{top}]".to_string())
    );
}

#[test]
fn unmatched_commander_gives_the_plain_deck_list() {
    let text = "QuantityX,Name,Edition code,Foil\n1,Sol Ring,C21,\n3,Forest,M21,foil\n";
    assert_eq!(convert(text, Some("Black Lotus")), convert(text, None));
    assert_eq!(convert(text, Some("sol ring")), convert(text, None));
}

#[test]
fn converting_twice_gives_the_same_text() {
    let text = "QuantityX,Name,Edition code,Foil\n1,Sol Ring,C21,\n3,Forest,M21,foil\n";
    assert_eq!(convert(text, Some("Forest")), convert(text, Some("Forest")));
}

#[test]
fn headerless_listing_gives_the_same_deck_list() {
    let body = "1,Sol Ring,C21,\n3,Forest,M21,foil\n1,\"Atraxa, Praetors' Voice\",C16,\n";
    let headed = format!("QuantityX,Name,Edition code,Foil\n{}", body);
    let expected = "1 Sol Ring (C21)\n3 Forest (M21) *F*\n1 Atraxa, Praetors' Voice (C16) [Commander{top}]";
    assert_eq!(convert(body, Some("Atraxa, Praetors' Voice")), Ok(expected.to_string()));
    assert_eq!(convert(&headed, Some("Atraxa, Praetors' Voice")), Ok(expected.to_string()));
}

#[test]
fn deck_list_has_one_line_for_each_row() {
    let mut text = String::from("QuantityX,Name,Edition code,Foil\n");
    for n in 0..25 {
        text.push_str(&format!("{},Card {},SET,\n", n + 1, n));
        let deck = convert(&text, None).unwrap();
        assert_eq!(deck.lines().count(), n + 1);
        assert_eq!(deck.matches('\n').count(), n);
        assert!(!deck.ends_with('\n'));
    }
}

#[test]
fn empty_listing_gives_an_empty_deck_list() {
    assert_eq!(convert("", None), Ok(String::new()));
    assert_eq!(convert("QuantityX,Name,Edition code,Foil\n", Some("Sol Ring")), Ok(String::new()));
}

#[test]
fn row_of_three_columns_gives_no_deck_list() {
    let headed = "QuantityX,Name,Edition code,Foil\n1,Sol Ring,C21,\n1,Forest,M21\n";
    assert_eq!(convert(headed, None), Err(ParseError::Malformed { row: 1 }));
    let bare = "1,Sol Ring,C21\n";
    assert_eq!(convert(bare, None), Err(ParseError::ColumnCount { row: 0, found: 3 }));
}

#[test]
fn conversion_is_parsing_formatting_and_joining() {
    let text = "QuantityX,Name,Edition code,Foil\n1,Sol Ring,C21,\n3,Forest,M21,foil\n";
    let records = parse_csv(text).unwrap();
    let lines = format_records(records, Some("Forest"));
    assert_eq!(convert(text, Some("Forest")), Ok(join_lines(&lines)));
}

#[test]
fn line_feed_inside_a_name_splits_its_line() {
    let deck = convert("1,\"Sol\nRing\",C21,\n", None).unwrap();
    assert_eq!(deck, "1 Sol\nRing (C21)");
    assert_eq!(deck.lines().count(), 2);
}
