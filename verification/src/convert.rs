//! The whole conversion: from the text of a listing to the text of its deck
//! list.

use vstd::prelude::*;
use crate::format::{format_lines, format_records, lemma_unmatched_commander};
use crate::header::has_header_line;
use crate::output::{join_lines, joined, lemma_one_line_per_record, line_count};
use crate::parse::{
    ParseError, decode_rows, is_first_fault, lemma_decode_rows, parse_csv, record_of, row_fault,
};
use crate::reader::csv_rows;

verus! {

/// The deck list of the rows that a reader yields: the lines of their cards,
/// joined, or the fault of the first row that has one.
pub open spec fn deck_list(rows: Seq<Option<Seq<Seq<char>>>>, commander: Option<Seq<char>>) -> Result<
    Seq<char>,
    ParseError,
> {
    match decode_rows(rows) {
        Ok(records) => Ok(joined(format_lines(records, commander))),
        Err(fault) => Err(fault),
    }
}

/// The mathematical content of what [`convert`] returns.
pub open spec fn converted_view(result: Result<String, ParseError>) -> Result<
    Seq<char>,
    ParseError,
> {
    match result {
        Ok(text) => Ok(text@),
        Err(fault) => Err(fault),
    }
}

/// Converts the text of a listing into the text of its deck list.
///
/// The listing is parsed as [`parse_csv`] does, each card becomes one line,
/// and the lines are joined by line feeds. A listing with a faulty row gives
/// no text at all.
pub fn convert(text: &str, commander_name: Option<&str>) -> (result: Result<String, ParseError>)
    ensures
        converted_view(result) == deck_list(
            csv_rows(text@, has_header_line(text@)),
            commander_name.deep_view(),
        ),
{
    match parse_csv(text) {
        Err(fault) => Err(fault),
        Ok(records) => {
            let lines = format_records(records, commander_name);
            Ok(join_lines(&lines))
        },
    }
}

/// A listing of `n` rows without a fault, none of whose quantity, name or
/// edition fields holds a line feed, becomes a deck list of exactly `n` lines.
pub proof fn lemma_one_line_per_row(rows: Seq<Option<Seq<Seq<char>>>>, commander: Option<Seq<char>>)
    requires
        forall|i: int|
            0 <= i < rows.len() ==> row_fault(#[trigger] rows[i], i) is None && record_of(
                rows[i]->Some_0,
            ).single_line(),
    ensures
        deck_list(rows, commander) is Ok,
        line_count(deck_list(rows, commander)->Ok_0) == rows.len(),
{
    lemma_decode_rows(rows);
    match decode_rows(rows) {
        Ok(records) => {
            assert forall|i: int| 0 <= i < records.len() implies (
            #[trigger] records[i]).single_line() by {
                assert(row_fault(rows[i], i) is None);
            }
            lemma_one_line_per_record(records, commander);
        },
        Err(fault) => {
            let i = choose|i: int|
                is_first_fault(rows, i) && row_fault(#[trigger] rows[i], i) == Some(
                    fault,
                );
            assert(row_fault(rows[i], i) is None);
        },
    }
}

/// A listing gives no deck list exactly when one of its rows has a fault.
pub proof fn lemma_fault_gives_no_deck_list(
    rows: Seq<Option<Seq<Seq<char>>>>,
    commander: Option<Seq<char>>,
)
    ensures
        deck_list(rows, commander) is Err <==> exists|i: int|
            0 <= i < rows.len() && row_fault(#[trigger] rows[i], i) is Some,
{
    lemma_decode_rows(rows);
    match decode_rows(rows) {
        Ok(records) => {},
        Err(fault) => {
            let i = choose|i: int|
                is_first_fault(rows, i) && row_fault(#[trigger] rows[i], i) == Some(
                    fault,
                );
            assert(0 <= i < rows.len() && row_fault(rows[i], i) is Some);
        },
    }
}

/// With a commander name that is the name of no card of the listing, the deck
/// list is the one made without a commander name.
pub proof fn lemma_unmatched_commander_deck_list(
    rows: Seq<Option<Seq<Seq<char>>>>,
    commander: Seq<char>,
)
    requires
        forall|i: int|
            0 <= i < rows.len() && row_fault(#[trigger] rows[i], i) is None ==> record_of(
                rows[i]->Some_0,
            ).name != commander,
    ensures
        deck_list(rows, Some(commander)) == deck_list(rows, None),
{
    lemma_decode_rows(rows);
    match decode_rows(rows) {
        Ok(records) => {
            assert forall|i: int| 0 <= i < records.len() implies (#[trigger] records[i]).name
                != commander by {
                assert(row_fault(rows[i], i) is None);
            }
            lemma_unmatched_commander(records, commander);
        },
        Err(fault) => {},
    }
}

/// Converting the same listing with the same commander name twice gives the
/// same outcome both times.
pub proof fn lemma_conversion_repeats(
    text: Seq<char>,
    commander: Option<Seq<char>>,
    first: Result<Seq<char>, ParseError>,
    second: Result<Seq<char>, ParseError>,
)
    requires
        first == deck_list(csv_rows(text, has_header_line(text)), commander),
        second == deck_list(csv_rows(text, has_header_line(text)), commander),
    ensures
        first == second,
{
}

} // verus!
