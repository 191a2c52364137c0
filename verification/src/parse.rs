//! Parsing a listing into card records.

use vstd::prelude::*;
use crate::header::{has_header, has_header_line};
use crate::reader::{csv_rows, next_row, open_reader, pending_rows};
use crate::record::{MtgRecord, RecordView};

verus! {

/// Why a listing could not be parsed. `row` counts the data rows from 0; the
/// header line, where there is one, is not counted.
#[derive(Clone, Copy, Debug, PartialEq, Eq)]
pub enum ParseError {
    /// The reader could not make out data row `row`.
    Malformed { row: usize },
    /// Data row `row` has `found` columns; a card has four.
    ColumnCount { row: usize, found: usize },
}

/// The card that the four fields of a row stand for, column by column:
/// quantity, name, edition code, foil marker. An empty foil marker is an
/// absent one.
pub open spec fn record_of(fields: Seq<Seq<char>>) -> RecordView
    recommends
        fields.len() == 4,
{
    RecordView {
        quantity: fields[0],
        name: fields[1],
        edition: fields[2],
        foil: if fields[3].len() == 0 {
            None
        } else {
            Some(fields[3])
        },
    }
}

/// What is wrong with data row `index`, if anything: the reader reported an
/// error on it, or it does not have four columns.
pub open spec fn row_fault(row: Option<Seq<Seq<char>>>, index: int) -> Option<ParseError> {
    match row {
        None => Some(ParseError::Malformed { row: index as usize }),
        Some(fields) => if fields.len() == 4 {
            None
        } else {
            Some(ParseError::ColumnCount { row: index as usize, found: fields.len() as usize })
        },
    }
}

/// The outcome of parsing the rows that a reader yields: the cards of all
/// rows, in order, or the fault of the first row that has one.
pub open spec fn decode_rows(rows: Seq<Option<Seq<Seq<char>>>>) -> Result<
    Seq<RecordView>,
    ParseError,
>
    decreases rows.len(),
{
    if rows.len() == 0 {
        Ok(Seq::empty())
    } else {
        match decode_rows(rows.drop_last()) {
            Err(fault) => Err(fault),
            Ok(records) => match row_fault(rows.last(), rows.len() - 1) {
                Some(fault) => Err(fault),
                None => Ok(records.push(record_of(rows.last()->Some_0))),
            },
        }
    }
}

/// The mathematical content of what [`parse_csv`] returns.
pub open spec fn parsed_view(result: Result<Vec<MtgRecord>, ParseError>) -> Result<
    Seq<RecordView>,
    ParseError,
> {
    match result {
        Ok(records) => Ok(records.deep_view()),
        Err(fault) => Err(fault),
    }
}

/// Turns the fields of data row `row` into a card.
pub fn decode_row(fields: Vec<String>, row: usize) -> (result: Result<MtgRecord, ParseError>)
    ensures
        match result {
            Ok(record) => fields.len() == 4 && record@ == record_of(fields.deep_view()),
            Err(fault) => fields.len() != 4 && fault == (ParseError::ColumnCount {
                row,
                found: fields.len(),
            }),
        },
{
    let found = fields.len();
    if found != 4 {
        return Err(ParseError::ColumnCount { row, found });
    }
    let mut fields = fields;
    let marker = fields.pop().unwrap();
    let edition = fields.pop().unwrap();
    let name = fields.pop().unwrap();
    let quantity = fields.pop().unwrap();
    let foil = if marker.as_str().is_empty() {
        None
    } else {
        Some(marker)
    };
    Ok(MtgRecord { quantity, name, edition, foil })
}

/// Once a row has a fault, the rows after it change nothing.
pub proof fn lemma_fault_stays(rows: Seq<Option<Seq<Seq<char>>>>, upto: int)
    requires
        0 <= upto <= rows.len(),
        decode_rows(rows.take(upto)) is Err,
    ensures
        decode_rows(rows) == decode_rows(rows.take(upto)),
    decreases rows.len(),
{
    if upto == rows.len() {
        assert(rows.take(upto) =~= rows);
    } else {
        assert(rows.drop_last().take(upto) =~= rows.take(upto));
        lemma_fault_stays(rows.drop_last(), upto);
    }
}

/// The first row with a fault: no row before it has one.
pub open spec fn is_first_fault(rows: Seq<Option<Seq<Seq<char>>>>, index: int) -> bool {
    &&& 0 <= index < rows.len()
    &&& row_fault(rows[index], index) is Some
    &&& forall|j: int| 0 <= j < index ==> row_fault(#[trigger] rows[j], j) is None
}

/// Parsing succeeds exactly when no row has a fault, and gives one card for
/// each row, in order. It fails exactly when some row has a fault, with the
/// fault of the first such row.
pub proof fn lemma_decode_rows(rows: Seq<Option<Seq<Seq<char>>>>)
    ensures
        match decode_rows(rows) {
            Ok(records) => {
                &&& records.len() == rows.len()
                &&& forall|i: int|
                    0 <= i < rows.len() ==> row_fault(#[trigger] rows[i], i) is None
                        && records[i] == record_of(rows[i]->Some_0)
            },
            Err(fault) => exists|i: int|
                is_first_fault(rows, i) && row_fault(#[trigger] rows[i], i) == Some(fault),
        },
    decreases rows.len(),
{
    if rows.len() > 0 {
        let front = rows.drop_last();
        let last = rows.len() - 1;
        lemma_decode_rows(front);
        match decode_rows(front) {
            Err(fault) => {
                let i = choose|i: int|
                    is_first_fault(front, i) && row_fault(#[trigger] front[i], i) == Some(fault);
                assert(rows[i] == front[i]);
                assert forall|j: int| 0 <= j < i implies row_fault(#[trigger] rows[j], j)
                    is None by {
                    assert(rows[j] == front[j]);
                }
                assert(is_first_fault(rows, i));
            },
            Ok(records) => {
                assert forall|j: int| 0 <= j < last implies row_fault(#[trigger] rows[j], j)
                    is None by {
                    assert(rows[j] == front[j]);
                }
                match row_fault(rows.last(), last) {
                    Some(fault) => {
                        assert(is_first_fault(rows, last));
                    },
                    None => {
                        let all = records.push(record_of(rows.last()->Some_0));
                        assert forall|i: int| 0 <= i < rows.len() implies row_fault(
                            #[trigger] rows[i],
                            i,
                        ) is None && all[i] == record_of(rows[i]->Some_0) by {
                            if i < last {
                                assert(rows[i] == front[i]);
                            }
                        }
                    },
                }
            },
        }
    }
}

/// Parses a listing into its cards, in the order of its rows.
///
/// Where the first line of `text` is the header line, that line is skipped;
/// every other row is a card. Parsing stops at the first row that the reader
/// cannot make out or that does not have four columns.
pub fn parse_csv(text: &str) -> (result: Result<Vec<MtgRecord>, ParseError>)
    ensures
        parsed_view(result) == decode_rows(csv_rows(text@, has_header_line(text@))),
{
    let header = has_header(text);
    let mut reader = open_reader(text, header);
    let ghost rows = csv_rows(text@, has_header_line(text@));
    let mut records: Vec<MtgRecord> = Vec::new();
    assert(rows.take(0) =~= Seq::empty());
    assert(rows.skip(0) =~= rows);
    assert(records.deep_view() =~= Seq::empty());
    loop
        invariant
            rows == csv_rows(text@, has_header_line(text@)),
            records.len() <= rows.len(),
            pending_rows(reader) == rows.skip(records.len() as int),
            decode_rows(rows.take(records.len() as int)) == parsed_view(Ok(records)),
        decreases rows.len() - records.len(),
    {
        let ghost done = records.len() as int;
        let ghost before = records.deep_view();
        match next_row(&mut reader) {
            None => {
                assert(rows.take(done) =~= rows);
                return Ok(records);
            },
            Some(read) => {
                proof {
                    assert(rows.skip(done)[0] == rows[done]);
                    assert(rows.skip(done).drop_first() =~= rows.skip(done + 1));
                    assert(rows.take(done + 1).drop_last() =~= rows.take(done));
                    assert(rows.take(done + 1).last() == rows[done]);
                }
                match read {
                    Err(_) => {
                        proof {
                            lemma_fault_stays(rows, done + 1);
                        }
                        return Err(ParseError::Malformed { row: records.len() });
                    },
                    Ok(fields) => {
                        match decode_row(fields, records.len()) {
                            Err(fault) => {
                                proof {
                                    lemma_fault_stays(rows, done + 1);
                                }
                                return Err(fault);
                            },
                            Ok(record) => {
                                records.push(record);
                                assert(records.deep_view() =~= before.push(record@));
                            },
                        }
                    },
                }
            },
        }
    }
}

} // verus!
