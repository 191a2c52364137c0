//! The comma-separated reader of the `csv` crate, as far as parsing a listing
//! needs it. Nothing in this file is proved: the contracts below state what the
//! rest of the library takes on trust about that reader.

use vstd::prelude::*;

verus! {

/// `csv::Reader`, carried through as an opaque value.
#[verifier::external_type_specification]
#[verifier::external_body]
#[verifier::reject_recursive_types(R)]
pub struct ExReader<R>(csv::Reader<R>);

/// `csv::Error`, carried through as an opaque value.
#[verifier::external_type_specification]
#[verifier::external_body]
pub struct ExError(csv::Error);

/// What a reader over the bytes of `text` yields, record by record, until the
/// text is used up: the fields of each record that it can make out, `None` for
/// each record on which it reports an error. With `has_headers` the first
/// record of the text is the header and is not among them.
pub uninterp spec fn csv_rows(text: Seq<char>, has_headers: bool) -> Seq<Option<Seq<Seq<char>>>>;

/// What `reader` has yet to yield, in the form of [`csv_rows`].
pub uninterp spec fn pending_rows(reader: csv::Reader<&[u8]>) -> Seq<Option<Seq<Seq<char>>>>;

/// Builds a reader over the bytes of `text` with `csv::ReaderBuilder`, all
/// settings at their defaults but `has_headers`.
///
/// Trusted: the records that this reader will yield depend on `text` and
/// `has_headers` alone.
#[verifier::external_body]
pub(crate) fn open_reader<'a>(text: &'a str, has_headers: bool) -> (reader: csv::Reader<&'a [u8]>)
    ensures
        pending_rows(reader) == csv_rows(text@, has_headers),
{
    csv::ReaderBuilder::new().has_headers(has_headers).from_reader(text.as_bytes())
}

/// Takes the next record from `reader` with `csv::Reader::records`, each of
/// its fields copied into a `String`.
///
/// Trusted: with nothing pending the reader yields `None` and stays as it is.
/// Otherwise it yields its first pending record and moves past it: the fields
/// of that record, or the error that the reader reports on it.
#[verifier::external_body]
pub(crate) fn next_row<'a>(reader: &mut csv::Reader<&'a [u8]>) -> (row: Option<
    Result<Vec<String>, csv::Error>,
>)
    ensures
        pending_rows(*old(reader)).len() == 0 ==> row is None && pending_rows(*final(reader))
            == pending_rows(*old(reader)),
        pending_rows(*old(reader)).len() > 0 ==> pending_rows(*final(reader)) == pending_rows(
            *old(reader),
        ).drop_first() && match (row, pending_rows(*old(reader))[0]) {
            (Some(Ok(fields)), Some(expected)) => fields.deep_view() == expected,
            (Some(Err(_)), None) => true,
            _ => false,
        },
{
    reader.records().next().map(|read| read.map(|record| record.iter().map(String::from).collect()))
}

} // verus!
