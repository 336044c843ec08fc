//! Reading the rows of a question source with the `csv` crate.

use vstd::prelude::*;

verus! {

/// The records that the `csv` crate reads from `data`, one entry for each
/// record that its reader yields, in order: the record's fields where it was
/// read, `None` where the reader reported an error for it. With
/// `has_headers` the reader keeps the first record to itself as a header.
pub uninterp spec fn csv_records(data: Seq<u8>, has_headers: bool) -> Seq<Option<Seq<Seq<char>>>>;

/// Trusted: builds a `csv::Reader` over `data` with `csv::ReaderBuilder`,
/// setting only `has_headers`, and walks `csv::Reader::records` to its end.
///
/// Every item of that iterator becomes one entry: the fields of a record as
/// owned strings, or `None` for an error. Reading from bytes in memory
/// depends on nothing but the bytes and the one setting, so the result is
/// given the name [`csv_records`]; nothing further is claimed about it.
#[verifier::external_body]
pub(crate) fn read_records(data: &[u8], has_headers: bool) -> (rows: Vec<Option<Vec<String>>>)
    ensures
        rows.deep_view() == csv_records(data@, has_headers),
{
    let mut reader = csv::ReaderBuilder::new().has_headers(has_headers).from_reader(data);
    let mut rows = Vec::new();
    for result in reader.records() {
        rows.push(
            match result {
                Ok(record) => Some(record.iter().map(String::from).collect()),
                Err(_) => None,
            },
        );
    }
    rows
}

} // verus!
