//! Comma-separated text, read and written by the `csv` crate. Nothing in
//! this file is proved: each contract states what is taken on trust.

use vstd::prelude::*;

verus! {

/// `csv::Error`, the error of every fallible call into `csv`. It is carried
/// from the call to the place that turns it into a failure of this library;
/// nothing is claimed of what it holds.
#[verifier::external_type_specification]
#[verifier::external_body]
pub struct ExCsvError(csv::Error);

/// The records that `csv` reads from a text when the first line is taken as
/// a header and left out: each record a list of fields. `None` where `csv`
/// reports an error instead.
pub uninterp spec fn csv_records(bytes: Seq<u8>) -> Option<Seq<Seq<Seq<char>>>>;

/// The text that `csv` writes for a list of records. `None` where `csv`
/// reports an error instead.
pub uninterp spec fn csv_text(records: Seq<Seq<Seq<char>>>) -> Option<Seq<u8>>;

/// Records as lists of texts.
pub open spec fn fields_of(records: Seq<Vec<String>>) -> Seq<Seq<Seq<char>>> {
    Seq::new(records.len(), |i: int| Seq::new(records[i]@.len(), |j: int| records[i]@[j]@))
}

/// Calls `csv::Reader::from_reader` on the bytes, with the settings that a
/// reader has unless told otherwise, and collects what `Reader::records`
/// yields, each record as the list of its fields. The first error that the
/// reader reports is handed back. The contract claims only that the outcome
/// depends on the bytes alone.
#[verifier::external_body]
pub(crate) fn read_records(bytes: &[u8]) -> (r: Result<Vec<Vec<String>>, csv::Error>)
    ensures
        match r {
            Ok(records) => csv_records(bytes@) == Some(fields_of(records@)),
            Err(_) => csv_records(bytes@) is None,
        },
{
    let mut reader = csv::Reader::from_reader(bytes);
    let mut records: Vec<Vec<String>> = Vec::new();
    for record in reader.records() {
        records.push(record?.iter().map(String::from).collect());
    }
    Ok(records)
}

/// Calls `csv::Writer::write_record` for each record in turn, on a writer
/// made by `csv::Writer::from_writer` over an empty buffer, and hands back
/// the buffer that `Writer::into_inner` returns. The first error that the
/// writer reports is handed back. The contract claims only that the outcome
/// depends on the records alone.
#[verifier::external_body]
pub(crate) fn write_records(records: &Vec<Vec<String>>) -> (r: Result<Vec<u8>, csv::Error>)
    ensures
        match r {
            Ok(bytes) => csv_text(fields_of(records@)) == Some(bytes@),
            Err(_) => csv_text(fields_of(records@)) is None,
        },
{
    let mut writer = csv::Writer::from_writer(Vec::new());
    for record in records {
        writer.write_record(record)?;
    }
    writer.into_inner().map_err(|e| csv::Error::from(e.into_error()))
}

} // verus!
