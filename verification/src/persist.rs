//! The stored form of a table: comma-separated text with a header line and
//! one line per player, the identifier first and the rating second.
//!
//! Reading and writing comma-separated text is left to the `csv` crate. The
//! library decides what is written and what is accepted. A rating stays text
//! here; turning it into a number and back is the caller's part.

use vstd::prelude::*;
use crate::csv_codec::{csv_records, csv_text, fields_of, read_records, write_records};
use crate::failure::Failure;

verus! {

/// Rows as pairs of texts.
pub open spec fn pairs_of(rows: Seq<(String, String)>) -> Seq<(Seq<char>, Seq<char>)> {
    Seq::new(rows.len(), |i: int| (rows[i].0@, rows[i].1@))
}

/// The header line: the names of the two columns.
pub open spec fn header_fields() -> Seq<Seq<char>> {
    seq!["Player ID"@, "Rating"@]
}

/// The records that are written for the rows of a table: the header, then
/// each row as a record of two fields.
pub open spec fn records_for(rows: Seq<(Seq<char>, Seq<char>)>) -> Seq<Seq<Seq<char>>> {
    Seq::new(
        rows.len() + 1,
        |i: int|
            if i == 0 {
                header_fields()
            } else {
                seq![rows[i - 1].0, rows[i - 1].1]
            },
    )
}

/// Whether every record has an identifier and a rating.
pub open spec fn all_paired(records: Seq<Seq<Seq<char>>>) -> bool {
    forall|i: int| 0 <= i < records.len() ==> (#[trigger] records[i]).len() >= 2
}

/// The first two fields of each record.
pub open spec fn pairs_in(records: Seq<Seq<Seq<char>>>) -> Seq<(Seq<char>, Seq<char>)> {
    Seq::new(records.len(), |i: int| (records[i][0], records[i][1]))
}

/// Takes identifier and rating from each record. A record with fewer than
/// two fields is malformed; fields after the second are ignored.
pub fn pair_up(records: &Vec<Vec<String>>) -> (r: Result<Vec<(String, String)>, Failure>)
    ensures
        match r {
            Ok(rows) => all_paired(fields_of(records@)) && pairs_of(rows@) == pairs_in(
                fields_of(records@),
            ),
            Err(e) => !all_paired(fields_of(records@)) && e == Failure::MalformedRecord,
        },
{
    let ghost fields = fields_of(records@);
    let mut rows: Vec<(String, String)> = Vec::new();
    let mut i: usize = 0;
    while i < records.len()
        invariant
            fields == fields_of(records@),
            i <= records.len(),
            all_paired(fields.take(i as int)),
            pairs_of(rows@) == pairs_in(fields.take(i as int)),
        decreases records.len() - i,
    {
        let record = &records[i];
        if record.len() < 2 {
            proof {
                assert(fields[i as int].len() < 2);
            }
            return Err(Failure::MalformedRecord);
        }
        let ghost before = pairs_of(rows@);
        let id = record[0].clone();
        let rating = record[1].clone();
        rows.push((id, rating));
        proof {
            let upto = fields.take(i as int + 1);
            assert(fields[i as int].len() >= 2);
            assert(fields[i as int][0] == id@);
            assert(fields[i as int][1] == rating@);
            assert forall|k: int| 0 <= k < upto.len() implies (#[trigger] upto[k]).len() >= 2 by {
                if k < i {
                    assert(fields.take(i as int)[k] == upto[k]);
                }
            }
            assert(pairs_of(rows@) =~= before.push((id@, rating@)));
            assert(pairs_in(upto) =~= pairs_in(fields.take(i as int)).push((id@, rating@)));
        }
        i += 1;
    }
    proof {
        assert(fields.take(i as int) =~= fields);
    }
    Ok(rows)
}

/// Reads the rows of a stored table: of each line after the header the
/// identifier and the rating, both as text. Text that `csv` does not accept
/// is malformed, and so is a line with fewer than two fields.
pub fn decode(bytes: &[u8]) -> (r: Result<Vec<(String, String)>, Failure>)
    ensures
        match r {
            Ok(rows) => match csv_records(bytes@) {
                Some(records) => all_paired(records) && pairs_of(rows@) == pairs_in(records),
                None => false,
            },
            Err(e) => e == Failure::MalformedRecord && match csv_records(bytes@) {
                Some(records) => !all_paired(records),
                None => true,
            },
        },
{
    match read_records(bytes) {
        Ok(records) => pair_up(&records),
        Err(_) => Err(Failure::MalformedRecord),
    }
}

/// The records to write for the rows: the header first.
pub fn with_header(rows: &Vec<(String, String)>) -> (records: Vec<Vec<String>>)
    ensures
        fields_of(records@) == records_for(pairs_of(rows@)),
{
    let ghost pairs = pairs_of(rows@);
    let mut header: Vec<String> = Vec::new();
    header.push("Player ID".to_owned());
    header.push("Rating".to_owned());
    let mut records: Vec<Vec<String>> = Vec::new();
    records.push(header);
    proof {
        assert(fields_of(records@)[0] =~= header_fields());
        assert(fields_of(records@) =~= records_for(pairs.take(0)));
    }
    let mut i: usize = 0;
    while i < rows.len()
        invariant
            pairs == pairs_of(rows@),
            i <= rows.len(),
            fields_of(records@) == records_for(pairs.take(i as int)),
        decreases rows.len() - i,
    {
        let ghost before = fields_of(records@);
        let mut record: Vec<String> = Vec::new();
        record.push(rows[i].0.clone());
        record.push(rows[i].1.clone());
        let ghost fields: Seq<Seq<char>> = seq![pairs[i as int].0, pairs[i as int].1];
        proof {
            assert(Seq::new(record@.len(), |j: int| record@[j]@) =~= fields);
        }
        records.push(record);
        proof {
            assert(fields_of(records@) =~= before.push(fields));
            assert(records_for(pairs.take(i as int + 1)) =~= records_for(pairs.take(i as int)).push(
                fields,
            ));
        }
        i += 1;
    }
    proof {
        assert(pairs.take(i as int) =~= pairs);
    }
    records
}

/// Writes the rows of a table as comma-separated text: the header line, then
/// one line per row in the order given.
pub fn encode(rows: &Vec<(String, String)>) -> (r: Result<Vec<u8>, Failure>)
    ensures
        match r {
            Ok(bytes) => csv_text(records_for(pairs_of(rows@))) == Some(bytes@),
            Err(e) => csv_text(records_for(pairs_of(rows@))) is None && e
                == Failure::DestinationUnwritable,
        },
{
    let records = with_header(rows);
    match write_records(&records) {
        Ok(bytes) => Ok(bytes),
        Err(_) => Err(Failure::DestinationUnwritable),
    }
}

} // verus!
