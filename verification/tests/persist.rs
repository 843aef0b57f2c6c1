use leelo::failure::Failure;
use leelo::persist::{decode, encode, pair_up, with_header};
use leelo::rating::Rating;
use leelo::table::RatingTable;

fn row(id: &str, rating: &str) -> (String, String) {
    (id.to_string(), rating.to_string())
}

fn record(fields: &[&str]) -> Vec<String> {
    fields.iter().map(|f| f.to_string()).collect()
}

#[test]
fn an_empty_table_is_the_header_alone() {
    assert_eq!(encode(&Vec::new()), Ok(b"Player ID,Rating\n".to_vec()));
    assert_eq!(decode(b"Player ID,Rating\n"), Ok(Vec::new()));
}

#[test]
fn rows_are_written_in_the_order_given() {
    let rows = vec![row("Bob", "980.0"), row("Alice", "1020.0")];
    assert_eq!(encode(&rows), Ok(b"Player ID,Rating\nBob,980.0\nAlice,1020.0\n".to_vec()));
}

#[test]
fn rows_are_read_in_the_order_stored() {
    let rows = decode(b"Player ID,Rating\nBob,980.0\nAlice,1020.0\n");
    assert_eq!(rows, Ok(vec![row("Bob", "980.0"), row("Alice", "1020.0")]));
}

#[test]
fn the_first_line_is_never_a_row() {
    assert_eq!(decode(b"Alice,1000.0\nBob,980.0\n"), Ok(vec![row("Bob", "980.0")]));
    assert_eq!(decode(b"anything,at all\n"), Ok(Vec::new()));
}

#[test]
fn nothing_stored_is_an_empty_table() {
    assert_eq!(decode(b""), Ok(Vec::new()));
}

#[test]
fn a_missing_last_line_end_does_no_harm() {
    assert_eq!(decode(b"Player ID,Rating\nAlice,1000.0"), Ok(vec![row("Alice", "1000.0")]));
}

#[test]
fn identifiers_with_commas_quotes_and_line_breaks_come_back() {
    let rows = vec![
        row("Doe, Jane", "1000.0"),
        row("The \"Rook\"", "1012.5"),
        row("two\nlines", "-3.0"),
        row("", "0.0"),
        row(" padded ", "1e21"),
        row("Zoë", "NaN"),
    ];
    let bytes = encode(&rows).unwrap();
    assert_eq!(decode(&bytes), Ok(rows));
}

#[test]
fn a_quoted_field_is_read_without_its_quotes() {
    let rows = decode(b"Player ID,Rating\n\"Doe, Jane\",\"1000.0\"\n");
    assert_eq!(rows, Ok(vec![row("Doe, Jane", "1000.0")]));
}

#[test]
fn a_line_with_one_field_is_malformed() {
    assert_eq!(decode(b"Player ID\nAlice\n"), Err(Failure::MalformedRecord));
}

#[test]
fn lines_of_different_length_are_malformed() {
    assert_eq!(decode(b"Player ID,Rating\nAlice\n"), Err(Failure::MalformedRecord));
    assert_eq!(decode(b"Player ID,Rating\nAlice,1000.0,extra\n"), Err(Failure::MalformedRecord));
    assert_eq!(
        decode(b"Player ID,Rating\nAlice,1000.0\nBob\n"),
        Err(Failure::MalformedRecord)
    );
}

#[test]
fn text_that_is_not_utf8_is_malformed() {
    assert_eq!(decode(b"Player ID,Rating\nAl\xffce,1000.0\n"), Err(Failure::MalformedRecord));
}

#[test]
fn fields_after_the_second_are_ignored() {
    let rows = decode(b"Player ID,Rating,Club\nAlice,1000.0,Rooks\nBob,980.0,\n");
    assert_eq!(rows, Ok(vec![row("Alice", "1000.0"), row("Bob", "980.0")]));
}

#[test]
fn pairing_up_records() {
    assert_eq!(pair_up(&Vec::new()), Ok(Vec::new()));
    assert_eq!(
        pair_up(&vec![record(&["Alice", "1000.0"]), record(&["Bob", "980.0", "x"])]),
        Ok(vec![row("Alice", "1000.0"), row("Bob", "980.0")])
    );
    assert_eq!(
        pair_up(&vec![record(&["Alice", "1000.0"]), record(&["Bob"])]),
        Err(Failure::MalformedRecord)
    );
    assert_eq!(pair_up(&vec![record(&[])]), Err(Failure::MalformedRecord));
}

#[test]
fn the_header_goes_first() {
    assert_eq!(with_header(&Vec::new()), vec![record(&["Player ID", "Rating"])]);
    assert_eq!(
        with_header(&vec![row("Alice", "1020.0"), row("Bob", "980.0")]),
        vec![
            record(&["Player ID", "Rating"]),
            record(&["Alice", "1020.0"]),
            record(&["Bob", "980.0"]),
        ]
    );
}

fn stored(table: &RatingTable) -> Vec<u8> {
    let rows: Vec<(String, String)> = table
        .all_entries()
        .into_iter()
        .map(|(id, rating)| (id, format!("{:?}", f64::from_bits(rating.to_bits()))))
        .collect();
    encode(&rows).unwrap()
}

fn loaded(bytes: &[u8]) -> RatingTable {
    let entries: Vec<(String, Rating)> = decode(bytes)
        .unwrap()
        .into_iter()
        .map(|(id, text)| (id, Rating::from_bits(text.parse::<f64>().unwrap().to_bits())))
        .collect();
    RatingTable::from_entries(&entries)
}

fn sorted_pairs(table: &RatingTable) -> Vec<(String, u64)> {
    let mut list: Vec<(String, u64)> =
        table.all_entries().into_iter().map(|(id, r)| (id, r.to_bits())).collect();
    list.sort();
    list
}

#[test]
fn a_stored_table_comes_back_as_it_was() {
    let mut table = RatingTable::new();
    for (id, value) in [
        ("Alice", 1020.0),
        ("Bob", 980.0),
        ("Carol", 1003.4159265358979),
        ("Doe, Jane", -0.5),
        ("", 1e-7),
    ] {
        table.set_rating(id.to_string(), Rating::from_bits(f64::to_bits(value)));
    }
    let first = stored(&table);
    let second = stored(&loaded(&first));
    assert_eq!(sorted_pairs(&loaded(&second)), sorted_pairs(&table));
    assert_eq!(first, second);

    let empty = RatingTable::new();
    let bytes = stored(&loaded(&stored(&empty)));
    assert_eq!(loaded(&bytes).len(), 0);
    assert_eq!(bytes, b"Player ID,Rating\n".to_vec());
}
