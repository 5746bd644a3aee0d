//! A CSV text read into its header and rows of fields.

use vstd::prelude::*;

verus! {

#[verifier::external_type_specification]
#[verifier::external_body]
pub struct ExCsvError(csv::Error);

/// What the CSV reader makes of `text`: the header's fields and each row's
/// fields, or `None` where it rejects the text.
pub uninterp spec fn csv_table_of(text: Seq<u8>) -> Option<(Seq<Seq<char>>, Seq<Seq<Seq<char>>>)>;

/// The header and the data rows of a CSV text, in the order of the text.
pub struct CsvTable {
    pub header: Vec<String>,
    pub rows: Vec<Vec<String>>,
}

impl CsvTable {
    pub open spec fn view(&self) -> (Seq<Seq<char>>, Seq<Seq<Seq<char>>>) {
        (self.header.deep_view(), self.rows.deep_view())
    }
}

/// Relies on `csv::Reader::from_reader`, `Reader::headers` and
/// `Reader::records`: the reader parses the text into a header record and
/// data records, or fails; its result depends on the bytes alone.
#[verifier::external_body]
fn read_csv(text: &[u8]) -> (r: Result<CsvTable, csv::Error>)
    ensures
        r is Ok <==> csv_table_of(text@) is Some,
        r matches Ok(t) ==> csv_table_of(text@) == Some(t.view()),
{
    let mut rdr = csv::Reader::from_reader(text);
    let header: Vec<String> = rdr.headers()?.iter().map(String::from).collect();
    let mut rows: Vec<Vec<String>> = Vec::new();
    for rec in rdr.records() {
        rows.push(rec?.iter().map(String::from).collect());
    }
    Ok(CsvTable { header, rows })
}

/// Reads `text` as CSV with a header row; `None` where it is not well formed.
pub fn parse_table(text: &[u8]) -> (r: Option<CsvTable>)
    ensures
        match csv_table_of(text@) {
            Some(v) => r matches Some(t) && t.view() == v,
            None => r is None,
        },
{
    match read_csv(text) {
        Ok(t) => Some(t),
        Err(_) => None,
    }
}

} // verus!
