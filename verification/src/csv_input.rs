use vstd::prelude::*;
use crate::table::LoadError;
use crate::table::Table;

verus! {

/// What the CSV reader makes of a byte input, as a pure function of the
/// bytes: the sequence of records in input order if every record reads
/// cleanly, and nothing if some record is malformed.
pub uninterp spec fn csv_records(input: Seq<u8>) -> Option<Seq<Seq<Seq<char>>>>;

/// Relies on csv::ReaderBuilder / csv::Reader, configured with header
/// handling off (the first record comes through like any other) and flexible
/// record lengths (records of differing field counts are not an error): the
/// records read from a byte slice depend on the bytes alone.
#[verifier::external_body]
fn parse_records(input: &[u8]) -> (r: Result<Vec<Vec<String>>, String>)
    ensures
        match r {
            Ok(records) => csv_records(input@) == Some(records.deep_view()),
            Err(_) => csv_records(input@) is None,
        },
{
    let reader = csv::ReaderBuilder::new().has_headers(false).flexible(true).from_reader(input);
    reader.into_records().map(
        |rec| match rec {
            Ok(record) => Ok(record.iter().map(String::from).collect()),
            Err(e) => Err(e.to_string()),
        },
    ).collect()
}

impl Table {
    /// Loads a table from the raw bytes of a delimited text input: reads the
    /// records, then takes the first as the header and the rest as data, in
    /// order. An input without any record is rejected as empty; one with a
    /// malformed record is rejected whole.
    pub fn from_csv_text(name: String, input: &[u8]) -> (r: Result<Table, LoadError>)
        ensures
            match r {
                Ok(t) => {
                    &&& csv_records(input@) matches Some(records) && records.len() > 0
                    &&& t@.name == name@
                    &&& t@.header == csv_records(input@)->Some_0[0]
                    &&& t@.records == csv_records(input@)->Some_0.skip(1)
                },
                Err(LoadError::EmptyInput) => (csv_records(input@) matches Some(records)
                    && records.len() == 0),
                Err(LoadError::RecordRead(_)) => csv_records(input@) is None,
            },
    {
        match parse_records(input) {
            Ok(records) => Table::load(name, records),
            Err(message) => Err(LoadError::RecordRead(message)),
        }
    }
}

} // verus!
