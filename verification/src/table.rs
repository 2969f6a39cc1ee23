use vstd::prelude::*;
use vstd::string::StringExecFns;

verus! {

/// An in-memory table: a name, a header record whose fields become column
/// names, and the data records. Records are kept exactly as read: no
/// field-count check against the header, no trimming, no type coercion.
pub struct Table {
    pub name: String,
    pub header: Vec<String>,
    pub records: Vec<Vec<String>>,
}

/// The mathematical value of a `Table`: each string as a sequence of
/// characters, each record as a sequence of fields.
pub struct TableView {
    pub name: Seq<char>,
    pub header: Seq<Seq<char>>,
    pub records: Seq<Seq<Seq<char>>>,
}

impl View for Table {
    type V = TableView;

    open spec fn view(&self) -> TableView {
        TableView {
            name: self.name@,
            header: self.header.deep_view(),
            records: self.records.deep_view(),
        }
    }
}

/// Why a table could not be loaded.
pub enum LoadError {
    /// The input had no record at all, so there is no header.
    EmptyInput,
    /// A record of the delimited input could not be read; the payload is
    /// the underlying reader's message.
    RecordRead(String),
}

impl LoadError {
    /// A human-readable description of the failure, for diagnostics.
    pub fn message(&self) -> (r: String)
        ensures
            self matches LoadError::EmptyInput ==> r@
                == "CSV: Could not read header. File may be empty"@,
            self matches LoadError::RecordRead(m) ==> r@ == m@,
    {
        match self {
            LoadError::EmptyInput => String::from_str(
                "CSV: Could not read header. File may be empty",
            ),
            LoadError::RecordRead(m) => m.clone(),
        }
    }
}

impl Table {
    /// Builds a table from an already-parsed record stream: the first record
    /// becomes the header, every remaining record a data record, in order.
    /// An empty stream has no header and is rejected.
    pub fn load(name: String, stream: Vec<Vec<String>>) -> (r: Result<Table, LoadError>)
        ensures
            stream@.len() == 0 <==> r matches Err(LoadError::EmptyInput),
            r matches Ok(t) ==> {
                &&& t@.name == name@
                &&& t@.header == stream.deep_view()[0]
                &&& t@.records == stream.deep_view().skip(1)
            },
            !(r matches Err(LoadError::RecordRead(_))),
    {
        let mut stream = stream;
        if stream.len() == 0 {
            return Err(LoadError::EmptyInput);
        }
        let header = stream.remove(0);
        Ok(Table { name, header, records: stream })
    }
}

} // verus!
