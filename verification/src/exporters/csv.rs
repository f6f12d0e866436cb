//! Comma-separated values.

use crate::exporters::Exporter;
use vstd::prelude::*;
use vstd::string::StringExecFns;

verus! {

/// Writes strings as comma-separated values: a record of headers, then one
/// record for each string.
pub struct CsvExporter {
    headers: Vec<String>,
}

impl View for CsvExporter {
    type V = Seq<String>;

    /// The headers.
    closed spec fn view(&self) -> Seq<String> {
        self.headers@
    }
}

/// Whether `records` are the records of a document that holds `values` under
/// `headers`: the headers first, then each value as a record of one field.
pub open spec fn is_csv_document(
    records: Seq<Vec<String>>,
    headers: Seq<String>,
    values: Seq<String>,
) -> bool {
    &&& records.len() == values.len() + 1
    &&& records[0]@ == headers
    &&& forall|i: int|
        0 <= i < values.len() ==> (#[trigger] records[i + 1])@ == seq![values[i]]
}

impl CsvExporter {
    /// An exporter with the one header `generated_data`.
    pub fn new() -> (r: Self)
        ensures
            r@.len() == 1,
            r@[0]@ == "generated_data"@,
    {
        let mut headers: Vec<String> = Vec::new();
        headers.push(String::from_str("generated_data"));
        Self { headers }
    }

    /// An exporter with the given headers.
    pub fn with_headers(headers: Vec<String>) -> (r: Self)
        ensures
            r@ == headers@,
    {
        Self { headers }
    }

    /// The headers.
    pub fn headers(&self) -> (r: &Vec<String>)
        ensures
            r@ == self@,
    {
        &self.headers
    }

    /// The records of the document that holds `data`, in the order in which
    /// they are written.
    pub fn records(&self, data: &[String]) -> (r: Vec<Vec<String>>)
        ensures
            is_csv_document(r@, self@, data@),
    {
        let mut first: Vec<String> = Vec::new();
        let mut at: usize = 0;
        while at < self.headers.len()
            invariant
                at <= self.headers.len(),
                first@ == self.headers@.subrange(0, at as int),
            decreases self.headers.len() - at,
        {
            first.push(self.headers[at].clone());
            proof {
                assert(first@ =~= self.headers@.subrange(0, at + 1));
            }
            at = at + 1;
        }
        proof {
            assert(self.headers@.subrange(0, self.headers.len() as int) =~= self.headers@);
        }
        let mut records: Vec<Vec<String>> = Vec::new();
        records.push(first);
        let mut row: usize = 0;
        while row < data.len()
            invariant
                row <= data.len(),
                records.len() == row + 1,
                records[0]@ == self.headers@,
                forall|i: int| 0 <= i < row ==> (#[trigger] records[i + 1])@ == seq![data@[i]],
            decreases data.len() - row,
        {
            let mut record: Vec<String> = Vec::new();
            record.push(data[row].clone());
            proof {
                assert(record@ =~= seq![data@[row as int]]);
            }
            records.push(record);
            row = row + 1;
        }
        records
    }
}

impl Default for CsvExporter {
    fn default() -> (r: Self)
        ensures
            r@.len() == 1,
            r@[0]@ == "generated_data"@,
    {
        Self::new()
    }
}

impl Exporter for CsvExporter {
    open spec fn name(&self) -> Seq<char> {
        "CSV"@
    }

    fn format_name(&self) -> (r: &'static str) {
        "CSV"
    }
}

} // verus!
