//! JSON.

use crate::exporters::Exporter;
use vstd::prelude::*;

verus! {

/// Writes strings as one JSON array: of the strings themselves, or of one
/// object for each string.
pub struct JsonExporter {
    pretty: bool,
    array_format: bool,
}

/// One element of the array that is written.
pub enum JsonEntry {
    /// The string itself.
    Text(String),
    /// An object with the members `id` and `value`: the place of the string
    /// among all that are written, counted from 0, and the string.
    Record { id: usize, value: String },
}

/// Whether `entries` are the elements of the array that holds `values`.
pub open spec fn is_json_document(
    entries: Seq<JsonEntry>,
    values: Seq<String>,
    array_format: bool,
) -> bool {
    &&& entries.len() == values.len()
    &&& forall|i: int|
        0 <= i < values.len() ==> #[trigger] entries[i] == if array_format {
            JsonEntry::Text(values[i])
        } else {
            JsonEntry::Record { id: i as usize, value: values[i] }
        }
}

impl JsonExporter {
    /// An exporter that writes an array of strings, indented.
    pub fn new() -> (r: Self)
        ensures
            r.pretty(),
            r.array_format(),
    {
        Self { pretty: true, array_format: true }
    }

    /// An exporter that indents its output if `pretty` is set, and writes an
    /// array of strings if `array_format` is set, of objects if not.
    pub fn with_options(pretty: bool, array_format: bool) -> (r: Self)
        ensures
            r.pretty() == pretty,
            r.array_format() == array_format,
    {
        Self { pretty, array_format }
    }

    /// Whether the output is indented.
    pub closed spec fn pretty(&self) -> bool {
        self.pretty
    }

    /// Whether the output is an array of strings.
    pub closed spec fn array_format(&self) -> bool {
        self.array_format
    }

    /// Whether the output is indented.
    pub fn is_pretty(&self) -> (r: bool)
        ensures
            r == self.pretty(),
    {
        self.pretty
    }

    /// Whether the output is an array of strings.
    pub fn is_array_format(&self) -> (r: bool)
        ensures
            r == self.array_format(),
    {
        self.array_format
    }

    /// The elements of the array that holds `data`, in order.
    pub fn entries(&self, data: &[String]) -> (r: Vec<JsonEntry>)
        ensures
            is_json_document(r@, data@, self.array_format()),
    {
        let mut entries: Vec<JsonEntry> = Vec::new();
        let mut at: usize = 0;
        while at < data.len()
            invariant
                at <= data.len(),
                entries.len() == at,
                forall|i: int|
                    0 <= i < at ==> #[trigger] entries[i] == if self.array_format {
                        JsonEntry::Text(data@[i])
                    } else {
                        JsonEntry::Record { id: i as usize, value: data@[i] }
                    },
            decreases data.len() - at,
        {
            let value = data[at].clone();
            let entry = if self.array_format {
                JsonEntry::Text(value)
            } else {
                JsonEntry::Record { id: at, value }
            };
            entries.push(entry);
            at = at + 1;
        }
        entries
    }
}

impl Default for JsonExporter {
    fn default() -> (r: Self)
        ensures
            r.pretty(),
            r.array_format(),
    {
        Self::new()
    }
}

impl Exporter for JsonExporter {
    open spec fn name(&self) -> Seq<char> {
        "JSON"@
    }

    fn format_name(&self) -> (r: &'static str) {
        "JSON"
    }
}

} // verus!
