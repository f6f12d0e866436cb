//! The formats that generated strings can be written in.
//!
//! An exporter holds the settings of one format. Writing to a file is left to
//! the caller.

pub mod csv;
pub mod json;
pub mod tsv;
pub mod xml;

pub use csv::CsvExporter;
pub use json::{JsonEntry, JsonExporter};
pub use tsv::TsvExporter;
pub use xml::{XmlEvent, XmlExporter};

use vstd::prelude::*;

verus! {

/// One output format.
pub trait Exporter {
    /// The name of the format.
    spec fn name(&self) -> Seq<char>;

    /// The name of the format, in capitals.
    fn format_name(&self) -> (r: &'static str)
        ensures
            r@ == self.name(),
    ;
}

} // verus!
