//! Strings generated from a regular expression.
//!
//! A [`DataGenerator`] is made from one pattern. It draws strings at random
//! from all that the pattern allows, reproducibly when it was given a seed,
//! or enumerates them exactly, from the first up or from the last down, when
//! the pattern is a run of letters or digits of a fixed length.
//!
//! Patterns are compiled by the `regex` crate and sampled by `rand_regex`,
//! once [`structure`] has found that their samples stay within limits.
//! Enumeration is this crate's own: [`shape`] recognizes the patterns that
//! can be enumerated, [`numeral`] holds the arithmetic of fixed-length
//! numerals, and [`sequential`] writes the strings.

pub mod data_generator;
pub mod error;
pub mod exporters;
pub mod numeral;
pub mod regex_engine;
pub mod sampler;
pub mod sequential;
pub mod shape;
pub mod structure;
pub mod text;

pub use data_generator::{DataGenerator, GenerationMode};
pub use error::Error;
pub use exporters::{
    CsvExporter, Exporter, JsonEntry, JsonExporter, TsvExporter, XmlEvent, XmlExporter,
};
pub use regex_engine::RegexEngine;
