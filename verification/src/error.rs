//! What can go wrong, and how it reads.

use vstd::prelude::*;
use vstd::string::StringExecFns;

verus! {

#[verifier::external_type_specification]
#[verifier::external_body]
pub struct ExIoError(std::io::Error);

/// The failures that the library and the code around it report.
#[derive(Debug)]
pub enum Error {
    /// The pattern is no regular expression. Holds the reason that the
    /// regular-expression compiler gave.
    InvalidRegex(String),
    /// The pattern is a regular expression, but no strings can be drawn from
    /// it. Holds the reason.
    GenerationFailed(String),
    /// The pattern is a regular expression, but has none of the shapes that
    /// can be enumerated.
    UnsupportedPatternForEnumeration,
    /// Writing the generated strings out failed. Holds the reason.
    ExportFailed(String),
    /// An input or output operation failed.
    Io(std::io::Error),
}

impl Error {
    /// The text that `to_string` puts before the reason.
    pub open spec fn prefix(self) -> Seq<char> {
        match self {
            Error::InvalidRegex(_) => "Invalid regex pattern: "@,
            Error::GenerationFailed(_) => "Data generation failed: "@,
            Error::UnsupportedPatternForEnumeration => "Data generation failed: "@,
            Error::ExportFailed(_) => "Export failed: "@,
            Error::Io(_) => "IO error: "@,
        }
    }

    /// The reason of a failure that holds one as text, and the fixed reason
    /// of a pattern that cannot be enumerated.
    pub open spec fn reason(self) -> Option<Seq<char>> {
        match self {
            Error::InvalidRegex(reason) => Some(reason@),
            Error::GenerationFailed(reason) => Some(reason@),
            Error::UnsupportedPatternForEnumeration => Some(
                "Sequential generation not supported for complex patterns"@,
            ),
            Error::ExportFailed(reason) => Some(reason@),
            Error::Io(_) => None,
        }
    }

    /// The failure as a line of text for people: the prefix, then the
    /// reason. For a failed input or output operation the reason is what
    /// the operation's own error displays.
    pub fn to_string(&self) -> (r: String)
        ensures
            self.reason() matches Some(reason) ==> r@ == self.prefix() + reason,
            self matches Error::Io(source) ==> exists|shown: String|
                vstd::string::to_string_from_display_ensures::<std::io::Error>(&source, shown)
                    && r@ == self.prefix() + shown@,
    {
        match self {
            Error::InvalidRegex(reason) => String::from_str("Invalid regex pattern: ").concat(
                reason.as_str(),
            ),
            Error::GenerationFailed(reason) => String::from_str("Data generation failed: ").concat(
                reason.as_str(),
            ),
            Error::UnsupportedPatternForEnumeration => String::from_str(
                "Data generation failed: ",
            ).concat("Sequential generation not supported for complex patterns"),
            Error::ExportFailed(reason) => String::from_str("Export failed: ").concat(
                reason.as_str(),
            ),
            Error::Io(source) => {
                let shown = source.to_string();
                String::from_str("IO error: ").concat(shown.as_str())
            },
        }
    }
}

} // verus!
