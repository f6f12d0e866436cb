//! Patterns that are known to compile.
//!
//! The grammar of patterns is that of the `regex` crate. Nothing here reads a
//! pattern: whether one compiles, and whether a compiled one matches a text,
//! is asked of that crate and named below.

use crate::error::Error;
use vstd::prelude::*;
use vstd::string::StringExecFns;

verus! {

#[verifier::external_type_specification]
#[verifier::external_body]
pub struct ExCompiledRegex(regex::Regex);

/// What `regex::Regex::new` makes of a pattern: the compiled regex, or the
/// text of its diagnostic.
pub uninterp spec fn compiled_from(pattern: Seq<char>) -> Result<regex::Regex, Seq<char>>;

/// Whether a compiled regex finds a match anywhere in `text`: what
/// `regex::Regex::is_match` returns.
pub uninterp spec fn regex_accepts(compiled: regex::Regex, text: Seq<char>) -> bool;

/// Whether `pattern` compiles and, compiled, finds a match in `text`.
pub open spec fn pattern_matches(pattern: Seq<char>, text: Seq<char>) -> bool {
    compiled_from(pattern) matches Ok(compiled) && regex_accepts(compiled, text)
}

/// The pattern that matches what `pattern` matches, and only as the whole
/// of a text: `pattern` as a group between the anchors of start and end.
pub open spec fn anchored(pattern: Seq<char>) -> Seq<char> {
    "^(?:"@ + pattern + ")$"@
}

/// Whether `pattern` matches the whole of `text`, as far as that can be
/// asked: where the anchored pattern compiles, it finds a match in `text`.
/// A pattern that ends in a comment of the verbose syntax is one whose
/// anchored form does not compile.
pub open spec fn matches_in_full(pattern: Seq<char>, text: Seq<char>) -> bool {
    compiled_from(anchored(pattern)) matches Ok(whole) ==> regex_accepts(whole, text)
}

/// Whether `text` is accepted as a sample of `pattern`: the pattern finds a
/// match in it, and matches the whole of it.
pub open spec fn accepts(pattern: Seq<char>, text: Seq<char>) -> bool {
    pattern_matches(pattern, text) && matches_in_full(pattern, text)
}

/// Compiles a pattern.
///
/// Trusted: calls `regex::Regex::new`, which compiles with the crate's
/// default options and depends on the pattern alone, and on failure takes the
/// text that the error displays. The contract names that outcome
/// `compiled_from` and claims nothing else of it.
#[verifier::external_body]
fn compile_regex(pattern: &str) -> (r: Result<regex::Regex, String>)
    ensures
        match r {
            Ok(compiled) => compiled_from(pattern@) == Ok::<regex::Regex, Seq<char>>(compiled),
            Err(reason) => compiled_from(pattern@) == Err::<regex::Regex, Seq<char>>(reason@),
        },
{
    match regex::Regex::new(pattern) {
        Ok(compiled) => Ok(compiled),
        Err(e) => Err(e.to_string()),
    }
}

/// Trusted: `regex::Regex::is_match` searches the haystack for a match of the
/// regex and changes nothing. Its answer depends on the regex and the
/// haystack alone, and is named `regex_accepts`.
pub assume_specification[ regex::Regex::is_match ](
    compiled: &regex::Regex,
    haystack: &str,
) -> (found: bool)
    ensures
        found == regex_accepts(*compiled, haystack@),
;

/// A pattern together with its compiled form, and with the compiled form of
/// the anchored pattern where there is one. A value of this type exists only
/// for a pattern that compiles.
pub struct RegexEngine {
    pattern: String,
    compiled: regex::Regex,
    whole: Option<regex::Regex>,
}

impl View for RegexEngine {
    type V = Seq<char>;

    /// The text of the pattern.
    closed spec fn view(&self) -> Seq<char> {
        self.pattern@
    }
}

impl RegexEngine {
    #[verifier::type_invariant]
    spec fn compiled_from_pattern(self) -> bool {
        &&& compiled_from(self.pattern@) == Ok::<regex::Regex, Seq<char>>(self.compiled)
        &&& match self.whole {
            Some(whole) => compiled_from(anchored(self.pattern@)) == Ok::<regex::Regex, Seq<char>>(
                whole,
            ),
            None => compiled_from(anchored(self.pattern@)) is Err,
        }
    }

    /// Compiles `pattern`. Fails with the compiler's diagnostic exactly when
    /// the pattern does not compile.
    pub fn new(pattern: &str) -> (r: Result<Self, Error>)
        ensures
            match compiled_from(pattern@) {
                Ok(_) => r matches Ok(engine) && engine@ == pattern@,
                Err(reason) => r matches Err(Error::InvalidRegex(text)) && text@ == reason,
            },
    {
        let compiled = match compile_regex(pattern) {
            Ok(compiled) => compiled,
            Err(reason) => {
                return Err(Error::InvalidRegex(reason));
            },
        };
        let anchored_text = String::from_str("^(?:").concat(pattern).concat(")$");
        let whole = match compile_regex(anchored_text.as_str()) {
            Ok(whole) => Some(whole),
            Err(_) => None,
        };
        Ok(Self { pattern: pattern.to_owned(), compiled, whole })
    }

    /// The text of the pattern.
    pub fn pattern(&self) -> (r: &str)
        ensures
            r@ == self@,
    {
        self.pattern.as_str()
    }

    /// Whether the pattern finds a match anywhere in `text`.
    pub fn is_match(&self, text: &str) -> (found: bool)
        ensures
            found == pattern_matches(self@, text@),
            compiled_from(self@) is Ok,
    {
        proof {
            use_type_invariant(self);
        }
        self.compiled.is_match(text)
    }

    /// Whether the pattern matches the whole of `text`, as far as that can
    /// be asked.
    pub fn is_full_match(&self, text: &str) -> (found: bool)
        ensures
            found == matches_in_full(self@, text@),
    {
        proof {
            use_type_invariant(self);
        }
        match &self.whole {
            Some(whole) => whole.is_match(text),
            None => true,
        }
    }

    /// Decides what becomes of what a sampler drew: it is handed on where it
    /// is text that the pattern accepts, and refused where it is no text
    /// (`None`) or the pattern does not accept it.
    pub fn accept(&self, drawn: Option<String>) -> (r: Result<String, Error>)
        ensures
            match drawn {
                Some(text) => if accepts(self@, text@) {
                    r == Ok::<String, Error>(text)
                } else {
                    r matches Err(Error::GenerationFailed(reason)) && reason@
                        == "Sampled text does not match the pattern"@
                },
                None => r matches Err(Error::GenerationFailed(reason)) && reason@
                    == "Sampled bytes are not valid UTF-8"@,
            },
    {
        match drawn {
            Some(text) => {
                if self.is_match(text.as_str()) && self.is_full_match(text.as_str()) {
                    Ok(text)
                } else {
                    Err(
                        Error::GenerationFailed(
                            String::from_str("Sampled text does not match the pattern"),
                        ),
                    )
                }
            },
            None => Err(
                Error::GenerationFailed(String::from_str("Sampled bytes are not valid UTF-8")),
            ),
        }
    }

    /// Checks that `pattern` compiles, and keeps nothing. Fails as `new`
    /// does.
    pub fn validate_pattern(pattern: &str) -> (r: Result<(), Error>)
        ensures
            match compiled_from(pattern@) {
                Ok(_) => r is Ok,
                Err(reason) => r matches Err(Error::InvalidRegex(text)) && text@ == reason,
            },
    {
        match compile_regex(pattern) {
            Ok(_) => Ok(()),
            Err(reason) => Err(Error::InvalidRegex(reason)),
        }
    }
}

} // verus!
