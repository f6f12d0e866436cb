//! Drawing random strings from a pattern.
//!
//! The work is done by three crates: `regex-syntax` parses a pattern,
//! `rand_regex` turns it into a sampler, and `rand` supplies the generator
//! that a sampler draws from. Their values are opaque here. What they compute
//! is named below, and each trusted item says which name its result is.
//!
//! A `Sampler` is made only of a pattern whose structure is within limits,
//! so that none of the sampler's sums and products leaves its integer type.

use crate::structure::{within_limits, Structure};
use regex_syntax::hir::HirKind;
use vstd::prelude::*;
use vstd::string::StringExecFns;

verus! {

#[verifier::external_type_specification]
#[verifier::external_body]
pub struct ExSampler(rand_regex::Regex);

#[verifier::external_type_specification]
#[verifier::external_body]
pub struct ExParsedPattern(regex_syntax::hir::Hir);

#[verifier::external_type_specification]
#[verifier::external_body]
pub struct ExRandomSource(rand::rngs::StdRng);

/// How often, at most, a sampler repeats what a pattern allows to repeat
/// without limit, on top of the least number of repeats that it demands.
pub const MAX_REPEAT: u32 = 100;

/// What the parser of `regex-syntax` makes of a pattern, with Unicode mode
/// switched on or off and every other option left as it is: the parsed
/// pattern, or the text of its diagnostic.
pub uninterp spec fn parsed_pattern(pattern: Seq<char>, unicode: bool) -> Result<
    regex_syntax::hir::Hir,
    Seq<char>,
>;

/// The structure of a parsed pattern: its kinds, the limits of its
/// repetitions and the bytes of its literals.
pub uninterp spec fn hir_structure(parsed: regex_syntax::hir::Hir) -> Structure;

/// What `rand_regex::Regex::with_hir` makes of a parsed pattern and a repeat
/// limit: the sampler, or the text of its diagnostic.
pub uninterp spec fn sampler_from_parsed(parsed: regex_syntax::hir::Hir, max_repeat: u32) -> Result<
    rand_regex::Regex,
    Seq<char>,
>;

/// Whether a sampler was made of a parsed pattern that is within limits.
pub open spec fn made_within_limits(sampler: rand_regex::Regex) -> bool {
    exists|parsed: regex_syntax::hir::Hir, max_repeat: u32|
        {
            &&& max_repeat <= MAX_REPEAT
            &&& within_limits(hir_structure(parsed), max_repeat)
            &&& #[trigger] sampler_from_parsed(parsed, max_repeat) == Ok::<
                rand_regex::Regex,
                Seq<char>,
            >(sampler)
        }
}

/// Whether a sampler can only yield ASCII strings: what
/// `rand_regex::Regex::is_ascii` returns.
pub uninterp spec fn sampler_is_ascii(sampler: rand_regex::Regex) -> bool;

/// The greatest length in bytes of what a sampler yields: what
/// `rand_regex::Regex::capacity` returns.
pub uninterp spec fn sampler_capacity(sampler: rand_regex::Regex) -> usize;

/// The generator that `seed_from_u64` makes of a seed.
pub uninterp spec fn seeded_source(seed: u64) -> rand::rngs::StdRng;

/// What comes of one draw of a sampler from a generator in a given state:
/// the text that is drawn, or `None` where the bytes drawn are no UTF-8 text,
/// and the generator as the draw leaves it.
pub uninterp spec fn draw_outcome(source: rand::rngs::StdRng, sampler: rand_regex::Regex) -> (
    Option<Seq<char>>,
    rand::rngs::StdRng,
);

/// The text that a draw yields.
pub open spec fn drawn_text(source: rand::rngs::StdRng, sampler: rand_regex::Regex) -> Option<
    Seq<char>,
> {
    draw_outcome(source, sampler).0
}

/// The state in which a draw leaves the generator.
pub open spec fn source_after_draw(
    source: rand::rngs::StdRng,
    sampler: rand_regex::Regex,
) -> rand::rngs::StdRng {
    draw_outcome(source, sampler).1
}

/// Parses a pattern, with Unicode mode switched on or off.
///
/// Trusted: builds the parser of `regex-syntax` with `unicode(..)` and every
/// other option at its default, and calls its `parse`, which reads nothing
/// but the pattern; on failure takes the text that the error displays. The
/// contract names that outcome and claims nothing else of it.
#[verifier::external_body]
pub(crate) fn parse_pattern(pattern: &str, unicode: bool) -> (r: Result<
    regex_syntax::hir::Hir,
    String,
>)
    ensures
        match r {
            Ok(parsed) => parsed_pattern(pattern@, unicode) == Ok::<
                regex_syntax::hir::Hir,
                Seq<char>,
            >(parsed),
            Err(reason) => parsed_pattern(pattern@, unicode) == Err::<
                regex_syntax::hir::Hir,
                Seq<char>,
            >(reason@),
        },
{
    match regex_syntax::ParserBuilder::new().unicode(unicode).build().parse(pattern) {
        Ok(parsed) => Ok(parsed),
        Err(e) => Err(e.to_string()),
    }
}

/// Reads the structure of a parsed pattern.
///
/// Trusted: tells the kinds of `regex_syntax::hir::HirKind` apart and copies
/// what they hold: the bytes of a literal, the limits of a repetition, and
/// the parts, each read in the same way. Nothing is computed. The contract
/// names the result.
#[verifier::external_body]
pub(crate) fn read_structure(parsed: &regex_syntax::hir::Hir) -> (s: Structure)
    ensures
        s == hir_structure(*parsed),
{
    match parsed.kind() {
        HirKind::Empty => Structure::Empty,
        HirKind::Literal(literal) => Structure::Literal(literal.0.to_vec()),
        HirKind::Class(_) => Structure::Class,
        HirKind::Look(_) => Structure::Look,
        HirKind::Repetition(rep) => {
            let sub = Box::new(read_structure(&rep.sub));
            Structure::Repetition { min: rep.min, max: rep.max, sub }
        },
        HirKind::Capture(group) => Structure::Capture(Box::new(read_structure(&group.sub))),
        HirKind::Concat(parts) => Structure::Concat(parts.iter().map(read_structure).collect()),
        HirKind::Alternation(parts) => {
            Structure::Alternation(parts.iter().map(read_structure).collect())
        },
    }
}

/// Compiles a parsed pattern into a sampler.
///
/// Trusted: calls `rand_regex::Regex::with_hir`, which reads nothing but its
/// two arguments; on failure takes the text that the error displays. The
/// contract names that outcome and claims nothing else of it.
///
/// `with_hir` adds `max_repeat` to the minimum of every repetition,
/// multiplies the length of what is repeated by the limit of the repetition,
/// multiplies the limits of repetitions nested in one another, and adds the
/// lengths of the parts of a sequence, all in machine integers and
/// unchecked. `requires` admits the patterns for which `within_limits`
/// bounds each of these numbers by `SIZE_LIMIT`.
#[verifier::external_body]
pub(crate) fn compile_parsed(parsed: regex_syntax::hir::Hir, max_repeat: u32) -> (r: Result<
    rand_regex::Regex,
    String,
>)
    requires
        max_repeat <= MAX_REPEAT,
        within_limits(hir_structure(parsed), max_repeat),
    ensures
        match r {
            Ok(sampler) => sampler_from_parsed(parsed, max_repeat) == Ok::<
                rand_regex::Regex,
                Seq<char>,
            >(sampler),
            Err(reason) => sampler_from_parsed(parsed, max_repeat) == Err::<
                rand_regex::Regex,
                Seq<char>,
            >(reason@),
        },
{
    match rand_regex::Regex::with_hir(parsed, max_repeat) {
        Ok(sampler) => Ok(sampler),
        Err(e) => Err(e.to_string()),
    }
}

/// Trusted: `rand_regex::Regex::is_ascii` reads the encoding that was found
/// when the sampler was compiled. The contract names its answer.
pub assume_specification[ rand_regex::Regex::is_ascii ](sampler: &rand_regex::Regex) -> (ascii:
    bool)
    ensures
        ascii == sampler_is_ascii(*sampler),
;

/// Trusted: `rand_regex::Regex::capacity` reads the length that was found
/// when the sampler was compiled. The contract names its answer.
pub assume_specification[ rand_regex::Regex::capacity ](sampler: &rand_regex::Regex) -> (capacity:
    usize)
    ensures
        capacity == sampler_capacity(*sampler),
;

/// A generator seeded from the entropy of the thread.
///
/// Trusted: calls `rand::rng` and `StdRng::from_rng`. Nothing is claimed of
/// the result: no two runs give the same generator.
#[verifier::external_body]
pub(crate) fn entropy_source() -> rand::rngs::StdRng {
    let mut thread_rng = rand::rng();
    rand::SeedableRng::from_rng(&mut thread_rng)
}

/// The generator that belongs to a seed.
///
/// Trusted: calls `StdRng::seed_from_u64`, which spreads the seed over 32
/// bytes with a fixed permutation and starts the ChaCha generator with 12
/// rounds, which `StdRng` holds, from these bytes. The same seed gives the
/// same generator; the contract names it.
#[verifier::external_body]
pub(crate) fn seed_source(seed: u64) -> (source: rand::rngs::StdRng)
    ensures
        source == seeded_source(seed),
{
    rand::SeedableRng::seed_from_u64(seed)
}

/// Draws one string.
///
/// Trusted: calls `rand::Rng::sample` with the sampler, asking for the
/// fallible form of the result, which holds an error instead of panicking
/// where the bytes drawn are no UTF-8 text. The sampler walks its compiled
/// pattern and takes every choice from the generator, so what is drawn, and
/// the state in which the generator is left, depend on the generator's
/// state and the sampler alone: equal states give equal draws. The contract
/// names both. It does not say that the text matches any pattern.
///
/// Sampling multiplies, for each part of the pattern, one number drawn from
/// each of the repetitions nested around it, in `u32` and unchecked, and it
/// allocates the sampler's capacity. `requires` admits the samplers that
/// were made of a pattern within limits: for these each product is at most
/// the pattern's `repeat_bound`, and the capacity at most its
/// `capacity_bound`.
#[verifier::external_body]
pub(crate) fn draw(source: &mut rand::rngs::StdRng, sampler: &rand_regex::Regex) -> (r: Option<
    String,
>)
    requires
        made_within_limits(*sampler),
    ensures
        draw_outcome(*old(source), *sampler) == (
            match r {
                Some(text) => Some(text@),
                None => None::<Seq<char>>,
            },
            *final(source),
        ),
{
    let sampled: Result<String, std::string::FromUtf8Error> = rand::Rng::sample(source, sampler);
    sampled.ok()
}

/// The sampler that belongs to a pattern: over all of Unicode, or, with
/// `ascii_only`, over what the pattern means with Unicode mode switched
/// off. A pattern that does not parse, that is not within limits, or that
/// the sampler's compiler refuses has none, and the reason is given.
pub open spec fn sampler_for(pattern: Seq<char>, ascii_only: bool) -> Result<
    rand_regex::Regex,
    Seq<char>,
> {
    match parsed_pattern(pattern, !ascii_only) {
        Ok(parsed) => if within_limits(hir_structure(parsed), MAX_REPEAT) {
            sampler_from_parsed(parsed, MAX_REPEAT)
        } else {
            Err("Pattern allows samples beyond the size limit"@)
        },
        Err(reason) => Err(reason),
    }
}

/// A sampler that strings can be drawn from: one that was made of a pattern
/// within limits.
pub struct Sampler {
    inner: rand_regex::Regex,
}

impl View for Sampler {
    type V = rand_regex::Regex;

    closed spec fn view(&self) -> rand_regex::Regex {
        self.inner
    }
}

impl Sampler {
    #[verifier::type_invariant]
    spec fn drawable(self) -> bool {
        made_within_limits(self.inner)
    }

    /// Makes the sampler of a pattern, or says why there is none.
    pub fn compile(pattern: &str, ascii_only: bool) -> (r: Result<Self, String>)
        ensures
            match r {
                Ok(sampler) => sampler_for(pattern@, ascii_only) == Ok::<
                    rand_regex::Regex,
                    Seq<char>,
                >(sampler@),
                Err(reason) => sampler_for(pattern@, ascii_only) == Err::<
                    rand_regex::Regex,
                    Seq<char>,
                >(reason@),
            },
    {
        let parsed = match parse_pattern(pattern, !ascii_only) {
            Ok(parsed) => parsed,
            Err(reason) => {
                return Err(reason);
            },
        };
        if !read_structure(&parsed).fits(MAX_REPEAT) {
            return Err(String::from_str("Pattern allows samples beyond the size limit"));
        }
        match compile_parsed(parsed, MAX_REPEAT) {
            Ok(inner) => {
                proof {
                    assert(sampler_from_parsed(parsed, MAX_REPEAT) == Ok::<
                        rand_regex::Regex,
                        Seq<char>,
                    >(inner));
                }
                Ok(Sampler { inner })
            },
            Err(reason) => Err(reason),
        }
    }

    /// Draws one string: the text, or `None` where the bytes drawn are no
    /// UTF-8 text.
    pub fn draw(&self, source: &mut rand::rngs::StdRng) -> (r: Option<String>)
        ensures
            draw_outcome(*old(source), self@) == (
                match r {
                    Some(text) => Some(text@),
                    None => None::<Seq<char>>,
                },
                *final(source),
            ),
    {
        proof {
            use_type_invariant(self);
        }
        draw(source, &self.inner)
    }

    /// Whether the sampler can only yield ASCII strings.
    pub fn is_ascii(&self) -> (ascii: bool)
        ensures
            ascii == sampler_is_ascii(self@),
    {
        self.inner.is_ascii()
    }

    /// The greatest length in bytes of a string that the sampler yields.
    pub fn capacity(&self) -> (capacity: usize)
        ensures
            capacity == sampler_capacity(self@),
    {
        self.inner.capacity()
    }
}

} // verus!
