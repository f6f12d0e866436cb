//! The generator: one pattern, one sampler, one random source.

use crate::error::Error;
use crate::regex_engine::{accepts, compiled_from, RegexEngine};
use crate::sampler::{
    drawn_text, entropy_source, sampler_capacity, sampler_for, sampler_is_ascii, seed_source,
    seeded_source, source_after_draw, Sampler,
};
use crate::sequential::{enumerate, is_enumeration_outcome};
use vstd::prelude::*;

verus! {

/// How a batch of strings is produced.
#[derive(Debug, Clone, Copy, PartialEq, Eq, Structural)]
pub enum GenerationMode {
    /// Drawn at random from all that the pattern allows.
    Random,
    /// Enumerated from the smallest string up.
    Sequential,
    /// Enumerated from the largest string down.
    ReverseSequential,
}

/// Generates strings from one pattern. It owns the pattern in compiled form,
/// the sampler made from it and the random source that the sampler draws
/// from.
pub struct DataGenerator {
    regex_engine: RegexEngine,
    regex_generator: Sampler,
    rng: rand::rngs::StdRng,
}

/// What a generator is made of, as far as its results depend on it.
pub ghost struct GeneratorView {
    /// The text of the pattern.
    pub pattern: Seq<char>,
    /// The sampler that strings are drawn with.
    pub sampler: rand_regex::Regex,
    /// The random source, in its present state.
    pub source: rand::rngs::StdRng,
}

impl GeneratorView {
    /// The string that the next draw yields, or `None` where what is drawn
    /// is no text or is not accepted by the pattern.
    pub open spec fn drawn(self) -> Option<Seq<char>> {
        match drawn_text(self.source, self.sampler) {
            Some(text) => if accepts(self.pattern, text) {
                Some(text)
            } else {
                None
            },
            None => None,
        }
    }

    /// Why the next draw is refused, where it is.
    pub open spec fn refusal(self) -> Seq<char> {
        if drawn_text(self.source, self.sampler) is None {
            "Sampled bytes are not valid UTF-8"@
        } else {
            "Sampled text does not match the pattern"@
        }
    }

    /// The generator after one draw.
    pub open spec fn advanced(self) -> GeneratorView {
        GeneratorView { source: source_after_draw(self.source, self.sampler), ..self }
    }

    /// The generator after `draws` draws.
    pub open spec fn advanced_by(self, draws: nat) -> GeneratorView
        decreases draws,
    {
        if draws == 0 {
            self
        } else {
            self.advanced_by((draws - 1) as nat).advanced()
        }
    }

    /// What the draw at place `place` yields, counting from 0.
    pub open spec fn drawn_at(self, place: nat) -> Option<Seq<char>> {
        self.advanced_by(place).drawn()
    }
}

/// Drawing changes the random source and nothing else.
pub proof fn lemma_draws_keep_pattern(before: GeneratorView, draws: nat)
    ensures
        before.advanced_by(draws).pattern == before.pattern,
        before.advanced_by(draws).sampler == before.sampler,
    decreases draws,
{
    if draws > 0 {
        lemma_draws_keep_pattern(before, (draws - 1) as nat);
    }
}

/// Whether `r` is what making a generator for `pattern` must return. A
/// pattern that does not compile is refused as invalid, with the compiler's
/// diagnostic. One that compiles but has no sampler is refused as a failure
/// to generate, with the reason: it does not parse for the chosen domain,
/// its samples are not within the size limit, or the sampler's compiler
/// refuses it. For every other pattern there is a generator, with that
/// pattern and its sampler.
pub open spec fn is_construction(
    pattern: Seq<char>,
    ascii_only: bool,
    r: Result<DataGenerator, Error>,
) -> bool {
    match compiled_from(pattern) {
        Err(reason) => r matches Err(Error::InvalidRegex(text)) && text@ == reason,
        Ok(_) => match sampler_for(pattern, ascii_only) {
            Err(reason) => r matches Err(Error::GenerationFailed(text)) && text@ == reason,
            Ok(sampler) => r matches Ok(generator) && generator@.pattern == pattern
                && generator@.sampler == sampler,
        },
    }
}

/// Whether `r` is what drawing `count` strings must return, and `after` the
/// generator that the draws leave behind. Where every draw yields a string
/// that matches the pattern, these strings are returned in the order in
/// which they were drawn. The first draw that does not ends the batch with a
/// failure, and nothing that was drawn before is returned.
pub open spec fn is_random_batch(
    before: GeneratorView,
    after: GeneratorView,
    count: nat,
    r: Result<Vec<String>, Error>,
) -> bool {
    match r {
        Ok(results) => {
            &&& results.len() == count
            &&& forall|place: nat|
                place < count ==> before.drawn_at(place) == Some(
                    (#[trigger] results[place as int])@,
                )
            &&& after == before.advanced_by(count)
        },
        Err(e) => exists|failed: nat|
            {
                &&& failed < count
                &&& forall|place: nat| place < failed ==> before.drawn_at(place) is Some
                &&& (#[trigger] before.drawn_at(failed)) is None
                &&& e matches Error::GenerationFailed(text) && text@ == before.advanced_by(
                    failed,
                ).refusal()
                &&& after == before.advanced_by(failed + 1)
            },
    }
}

/// Whether the pattern accepts each of the strings: it finds a match in
/// each, and matches the whole of each.
pub open spec fn all_match(pattern: Seq<char>, results: Seq<String>) -> bool {
    forall|i: int| 0 <= i < results.len() ==> accepts(pattern, (#[trigger] results[i])@)
}

/// Every string of a batch that was drawn at random matches the pattern that
/// it was drawn from.
pub proof fn lemma_drawn_strings_match(
    before: GeneratorView,
    after: GeneratorView,
    count: nat,
    batch: Result<Vec<String>, Error>,
)
    requires
        is_random_batch(before, after, count, batch),
    ensures
        batch matches Ok(results) ==> all_match(before.pattern, results@),
{
    if let Ok(results) = batch {
        assert forall|i: int| 0 <= i < results.len() implies accepts(
            before.pattern,
            (#[trigger] results[i])@,
        ) by {
            let place = i as nat;
            lemma_draws_keep_pattern(before, place);
            assert(before.drawn_at(place) == Some(results[place as int]@));
        }
    }
}

/// Whether a generator is the one that `with_seed` (or, with `ascii_only`,
/// `with_seed_ascii_only`) makes of a pattern and a seed, before any draw.
pub open spec fn is_seeded(
    generator: GeneratorView,
    pattern: Seq<char>,
    ascii_only: bool,
    seed: u64,
) -> bool {
    &&& generator.pattern == pattern
    &&& sampler_for(pattern, ascii_only) == Ok::<rand_regex::Regex, Seq<char>>(generator.sampler)
    &&& generator.source == seeded_source(seed)
}

/// Whether two batches are the same: the same strings in the same order, or
/// the same failure.
pub open spec fn same_batch(
    first: Result<Vec<String>, Error>,
    second: Result<Vec<String>, Error>,
) -> bool {
    match (first, second) {
        (Ok(a), Ok(b)) => a.len() == b.len() && forall|i: int|
            0 <= i < a.len() ==> (#[trigger] a[i])@ == b[i]@,
        (Err(Error::GenerationFailed(a)), Err(Error::GenerationFailed(b))) => a@ == b@,
        _ => false,
    }
}

/// Seeded generation is reproducible. Two generators that were made from the
/// same pattern over the same domain with the same seed, and that are each
/// asked for `count` strings, give the same batch and are left in the same
/// state.
pub proof fn lemma_same_seed_same_batch(
    first: GeneratorView,
    second: GeneratorView,
    pattern: Seq<char>,
    ascii_only: bool,
    seed: u64,
    count: nat,
    first_after: GeneratorView,
    second_after: GeneratorView,
    first_batch: Result<Vec<String>, Error>,
    second_batch: Result<Vec<String>, Error>,
)
    requires
        is_seeded(first, pattern, ascii_only, seed),
        is_seeded(second, pattern, ascii_only, seed),
        is_random_batch(first, first_after, count, first_batch),
        is_random_batch(second, second_after, count, second_batch),
    ensures
        same_batch(first_batch, second_batch),
        first_after == second_after,
{
    assert(first == second);
    lemma_same_state_same_batch(first, count, first_after, second_after, first_batch, second_batch);
}

/// A batch is a function of the state in which the generator is asked for
/// it: no two outcomes are possible.
pub proof fn lemma_same_state_same_batch(
    before: GeneratorView,
    count: nat,
    first_after: GeneratorView,
    second_after: GeneratorView,
    first_batch: Result<Vec<String>, Error>,
    second_batch: Result<Vec<String>, Error>,
)
    requires
        is_random_batch(before, first_after, count, first_batch),
        is_random_batch(before, second_after, count, second_batch),
    ensures
        same_batch(first_batch, second_batch),
        first_after == second_after,
{
    match (first_batch, second_batch) {
        (Ok(a), Ok(b)) => {
            assert forall|i: int| 0 <= i < a.len() implies (#[trigger] a[i])@ == b[i]@ by {
                let place = i as nat;
                assert(before.drawn_at(place) == Some(a[place as int]@));
                assert(before.drawn_at(place) == Some(b[place as int]@));
            }
        },
        (Ok(a), Err(_)) => {
            let failed = choose|failed: nat|
                failed < count && (#[trigger] before.drawn_at(failed)) is None;
            assert(before.drawn_at(failed) == Some(a[failed as int]@));
        },
        (Err(_), Ok(b)) => {
            let failed = choose|failed: nat|
                failed < count && (#[trigger] before.drawn_at(failed)) is None;
            assert(before.drawn_at(failed) == Some(b[failed as int]@));
        },
        (Err(e1), Err(e2)) => {
            let f1 = choose|failed: nat|
                {
                    &&& failed < count
                    &&& forall|place: nat| place < failed ==> before.drawn_at(place) is Some
                    &&& (#[trigger] before.drawn_at(failed)) is None
                    &&& e1 matches Error::GenerationFailed(text) && text@ == before.advanced_by(
                        failed,
                    ).refusal()
                    &&& first_after == before.advanced_by(failed + 1)
                };
            let f2 = choose|failed: nat|
                {
                    &&& failed < count
                    &&& forall|place: nat| place < failed ==> before.drawn_at(place) is Some
                    &&& (#[trigger] before.drawn_at(failed)) is None
                    &&& e2 matches Error::GenerationFailed(text) && text@ == before.advanced_by(
                        failed,
                    ).refusal()
                    &&& second_after == before.advanced_by(failed + 1)
                };
            if f1 < f2 {
                assert(before.drawn_at(f1) is Some);
            }
            if f2 < f1 {
                assert(before.drawn_at(f2) is Some);
            }
            assert(f1 == f2);
        },
    }
}

impl View for DataGenerator {
    type V = GeneratorView;

    closed spec fn view(&self) -> GeneratorView {
        GeneratorView {
            pattern: self.regex_engine@,
            sampler: self.regex_generator@,
            source: self.rng,
        }
    }
}

impl DataGenerator {
    /// Validates the pattern, makes its sampler and puts both together with
    /// a random source: the one that belongs to `seed`, or a fresh one.
    fn assemble(pattern: &str, ascii_only: bool, seed: Option<u64>) -> (r: Result<Self, Error>)
        ensures
            is_construction(pattern@, ascii_only, r),
            r matches Ok(generator) ==> (seed matches Some(s) ==> generator@.source
                == seeded_source(s)),
    {
        let regex_engine = match RegexEngine::new(pattern) {
            Ok(engine) => engine,
            Err(e) => {
                return Err(e);
            },
        };
        let regex_generator = match Sampler::compile(pattern, ascii_only) {
            Ok(sampler) => sampler,
            Err(reason) => {
                return Err(Error::GenerationFailed(reason));
            },
        };
        let rng = match seed {
            Some(s) => seed_source(s),
            None => entropy_source(),
        };
        Ok(Self { regex_engine, regex_generator, rng })
    }

    /// A generator over all of Unicode with a fresh random source.
    pub fn new(pattern: &str) -> (r: Result<Self, Error>)
        ensures
            is_construction(pattern@, false, r),
    {
        Self::assemble(pattern, false, None)
    }

    /// A generator over all of Unicode whose random source belongs to
    /// `seed`.
    pub fn with_seed(pattern: &str, seed: u64) -> (r: Result<Self, Error>)
        ensures
            is_construction(pattern@, false, r),
            r matches Ok(generator) ==> is_seeded(generator@, pattern@, false, seed),
    {
        Self::assemble(pattern, false, Some(seed))
    }

    /// A generator over ASCII alone with a fresh random source.
    pub fn new_ascii_only(pattern: &str) -> (r: Result<Self, Error>)
        ensures
            is_construction(pattern@, true, r),
    {
        Self::assemble(pattern, true, None)
    }

    /// A generator over ASCII alone whose random source belongs to `seed`.
    pub fn with_seed_ascii_only(pattern: &str, seed: u64) -> (r: Result<Self, Error>)
        ensures
            is_construction(pattern@, true, r),
            r matches Ok(generator) ==> is_seeded(generator@, pattern@, true, seed),
    {
        Self::assemble(pattern, true, Some(seed))
    }

    /// Draws `count` strings at random.
    pub fn generate(&mut self, count: usize) -> (r: Result<Vec<String>, Error>)
        ensures
            is_random_batch(old(self)@, final(self)@, count as nat, r),
            r matches Ok(results) ==> all_match(old(self)@.pattern, results@),
    {
        self.generate_with_mode(count, GenerationMode::Random)
    }

    /// Produces a batch in the given mode: drawn at random, or enumerated
    /// from the pattern itself, which leaves the random source untouched.
    pub fn generate_with_mode(&mut self, count: usize, mode: GenerationMode) -> (r: Result<
        Vec<String>,
        Error,
    >)
        ensures
            match mode {
                GenerationMode::Random => {
                    &&& is_random_batch(old(self)@, final(self)@, count as nat, r)
                    &&& r matches Ok(results) ==> all_match(old(self)@.pattern, results@)
                },
                GenerationMode::Sequential => {
                    &&& is_enumeration_outcome(old(self)@.pattern, count as int, false, r)
                    &&& final(self)@ == old(self)@
                },
                GenerationMode::ReverseSequential => {
                    &&& is_enumeration_outcome(old(self)@.pattern, count as int, true, r)
                    &&& final(self)@ == old(self)@
                },
            },
    {
        match mode {
            GenerationMode::Random => self.generate_random(count),
            GenerationMode::Sequential => self.generate_sequential(count, false),
            GenerationMode::ReverseSequential => self.generate_sequential(count, true),
        }
    }

    /// Draws `count` strings, one after the other, and gives up at the first
    /// draw that fails.
    pub fn generate_random(&mut self, count: usize) -> (r: Result<Vec<String>, Error>)
        ensures
            is_random_batch(old(self)@, final(self)@, count as nat, r),
            r matches Ok(results) ==> all_match(old(self)@.pattern, results@),
    {
        let ghost before = self@;
        let mut results: Vec<String> = Vec::new();
        let mut done: usize = 0;
        while done < count
            invariant
                done <= count,
                results.len() == done,
                before == old(self)@,
                self@ == before.advanced_by(done as nat),
                forall|place: nat|
                    place < done ==> before.drawn_at(place) == Some(
                        (#[trigger] results[place as int])@,
                    ),
            decreases count - done,
        {
            proof {
                lemma_draws_keep_pattern(before, done as nat);
                assert(before.advanced_by((done + 1) as nat) == before.advanced_by(
                    done as nat,
                ).advanced());
            }
            match self.generate_single() {
                Ok(text) => {
                    results.push(text);
                },
                Err(e) => {
                    proof {
                        let failed = done as nat;
                        assert forall|place: nat| place < failed implies before.drawn_at(
                            place,
                        ) is Some by {
                            assert(before.drawn_at(place) == Some(results[place as int]@));
                        }
                        assert(before.drawn_at(failed) is None);
                        assert(self@ == before.advanced_by(failed + 1));
                    }
                    return Err(e);
                },
            }
            done = done + 1;
        }
        proof {
            lemma_drawn_strings_match(before, self@, count as nat, Ok(results));
        }
        Ok(results)
    }

    /// Draws one string and checks it against the pattern.
    pub fn generate_single(&mut self) -> (r: Result<String, Error>)
        ensures
            final(self)@ == old(self)@.advanced(),
            match old(self)@.drawn() {
                Some(text) => r matches Ok(drawn) && drawn@ == text,
                None => r matches Err(Error::GenerationFailed(reason)) && reason@ == old(
                    self,
                )@.refusal(),
            },
            r matches Ok(drawn) ==> accepts(old(self)@.pattern, drawn@),
    {
        let drawn = self.regex_generator.draw(&mut self.rng);
        self.regex_engine.accept(drawn)
    }

    /// Whether the sampler can only yield ASCII strings.
    pub fn is_ascii(&self) -> (ascii: bool)
        ensures
            ascii == sampler_is_ascii(self@.sampler),
    {
        self.regex_generator.is_ascii()
    }

    /// The greatest length in bytes of a string that the sampler yields.
    pub fn capacity(&self) -> (capacity: usize)
        ensures
            capacity == sampler_capacity(self@.sampler),
    {
        self.regex_generator.capacity()
    }

    /// The text of the pattern.
    pub fn pattern(&self) -> (r: &str)
        ensures
            r@ == self@.pattern,
    {
        self.regex_engine.pattern()
    }

    /// Enumerates strings from the pattern itself. A pattern that has none
    /// of the recognized shapes is refused; nothing is drawn in its place.
    pub fn generate_sequential(&self, count: usize, reverse: bool) -> (r: Result<
        Vec<String>,
        Error,
    >)
        ensures
            is_enumeration_outcome(self@.pattern, count as int, reverse, r),
    {
        enumerate(self.regex_engine.pattern(), count, reverse)
    }
}

} // verus!
