//! How large the samples of a pattern can get.
//!
//! A sampler repeats what a pattern allows to repeat, and it keeps its
//! counts and lengths in machine integers. Before a sampler is made, the
//! structure of the parsed pattern is read and measured here: how long a
//! sample can get, and how often the innermost part of nested repetitions
//! can be repeated in all. A pattern is sampled only if both stay within
//! `SIZE_LIMIT`.

use vstd::prelude::*;

verus! {

/// The greatest length of a sample, in bytes, and the greatest number of
/// repeats that nested repetitions may multiply to.
pub const SIZE_LIMIT: u32 = 0x7fff_ffff;

/// The length that is reckoned for one character of a class: that of the
/// longest UTF-8 encoding.
pub const CLASS_LENGTH: u32 = 4;

/// A parsed pattern, as far as the size of its samples depends on it.
pub enum Structure {
    /// Matches the empty string.
    Empty,
    /// Matches these bytes.
    Literal(Vec<u8>),
    /// Matches one character of a class.
    Class,
    /// An anchor or a boundary.
    Look,
    /// `sub` repeated at least `min` times and at most `max` times, or
    /// without an upper limit.
    Repetition { min: u32, max: Option<u32>, sub: Box<Structure> },
    /// A group.
    Capture(Box<Structure>),
    /// The parts one after the other.
    Concat(Vec<Structure>),
    /// One of the parts.
    Alternation(Vec<Structure>),
}

/// How often a repetition is repeated at most, where one without an upper
/// limit runs `max_repeat` times beyond its minimum.
pub open spec fn most_repeats(min: u32, max: Option<u32>, max_repeat: u32) -> int {
    match max {
        Some(most) => most as int,
        None => min + max_repeat,
    }
}

/// An upper bound of the length of a sample, in bytes. What is repeated 0
/// times at most counts for nothing.
pub open spec fn capacity_bound(s: Structure, max_repeat: u32) -> int
    decreases s,
{
    match s {
        Structure::Empty => 0,
        Structure::Literal(bytes) => bytes@.len() as int,
        Structure::Class => CLASS_LENGTH as int,
        Structure::Look => 0,
        Structure::Repetition { min, max, sub } => if most_repeats(min, max, max_repeat) == 0 {
            0
        } else {
            capacity_bound(*sub, max_repeat) * most_repeats(min, max, max_repeat)
        },
        Structure::Capture(sub) => capacity_bound(*sub, max_repeat),
        Structure::Concat(parts) => total_capacity(parts@, parts@.len(), max_repeat),
        Structure::Alternation(parts) => greatest_capacity(parts@, parts@.len(), max_repeat),
    }
}

/// The sum of the bounds of the first `upto` parts.
pub open spec fn total_capacity(parts: Seq<Structure>, upto: nat, max_repeat: u32) -> int
    decreases parts, upto,
{
    if upto == 0 || upto > parts.len() {
        0
    } else {
        total_capacity(parts, (upto - 1) as nat, max_repeat) + capacity_bound(
            parts[upto - 1],
            max_repeat,
        )
    }
}

/// The greatest of the bounds of the first `upto` parts.
pub open spec fn greatest_capacity(parts: Seq<Structure>, upto: nat, max_repeat: u32) -> int
    decreases parts, upto,
{
    if upto == 0 || upto > parts.len() {
        0
    } else {
        let before = greatest_capacity(parts, (upto - 1) as nat, max_repeat);
        let this = capacity_bound(parts[upto - 1], max_repeat);
        if this > before {
            this
        } else {
            before
        }
    }
}

/// An upper bound of the number of times that the innermost part of
/// repetitions nested in one another is repeated in all: the product of
/// their limits. Groups, sequences and alternatives hand the greatest bound
/// of their parts on, so that no nesting is missed.
pub open spec fn repeat_bound(s: Structure, max_repeat: u32) -> int
    decreases s,
{
    match s {
        Structure::Repetition { min, max, sub } => if most_repeats(min, max, max_repeat) == 0 {
            1
        } else {
            repeat_bound(*sub, max_repeat) * most_repeats(min, max, max_repeat)
        },
        Structure::Capture(sub) => repeat_bound(*sub, max_repeat),
        Structure::Concat(parts) => greatest_repeats(parts@, parts@.len(), max_repeat),
        Structure::Alternation(parts) => greatest_repeats(parts@, parts@.len(), max_repeat),
        _ => 1,
    }
}

/// The greatest of the repeat bounds of the first `upto` parts, and at
/// least 1.
pub open spec fn greatest_repeats(parts: Seq<Structure>, upto: nat, max_repeat: u32) -> int
    decreases parts, upto,
{
    if upto == 0 || upto > parts.len() {
        1
    } else {
        let before = greatest_repeats(parts, (upto - 1) as nat, max_repeat);
        let this = repeat_bound(parts[upto - 1], max_repeat);
        if this > before {
            this
        } else {
            before
        }
    }
}

/// Whether every length and every product of repeats that the pattern gives
/// rise to stays within `SIZE_LIMIT`, and the minimum of every repetition
/// leaves room for `max_repeat` more. What stands inside a repetition of at
/// most 0 times is not looked at: it is never sampled.
pub open spec fn within_limits(s: Structure, max_repeat: u32) -> bool
    decreases s,
{
    match s {
        Structure::Literal(bytes) => bytes@.len() <= SIZE_LIMIT,
        Structure::Repetition { min, max, sub } => {
            &&& min + max_repeat <= u32::MAX
            &&& most_repeats(min, max, max_repeat) == 0 || {
                &&& within_limits(*sub, max_repeat)
                &&& capacity_bound(s, max_repeat) <= SIZE_LIMIT
                &&& repeat_bound(s, max_repeat) <= SIZE_LIMIT
            }
        },
        Structure::Capture(sub) => within_limits(*sub, max_repeat),
        Structure::Concat(parts) => {
            &&& all_within_limits(parts@, parts@.len(), max_repeat)
            &&& capacity_bound(s, max_repeat) <= SIZE_LIMIT
        },
        Structure::Alternation(parts) => all_within_limits(parts@, parts@.len(), max_repeat),
        _ => true,
    }
}

/// Whether each of the first `upto` parts is within limits.
pub open spec fn all_within_limits(parts: Seq<Structure>, upto: nat, max_repeat: u32) -> bool
    decreases parts, upto,
{
    if upto == 0 || upto > parts.len() {
        true
    } else {
        all_within_limits(parts, (upto - 1) as nat, max_repeat) && within_limits(
            parts[upto - 1],
            max_repeat,
        )
    }
}

/// If the first parts are not all within limits, neither are more of them.
proof fn lemma_all_within_limits_shrinks(
    parts: Seq<Structure>,
    fewer: nat,
    upto: nat,
    max_repeat: u32,
)
    requires
        fewer <= upto <= parts.len(),
        all_within_limits(parts, upto, max_repeat),
    ensures
        all_within_limits(parts, fewer, max_repeat),
    decreases upto,
{
    if fewer < upto {
        lemma_all_within_limits_shrinks(parts, fewer, (upto - 1) as nat, max_repeat);
    }
}

/// The two bounds of a structure that is within limits.
pub struct Measure {
    /// The bound of the length of a sample.
    pub capacity: u32,
    /// The bound of the product of nested repeats.
    pub repeats: u32,
}

impl Structure {
    /// Measures the structure. The result is `None` exactly when it is not
    /// within limits.
    pub fn measure(&self, max_repeat: u32) -> (r: Option<Measure>)
        ensures
            r is Some <==> within_limits(*self, max_repeat),
            r matches Some(m) ==> {
                &&& m.capacity == capacity_bound(*self, max_repeat)
                &&& m.repeats == repeat_bound(*self, max_repeat)
                &&& m.capacity <= SIZE_LIMIT
                &&& 1 <= m.repeats <= SIZE_LIMIT
            },
        decreases *self,
    {
        match self {
            Structure::Empty => Some(Measure { capacity: 0, repeats: 1 }),
            Structure::Look => Some(Measure { capacity: 0, repeats: 1 }),
            Structure::Class => Some(Measure { capacity: CLASS_LENGTH, repeats: 1 }),
            Structure::Literal(bytes) => {
                if bytes.len() <= SIZE_LIMIT as usize {
                    Some(Measure { capacity: bytes.len() as u32, repeats: 1 })
                } else {
                    None
                }
            },
            Structure::Capture(sub) => sub.measure(max_repeat),
            Structure::Repetition { min, max, sub } => {
                if *min as u64 + max_repeat as u64 > u32::MAX as u64 {
                    return None;
                }
                let most: u64 = match max {
                    Some(most) => *most as u64,
                    None => *min as u64 + max_repeat as u64,
                };
                if most == 0 {
                    return Some(Measure { capacity: 0, repeats: 1 });
                }
                let inner = match sub.measure(max_repeat) {
                    Some(inner) => inner,
                    None => {
                        return None;
                    },
                };
                proof {
                    assert(inner.capacity as int * most as int <= 0x7fff_ffff * 0xffff_ffff)
                        by (nonlinear_arith)
                        requires
                            0 <= inner.capacity <= 0x7fff_ffff,
                            0 <= most <= 0xffff_ffff,
                    ;
                    assert(1 <= inner.repeats as int * most as int <= 0x7fff_ffff * 0xffff_ffff)
                        by (nonlinear_arith)
                        requires
                            1 <= inner.repeats <= 0x7fff_ffff,
                            1 <= most <= 0xffff_ffff,
                    ;
                }
                let capacity: u64 = inner.capacity as u64 * most;
                let repeats: u64 = inner.repeats as u64 * most;
                if capacity > SIZE_LIMIT as u64 || repeats > SIZE_LIMIT as u64 {
                    return None;
                }
                Some(Measure { capacity: capacity as u32, repeats: repeats as u32 })
            },
            Structure::Concat(parts) => {
                let mut capacity: u64 = 0;
                let mut repeats: u32 = 1;
                let mut at: usize = 0;
                while at < parts.len()
                    invariant
                        at <= parts.len(),
                        *self is Concat,
                        self->Concat_0 == *parts,
                        all_within_limits(parts@, at as nat, max_repeat),
                        capacity <= SIZE_LIMIT + 1,
                        capacity == if total_capacity(parts@, at as nat, max_repeat)
                            <= SIZE_LIMIT {
                            total_capacity(parts@, at as nat, max_repeat)
                        } else {
                            SIZE_LIMIT + 1
                        },
                        0 <= total_capacity(parts@, at as nat, max_repeat),
                        repeats == greatest_repeats(parts@, at as nat, max_repeat),
                        1 <= repeats <= SIZE_LIMIT,
                    decreases parts.len() - at,
                {
                    proof {
                        vstd::std_specs::vec::axiom_vec_index_decreases(*parts, at as int);
                        assert(decreases_to!(*self => self->Concat_0));
                        assert(decreases_to!(*parts => parts[at as int]));
                    }
                    let part = match parts[at].measure(max_repeat) {
                        Some(part) => part,
                        None => {
                            proof {
                                if all_within_limits(parts@, parts@.len(), max_repeat) {
                                    lemma_all_within_limits_shrinks(
                                        parts@,
                                        (at + 1) as nat,
                                        parts@.len(),
                                        max_repeat,
                                    );
                                }
                            }
                            return None;
                        },
                    };
                    capacity = capacity + part.capacity as u64;
                    if capacity > SIZE_LIMIT as u64 {
                        capacity = SIZE_LIMIT as u64 + 1;
                    }
                    if part.repeats > repeats {
                        repeats = part.repeats;
                    }
                    at = at + 1;
                }
                if capacity > SIZE_LIMIT as u64 {
                    return None;
                }
                Some(Measure { capacity: capacity as u32, repeats })
            },
            Structure::Alternation(parts) => {
                let mut capacity: u32 = 0;
                let mut repeats: u32 = 1;
                let mut at: usize = 0;
                while at < parts.len()
                    invariant
                        at <= parts.len(),
                        *self is Alternation,
                        self->Alternation_0 == *parts,
                        all_within_limits(parts@, at as nat, max_repeat),
                        capacity == greatest_capacity(parts@, at as nat, max_repeat),
                        capacity <= SIZE_LIMIT,
                        repeats == greatest_repeats(parts@, at as nat, max_repeat),
                        1 <= repeats <= SIZE_LIMIT,
                    decreases parts.len() - at,
                {
                    proof {
                        vstd::std_specs::vec::axiom_vec_index_decreases(*parts, at as int);
                        assert(decreases_to!(*self => self->Alternation_0));
                        assert(decreases_to!(*parts => parts[at as int]));
                    }
                    let part = match parts[at].measure(max_repeat) {
                        Some(part) => part,
                        None => {
                            proof {
                                if all_within_limits(parts@, parts@.len(), max_repeat) {
                                    lemma_all_within_limits_shrinks(
                                        parts@,
                                        (at + 1) as nat,
                                        parts@.len(),
                                        max_repeat,
                                    );
                                }
                            }
                            return None;
                        },
                    };
                    if part.capacity > capacity {
                        capacity = part.capacity;
                    }
                    if part.repeats > repeats {
                        repeats = part.repeats;
                    }
                    at = at + 1;
                }
                Some(Measure { capacity, repeats })
            },
        }
    }

    /// Whether the structure is within limits.
    pub fn fits(&self, max_repeat: u32) -> (r: bool)
        ensures
            r == within_limits(*self, max_repeat),
    {
        self.measure(max_repeat).is_some()
    }
}

} // verus!
