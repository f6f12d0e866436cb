//! The pattern shapes that can be enumerated exactly.
//!
//! Two shapes are recognized, each as the whole pattern and nothing else:
//! a range of lowercase letters repeated a fixed number of times, written
//! `[x-y]{n}`, and the ten decimal digits repeated a fixed number of times,
//! written `[0-9]{n}`. The count `n` is written in decimal digits and must be
//! at least 1 and small enough for a `usize`.

use vstd::prelude::*;
use vstd::string::StringSliceAdditionalSpecFns;

verus! {

/// A pattern whose language is all strings of one length over one run of
/// consecutive characters.
#[derive(Clone, Copy, Debug, PartialEq, Eq, Structural)]
pub enum RecognizedShape {
    /// `length` letters, each between `start` and `end`.
    CharRange { start: char, end: char, length: usize },
    /// `length` decimal digits.
    DigitRun { length: usize },
}

pub open spec fn is_lower(c: char) -> bool {
    'a' <= c <= 'z'
}

pub open spec fn is_digit(c: char) -> bool {
    '0' <= c <= '9'
}

/// The number that the decimal digits `digits` spell. Leading zeros count for
/// nothing, and the empty sequence spells 0.
pub open spec fn decimal_value(digits: Seq<char>) -> nat
    decreases digits.len(),
{
    if digits.len() == 0 {
        0
    } else {
        (10 * decimal_value(digits.drop_last()) + (digits.last() as u32 - '0' as u32)) as nat
    }
}

/// The digits of a repeat count `{n}` that starts at `at` and ends the
/// pattern, or `None` when the pattern does not end in one.
pub open spec fn count_digits(pattern: Seq<char>, at: int) -> Option<Seq<char>> {
    let digits = pattern.subrange(at + 1, pattern.len() - 1);
    if pattern.len() >= at + 3 && pattern[at] == '{' && pattern.last() == '}' && (forall|i: int|
        0 <= i < digits.len() ==> is_digit(#[trigger] digits[i])) {
        Some(digits)
    } else {
        None
    }
}

/// Whether the pattern is written as a range of two lowercase letters with a
/// repeat count.
pub open spec fn reads_as_letters(pattern: Seq<char>) -> bool {
    &&& pattern.len() >= 8
    &&& pattern[0] == '['
    &&& is_lower(pattern[1])
    &&& pattern[2] == '-'
    &&& is_lower(pattern[3])
    &&& pattern[4] == ']'
    &&& count_digits(pattern, 5) is Some
}

/// Whether the pattern is written as the class of decimal digits with a
/// repeat count.
pub open spec fn reads_as_digits(pattern: Seq<char>) -> bool {
    &&& pattern.len() >= 8
    &&& pattern[0] == '['
    &&& pattern[1] == '0'
    &&& pattern[2] == '-'
    &&& pattern[3] == '9'
    &&& pattern[4] == ']'
    &&& count_digits(pattern, 5) is Some
}

/// The shape that a pattern has, if it has one. The letter range is tried
/// first; no pattern reads both ways.
pub open spec fn shape_of(pattern: Seq<char>) -> Option<RecognizedShape> {
    if reads_as_letters(pattern) {
        let n = decimal_value(count_digits(pattern, 5)->0);
        if pattern[1] <= pattern[3] && 1 <= n <= usize::MAX {
            Some(
                RecognizedShape::CharRange {
                    start: pattern[1],
                    end: pattern[3],
                    length: n as usize,
                },
            )
        } else {
            None
        }
    } else if reads_as_digits(pattern) {
        let n = decimal_value(count_digits(pattern, 5)->0);
        if 1 <= n <= usize::MAX {
            Some(RecognizedShape::DigitRun { length: n as usize })
        } else {
            None
        }
    } else {
        None
    }
}

impl RecognizedShape {
    /// What holds of every shape that `recognize` returns.
    pub open spec fn wf(self) -> bool {
        match self {
            RecognizedShape::CharRange { start, end, length } => {
                &&& is_lower(start)
                &&& is_lower(end)
                &&& start <= end
                &&& length >= 1
            },
            RecognizedShape::DigitRun { length } => length >= 1,
        }
    }

    /// The character that stands for the digit 0.
    pub open spec fn first(self) -> char {
        match self {
            RecognizedShape::CharRange { start, .. } => start,
            RecognizedShape::DigitRun { .. } => '0',
        }
    }

    /// The character that stands for the largest digit.
    pub open spec fn last(self) -> char {
        match self {
            RecognizedShape::CharRange { end, .. } => end,
            RecognizedShape::DigitRun { .. } => '9',
        }
    }

    /// The size of the alphabet.
    pub open spec fn base(self) -> int {
        match self {
            RecognizedShape::CharRange { start, end, .. } => end as u32 - start as u32 + 1,
            RecognizedShape::DigitRun { .. } => 10,
        }
    }

    /// The length of every string of the shape.
    pub open spec fn length(self) -> nat {
        match self {
            RecognizedShape::CharRange { length, .. } => length as nat,
            RecognizedShape::DigitRun { length } => length as nat,
        }
    }
}

/// The characters that a sequence of ASCII bytes stands for.
pub open spec fn ascii_text(bytes: Seq<u8>) -> Seq<char> {
    Seq::new(bytes.len(), |i: int| bytes[i] as char)
}

/// A longer run of digits never spells a smaller number.
proof fn lemma_decimal_value_grows(digits: Seq<char>, shorter: int)
    requires
        0 <= shorter <= digits.len(),
        forall|i: int| 0 <= i < digits.len() ==> is_digit(#[trigger] digits[i]),
    ensures
        decimal_value(digits.subrange(0, shorter)) <= decimal_value(digits),
    decreases digits.len() - shorter,
{
    if shorter == digits.len() {
        assert(digits.subrange(0, shorter) =~= digits);
    } else {
        lemma_decimal_value_grows(digits.drop_last(), shorter);
        assert(digits.drop_last().subrange(0, shorter) =~= digits.subrange(0, shorter));
    }
}

/// Whether a byte is the ASCII character `c`.
fn is_char(byte: u8, c: char) -> (r: bool)
    requires
        c <= '\u{7f}',
    ensures
        r == (byte as char == c),
{
    byte == c as u8
}

/// Whether a byte is an ASCII character between `low` and `high`.
fn is_between(byte: u8, low: char, high: char) -> (r: bool)
    requires
        high <= '\u{7f}',
    ensures
        r == (low <= byte as char <= high),
{
    low as u32 <= byte as u32 && byte as u32 <= high as u32
}

/// Reads the decimal number written in `bytes[from..to]`. The result is
/// `None` when a byte is no digit or the number does not fit.
fn parse_count(bytes: &[u8], from: usize, to: usize) -> (r: Option<usize>)
    requires
        from <= to <= bytes.len(),
    ensures
        ({
            let digits = ascii_text(bytes@).subrange(from as int, to as int);
            let all_digits = forall|i: int| 0 <= i < digits.len() ==> is_digit(#[trigger] digits[i]);
            &&& r is Some <==> all_digits && decimal_value(digits) <= usize::MAX
            &&& r matches Some(n) ==> n == decimal_value(digits)
        }),
{
    let ghost digits = ascii_text(bytes@).subrange(from as int, to as int);
    let mut value: usize = 0;
    let mut at: usize = from;
    proof {
        assert(digits.subrange(0, 0) =~= Seq::<char>::empty());
    }
    while at < to
        invariant
            from <= at <= to <= bytes.len(),
            digits == ascii_text(bytes@).subrange(from as int, to as int),
            forall|i: int| 0 <= i < at - from ==> is_digit(#[trigger] digits[i]),
            value == decimal_value(digits.subrange(0, at - from)),
        decreases to - at,
    {
        let byte: u8 = bytes[at];
        proof {
            assert(digits[at - from] == byte as char);
        }
        if !is_between(byte, '0', '9') {
            return None;
        }
        let ghost longer = digits.subrange(0, at - from + 1);
        proof {
            assert(longer.drop_last() =~= digits.subrange(0, at - from));
            assert(longer.last() == digits[at - from]);
            assert(decimal_value(longer) == 10 * value + (byte - '0' as u8));
            if forall|i: int| 0 <= i < digits.len() ==> is_digit(#[trigger] digits[i]) {
                lemma_decimal_value_grows(digits, at - from + 1);
            }
        }
        let scaled = match value.checked_mul(10) {
            Some(scaled) => scaled,
            None => {
                return None;
            },
        };
        value = match scaled.checked_add((byte - '0' as u8) as usize) {
            Some(sum) => sum,
            None => {
                return None;
            },
        };
        at = at + 1;
    }
    proof {
        assert(digits.subrange(0, to - from) =~= digits);
    }
    Some(value)
}

/// Recognizes the shape of a pattern.
pub fn recognize(pattern: &str) -> (r: Option<RecognizedShape>)
    ensures
        r == shape_of(pattern@),
        r matches Some(shape) ==> shape.wf(),
{
    broadcast use vstd::string::is_ascii_spec_bytes;

    let ghost text = pattern@;
    if !pattern.is_ascii() {
        proof {
            if reads_as_letters(text) || reads_as_digits(text) {
                let digits = count_digits(text, 5)->0;
                assert forall|i: int| 0 <= i < text.len() implies '\0' <= #[trigger] text[i]
                    <= '\u{7f}' by {
                    if 6 <= i < text.len() - 1 {
                        assert(text[i] == digits[i - 6]);
                        assert(is_digit(digits[i - 6]));
                    }
                    if i == text.len() - 1 {
                        assert(text[i] == text.last());
                    }
                }
            }
        }
        return None;
    }
    let bytes = pattern.as_bytes();
    let n = bytes.len();
    proof {
        assert(text =~= ascii_text(bytes@)) by {
            assert forall|i: int| 0 <= i < text.len() implies text[i] == ascii_text(bytes@)[i] by {
                assert('\0' <= text[i] <= '\u{7f}');
                assert(bytes@[i] == text[i] as u8);
            }
        }
    }
    if n < 8 {
        return None;
    }
    let framed = is_char(bytes[0], '[') && is_char(bytes[2], '-') && is_char(bytes[4], ']')
        && is_char(bytes[5], '{') && is_char(bytes[n - 1], '}');
    if !framed {
        return None;
    }
    let low: u8 = bytes[1];
    let high: u8 = bytes[3];
    let letters = is_between(low, 'a', 'z') && is_between(high, 'a', 'z');
    let digits = is_char(low, '0') && is_char(high, '9');
    if !letters && !digits {
        return None;
    }
    let count = parse_count(bytes, 6, n - 1);
    proof {
        assert(text.subrange(6, n - 1) =~= ascii_text(bytes@).subrange(6, n - 1));
        assert(text.last() == text[n - 1]);
    }
    match count {
        None => None,
        Some(length) => {
            if length == 0 {
                None
            } else if letters {
                if low <= high {
                    Some(
                        RecognizedShape::CharRange {
                            start: low as char,
                            end: high as char,
                            length,
                        },
                    )
                } else {
                    None
                }
            } else {
                Some(RecognizedShape::DigitRun { length })
            }
        },
    }
}

} // verus!
