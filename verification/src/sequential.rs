//! Exact enumeration of the strings of a fixed length over a small alphabet.
//!
//! The strings of `length` characters over an alphabet of `base` consecutive
//! characters are numbered from 0 to `base^length - 1`: the string with number
//! `n` spells `n` as a numeral in base `base`, the first character of the
//! alphabet standing for the digit 0. Ascending enumeration yields the numbers
//! 0, 1, 2, ...; descending enumeration yields `base^length - 1`,
//! `base^length - 2`, ... Either one ends when the numbers run out.

use crate::error::Error;
use crate::numeral::{
    digit_at, digits_of, lemma_complement_digit, lemma_digit_bounds,
    lemma_digits_determine_value, lemma_digits_of_value, lemma_fits_iff_quotient_zero,
    lemma_highest_difference, lemma_quotient_step, lemma_space_unfold, space, value_of,
};
use crate::shape::{recognize, shape_of, RecognizedShape};
use crate::text::{push_char, symbol, symbol_at};
use vstd::arithmetic::power::pow;
use vstd::prelude::*;

verus! {

/// The numeral of `length` characters that spells `value` in base `base`,
/// with `first` for the digit 0. With `msd_first` the most significant digit
/// comes first, as numbers are usually written; without it the least
/// significant digit comes first.
pub open spec fn numeral_text(
    value: int,
    first: char,
    base: int,
    length: nat,
    msd_first: bool,
) -> Seq<char> {
    Seq::new(
        length,
        |at: int|
            symbol(
                first,
                digit_at(value, base, (if msd_first {
                    length - 1 - at
                } else {
                    at
                }) as nat),
            ),
    )
}

/// The number that stands at place `index` of an enumeration: `index` itself
/// when counting up from 0, and `index` below the largest number when
/// counting down.
pub open spec fn counted_value(index: int, base: int, length: nat, descending: bool) -> int {
    if descending {
        space(base, length) - 1 - index
    } else {
        index
    }
}

/// How many strings an enumeration of at most `count` items yields: all that
/// were asked for, or all that exist.
pub open spec fn batch_len(count: int, base: int, length: nat) -> int {
    if count <= space(base, length) {
        count
    } else {
        space(base, length)
    }
}

/// The string at place `index` of the enumeration of all numerals of `length`
/// digits in base `base`, or `None` when the enumeration has fewer than
/// `index + 1` items.
///
/// No power of the base is computed: `index` is split into its digits, it
/// lies outside the enumeration exactly when something is left of it after
/// `length` digits, and counting down mirrors each digit.
pub fn numeral_string(
    index: usize,
    first: char,
    base: u8,
    length: usize,
    descending: bool,
    msd_first: bool,
) -> (r: Option<String>)
    requires
        base >= 1,
        (first as u32) + (base as u32) <= 128,
    ensures
        r is Some <==> index < space(base as int, length as nat),
        r matches Some(text) ==> text@ == numeral_text(
            counted_value(index as int, base as int, length as nat, descending),
            first,
            base as int,
            length as nat,
            msd_first,
        ),
{
    let mut digits: Vec<u8> = Vec::new();
    let mut rest: usize = index;
    let mut pos: usize = 0;
    proof {
        lemma_space_unfold(base as int, 0);
    }
    while pos < length
        invariant
            pos <= length,
            base >= 1,
            digits.len() == pos,
            rest as int == (index as int) / pow(base as int, pos as nat),
            forall|p: int|
                0 <= p < pos ==> digits[p] as int == digit_at(index as int, base as int, p as nat),
        decreases length - pos,
    {
        let digit: usize = rest % (base as usize);
        proof {
            lemma_quotient_step(index as int, base as int, pos as nat);
            lemma_digit_bounds(index as int, base as int, pos as nat);
        }
        digits.push(digit as u8);
        rest = rest / (base as usize);
        pos = pos + 1;
    }
    proof {
        lemma_fits_iff_quotient_zero(index as int, base as int, length as nat);
    }
    if rest > 0 {
        return None;
    }
    let ghost value = counted_value(index as int, base as int, length as nat, descending);
    let ghost wanted = numeral_text(value, first, base as int, length as nat, msd_first);
    let mut text = String::new();
    let mut at: usize = 0;
    while at < length
        invariant
            at <= length,
            base >= 1,
            (first as u32) + (base as u32) <= 128,
            digits.len() == length,
            index < space(base as int, length as nat),
            value == counted_value(index as int, base as int, length as nat, descending),
            wanted == numeral_text(value, first, base as int, length as nat, msd_first),
            forall|p: int|
                0 <= p < length ==> digits[p] as int == digit_at(
                    index as int,
                    base as int,
                    p as nat,
                ),
            text@ == wanted.subrange(0, at as int),
        decreases length - at,
    {
        let pos: usize = if msd_first {
            length - 1 - at
        } else {
            at
        };
        let digit: u8 = digits[pos];
        proof {
            lemma_digit_bounds(index as int, base as int, pos as nat);
            if descending {
                lemma_complement_digit(index as int, base as int, length as nat, pos as nat);
            }
        }
        let shown: u8 = if descending {
            base - 1 - digit
        } else {
            digit
        };
        let c = symbol_at(first, shown);
        push_char(&mut text, c);
        proof {
            assert(shown as int == digit_at(value, base as int, pos as nat));
            assert(c == wanted[at as int]);
            assert(wanted.subrange(0, at as int).push(c) =~= wanted.subrange(0, at + 1));
        }
        at = at + 1;
    }
    proof {
        assert(wanted.subrange(0, length as int) =~= wanted);
    }
    Some(text)
}

/// Whether strings of the shape are written with the most significant digit
/// first. Decimal numbers always are. Letter strings are so when counting up;
/// counting down, they are written with the least significant letter first.
pub open spec fn msd_first(shape: RecognizedShape, reverse: bool) -> bool {
    match shape {
        RecognizedShape::CharRange { .. } => !reverse,
        RecognizedShape::DigitRun { .. } => true,
    }
}

/// The string at place `index` of the enumeration of a shape.
pub open spec fn shape_item(shape: RecognizedShape, index: int, reverse: bool) -> Seq<char> {
    numeral_text(
        counted_value(index, shape.base(), shape.length(), reverse),
        shape.first(),
        shape.base(),
        shape.length(),
        msd_first(shape, reverse),
    )
}

/// Whether `results` is the enumeration of a shape, cut off after `count`
/// strings: as many strings as were asked for or as exist, each at its place.
pub open spec fn is_enumeration(
    results: Seq<String>,
    shape: RecognizedShape,
    count: int,
    reverse: bool,
) -> bool {
    &&& results.len() == batch_len(count, shape.base(), shape.length())
    &&& forall|i: int|
        0 <= i < results.len() ==> (#[trigger] results[i])@ == shape_item(shape, i, reverse)
}

/// Whether `a` comes before `b` in the dictionary, for two strings of one
/// length: at the first place where they differ, `a` has the smaller
/// character.
pub open spec fn comes_before(a: Seq<char>, b: Seq<char>) -> bool {
    exists|at: int|
        {
            &&& 0 <= at < a.len()
            &&& at < b.len()
            &&& a.subrange(0, at) == b.subrange(0, at)
            &&& #[trigger] a[at] < b[at]
        }
}

/// Whether `text` is a string of the shape: of its length, over its
/// alphabet.
pub open spec fn belongs_to(text: Seq<char>, shape: RecognizedShape) -> bool {
    &&& text.len() == shape.length()
    &&& forall|at: int| 0 <= at < text.len() ==> shape.first() <= #[trigger] text[at] <= shape.last()
}

/// An enumeration is complete: every string of the shape stands at some
/// place of it. The result is that place, counting up.
pub proof fn lemma_every_string_is_listed(shape: RecognizedShape, text: Seq<char>) -> (index: int)
    requires
        shape.wf(),
        belongs_to(text, shape),
    ensures
        0 <= index < space(shape.base(), shape.length()),
        shape_item(shape, index, false) == text,
{
    let base = shape.base();
    let length = shape.length();
    let first = shape.first();
    let digits = Seq::new(length, |pos: int| text[length - 1 - pos] as u32 - first as u32);
    assert forall|pos: int| 0 <= pos < digits.len() implies 0 <= #[trigger] digits[pos]
        < base by {
        let c = text[length - 1 - pos];
        assert(first <= c <= shape.last());
    }
    lemma_digits_of_value(digits, base);
    let index = value_of(digits, base);
    let listed = shape_item(shape, index, false);
    assert forall|at: int| 0 <= at < length implies listed[at] == text[at] by {
        let pos = length - 1 - at;
        assert(digit_at(index, base, pos as nat) == digits_of(index, base, length)[pos]);
        let c = text[at];
        let offset = c as u32 - first as u32;
        assert(digits[pos] == offset);
        assert(first <= c <= shape.last());
        assert(symbol(first, offset) == c);
    }
    assert(listed =~= text);
    index
}

/// An enumeration is one to one: no string stands at two places.
pub proof fn lemma_items_distinct(shape: RecognizedShape, i: int, j: int, reverse: bool)
    requires
        shape.wf(),
        0 <= i < space(shape.base(), shape.length()),
        0 <= j < space(shape.base(), shape.length()),
        shape_item(shape, i, reverse) == shape_item(shape, j, reverse),
    ensures
        i == j,
{
    let base = shape.base();
    let length = shape.length();
    let first = shape.first();
    let forward = msd_first(shape, reverse);
    let a = counted_value(i, base, length, reverse);
    let b = counted_value(j, base, length, reverse);
    let text_a = numeral_text(a, first, base, length, forward);
    let text_b = numeral_text(b, first, base, length, forward);
    assert forall|pos: nat| pos < length implies digit_at(a, base, pos) == digit_at(
        b,
        base,
        pos,
    ) by {
        let at: int = if forward {
            length - 1 - pos
        } else {
            pos as int
        };
        lemma_digit_bounds(a, base, pos);
        lemma_digit_bounds(b, base, pos);
        assert(text_a[at] == symbol(first, digit_at(a, base, pos)));
        assert(text_b[at] == symbol(first, digit_at(b, base, pos)));
    }
    lemma_digits_determine_value(a, b, base, length);
}

/// Counting up yields the strings in dictionary order.
pub proof fn lemma_ascending_is_dictionary_order(shape: RecognizedShape, i: int, j: int)
    requires
        shape.wf(),
        0 <= i < j,
        j < space(shape.base(), shape.length()),
    ensures
        comes_before(shape_item(shape, i, false), shape_item(shape, j, false)),
{
    let base = shape.base();
    let length = shape.length();
    let first = shape.first();
    let a = shape_item(shape, i, false);
    let b = shape_item(shape, j, false);
    let pos = lemma_highest_difference(i, j, base, length);
    let at = length - 1 - pos;
    lemma_digit_bounds(i, base, pos);
    lemma_digit_bounds(j, base, pos);
    assert(a[at] == symbol(first, digit_at(i, base, pos)));
    assert(b[at] == symbol(first, digit_at(j, base, pos)));
    assert(a.subrange(0, at) =~= b.subrange(0, at)) by {
        assert forall|k: int| 0 <= k < at implies a[k] == b[k] by {
            let higher = (length - 1 - k) as nat;
            assert(digit_at(i, base, higher) == digit_at(j, base, higher));
        }
    }
    assert(a[at] < b[at]);
}

/// Counting down yields the strings of counting up from the last to the
/// first: decimal numbers as they are, letter strings written backwards.
pub proof fn lemma_descending_mirrors_ascending(shape: RecognizedShape, i: int)
    requires
        shape.wf(),
        0 <= i < space(shape.base(), shape.length()),
    ensures
        shape_item(shape, i, true) == (match shape {
            RecognizedShape::CharRange { .. } => shape_item(
                shape,
                space(shape.base(), shape.length()) - 1 - i,
                false,
            ).reverse(),
            RecognizedShape::DigitRun { .. } => shape_item(
                shape,
                space(shape.base(), shape.length()) - 1 - i,
                false,
            ),
        }),
{
    let up = shape_item(shape, space(shape.base(), shape.length()) - 1 - i, false);
    match shape {
        RecognizedShape::CharRange { .. } => {
            assert(shape_item(shape, i, true) =~= up.reverse());
        },
        RecognizedShape::DigitRun { .. } => {
            assert(shape_item(shape, i, true) =~= up);
        },
    }
}

/// No string occurs twice in an enumeration.
pub proof fn lemma_enumeration_has_no_duplicates(
    results: Seq<String>,
    shape: RecognizedShape,
    count: int,
    reverse: bool,
)
    requires
        shape.wf(),
        is_enumeration(results, shape, count, reverse),
    ensures
        forall|i: int, j: int|
            0 <= i < results.len() && 0 <= j < results.len() && i != j ==> (#[trigger] results[i])@
                != (#[trigger] results[j])@,
{
    assert forall|i: int, j: int|
        0 <= i < results.len() && 0 <= j < results.len() && i != j implies (#[trigger] results[i])@
        != (#[trigger] results[j])@ by {
        if results[i]@ == results[j]@ {
            lemma_items_distinct(shape, i, j, reverse);
        }
    }
}

/// An enumeration that is not cut short holds every string of the shape.
/// The result is a place at which `text` stands.
pub proof fn lemma_whole_enumeration_is_complete(
    results: Seq<String>,
    shape: RecognizedShape,
    count: int,
    reverse: bool,
    text: Seq<char>,
) -> (place: int)
    requires
        shape.wf(),
        is_enumeration(results, shape, count, reverse),
        count >= space(shape.base(), shape.length()),
        belongs_to(text, shape),
    ensures
        0 <= place < results.len(),
        results[place]@ == text,
{
    let last = space(shape.base(), shape.length()) - 1;
    if !reverse {
        lemma_every_string_is_listed(shape, text)
    } else {
        match shape {
            RecognizedShape::CharRange { .. } => {
                let backwards = text.reverse();
                assert(belongs_to(backwards, shape)) by {
                    assert forall|at: int| 0 <= at < backwards.len() implies shape.first()
                        <= #[trigger] backwards[at] <= shape.last() by {
                        assert(backwards[at] == text[text.len() - 1 - at]);
                    }
                }
                let up = lemma_every_string_is_listed(shape, backwards);
                lemma_descending_mirrors_ascending(shape, last - up);
                assert(backwards.reverse() =~= text);
                last - up
            },
            RecognizedShape::DigitRun { .. } => {
                let up = lemma_every_string_is_listed(shape, text);
                lemma_descending_mirrors_ascending(shape, last - up);
                last - up
            },
        }
    }
}

/// The first `count` numerals of `length` digits in base `base`, or all of
/// them when there are fewer.
fn numerals(
    first: char,
    base: u8,
    length: usize,
    count: usize,
    descending: bool,
    msd_first: bool,
) -> (results: Vec<String>)
    requires
        base >= 1,
        (first as u32) + (base as u32) <= 128,
    ensures
        results.len() == batch_len(count as int, base as int, length as nat),
        forall|i: int|
            0 <= i < results.len() ==> (#[trigger] results[i])@ == numeral_text(
                counted_value(i, base as int, length as nat, descending),
                first,
                base as int,
                length as nat,
                msd_first,
            ),
{
    let mut results: Vec<String> = Vec::new();
    let mut index: usize = 0;
    proof {
        lemma_space_unfold(base as int, length as nat);
    }
    while index < count
        invariant
            index <= count,
            base >= 1,
            (first as u32) + (base as u32) <= 128,
            results.len() == index,
            index <= space(base as int, length as nat),
            forall|i: int|
                0 <= i < results.len() ==> (#[trigger] results[i])@ == numeral_text(
                    counted_value(i, base as int, length as nat, descending),
                    first,
                    base as int,
                    length as nat,
                    msd_first,
                ),
        decreases count - index,
    {
        match numeral_string(index, first, base, length, descending, msd_first) {
            Some(text) => {
                results.push(text);
            },
            None => {
                return results;
            },
        }
        index = index + 1;
    }
    results
}

/// Enumerates the strings of `length` letters between `start` and `end`.
///
/// Counting up, the strings come in dictionary order, smallest first.
/// Counting down (`reverse`), the numbers run from the largest down, and each
/// string is written with its least significant letter first.
pub fn generate_char_sequence(
    start: char,
    end: char,
    length: usize,
    count: usize,
    reverse: bool,
) -> (results: Vec<String>)
    requires
        start <= end,
        end <= '\u{7f}',
    ensures
        is_enumeration(results@, RecognizedShape::CharRange { start, end, length }, count as int, reverse),
{
    let base: u8 = end as u8 - start as u8 + 1;
    numerals(start, base, length, count, reverse, !reverse)
}

/// Enumerates the decimal numbers of `length` digits, padded with zeros on
/// the left: from 0 up, or (`reverse`) from the largest down.
pub fn generate_digit_sequence(length: usize, count: usize, reverse: bool) -> (results: Vec<String>)
    ensures
        is_enumeration(results@, RecognizedShape::DigitRun { length }, count as int, reverse),
{
    numerals('0', 10, length, count, reverse, true)
}

/// Enumerates the strings of a pattern that has one of the recognized shapes.
/// The result is `None` for every other pattern.
pub fn generate_simple_sequential(pattern: &str, count: usize, reverse: bool) -> (r: Option<
    Vec<String>,
>)
    ensures
        r is Some <==> shape_of(pattern@) is Some,
        r matches Some(results) ==> is_enumeration(
            results@,
            shape_of(pattern@)->0,
            count as int,
            reverse,
        ),
{
    match recognize(pattern) {
        Some(RecognizedShape::CharRange { start, end, length }) => Some(
            generate_char_sequence(start, end, length, count, reverse),
        ),
        Some(RecognizedShape::DigitRun { length }) => Some(
            generate_digit_sequence(length, count, reverse),
        ),
        None => None,
    }
}

/// Whether `r` is what enumerating `pattern` must return: the enumeration of
/// its shape, or a refusal where it has none.
pub open spec fn is_enumeration_outcome(
    pattern: Seq<char>,
    count: int,
    reverse: bool,
    r: Result<Vec<String>, Error>,
) -> bool {
    match shape_of(pattern) {
        Some(shape) => r matches Ok(results) && is_enumeration(results@, shape, count, reverse),
        None => r matches Err(e) && e is UnsupportedPatternForEnumeration,
    }
}

/// Enumerates the strings of a pattern, and refuses a pattern that has none
/// of the recognized shapes: nothing is approximated.
pub fn enumerate(pattern: &str, count: usize, reverse: bool) -> (r: Result<Vec<String>, Error>)
    ensures
        is_enumeration_outcome(pattern@, count as int, reverse, r),
{
    match generate_simple_sequential(pattern, count, reverse) {
        Some(results) => Ok(results),
        None => Err(Error::UnsupportedPatternForEnumeration),
    }
}

} // verus!
