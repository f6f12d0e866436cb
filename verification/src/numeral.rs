//! Fixed-length numerals over a small alphabet.
//!
//! A numeral of `length` digits in base `base` stands for one integer in
//! `[0, base^length)`. This module holds the arithmetic behind that reading:
//! which digit sits at which position, when a value fits, and how the digits
//! of a value relate to those of its distance from the largest numeral.

use vstd::arithmetic::div_mod::{
    lemma_basic_div, lemma_div_denominator, lemma_div_is_ordered, lemma_div_pos_is_pos,
    lemma_fundamental_div_mod, lemma_fundamental_div_mod_converse_div,
    lemma_fundamental_div_mod_converse_mod, lemma_mod_pos_bound,
};
use vstd::arithmetic::mul::{lemma_mul_inequality, lemma_mul_is_commutative};
use vstd::arithmetic::power::{lemma_pow_positive, pow};
use vstd::prelude::*;

verus! {

/// How many numerals of `length` digits exist in base `base`.
pub open spec fn space(base: int, length: nat) -> int {
    pow(base, length)
}

/// The digit of `value` at position `pos` in base `base`. Position 0 is the
/// least significant one.
pub open spec fn digit_at(value: int, base: int, pos: nat) -> int {
    (value / pow(base, pos)) % base
}

/// The value that the digits `digits`, least significant first, stand for.
pub open spec fn value_of(digits: Seq<int>, base: int) -> int
    decreases digits.len(),
{
    if digits.len() == 0 {
        0
    } else {
        digits[0] + base * value_of(digits.drop_first(), base)
    }
}

/// The `length` lowest digits of `value`, least significant first.
pub open spec fn digits_of(value: int, base: int, length: nat) -> Seq<int> {
    Seq::new(length, |pos: int| digit_at(value, base, pos as nat))
}

/// The empty numeral is the only one of length 0, and one more digit
/// multiplies the count by the base.
pub proof fn lemma_space_unfold(base: int, length: nat)
    ensures
        space(base, 0) == 1,
        space(base, length + 1) == base * space(base, length),
        base > 0 ==> space(base, length) > 0,
{
    reveal(pow);
    if base > 0 {
        lemma_pow_positive(base, length);
    }
}

/// Every digit lies in `[0, base)`.
pub proof fn lemma_digit_bounds(value: int, base: int, pos: nat)
    requires
        0 <= value,
        0 < base,
    ensures
        0 <= digit_at(value, base, pos) < base,
{
    lemma_pow_positive(base, pos);
    lemma_div_pos_is_pos(value, pow(base, pos));
    lemma_mod_pos_bound(value / pow(base, pos), base);
}

/// Dividing by the base once more moves to the next position.
pub proof fn lemma_quotient_step(value: int, base: int, pos: nat)
    requires
        0 <= value,
        0 < base,
    ensures
        (value / pow(base, pos)) / base == value / pow(base, pos + 1),
        0 <= value / pow(base, pos),
{
    lemma_pow_positive(base, pos);
    lemma_space_unfold(base, pos);
    lemma_div_denominator(value, pow(base, pos), base);
    lemma_mul_is_commutative(pow(base, pos), base);
    lemma_div_pos_is_pos(value, pow(base, pos));
}

/// The digit at a position above 0 is the digit one position lower of the
/// value divided by the base.
pub proof fn lemma_digit_shift(value: int, base: int, pos: nat)
    requires
        0 <= value,
        0 < base,
        0 < pos,
    ensures
        digit_at(value, base, pos) == digit_at(value / base, base, (pos - 1) as nat),
{
    let lower = (pos - 1) as nat;
    lemma_pow_positive(base, lower);
    lemma_space_unfold(base, lower);
    lemma_div_denominator(value, base, pow(base, lower));
}

/// A value fits in `length` digits exactly when nothing is left of it after
/// `length` divisions by the base.
pub proof fn lemma_fits_iff_quotient_zero(value: int, base: int, length: nat)
    requires
        0 <= value,
        0 < base,
    ensures
        value / space(base, length) == 0 <==> value < space(base, length),
{
    let s = space(base, length);
    lemma_pow_positive(base, length);
    if value < s {
        lemma_basic_div(value, s);
    } else {
        lemma_div_is_ordered(s, value, s);
        lemma_fundamental_div_mod(s, s);
        lemma_fundamental_div_mod_converse_div(s, s, 1, 0);
    }
}

/// Splitting off the lowest digit of a value that fits in `length + 1` digits
/// leaves a value that fits in `length` digits.
pub proof fn lemma_quotient_fits(value: int, base: int, length: nat)
    requires
        0 <= value < space(base, length + 1),
        0 < base,
    ensures
        0 <= value / base < space(base, length),
{
    let s = space(base, length);
    let q = value / base;
    lemma_space_unfold(base, length);
    lemma_div_pos_is_pos(value, base);
    lemma_fundamental_div_mod(value, base);
    lemma_mod_pos_bound(value, base);
    if q >= s {
        lemma_mul_inequality(s, q, base);
        lemma_mul_is_commutative(s, base);
        lemma_mul_is_commutative(q, base);
    }
}

/// Counting down from the largest numeral: the digits of
/// `space - 1 - value` are the digits of `value`, each taken away from
/// `base - 1`.
pub proof fn lemma_complement_digit(value: int, base: int, length: nat, pos: nat)
    requires
        0 < base,
        0 <= value < space(base, length),
        pos < length,
    ensures
        digit_at(space(base, length) - 1 - value, base, pos) == base - 1 - digit_at(
            value,
            base,
            pos,
        ),
    decreases pos,
{
    let shorter = (length - 1) as nat;
    let s = space(base, shorter);
    let mirrored = space(base, length) - 1 - value;
    let q = value / base;
    let r = value % base;
    lemma_space_unfold(base, shorter);
    lemma_quotient_fits(value, base, shorter);
    lemma_fundamental_div_mod(value, base);
    lemma_mod_pos_bound(value, base);
    assert(mirrored == (s - 1 - q) * base + (base - 1 - r)) by (nonlinear_arith)
        requires
            mirrored == base * s - 1 - value,
            value == base * q + r,
    ;
    lemma_fundamental_div_mod_converse_div(mirrored, base, s - 1 - q, base - 1 - r);
    lemma_fundamental_div_mod_converse_mod(mirrored, base, s - 1 - q, base - 1 - r);
    if pos == 0 {
        lemma_space_unfold(base, 0);
    } else {
        lemma_digit_shift(mirrored, base, pos);
        lemma_digit_shift(value, base, pos);
        lemma_complement_digit(q, base, shorter, (pos - 1) as nat);
    }
}

/// A value that fits in `length` digits is the value of its `length` lowest
/// digits.
pub proof fn lemma_value_of_digits(value: int, base: int, length: nat)
    requires
        0 < base,
        0 <= value < space(base, length),
    ensures
        value_of(digits_of(value, base, length), base) == value,
    decreases length,
{
    lemma_space_unfold(base, 0);
    if length > 0 {
        let shorter = (length - 1) as nat;
        let digits = digits_of(value, base, length);
        lemma_quotient_fits(value, base, shorter);
        lemma_value_of_digits(value / base, base, shorter);
        assert(digits.drop_first() =~= digits_of(value / base, base, shorter)) by {
            assert forall|pos: int| 0 <= pos < shorter implies digits.drop_first()[pos]
                == digits_of(value / base, base, shorter)[pos] by {
                lemma_digit_shift(value, base, (pos + 1) as nat);
            }
        }
        lemma_fundamental_div_mod(value, base);
        assert(digits[0] == value % base) by {
            assert(pow(base, 0) == 1);
            assert(digits[0] == digit_at(value, base, 0));
        }
        assert(value_of(digits, base) == digits[0] + base * value_of(
            digits.drop_first(),
            base,
        ));
    }
}

/// Two values that fit in `length` digits and agree in every one of them are
/// the same value: the reading of numerals is one to one.
pub proof fn lemma_digits_determine_value(a: int, b: int, base: int, length: nat)
    requires
        0 < base,
        0 <= a < space(base, length),
        0 <= b < space(base, length),
        forall|pos: nat| pos < length ==> digit_at(a, base, pos) == digit_at(b, base, pos),
    ensures
        a == b,
{
    lemma_value_of_digits(a, base, length);
    lemma_value_of_digits(b, base, length);
    assert(digits_of(a, base, length) =~= digits_of(b, base, length)) by {
        assert forall|pos: int| 0 <= pos < length implies digits_of(a, base, length)[pos]
            == digits_of(b, base, length)[pos] by {
            assert(digit_at(a, base, pos as nat) == digit_at(b, base, pos as nat));
        }
    }
}

/// Digits that each lie in `[0, base)` spell a value that fits in as many
/// digits, and that value has exactly these digits.
pub proof fn lemma_digits_of_value(digits: Seq<int>, base: int)
    requires
        0 < base,
        forall|pos: int| 0 <= pos < digits.len() ==> 0 <= #[trigger] digits[pos] < base,
    ensures
        0 <= value_of(digits, base) < space(base, digits.len()),
        digits_of(value_of(digits, base), base, digits.len()) == digits,
    decreases digits.len(),
{
    lemma_space_unfold(base, 0);
    if digits.len() > 0 {
        let rest = digits.drop_first();
        let value = value_of(digits, base);
        let upper = value_of(rest, base);
        let s = space(base, rest.len());
        lemma_digits_of_value(rest, base);
        lemma_space_unfold(base, rest.len());
        assert(0 <= value < base * s && value == upper * base + digits[0]) by (nonlinear_arith)
            requires
                value == digits[0] + base * upper,
                0 <= digits[0] < base,
                0 <= upper < s,
        ;
        lemma_fundamental_div_mod_converse_div(value, base, upper, digits[0]);
        lemma_fundamental_div_mod_converse_mod(value, base, upper, digits[0]);
        assert forall|pos: int| 0 <= pos < digits.len() implies digits_of(
            value,
            base,
            digits.len(),
        )[pos] == digits[pos] by {
            if pos == 0 {
                assert(pow(base, 0) == 1);
                assert(digit_at(value, base, 0) == value % base);
            } else {
                lemma_digit_shift(value, base, pos as nat);
                assert(digits_of(upper, base, rest.len())[pos - 1] == rest[pos - 1]);
            }
        }
        assert(digits_of(value, base, digits.len()) =~= digits);
    } else {
        assert(digits_of(value_of(digits, base), base, digits.len()) =~= digits);
    }
}

/// Of two different values that fit in `length` digits, the smaller one has
/// the smaller digit at the highest position at which they differ.
pub proof fn lemma_highest_difference(a: int, b: int, base: int, length: nat) -> (pos: nat)
    requires
        0 < base,
        0 <= a < b,
        b < space(base, length),
    ensures
        pos < length,
        digit_at(a, base, pos) < digit_at(b, base, pos),
        forall|higher: nat|
            pos < higher < length ==> digit_at(a, base, higher) == digit_at(b, base, higher),
    decreases length,
{
    lemma_space_unfold(base, 0);
    let shorter = (length - 1) as nat;
    lemma_quotient_fits(a, base, shorter);
    lemma_quotient_fits(b, base, shorter);
    lemma_fundamental_div_mod(a, base);
    lemma_fundamental_div_mod(b, base);
    lemma_div_is_ordered(a, b, base);
    if a / base == b / base {
        assert(pow(base, 0) == 1);
        assert(digit_at(a, base, 0) == a % base);
        assert(digit_at(b, base, 0) == b % base);
        assert forall|higher: nat| 0 < higher < length implies digit_at(a, base, higher)
            == digit_at(b, base, higher) by {
            lemma_digit_shift(a, base, higher);
            lemma_digit_shift(b, base, higher);
        }
        0
    } else {
        let below = lemma_highest_difference(a / base, b / base, base, shorter);
        let pos = below + 1;
        lemma_digit_shift(a, base, pos);
        lemma_digit_shift(b, base, pos);
        assert forall|higher: nat| pos < higher < length implies digit_at(a, base, higher)
            == digit_at(b, base, higher) by {
            lemma_digit_shift(a, base, higher);
            lemma_digit_shift(b, base, higher);
        }
        pos
    }
}

} // verus!
