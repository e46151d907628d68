//! Decimal numbers: reading them from text, and amounts in millionths.

use vstd::prelude::*;

use crate::json::JsonNumber;
use crate::text::{
    all_digits,
    chars_of,
    find_from,
    first_position,
    lemma_extend_number,
    lemma_extend_number_prefix,
    lemma_first_position,
    number_of,
    read_digits,
};

verus! {

/// Ten to the power `e`.
pub open spec fn pow10(e: nat) -> nat
    decreases e,
{
    if e == 0 {
        1
    } else {
        10 * pow10((e - 1) as nat)
    }
}

/// The amount that `number` stands for, in millionths, cut off below a
/// millionth. There is none for a negative number, nor for one whose
/// millionths do not fit 64 bits.
pub open spec fn micros_of_number(number: JsonNumber) -> Option<u64> {
    let shift = number.exponent + 6;
    let value = if shift >= 0 {
        number.mantissa * pow10(shift as nat)
    } else {
        number.mantissa as int / pow10((-shift) as nat) as int
    };
    if number.mantissa == 0 {
        Some(0)
    } else if number.negative || value > u64::MAX {
        None
    } else {
        Some(value as u64)
    }
}

/// Position of the first `e` or `E` in `text`, or the length of `text`
/// when there is none.
pub open spec fn exponent_mark(text: Seq<char>) -> int
    decreases text.len(),
{
    if text.len() == 0 || text[0] == 'e' || text[0] == 'E' {
        0
    } else {
        1 + exponent_mark(text.drop_first())
    }
}

/// Whether `text` starts with a sign.
pub open spec fn starts_with_sign(text: Seq<char>) -> bool {
    text.len() > 0 && (text[0] == '+' || text[0] == '-')
}

/// `text` without the sign it may start with.
pub open spec fn without_sign(text: Seq<char>) -> Seq<char> {
    if starts_with_sign(text) {
        text.drop_first()
    } else {
        text
    }
}

/// The whole number that `text` writes: an optional sign, then at least
/// one digit and digits only.
pub open spec fn signed_integer(text: Seq<char>) -> Option<int> {
    let digits = without_sign(text);
    if digits.len() > 0 && all_digits(digits) {
        if text[0] == '-' {
            Some(-(number_of(digits) as int))
        } else {
            Some(number_of(digits) as int)
        }
    } else {
        None
    }
}

/// The digits and the point of a number: what stands after the sign and
/// before the `e` or `E`.
pub open spec fn digits_part(text: Seq<char>) -> Seq<char> {
    without_sign(text).take(exponent_mark(without_sign(text)))
}

/// The digits before the point.
pub open spec fn whole_part(text: Seq<char>) -> Seq<char> {
    digits_part(text).take(first_position(digits_part(text), '.'))
}

/// The digits after the point; none where there is no point.
pub open spec fn fraction_part(text: Seq<char>) -> Seq<char> {
    if first_position(digits_part(text), '.') < digits_part(text).len() {
        digits_part(text).skip(first_position(digits_part(text), '.') + 1)
    } else {
        Seq::empty()
    }
}

/// The power of ten written after `e` or `E`; zero where there is neither,
/// and `None` where what stands after it is no whole number.
pub open spec fn power_part(text: Seq<char>) -> Option<int> {
    if exponent_mark(without_sign(text)) < without_sign(text).len() {
        signed_integer(without_sign(text).skip(exponent_mark(without_sign(text)) + 1))
    } else {
        Some(0int)
    }
}

/// The number that `text` writes in decimal notation: an optional sign;
/// then digits with at most one point among them, before it or after it or
/// both; then optionally `e` or `E` and a whole number, the power of ten.
/// There is none where `text` is written otherwise, has more digits than
/// 128 bits hold, or asks for a power of ten that 32 bits do not hold.
pub open spec fn decimal_number(text: Seq<char>) -> Option<JsonNumber> {
    let whole = whole_part(text);
    let fraction = fraction_part(text);
    let power = power_part(text);
    if whole.len() + fraction.len() > 0 && all_digits(whole) && all_digits(fraction) && number_of(
        whole + fraction,
    ) <= u128::MAX && power is Some && i32::MIN <= power->0 - fraction.len() <= i32::MAX {
        Some(
            JsonNumber {
                negative: text[0] == '-',
                mantissa: number_of(whole + fraction) as u128,
                exponent: (power->0 - fraction.len()) as i32,
            },
        )
    } else {
        None
    }
}

/// An amount in millionths rounded to hundredths, halves upwards.
pub open spec fn cents_of_micros(micros: u128) -> u128 {
    ((micros + 5_000) / 10_000) as u128
}

/// A power of ten is at least one.
pub proof fn lemma_pow10_positive(e: nat)
    ensures
        pow10(e) >= 1,
    decreases e,
{
    if e > 0 {
        lemma_pow10_positive((e - 1) as nat);
    }
}

/// Powers of ten grow with the exponent.
pub proof fn lemma_pow10_monotonic(small: nat, large: nat)
    requires
        small <= large,
    ensures
        pow10(small) <= pow10(large),
    decreases large,
{
    if small < large {
        lemma_pow10_monotonic(small, (large - 1) as nat);
        lemma_pow10_positive((large - 1) as nat);
    }
}

impl JsonNumber {
    /// The whole number `value`.
    pub fn from_u64(value: u64) -> (number: JsonNumber)
        ensures
            number == (JsonNumber { negative: false, mantissa: value as u128, exponent: 0 }),
    {
        JsonNumber { negative: false, mantissa: value as u128, exponent: 0 }
    }

    /// The amount that the number stands for, in millionths.
    pub fn to_micros(&self) -> (micros: Option<u64>)
        ensures
            micros == micros_of_number(*self),
    {
        if self.mantissa == 0 {
            return Some(0);
        }
        if self.negative {
            return None;
        }
        let shift: i64 = self.exponent as i64 + 6;
        if shift >= 0 {
            if self.mantissa > u64::MAX as u128 {
                proof {
                    lemma_pow10_positive(shift as nat);
                    assert(self.mantissa * pow10(shift as nat) >= self.mantissa) by (nonlinear_arith)
                        requires
                            pow10(shift as nat) >= 1,
                            self.mantissa >= 0,
                    ;
                }
                return None;
            }
            let mut value: u64 = self.mantissa as u64;
            let mut done: i64 = 0;
            proof {
                assert(self.mantissa * pow10(0) == self.mantissa) by (nonlinear_arith)
                    requires
                        pow10(0) == 1,
                ;
            }
            while done < shift
                invariant
                    0 <= done <= shift,
                    shift == self.exponent + 6,
                    self.mantissa > 0,
                    !self.negative,
                    value == self.mantissa * pow10(done as nat),
                decreases shift - done,
            {
                if value > u64::MAX / 10 {
                    proof {
                        lemma_pow10_monotonic((done + 1) as nat, shift as nat);
                        let m = self.mantissa as int;
                        let p = pow10((done + 1) as nat) as int;
                        let q = pow10(shift as nat) as int;
                        assert(m * p <= m * q) by (nonlinear_arith)
                            requires
                                p <= q,
                                m >= 0,
                        ;
                        assert(m * p == (m * pow10(done as nat)) * 10) by (nonlinear_arith)
                            requires
                                p == 10 * pow10(done as nat),
                        ;
                    }
                    return None;
                }
                proof {
                    let m = self.mantissa as int;
                    assert(m * pow10((done + 1) as nat) == (m * pow10(done as nat)) * 10)
                        by (nonlinear_arith)
                        requires
                            pow10((done + 1) as nat) == 10 * pow10(done as nat),
                    ;
                }
                value = value * 10;
                done = done + 1;
            }
            Some(value)
        } else {
            let mut value: u128 = self.mantissa;
            let mut done: i64 = 0;
            let limit: i64 = -shift;
            proof {
                let one = pow10(0) as int;
                assert(self.mantissa as int / one == self.mantissa) by (nonlinear_arith)
                    requires
                        one == 1,
                ;
            }
            while done < limit && value > 0
                invariant
                    0 <= done <= limit,
                    value == self.mantissa as int / pow10(done as nat) as int,
                decreases limit - done,
            {
                proof {
                    lemma_pow10_positive(done as nat);
                    vstd::arithmetic::div_mod::lemma_div_denominator(
                        self.mantissa as int,
                        pow10(done as nat) as int,
                        10,
                    );
                    assert(pow10(done as nat) * 10 == pow10((done + 1) as nat));
                }
                value = value / 10;
                done = done + 1;
            }
            proof {
                if done < limit {
                    let m = self.mantissa as int;
                    let p = pow10(done as nat) as int;
                    let q = pow10((-shift) as nat) as int;
                    lemma_pow10_positive(done as nat);
                    lemma_pow10_monotonic(done as nat, (-shift) as nat);
                    vstd::arithmetic::div_mod::lemma_div_is_ordered_by_denominator(m, p, q);
                    vstd::arithmetic::div_mod::lemma_div_pos_is_pos(m, q);
                }
            }
            if value > u64::MAX as u128 {
                None
            } else {
                Some(value as u64)
            }
        }
    }
}

/// An amount in millionths rounded to hundredths, halves upwards.
pub fn round_to_cents(micros: u128) -> (cents: u128)
    ensures
        cents == cents_of_micros(micros),
{
    if micros % 10_000 >= 5_000 {
        micros / 10_000 + 1
    } else {
        micros / 10_000
    }
}

/// The exponent mark is within `text`, nothing before it is `e` or `E`,
/// and where it is short of the end it holds one of them.
pub proof fn lemma_exponent_mark(text: Seq<char>)
    ensures
        0 <= exponent_mark(text) <= text.len(),
        forall|i: int| 0 <= i < exponent_mark(text) ==> text[i] != 'e' && text[i] != 'E',
        exponent_mark(text) < text.len() ==> text[exponent_mark(text)] == 'e'
            || text[exponent_mark(text)] == 'E',
    decreases text.len(),
{
    if !(text.len() == 0 || text[0] == 'e' || text[0] == 'E') {
        let rest = text.drop_first();
        lemma_exponent_mark(rest);
        assert forall|i: int| 0 <= i < exponent_mark(text) implies text[i] != 'e' && text[i]
            != 'E' by {
            if i > 0 {
                assert(rest[i - 1] != 'e' && rest[i - 1] != 'E');
            }
        }
    }
}

/// The first `sep` in the first `n` characters of a text is the first `sep`
/// of the text, unless that lies at `n` or beyond.
proof fn lemma_first_position_of_prefix(text: Seq<char>, sep: char, n: int)
    requires
        0 <= n <= text.len(),
    ensures
        first_position(text.take(n), sep) == if first_position(text, sep) < n {
            first_position(text, sep)
        } else {
            n
        },
{
    lemma_first_position(text, sep);
    lemma_first_position(text.take(n), sep);
    let whole = first_position(text, sep);
    let part = first_position(text.take(n), sep);
    if part < n {
        assert(text.take(n)[part] == sep);
        if part < whole {
            assert(text[part] != sep);
        }
    }
    if whole < n {
        if whole < part {
            assert(text.take(n)[whole] != sep);
        }
    }
}

/// Position of the first `e` or `E` at or after `from`, or the length of
/// `chars` when there is none.
fn find_exponent_mark(chars: &Vec<char>, from: usize) -> (at: usize)
    requires
        from <= chars@.len(),
    ensures
        from <= at <= chars@.len(),
        at == from + exponent_mark(chars@.skip(from as int)),
{
    let mut at: usize = from;
    while at < chars.len() && chars[at] != 'e' && chars[at] != 'E'
        invariant
            from <= at <= chars@.len(),
            forall|i: int| from <= i < at ==> chars@[i] != 'e' && chars@[i] != 'E',
        decreases chars@.len() - at,
    {
        at = at + 1;
    }
    proof {
        let rest = chars@.skip(from as int);
        lemma_exponent_mark(rest);
        let found = exponent_mark(rest);
        if found < at - from {
            assert(rest[found] == chars@[from + found]);
        }
        if at - from < found {
            assert(rest[at - from] == chars@[at as int]);
        }
    }
    at
}

/// Reads the whole number written by the characters from `from` on, as
/// far as it matters for a power of ten: a number beyond `2^70` either way
/// comes back as `None`, like a text that writes no number.
fn read_power(chars: &Vec<char>, from: usize) -> (power: Option<i128>)
    requires
        from <= chars@.len(),
    ensures
        match power {
            Some(p) => signed_integer(chars@.skip(from as int)) == Some(p as int) && -0x40_0000_0000_0000_0000
                <= p <= 0x40_0000_0000_0000_0000,
            None => match signed_integer(chars@.skip(from as int)) {
                Some(p) => p < -0x40_0000_0000_0000_0000 || p > 0x40_0000_0000_0000_0000,
                None => true,
            },
        },
{
    let ghost text = chars@.skip(from as int);
    let signed = from < chars.len() && (chars[from] == '+' || chars[from] == '-');
    let negative = from < chars.len() && chars[from] == '-';
    let start: usize = if signed {
        from + 1
    } else {
        from
    };
    proof {
        let digits = chars@.subrange(start as int, chars@.len() as int);
        assert(digits =~= without_sign(text));
        lemma_extend_number(Seq::empty(), digits);
        assert(Seq::<char>::empty() + digits =~= digits);
    }
    if start == chars.len() {
        return None;
    }
    match read_digits(chars, start, chars.len(), 0) {
        Some(value) => if value > 0x40_0000_0000_0000_0000 {
            None
        } else if negative {
            Some(-(value as i128))
        } else {
            Some(value as i128)
        },
        None => None,
    }
}

/// Where the parts of a number stand in a text: the digits before the
/// point from `start` to `point`, those after it from after `point` to
/// `mark`, and the power of ten after `mark`.
struct Layout {
    start: usize,
    point: usize,
    mark: usize,
}

/// Finds the parts of a number in a text.
fn lay_out(chars: &Vec<char>) -> (parts: Layout)
    ensures
        parts.start <= parts.point <= parts.mark <= chars@.len(),
        whole_part(chars@) == chars@.subrange(parts.start as int, parts.point as int),
        fraction_part(chars@) == if parts.point < parts.mark {
            chars@.subrange(parts.point + 1, parts.mark as int)
        } else {
            Seq::empty()
        },
        power_part(chars@) == if parts.mark < chars@.len() {
            signed_integer(chars@.skip(parts.mark + 1))
        } else {
            Some(0int)
        },
{
    let start: usize = if chars.len() > 0 && (chars[0] == '+' || chars[0] == '-') {
        1
    } else {
        0
    };
    let mark = find_exponent_mark(chars, start);
    let dot = find_from(chars, start, '.');
    let point: usize = if dot < mark {
        dot
    } else {
        mark
    };
    proof {
        let unsigned = chars@.skip(start as int);
        let digits = unsigned.take(mark - start);
        assert(unsigned =~= without_sign(chars@));
        lemma_first_position_of_prefix(unsigned, '.', mark - start);
        assert(digits.take(point - start) =~= chars@.subrange(start as int, point as int));
        if point < mark {
            assert(digits.skip(point - start + 1) =~= chars@.subrange(point + 1, mark as int));
        }
        if mark < chars@.len() {
            assert(unsigned.skip(mark - start + 1) =~= chars@.skip(mark + 1));
        }
    }
    Layout { start, point, mark }
}

/// Reads the digits of a number, before the point and after it.
fn read_mantissa(chars: &Vec<char>, parts: &Layout) -> (mantissa: Option<u128>)
    requires
        parts.start <= parts.point <= parts.mark <= chars@.len(),
    ensures
        ({
            let whole = chars@.subrange(parts.start as int, parts.point as int);
            let fraction = if parts.point < parts.mark {
                chars@.subrange(parts.point + 1, parts.mark as int)
            } else {
                Seq::empty()
            };
            mantissa == if all_digits(whole) && all_digits(fraction) && number_of(whole + fraction)
                <= u128::MAX {
                Some(number_of(whole + fraction) as u128)
            } else {
                None
            }
        }),
{
    let ghost whole = chars@.subrange(parts.start as int, parts.point as int);
    let ghost fraction = if parts.point < parts.mark {
        chars@.subrange(parts.point + 1, parts.mark as int)
    } else {
        Seq::empty()
    };
    proof {
        lemma_extend_number(whole, fraction);
    }
    match read_digits(chars, parts.start, parts.point, 0) {
        None => {
            proof {
                if all_digits(whole) && all_digits(fraction) {
                    lemma_extend_number_prefix(number_of(whole), fraction, 0);
                    assert(fraction.take(0) =~= Seq::<char>::empty());
                }
            }
            None
        },
        Some(units) => if parts.point < parts.mark {
            read_digits(chars, parts.point + 1, parts.mark, units)
        } else {
            proof {
                assert(whole + fraction =~= whole);
            }
            Some(units)
        },
    }
}

/// Reads a number written in decimal notation, such as `90.91` or `1e2`.
pub fn parse_decimal(text: &str) -> (number: Option<JsonNumber>)
    ensures
        number == decimal_number(text@),
{
    let chars = chars_of(text);
    let parts = lay_out(&chars);
    let places: usize = if parts.point < parts.mark {
        parts.mark - parts.point - 1
    } else {
        0
    };
    if parts.point - parts.start == 0 && places == 0 {
        return None;
    }
    let mantissa = match read_mantissa(&chars, &parts) {
        Some(mantissa) => mantissa,
        None => {
            return None;
        },
    };
    let power: i128 = if parts.mark < chars.len() {
        match read_power(&chars, parts.mark + 1) {
            Some(power) => power,
            None => {
                return None;
            },
        }
    } else {
        0
    };
    let exponent: i128 = power - places as i128;
    if exponent < -0x8000_0000 || exponent > 0x7fff_ffff {
        return None;
    }
    let negative = chars.len() > 0 && chars[0] == '-';
    Some(JsonNumber { negative, mantissa, exponent: exponent as i32 })
}

/// The amount in millionths that `text` writes in decimal notation.
pub open spec fn micros_of_text(text: Seq<char>) -> Option<u64> {
    match decimal_number(text) {
        Some(number) => micros_of_number(number),
        None => None,
    }
}

/// Reads an amount in millionths written in decimal notation.
pub fn parse_micros(text: &str) -> (micros: Option<u64>)
    ensures
        micros == micros_of_text(text@),
{
    match parse_decimal(text) {
        Some(number) => number.to_micros(),
        None => None,
    }
}

} // verus!
