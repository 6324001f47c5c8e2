use crate::number::{
    all_digits, count_leading_digits, digit_of, digit_value, digits_value, fixed_digits, is_digit,
    leading_digits, lemma_digits_value_bound, lemma_digits_value_update,
    lemma_fixed_digits_of_value, lemma_pow10_monotonic, lemma_pow10_positive, nat_digits,
    pad_zeros, parse_digits, pow10, push_nat_digits, read_digits, value_of_digit, zero_padded,
};
use crate::text::append_chars;
use vstd::arithmetic::div_mod::lemma_fundamental_div_mod_converse;
use vstd::prelude::*;

verus! {

/// The largest number of digits after the point that a `Decimal` keeps.
pub const MAX_SCALE: u8 = 18;

/// A decimal number: a signed count of units, each worth one over ten to the power `places`.
#[derive(Clone, Copy, Debug)]
pub struct Decimal {
    mantissa: i64,
    scale: u8,
}

impl Decimal {
    #[verifier::type_invariant]
    spec fn scale_fits(self) -> bool {
        self.scale <= MAX_SCALE
    }

    /// The count of units.
    pub closed spec fn units(self) -> int {
        self.mantissa as int
    }

    /// How many digits stand after the point.
    pub closed spec fn places(self) -> nat {
        self.scale as nat
    }

    /// The number of `units` units, each worth one over ten to the power `places`.
    pub closed spec fn of(units: int, places: nat) -> Decimal {
        Decimal { mantissa: units as i64, scale: places as u8 }
    }

    /// `of` keeps the two numbers that it is given, where a `Decimal` can hold them.
    pub proof fn lemma_of(units: int, places: nat)
        requires
            i64::MIN <= units <= i64::MAX,
            places <= u8::MAX,
        ensures
            Decimal::of(units, places).units() == units,
            Decimal::of(units, places).places() == places,
    {
    }

    /// `mantissa` divided by ten to the power `scale`, where the scale is no more than
    /// `MAX_SCALE`.
    pub fn new(mantissa: i64, scale: u8) -> (r: Option<Decimal>)
        ensures
            r == if scale <= MAX_SCALE {
                Some(Decimal::of(mantissa as int, scale as nat))
            } else {
                None
            },
    {
        if scale <= MAX_SCALE {
            Some(Decimal { mantissa, scale })
        } else {
            None
        }
    }

    /// The whole number `n`.
    pub fn from_int(n: i64) -> (r: Decimal)
        ensures
            r == Decimal::of(n as int, 0),
    {
        Decimal { mantissa: n, scale: 0 }
    }

    /// The count of units.
    pub fn mantissa(&self) -> (m: i64)
        ensures
            m == self.units(),
    {
        self.mantissa
    }

    /// How many digits stand after the point.
    pub fn scale(&self) -> (s: u8)
        ensures
            s == self.places(),
            s <= MAX_SCALE,
    {
        proof {
            use_type_invariant(self);
        }
        self.scale
    }
}

/// What `s` says as a decimal number: an optional sign, digits, and after an optional point
/// more digits, with a digit on at least one side of the point. Nothing where
/// the digits after the point are more than `MAX_SCALE`, or all digits together say more than a
/// signed 64-bit number holds.
pub open spec fn parse_decimal(s: Seq<char>) -> Option<Decimal> {
    let signed = s.len() > 0 && (s[0] == '-' || s[0] == '+');
    let body = if signed {
        s.skip(1)
    } else {
        s
    };
    let whole = body.take(leading_digits(body) as int);
    let rest = body.skip(leading_digits(body) as int);
    let frac = if rest.len() > 0 {
        rest.skip(1)
    } else {
        rest
    };
    if (rest.len() > 0 && rest[0] != '.') || frac.len() > MAX_SCALE {
        None
    } else {
        match parse_digits(whole + frac, 0x7fff_ffff_ffff_ffff) {
            Some(m) => Some(
                Decimal::of(
                    if signed && s[0] == '-' {
                        -(m as int)
                    } else {
                        m as int
                    },
                    frac.len(),
                ),
            ),
            None => None,
        }
    }
}

/// Reads `v` as a decimal number.
pub fn read_decimal(v: &Vec<char>) -> (r: Option<Decimal>)
    ensures
        r == parse_decimal(v@),
{
    let signed = v.len() > 0 && (v[0] == '-' || v[0] == '+');
    let from: usize = if signed {
        1
    } else {
        0
    };
    let ghost body = v@.skip(from as int);
    assert(v@.skip(0) == v@);
    let n = count_leading_digits(v, from);
    let ghost whole = body.take(n as int);
    let ghost rest = body.skip(n as int);
    let dot = from + n;
    assert(rest == v@.skip(dot as int));
    if dot < v.len() && v[dot] != '.' {
        assert(rest[0] == v@[dot as int]);
        return None;
    }
    let start: usize = if dot < v.len() {
        dot + 1
    } else {
        dot
    };
    let ghost frac = if rest.len() > 0 {
        rest.skip(1)
    } else {
        rest
    };
    assert(frac == v@.skip(start as int));
    if v.len() - start > MAX_SCALE as usize {
        return None;
    }
    let mut digits: Vec<char> = Vec::new();
    let mut i: usize = from;
    while i < dot
        invariant
            from <= i <= dot <= v.len(),
            body == v@.skip(from as int),
            digits@ == body.take(i - from),
        decreases dot - i,
    {
        digits.push(v[i]);
        assert(body.take(i - from + 1) == body.take(i - from).push(v@[i as int]));
        i += 1;
    }
    let mut j: usize = start;
    while j < v.len()
        invariant
            start <= j <= v.len(),
            frac == v@.skip(start as int),
            digits@ == whole + frac.take(j - start),
        decreases v.len() - j,
    {
        digits.push(v[j]);
        assert(frac.take(j - start + 1) == frac.take(j - start).push(v@[j as int]));
        assert((whole + frac.take(j - start)).push(v@[j as int]) == whole + frac.take(
            j - start,
        ).push(v@[j as int]));
        j += 1;
    }
    assert(frac.take(j - start) == frac);
    assert(digits@.skip(0) == digits@);
    match read_digits(&digits, 0, 0x7fff_ffff_ffff_ffff) {
        Some(m) => {
            let mantissa: i64 = if signed && v[0] == '-' {
                (-(m as i128)) as i64
            } else {
                m as i64
            };
            Some(Decimal { mantissa, scale: (v.len() - start) as u8 })
        },
        None => None,
    }
}

/// The distance of `n` from zero.
pub open spec fn magnitude(n: int) -> nat {
    if n < 0 {
        (-n) as nat
    } else {
        n as nat
    }
}

/// The numerator of `raw` over `divisor`, both taken without sign; a divisor of zero divides by
/// one.
pub open spec fn ratio_top(raw: Decimal, divisor: Decimal) -> nat {
    if divisor.units() == 0 {
        magnitude(raw.units())
    } else {
        magnitude(raw.units()) * pow10(divisor.places())
    }
}

/// The denominator that goes with `ratio_top`.
pub open spec fn ratio_bottom(raw: Decimal, divisor: Decimal) -> nat {
    if divisor.units() == 0 {
        pow10(raw.places())
    } else {
        magnitude(divisor.units()) * pow10(raw.places())
    }
}

/// The size of `raw` over `divisor`, counted in units of one over ten to the power `decimals`
/// and rounded to the nearest such unit, a half going up.
pub open spec fn scaled_decimal(raw: Decimal, divisor: Decimal, decimals: nat) -> nat {
    ((2 * ratio_top(raw, divisor) * pow10(decimals) + ratio_bottom(raw, divisor)) / (2
        * ratio_bottom(raw, divisor))) as nat
}

/// `count` units of one over ten to the power `decimals`, written with exactly `decimals` digits
/// after the point, and no point where `decimals` is zero.
pub open spec fn point_digits(count: nat, decimals: nat) -> Seq<char> {
    if decimals == 0 {
        nat_digits(count)
    } else {
        nat_digits(count / pow10(decimals)) + seq!['.'] + fixed_digits(
            count % pow10(decimals),
            decimals,
        )
    }
}

/// The text shown for a decimal sample under the given divisor, decimals and zero padding.
pub open spec fn decimal_text(raw: Decimal, divisor: Decimal, decimals: nat, zeropad: nat) -> Seq<
    char,
> {
    zero_padded(point_digits(scaled_decimal(raw, divisor, decimals), decimals), zeropad)
}

/// Ten to the power `k`.
pub fn pow10_of(k: u8) -> (r: u128)
    requires
        k <= MAX_SCALE,
    ensures
        r == pow10(k as nat),
        1 <= r <= 1_000_000_000_000_000_000,
{
    let mut r: u128 = 1;
    let mut i: u8 = 0;
    proof {
        lemma_pow10_18();
    }
    while i < k
        invariant
            i <= k <= MAX_SCALE,
            r == pow10(i as nat),
            pow10(18) == 1_000_000_000_000_000_000,
        decreases k - i,
    {
        proof {
            lemma_pow10_monotonic((i + 1) as nat, 18);
        }
        r = r * 10;
        i += 1;
    }
    proof {
        lemma_pow10_monotonic(k as nat, 18);
        lemma_pow10_positive(k as nat);
    }
    r
}

/// Ten to the power `MAX_SCALE`, written out.
proof fn lemma_pow10_18()
    ensures
        pow10(18) == 1_000_000_000_000_000_000,
{
    reveal_with_fuel(pow10, 19);
}

/// The distance of `n` from zero.
pub fn magnitude_of(n: i64) -> (r: u128)
    ensures
        r == magnitude(n as int),
        r <= 0x8000_0000_0000_0000,
{
    if n < 0 {
        (-(n as i128)) as u128
    } else {
        n as u128
    }
}

/// The largest numerator and denominator that `divide_to_places` takes: two to the power 63
/// times ten to the power `MAX_SCALE`.
pub const MAX_TERM: u128 = 9_223_372_036_854_775_808_000_000_000_000_000_000;

/// Long division: the whole part of `top` over `bottom`, the first `places` digits after the
/// point, and what is left over.
pub fn divide_to_places(top: u128, bottom: u128, places: usize) -> (r: (u128, Vec<char>, u128))
    requires
        1 <= bottom <= MAX_TERM,
        top <= MAX_TERM,
    ensures
        r.1@.len() == places,
        all_digits(r.1@),
        r.2 < bottom,
        r.0 <= top,
        top * pow10(places as nat) == (r.0 * pow10(places as nat) + digits_value(r.1@)) * bottom
            + r.2,
{
    let whole: u128 = top / bottom;
    let mut rem: u128 = top % bottom;
    let mut frac: Vec<char> = Vec::new();
    let mut k: usize = 0;
    proof {
        assert(pow10(0) == 1);
        assert(top == whole * bottom + rem && whole <= top) by (nonlinear_arith)
            requires
                whole == top / bottom,
                rem == top % bottom,
                bottom >= 1,
        ;
        assert(top * 1 == (whole * 1 + 0) * bottom + rem) by (nonlinear_arith)
            requires
                top == whole * bottom + rem,
        ;
    }
    while k < places
        invariant
            k <= places,
            1 <= bottom <= MAX_TERM,
            rem < bottom,
            frac@.len() == k,
            all_digits(frac@),
            top * pow10(k as nat) == (whole * pow10(k as nat) + digits_value(frac@)) * bottom
                + rem,
        decreases places - k,
    {
        let scaled: u128 = rem * 10;
        let digit: u128 = scaled / bottom;
        let next: u128 = scaled % bottom;
        proof {
            assert(scaled == digit * bottom + next && digit < 10 && next < bottom)
                by (nonlinear_arith)
                requires
                    digit == scaled / bottom,
                    next == scaled % bottom,
                    bottom >= 1,
                    scaled == rem * 10,
                    rem < bottom,
            ;
        }
        let c = digit_of(digit as u8);
        let ghost before = frac@;
        frac.push(c);
        proof {
            assert(frac@.drop_last() == before);
            assert(digits_value(frac@) == digits_value(before) * 10 + digit);
            assert forall|i: int| 0 <= i < frac@.len() implies is_digit(#[trigger] frac@[i]) by {
                if i < before.len() {
                    assert(frac@[i] == before[i]);
                }
            }
            let p = pow10(k as nat);
            let v = digits_value(before);
            assert(pow10((k + 1) as nat) == 10 * p);
            assert(top * (10 * p) == (whole * (10 * p) + (v * 10 + digit)) * bottom + next)
                by (nonlinear_arith)
                requires
                    top * p == (whole * p + v) * bottom + rem,
                    rem * 10 == digit * bottom + next,
            ;
        }
        rem = next;
        k += 1;
    }
    (whole, frac, rem)
}

/// Adds one to the number that `whole` and the digits `frac` after the point write together.
pub fn add_one_unit(whole: u128, frac: &mut Vec<char>) -> (w: u128)
    requires
        all_digits(old(frac)@),
        whole < u128::MAX,
    ensures
        all_digits(final(frac)@),
        final(frac)@.len() == old(frac)@.len(),
        w * pow10(old(frac)@.len()) + digits_value(final(frac)@) == whole * pow10(
            old(frac)@.len(),
        ) + digits_value(old(frac)@) + 1,
{
    let n = frac.len();
    let mut i: usize = n;
    let mut carry = true;
    proof {
        assert(pow10(0) == 1);
    }
    while i > 0 && carry
        invariant
            i <= n,
            frac@.len() == n,
            all_digits(frac@),
            digits_value(frac@) + (if carry {
                pow10((n - i) as nat) as int
            } else {
                0
            }) == digits_value(old(frac)@) + 1,
        decreases i + (if carry { 1int } else { 0int }),
    {
        let c = frac[i - 1];
        let ghost before = frac@;
        assert(is_digit(before[i - 1]));
        let d = value_of_digit(c);
        let put: char = if d == 9 {
            '0'
        } else {
            digit_of(d + 1)
        };
        frac.set(i - 1, put);
        proof {
            lemma_digits_value_update(before, i - 1, put);
            assert(frac@ == before.update(i - 1, put));
            assert forall|j: int| 0 <= j < frac@.len() implies is_digit(#[trigger] frac@[j]) by {
                if j != i - 1 {
                    assert(frac@[j] == before[j]);
                }
            }
            let p = pow10((n - i) as nat);
            assert(pow10((n - i + 1) as nat) == 10 * p);
            assert(n - 1 - (i - 1) == n - i);
            if d == 9 {
                assert(digit_value(put) == 0);
                assert(0 * p == 0 && 9 * p + p == 10 * p) by (nonlinear_arith);
            } else {
                assert(digit_value(put) == d + 1);
                assert((d + 1) * p == d * p + p) by (nonlinear_arith);
            }
        }
        if d == 9 {
            i -= 1;
        } else {
            carry = false;
        }
    }
    if carry {
        proof {
            let p = pow10(n as nat);
            assert((whole + 1) * p == whole * p + p) by (nonlinear_arith);
        }
        whole + 1
    } else {
        whole
    }
}

/// The text shown for the decimal sample `raw` under the given divisor, decimals and zero
/// padding.
pub fn format_decimal(raw: Decimal, divisor: Decimal, decimals: usize, zeropad: usize) -> (r: Vec<
    char,
>)
    ensures
        r@ == decimal_text(raw, divisor, decimals as nat, zeropad as nat),
{
    proof {
        use_type_invariant(raw);
        use_type_invariant(divisor);
    }
    let size = magnitude_of(raw.mantissa);
    let top: u128 = if divisor.mantissa == 0 {
        size
    } else {
        let scale = pow10_of(divisor.scale);
        assert(size * scale <= MAX_TERM) by (nonlinear_arith)
            requires
                size <= 0x8000_0000_0000_0000,
                scale <= 1_000_000_000_000_000_000,
        ;
        size * scale
    };
    let bottom: u128 = if divisor.mantissa == 0 {
        pow10_of(raw.scale)
    } else {
        let by = magnitude_of(divisor.mantissa);
        let scale = pow10_of(raw.scale);
        assert(1 <= by * scale <= MAX_TERM) by (nonlinear_arith)
            requires
                1 <= by <= 0x8000_0000_0000_0000,
                1 <= scale <= 1_000_000_000_000_000_000,
        ;
        by * scale
    };
    assert(top == ratio_top(raw, divisor));
    assert(bottom == ratio_bottom(raw, divisor));
    let (whole, mut frac, rem) = divide_to_places(top, bottom, decimals);
    let ghost unit = pow10(decimals as nat);
    let ghost floor = whole * unit + digits_value(frac@);
    let up = rem * 2 >= bottom;
    let shown: u128 = if up {
        add_one_unit(whole, &mut frac)
    } else {
        whole
    };
    let ghost part = digits_value(frac@);
    let ghost count = shown * unit + part;
    proof {
        lemma_digits_value_bound(frac@);
        lemma_fixed_digits_of_value(frac@);
        lemma_pow10_positive(decimals as nat);
        let x = 2 * top * unit + bottom;
        if up {
            assert(x == (floor + 1) * (2 * bottom) + (2 * rem - bottom)) by (nonlinear_arith)
                requires
                    x == 2 * top * unit + bottom,
                    top * unit == floor * bottom + rem,
            ;
            lemma_fundamental_div_mod_converse(x, 2 * bottom, floor + 1, 2 * rem - bottom);
        } else {
            assert(x == floor * (2 * bottom) + (2 * rem + bottom)) by (nonlinear_arith)
                requires
                    x == 2 * top * unit + bottom,
                    top * unit == floor * bottom + rem,
            ;
            lemma_fundamental_div_mod_converse(x, 2 * bottom, floor, 2 * rem + bottom);
        }
        assert(count == scaled_decimal(raw, divisor, decimals as nat));
        lemma_fundamental_div_mod_converse(count, unit as int, shown as int, part as int);
    }
    let mut text: Vec<char> = Vec::new();
    push_nat_digits(&mut text, shown);
    if decimals > 0 {
        text.push('.');
        append_chars(&mut text, &frac);
        assert(text@ == nat_digits(shown as nat) + seq!['.'] + frac@);
        assert(count as nat / unit == shown);
        assert(count as nat % unit == part);
        assert(fixed_digits(part, decimals as nat) == frac@);
        assert(text@ == point_digits(count as nat, decimals as nat));
    } else {
        assert(unit == 1);
        assert(frac@ == Seq::<char>::empty());
        assert(part == 0);
        assert(count == shown) by (nonlinear_arith)
            requires
                count == shown * unit + part,
                unit == 1,
                part == 0,
        ;
        assert(text@ == point_digits(count as nat, decimals as nat));
    }
    pad_zeros(text, zeropad)
}

impl crate::number::FromText for Decimal {
    open spec fn parsed(s: Seq<char>) -> Option<Decimal> {
        parse_decimal(s)
    }

    fn parse(s: &str) -> (r: Option<Decimal>) {
        let v = crate::text::chars_of(s);
        read_decimal(&v)
    }
}

} // verus!
