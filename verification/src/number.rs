//! Numbers of the language: signed decimal fixed-point values.
//!
//! A number is a whole count of millionths held in an `i64`, so every value
//! has exactly six decimal places. Addition, subtraction and the remainder are
//! exact; products and quotients are rounded toward zero to the nearest
//! millionth. An operation whose result does not fit has no result.
use vstd::prelude::*;

verus! {

/// How many units make one.
pub const SCALE: i64 = 1_000_000;

/// How many decimal places a number carries.
pub const FRACTION_DIGITS: u32 = 6;

/// A number of the language, as a count of millionths.
#[derive(Clone, Copy, Debug, PartialEq, Eq, Structural)]
pub struct Number {
    pub units: i64,
}

/// The absolute value of an integer.
pub open spec fn magnitude(x: int) -> nat {
    if x < 0 {
        (-x) as nat
    } else {
        x as nat
    }
}

/// The quotient of `n` by `d`, rounded toward zero.
pub open spec fn trunc_div(n: int, d: int) -> int
    recommends
        d != 0,
{
    if (n >= 0) == (d > 0) {
        (magnitude(n) / magnitude(d)) as int
    } else {
        -((magnitude(n) / magnitude(d)) as int)
    }
}

/// The remainder of `n` by `d`, with the sign of `n`.
pub open spec fn trunc_rem(n: int, d: int) -> int
    recommends
        d != 0,
{
    if n >= 0 {
        (magnitude(n) % magnitude(d)) as int
    } else {
        -((magnitude(n) % magnitude(d)) as int)
    }
}

/// The number with the given count of units, where one exists.
pub open spec fn from_units(u: int) -> Option<Number> {
    if i64::MIN <= u <= i64::MAX {
        Some(Number { units: u as i64 })
    } else {
        None
    }
}

/// Ten to the power `e`.
pub open spec fn pow10(e: nat) -> nat
    decreases e,
{
    if e == 0 {
        1
    } else {
        10 * pow10((e - 1) as nat)
    }
}

/// The character of a decimal digit.
pub open spec fn digit_char(d: nat) -> char
    recommends
        d < 10,
{
    ((48 + d) as u8) as char
}

/// Whether a character is one of `0` to `9`.
pub open spec fn is_digit(c: char) -> bool {
    48 <= c as u32 && c as u32 <= 57
}

/// The value of a decimal digit.
pub open spec fn digit_value(c: char) -> nat
    recommends
        is_digit(c),
{
    (c as u32 - 48) as nat
}

/// The decimal digits of a natural number, without leading zeros.
pub open spec fn nat_digits(n: nat) -> Seq<char>
    decreases n,
{
    if n < 10 {
        seq![digit_char(n)]
    } else {
        nat_digits(n / 10).push(digit_char(n % 10))
    }
}

/// The decimal digits of an integer, after a minus sign where it is
/// negative.
pub open spec fn int_digits(i: int) -> Seq<char> {
    if i < 0 {
        seq!['-'] + nat_digits((-i) as nat)
    } else {
        nat_digits(i as nat)
    }
}

/// The digits after the decimal point of a fraction of `f` parts in
/// `pow10(width)`, without trailing zeros.
pub open spec fn fraction_digits(f: nat, width: nat) -> Seq<char>
    decreases width,
{
    if f == 0 || width == 0 {
        Seq::empty()
    } else {
        let p = pow10((width - 1) as nat);
        seq![digit_char(f / p)] + fraction_digits(f % p, (width - 1) as nat)
    }
}

/// Whether every character of a text is a decimal digit.
pub open spec fn all_digits(s: Seq<char>) -> bool {
    forall|i: int| 0 <= i < s.len() ==> is_digit(#[trigger] s[i])
}

/// The natural number that a text of decimal digits writes.
pub open spec fn digits_value(s: Seq<char>) -> nat
    decreases s.len(),
{
    if s.len() == 0 {
        0
    } else {
        digits_value(s.drop_last()) * 10 + digit_value(s.last())
    }
}

/// The parts in `pow10(width)` that the first `width` digits after a decimal
/// point write; further digits are dropped.
pub open spec fn fraction_value(s: Seq<char>, width: nat) -> nat
    decreases width,
{
    if width == 0 || s.len() == 0 {
        0
    } else {
        digit_value(s[0]) * pow10((width - 1) as nat) + fraction_value(
            s.drop_first(),
            (width - 1) as nat,
        )
    }
}

/// The index of the first decimal point of a text, or its length if it has
/// none.
pub open spec fn point_index(s: Seq<char>) -> int
    decreases s.len(),
{
    if s.len() == 0 {
        0
    } else if s[0] == '.' {
        0
    } else {
        1 + point_index(s.drop_first())
    }
}

/// The number that a decimal literal writes: digits, then optionally a point
/// and more digits, with at least one digit in all.
pub open spec fn parse_decimal(s: Seq<char>) -> Option<Number> {
    let p = point_index(s);
    let whole = s.subrange(0, p);
    let fraction = if p < s.len() {
        s.subrange(p + 1, s.len() as int)
    } else {
        Seq::empty()
    };
    if whole.len() + fraction.len() > 0 && all_digits(whole) && all_digits(fraction) {
        from_units(digits_value(whole) * SCALE + fraction_value(fraction, FRACTION_DIGITS as nat))
    } else {
        None
    }
}

impl Number {
    /// The sum, where it fits.
    pub open spec fn spec_add(self, other: Number) -> Option<Number> {
        from_units(self.units + other.units)
    }

    /// The difference, where it fits.
    pub open spec fn spec_sub(self, other: Number) -> Option<Number> {
        from_units(self.units - other.units)
    }

    /// The product, rounded toward zero, where it fits.
    pub open spec fn spec_mul(self, other: Number) -> Option<Number> {
        from_units(trunc_div(self.units * other.units, SCALE as int))
    }

    /// The quotient, rounded toward zero, where the divisor is not zero and
    /// the quotient fits.
    pub open spec fn spec_div(self, other: Number) -> Option<Number> {
        if other.units == 0 {
            None
        } else {
            from_units(trunc_div(self.units * SCALE, other.units as int))
        }
    }

    /// The remainder, with the sign of the dividend, where the divisor is not
    /// zero.
    pub open spec fn spec_rem(self, other: Number) -> Option<Number> {
        if other.units == 0 {
            None
        } else {
            from_units(trunc_rem(self.units as int, other.units as int))
        }
    }

    /// The negation, where it fits.
    pub open spec fn spec_neg(self) -> Option<Number> {
        from_units(-self.units)
    }

    /// Whether the number has no fractional part.
    pub open spec fn spec_is_integer(self) -> bool {
        magnitude(self.units as int) % (SCALE as nat) == 0
    }

    /// The number without its fractional part.
    pub open spec fn spec_integer_part(self) -> int {
        trunc_div(self.units as int, SCALE as int)
    }

    /// The number as it is printed: an optional sign, the whole part, and the
    /// fractional part without trailing zeros where it is not zero.
    pub open spec fn spec_display(self) -> Seq<char> {
        let m = magnitude(self.units as int);
        let sign = if self.units < 0 {
            seq!['-']
        } else {
            Seq::empty()
        };
        let tail = if m % (SCALE as nat) == 0 {
            Seq::empty()
        } else {
            seq!['.'] + fraction_digits(m % (SCALE as nat), FRACTION_DIGITS as nat)
        };
        sign + nat_digits(m / (SCALE as nat)) + tail
    }
}

/// `String::push`: the character is added at the end of the text.
#[verifier::external_body]
pub(crate) fn push_char(text: &mut String, c: char)
    ensures
        final(text)@ == old(text)@.push(c),
{
    text.push(c)
}

fn unsigned(x: i128) -> (m: u128)
    requires
        x > i128::MIN,
    ensures
        m == magnitude(x as int),
{
    if x < 0 {
        (-x) as u128
    } else {
        x as u128
    }
}

fn signed(negative: bool, m: u128) -> (r: Option<Number>)
    ensures
        r == from_units(
            if negative {
                -(m as int)
            } else {
                m as int
            },
        ),
{
    if negative {
        if m <= 0x8000_0000_0000_0000u128 {
            let v: i128 = -(m as i128);
            Some(Number { units: v as i64 })
        } else {
            None
        }
    } else {
        if m <= 0x7fff_ffff_ffff_ffffu128 {
            Some(Number { units: m as i64 })
        } else {
            None
        }
    }
}

fn digit_of(d: u64) -> (c: char)
    requires
        d < 10,
    ensures
        c == digit_char(d as nat),
{
    let b: u8 = 48u8 + (d as u8);
    b as char
}

fn power_of_ten(e: u32) -> (p: u64)
    requires
        e <= 18,
    ensures
        p == pow10(e as nat),
    decreases e,
{
    if e == 0 {
        1
    } else {
        let q = power_of_ten(e - 1);
        proof {
            lemma_pow10_bound((e - 1) as nat, 17);
            lemma_pow10_values();
        }
        10 * q
    }
}

proof fn lemma_pow10_values()
    ensures
        pow10(0) == 1,
        pow10(1) == 10,
        pow10(2) == 100,
        pow10(3) == 1000,
        pow10(4) == 10000,
        pow10(5) == 100000,
        pow10(6) == 1000000,
        pow10(17) == 100000000000000000,
{
    reveal_with_fuel(pow10, 18);
}

proof fn lemma_pow10_bound(a: nat, b: nat)
    requires
        a <= b,
    ensures
        0 < pow10(a) <= pow10(b),
    decreases b,
{
    if a == 0 {
        if b > 0 {
            lemma_pow10_bound(0, (b - 1) as nat);
        }
    } else {
        lemma_pow10_bound((a - 1) as nat, (b - 1) as nat);
    }
}

/// Adds the decimal digits of a natural number to a text.
pub(crate) fn push_nat(text: &mut String, n: u64)
    ensures
        final(text)@ == old(text)@ + nat_digits(n as nat),
    decreases n,
{
    if n < 10 {
        push_char(text, digit_of(n));
    } else {
        push_nat(text, n / 10);
        push_char(text, digit_of(n % 10));
    }
}

/// Adds the decimal digits of an integer to a text, after a minus sign where
/// it is negative.
pub(crate) fn push_int(text: &mut String, i: i64)
    ensures
        final(text)@ == old(text)@ + int_digits(i as int),
{
    if i < 0 {
        push_char(text, '-');
        push_nat(text, unsigned(i as i128) as u64);
        proof {
            assert(text@ =~= old(text)@ + int_digits(i as int));
        }
    } else {
        push_nat(text, i as u64);
    }
}

fn push_fraction(text: &mut String, f: u64, width: u32)
    requires
        width <= 18,
        f < pow10(width as nat),
    ensures
        final(text)@ == old(text)@ + fraction_digits(f as nat, width as nat),
    decreases width,
{
    if f == 0 || width == 0 {
    } else {
        let p = power_of_ten(width - 1);
        proof {
            lemma_pow10_bound((width - 1) as nat, 17);
            assert(f / p < 10) by (nonlinear_arith)
                requires
                    f < 10 * p,
                    p > 0,
            ;
            assert(f % p < p) by (nonlinear_arith)
                requires
                    p > 0,
            ;
        }
        push_char(text, digit_of(f / p));
        push_fraction(text, f % p, width - 1);
    }
}

/// The value of a text of digits is at least that of each of its prefixes.
proof fn lemma_digits_prefix(s: Seq<char>, k: int)
    requires
        0 <= k <= s.len(),
    ensures
        digits_value(s.subrange(0, k)) <= digits_value(s),
    decreases s.len(),
{
    if k == s.len() {
        assert(s.subrange(0, k) =~= s);
    } else {
        lemma_digits_prefix(s.drop_last(), k);
        assert(s.drop_last().subrange(0, k) =~= s.subrange(0, k));
    }
}

/// `point_index` is the first index that holds a decimal point.
proof fn lemma_point_index(s: Seq<char>, p: int)
    requires
        0 <= p <= s.len(),
        forall|j: int| 0 <= j < p ==> s[j] != '.',
        p < s.len() ==> s[p] == '.',
    ensures
        point_index(s) == p,
    decreases s.len(),
{
    if s.len() == 0 || p == 0 {
    } else {
        let t = s.drop_first();
        assert forall|j: int| 0 <= j < p - 1 implies t[j] != '.' by {
            assert(t[j] == s[j + 1]);
        }
        lemma_point_index(t, p - 1);
    }
}

fn digit_at(text: &str, i: usize) -> (r: Option<u64>)
    requires
        i < text@.len(),
    ensures
        r is Some == is_digit(text@[i as int]),
        r matches Some(d) ==> d == digit_value(text@[i as int]) && d < 10,
{
    let u: u32 = text.get_char(i) as u32;
    if 48 <= u && u <= 57 {
        Some((u - 48) as u64)
    } else {
        None
    }
}

impl Number {
    /// The number that a decimal literal writes, where it writes one that
    /// fits.
    pub fn parse(text: &str) -> (r: Option<Number>)
        ensures
            r == parse_decimal(text@),
    {
        let n = text.unicode_len();
        let mut p: usize = 0;
        while p < n && text.get_char(p) != '.'
            invariant
                p <= n,
                n == text@.len(),
                forall|j: int| 0 <= j < p ==> text@[j] != '.',
            decreases n - p,
        {
            p += 1;
        }
        proof {
            lemma_point_index(text@, p as int);
        }
        let ghost whole_text = text@.subrange(0, p as int);
        let ghost fraction_text = if p < n {
            text@.subrange(p + 1, n as int)
        } else {
            Seq::empty()
        };
        let mut whole: u64 = 0;
        let mut i: usize = 0;
        while i < p
            invariant
                i <= p <= n,
                n == text@.len(),
                whole_text == text@.subrange(0, p as int),
                point_index(text@) == p,
                all_digits(whole_text.subrange(0, i as int)),
                whole == digits_value(whole_text.subrange(0, i as int)),
                whole <= 10_000_000_000_000,
            decreases p - i,
        {
            let ghost before = whole_text.subrange(0, i as int);
            let ghost after = whole_text.subrange(0, i + 1);
            proof {
                assert(after.drop_last() =~= before);
                assert(after.last() == text@[i as int]);
            }
            match digit_at(text, i) {
                None => {
                    assert(!is_digit(whole_text[i as int]));
                    return None;
                },
                Some(d) => {
                    whole = whole * 10 + d;
                    proof {
                        assert forall|j: int| 0 <= j < after.len() implies is_digit(
                            #[trigger] after[j],
                        ) by {
                            if j < i {
                                assert(after[j] == before[j]);
                            }
                        }
                    }
                    if whole > 10_000_000_000_000 {
                        proof {
                            lemma_digits_prefix(whole_text, i + 1);
                            assert(SCALE == 1_000_000);
                            assert(digits_value(whole_text) * SCALE > i64::MAX);
                        }
                        return None;
                    }
                },
            }
            i += 1;
        }
        proof {
            assert(whole_text.subrange(0, p as int) =~= whole_text);
        }
        let mut fraction: u64 = 0;
        let mut count: usize = 0;
        if p < n {
            let start = p + 1;
            let mut place: u64 = 100_000;
            let mut k: usize = start;
            proof {
                lemma_pow10_values();
                assert(fraction_text.subrange(0, fraction_text.len() as int) =~= fraction_text);
            }
            while k < n
                invariant
                    start <= k <= n,
                    start == p + 1,
                    n == text@.len(),
                    fraction_text == text@.subrange(p + 1, n as int),
                    point_index(text@) == p,
                    all_digits(fraction_text.subrange(0, k - start)),
                    k - start <= 6 ==> place == pow10((6 - (k - start)) as nat) / 10,
                    k - start > 6 ==> place == 0,
                    fraction_value(fraction_text, 6) == fraction + fraction_value(
                        fraction_text.subrange(k - start, fraction_text.len() as int),
                        if k - start <= 6 {
                            (6 - (k - start)) as nat
                        } else {
                            0
                        },
                    ),
                    fraction + 10 * place <= 1_000_000,
                decreases n - k,
            {
                let ghost j = k - start;
                let ghost rest = fraction_text.subrange(j, fraction_text.len() as int);
                let ghost before = fraction_text.subrange(0, j);
                let ghost after = fraction_text.subrange(0, j + 1);
                proof {
                    assert(rest[0] == text@[k as int]);
                    assert(rest.drop_first() =~= fraction_text.subrange(
                        j + 1,
                        fraction_text.len() as int,
                    ));
                    lemma_pow10_values();
                    reveal_with_fuel(pow10, 8);
                }
                match digit_at(text, k) {
                    None => {
                        assert(!is_digit(fraction_text[j]));
                        return None;
                    },
                    Some(d) => {
                        proof {
                            assert forall|x: int| 0 <= x < after.len() implies is_digit(
                                #[trigger] after[x],
                            ) by {
                                if x < j {
                                    assert(after[x] == before[x]);
                                }
                            }
                            assert(d * place <= 9 * place) by (nonlinear_arith)
                                requires
                                    d < 10,
                            ;
                        }
                        fraction = fraction + d * place;
                        place = place / 10;
                    },
                }
                k += 1;
            }
            count = n - start;
            proof {
                assert(fraction_text.subrange(0, k - start) =~= fraction_text);
            }
        }
        if p + count == 0 {
            return None;
        }
        assert(SCALE == 1_000_000);
        let units: u64 = whole * 1_000_000 + fraction;
        if units > 0x7fff_ffff_ffff_ffff {
            None
        } else {
            Some(Number { units: units as i64 })
        }
    }

    /// The number zero.
    pub fn zero() -> (r: Number)
        ensures
            r.units == 0,
    {
        Number { units: 0 }
    }

    /// The number one.
    pub fn one() -> (r: Number)
        ensures
            r.units == SCALE,
    {
        Number { units: SCALE }
    }

    /// The whole number `n`, where it fits.
    pub fn from_integer(n: i64) -> (r: Option<Number>)
        ensures
            r == from_units(n * SCALE),
    {
        let u: i128 = (n as i128) * 1_000_000;
        if u < i64::MIN as i128 || u > i64::MAX as i128 {
            None
        } else {
            Some(Number { units: u as i64 })
        }
    }

    pub fn add(self, other: Number) -> (r: Option<Number>)
        ensures
            r == self.spec_add(other),
    {
        let s: i128 = (self.units as i128) + (other.units as i128);
        signed(s < 0, unsigned(s))
    }

    pub fn sub(self, other: Number) -> (r: Option<Number>)
        ensures
            r == self.spec_sub(other),
    {
        let s: i128 = (self.units as i128) - (other.units as i128);
        signed(s < 0, unsigned(s))
    }

    pub fn mul(self, other: Number) -> (r: Option<Number>)
        ensures
            r == self.spec_mul(other),
    {
        let a: u128 = unsigned(self.units as i128);
        let b: u128 = unsigned(other.units as i128);
        assert(a * b <= 0x8000_0000_0000_0000 * 0x8000_0000_0000_0000) by (nonlinear_arith)
            requires
                a <= 0x8000_0000_0000_0000,
                b <= 0x8000_0000_0000_0000,
        ;
        let p: u128 = a * b;
        let negative = (self.units < 0) != (other.units < 0);
        proof {
            let x = self.units as int;
            let y = other.units as int;
            assert(magnitude(x * y) == a * b) by (nonlinear_arith)
                requires
                    a == magnitude(x),
                    b == magnitude(y),
            ;
            assert((x * y >= 0) == !negative || x * y == 0) by (nonlinear_arith)
                requires
                    negative == ((x < 0) != (y < 0)),
            ;
        }
        signed(negative && p / (SCALE as u128) != 0, p / (SCALE as u128))
    }

    pub fn div(self, other: Number) -> (r: Option<Number>)
        ensures
            r == self.spec_div(other),
    {
        if other.units == 0 {
            return None;
        }
        let n: i128 = (self.units as i128) * (SCALE as i128);
        let a: u128 = unsigned(n);
        let b: u128 = unsigned(other.units as i128);
        let q: u128 = a / b;
        let negative = (n < 0) != (other.units < 0);
        signed(negative && q != 0, q)
    }

    pub fn rem(self, other: Number) -> (r: Option<Number>)
        ensures
            r == self.spec_rem(other),
    {
        if other.units == 0 {
            return None;
        }
        let a: u128 = unsigned(self.units as i128);
        let b: u128 = unsigned(other.units as i128);
        let m: u128 = a % b;
        signed(self.units < 0 && m != 0, m)
    }

    pub fn neg(self) -> (r: Option<Number>)
        ensures
            r == self.spec_neg(),
    {
        let s: i128 = -(self.units as i128);
        signed(s < 0, unsigned(s))
    }

    pub fn is_integer(self) -> (r: bool)
        ensures
            r == self.spec_is_integer(),
    {
        unsigned(self.units as i128) % (SCALE as u128) == 0
    }

    pub fn integer_part(self) -> (r: i64)
        ensures
            r == self.spec_integer_part(),
    {
        let q: u128 = unsigned(self.units as i128) / (SCALE as u128);
        if self.units < 0 {
            (-(q as i128)) as i64
        } else {
            q as i64
        }
    }

    /// The number as it is printed.
    pub fn to_string(self) -> (r: String)
        ensures
            r@ == self.spec_display(),
    {
        let mut text = String::new();
        let m: u128 = unsigned(self.units as i128);
        if self.units < 0 {
            push_char(&mut text, '-');
        }
        let whole: u64 = (m / (SCALE as u128)) as u64;
        let fraction: u64 = (m % (SCALE as u128)) as u64;
        push_nat(&mut text, whole);
        if fraction != 0 {
            push_char(&mut text, '.');
            proof {
                lemma_pow10_values();
            }
            push_fraction(&mut text, fraction, FRACTION_DIGITS);
        }
        proof {
            assert(text@ =~= self.spec_display());
        }
        text
    }
}

} // verus!
