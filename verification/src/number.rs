//! Decimal fixed-point numbers: the numeric values of the language.
//!
//! A number is a sign and a count of millionths. Every operation has a
//! result: arithmetic is exact where the result has at most six fractional
//! digits and is within the range, truncates toward zero where a product
//! or quotient has more fractional digits, and gives the end of the range
//! where the exact result is beyond it, as a literal does whose value is.
//! The one operation without a result is division by zero.

use vstd::prelude::*;

verus! {

/// How many units make up one whole.
pub const SCALE: u128 = 1_000_000;

/// The largest magnitude of a number, in units: ten to the power 32, so
/// that numbers range from minus to plus ten to the power 26.
pub const LIMIT: u128 = 100_000_000_000_000_000_000_000_000_000_000;

/// A signed decimal number with six fractional digits: a sign and a count
/// of millionths. A count beyond [`LIMIT`] stands for [`LIMIT`]. Zero has
/// both signs, so that negating any number twice gives the number back;
/// the two zeros are equal.
#[derive(Clone, Copy, Debug, PartialEq, Eq, Structural)]
pub struct Number {
    pub negative: bool,
    pub magnitude: u128,
}

/// A magnitude, or the largest where it is beyond that.
pub open spec fn capped(m: int) -> int {
    if m <= LIMIT {
        m
    } else {
        LIMIT as int
    }
}

/// The magnitude of an integer.
pub open spec fn magnitude(x: int) -> nat {
    if x >= 0 {
        x as nat
    } else {
        (-x) as nat
    }
}

/// Integer division that rounds toward zero, for any non-zero divisor.
pub open spec fn truncated_quotient(x: int, d: int) -> int {
    let q = (magnitude(x) / magnitude(d)) as int;
    if (x >= 0) == (d >= 0) {
        q
    } else {
        -q
    }
}

/// The character of a decimal digit.
pub open spec fn digit_char(d: int) -> char {
    ('0' as int + d) as char
}

/// Whether a character is one of `0` to `9`.
pub open spec fn is_digit(c: char) -> bool {
    '0' <= c <= '9'
}

/// The value of a decimal digit character.
pub open spec fn digit_value(c: char) -> nat {
    (c as int - '0' as int) as nat
}

/// The value of a run of decimal digits, most significant first.
pub open spec fn digits_value(s: Seq<char>) -> nat
    decreases s.len(),
{
    if s.len() == 0 {
        0
    } else {
        digits_value(s.drop_last()) * 10 + digit_value(s.last())
    }
}

/// The first six fractional digits, with zeros where the run is shorter.
pub open spec fn padded_fraction(fraction: Seq<char>) -> Seq<char> {
    Seq::new(
        6,
        |i: int|
            if i < fraction.len() {
                fraction[i]
            } else {
                '0'
            },
    )
}

/// The decimal digits of a natural number, most significant first.
pub open spec fn decimal_digits(n: nat) -> Seq<char>
    decreases n,
{
    if n < 10 {
        seq![digit_char(n as int)]
    } else {
        decimal_digits(n / 10).push(digit_char((n % 10) as int))
    }
}

/// A magnitude in millionths rounded to hundredths, ties going to the even
/// neighbour.
pub open spec fn rounded_hundredths(m: nat) -> nat {
    let q = m / 10_000;
    let r = m % 10_000;
    if r > 5_000 || (r == 5_000 && q % 2 == 1) {
        q + 1
    } else {
        q
    }
}

impl Number {
    /// The number in units, as an integer.
    pub open spec fn value(self) -> int {
        let m = capped(self.magnitude as int);
        if self.negative {
            -m
        } else {
            m
        }
    }

    /// The number of `v` units, or the end of the range on the side of
    /// `v` where `v` is beyond it.
    pub open spec fn of_value(v: int) -> Number {
        Number { negative: v < 0, magnitude: capped(magnitude(v) as int) as u128 }
    }

    /// The sum of two numbers.
    pub open spec fn sum(self, other: Number) -> Number {
        Self::of_value(self.value() + other.value())
    }

    /// The difference of two numbers.
    pub open spec fn difference(self, other: Number) -> Number {
        Self::of_value(self.value() - other.value())
    }

    /// The product of two numbers, truncated to six fractional digits.
    pub open spec fn product(self, other: Number) -> Number {
        Self::of_value(truncated_quotient(self.value() * other.value(), SCALE as int))
    }

    /// The quotient of two numbers, truncated to six fractional digits.
    /// Division by zero has no result.
    pub open spec fn quotient(self, other: Number) -> Option<Number> {
        if other.value() == 0 {
            None
        } else {
            Some(Self::of_value(truncated_quotient(self.value() * SCALE, other.value())))
        }
    }

    /// The number with the opposite sign.
    pub open spec fn negation(self) -> Number {
        Number { negative: !self.negative, magnitude: self.magnitude }
    }

    /// Whether two numbers are equal.
    pub open spec fn same(self, other: Number) -> bool {
        self.value() == other.value()
    }

    /// Whether `self` is less than `other`.
    pub open spec fn below(self, other: Number) -> bool {
        self.value() < other.value()
    }

    /// The number that a literal denotes: `whole` are the digits before the
    /// decimal point, `fraction` those after it (empty where there is no
    /// point). Fractional digits past the sixth are dropped.
    pub open spec fn literal(whole: Seq<char>, fraction: Seq<char>) -> Number {
        Self::of_value(digits_value(whole) * SCALE + digits_value(padded_fraction(fraction)))
    }

    /// The number of `n` wholes.
    pub open spec fn whole(n: u64) -> Number {
        Self::of_value(n * SCALE)
    }

    /// The text of a number with two decimal places: a minus sign where
    /// the sign is negative, the whole part, a point and two digits.
    pub open spec fn rendering(self) -> Seq<char> {
        let h = rounded_hundredths(capped(self.magnitude as int) as nat);
        let sign = if self.negative {
            seq!['-']
        } else {
            Seq::<char>::empty()
        };
        sign + decimal_digits(h / 100) + seq![
            '.',
            digit_char(((h / 10) % 10) as int),
            digit_char((h % 10) as int),
        ]
    }

    /// The magnitude that the number stands for.
    fn clamped(self) -> (m: u128)
        ensures
            m == capped(self.magnitude as int),
            m <= LIMIT,
    {
        if self.magnitude > 100_000_000_000_000_000_000_000_000_000_000 {
            100_000_000_000_000_000_000_000_000_000_000
        } else {
            self.magnitude
        }
    }

    /// The number in units, as a machine integer.
    fn signed(self) -> (v: i128)
        ensures
            v == self.value(),
            -LIMIT <= v <= LIMIT,
    {
        let m = self.clamped();
        if self.negative {
            -(m as i128)
        } else {
            m as i128
        }
    }

    /// The number of `units` millionths, or the end of the range on that
    /// side where `units` is beyond it.
    pub fn from_units(units: i128) -> (r: Number)
        ensures
            r == Self::of_value(units as int),
    {
        if units < 0 {
            if units < -100_000_000_000_000_000_000_000_000_000_000 {
                Number { negative: true, magnitude: 100_000_000_000_000_000_000_000_000_000_000 }
            } else {
                Number { negative: true, magnitude: (-units) as u128 }
            }
        } else {
            Self::positive(units as u128)
        }
    }

    /// The number of the given magnitude and sign; zero is positive.
    fn signed_magnitude(m: u128, negative: bool) -> (r: Number)
        ensures
            r == Self::of_value(
                if negative {
                    -(m as int)
                } else {
                    m as int
                },
            ),
    {
        let capped = if m > 100_000_000_000_000_000_000_000_000_000_000 {
            100_000_000_000_000_000_000_000_000_000_000
        } else {
            m
        };
        Number { negative: negative && m > 0, magnitude: capped }
    }

    /// The positive number of the given magnitude.
    fn positive(m: u128) -> (r: Number)
        ensures
            r == Self::of_value(m as int),
    {
        Self::signed_magnitude(m, false)
    }

    /// Adds two numbers.
    pub fn plus(self, other: Number) -> (r: Number)
        ensures
            r == self.sum(other),
    {
        Self::from_units(self.signed() + other.signed())
    }

    /// Subtracts `other` from `self`.
    pub fn minus(self, other: Number) -> (r: Number)
        ensures
            r == self.difference(other),
    {
        Self::from_units(self.signed() - other.signed())
    }

    /// The number with the opposite sign.
    pub fn negated(self) -> (r: Number)
        ensures
            r == self.negation(),
    {
        Number { negative: !self.negative, magnitude: self.magnitude }
    }

    /// Multiplies two numbers.
    pub fn times(self, other: Number) -> (r: Number)
        ensures
            r == self.product(other),
    {
        let a: u128 = self.clamped();
        let b: u128 = other.clamped();
        let negative = self.negative != other.negative;
        let p: u128 = a / 1_000_000;
        let s: u128 = a % 1_000_000;
        let q: u128 = b / 1_000_000;
        let t: u128 = b % 1_000_000;
        proof {
            lemma_product_of_parts(p as int, s as int, q as int, t as int);
            lemma_product_sign(self.value(), other.value());
            assert(magnitude(self.value() * other.value()) == a * b) by (nonlinear_arith)
                requires
                    a == magnitude(self.value()),
                    b == magnitude(other.value()),
            ;
            assert(p * q <= 100_000_000_000_000_000_000_000_000
                * 100_000_000_000_000_000_000_000_000) by (nonlinear_arith)
                requires
                    p <= 100_000_000_000_000_000_000_000_000,
                    q <= 100_000_000_000_000_000_000_000_000,
            ;
        }
        let whole: u128 = match p.checked_mul(q) {
            Some(w) => w,
            None => 100_000_000_000_000_000_000_000_000,
        };
        if whole >= 100_000_000_000_000_000_000_000_000 {
            assert(p * q >= 100_000_000_000_000_000_000_000_000);
            assert((a * b) / 1_000_000 >= LIMIT);
            return Self::signed_magnitude(100_000_000_000_000_000_000_000_000_000_000, negative);
        }
        assert(p * t <= 100_000_000_000_000_000_000_000_000 * 1_000_000) by (nonlinear_arith)
            requires
                p <= 100_000_000_000_000_000_000_000_000,
                t <= 1_000_000,
        ;
        assert(s * q <= 1_000_000 * 100_000_000_000_000_000_000_000_000) by (nonlinear_arith)
            requires
                q <= 100_000_000_000_000_000_000_000_000,
                s <= 1_000_000,
        ;
        assert(s * t <= 1_000_000 * 1_000_000) by (nonlinear_arith)
            requires
                s <= 1_000_000,
                t <= 1_000_000,
        ;
        let m: u128 = whole * 1_000_000 + p * t + s * q + (s * t) / 1_000_000;
        Self::signed_magnitude(m, negative)
    }

    /// Divides `self` by `other`; `None` where `other` is zero.
    pub fn over(self, other: Number) -> (r: Option<Number>)
        ensures
            r == self.quotient(other),
    {
        let a: u128 = self.clamped();
        let b: u128 = other.clamped();
        if b == 0 {
            return None;
        }
        let negative = self.negative != other.negative;
        let m: u128 = (a * 1_000_000) / b;
        proof {
            assert(magnitude(self.value() * SCALE) == a * 1_000_000);
            assert(magnitude(other.value()) == b);
            assert(a == 0 ==> m == 0);
        }
        Some(Self::signed_magnitude(m, negative))
    }

    /// Whether two numbers are equal.
    pub fn equals(self, other: Number) -> (r: bool)
        ensures
            r == self.same(other),
    {
        self.signed() == other.signed()
    }

    /// Whether `self` is less than `other`.
    pub fn less(self, other: Number) -> (r: bool)
        ensures
            r == self.below(other),
    {
        self.signed() < other.signed()
    }

    /// Whether `self` is at most `other`.
    pub fn less_equal(self, other: Number) -> (r: bool)
        ensures
            r == !other.below(self),
    {
        self.signed() <= other.signed()
    }

    /// The number of `n` wholes.
    pub fn from_whole(n: u64) -> (r: Number)
        ensures
            r == Self::whole(n),
    {
        Self::positive((n as u128) * 1_000_000)
    }

    /// Reads a literal from its digits before and after the decimal
    /// point.
    pub fn from_digits(whole: &Vec<char>, fraction: &Vec<char>) -> (r: Number)
        requires
            forall|i: int| 0 <= i < whole@.len() ==> is_digit(#[trigger] whole@[i]),
            forall|i: int| 0 <= i < fraction@.len() ==> is_digit(#[trigger] fraction@[i]),
        ensures
            r == Self::literal(whole@, fraction@),
    {
        let mut acc: u128 = 0;
        let mut i: usize = 0;
        while i < whole.len()
            invariant
                i <= whole.len(),
                acc == whole_capped(digits_value(whole@.take(i as int))),
                forall|j: int| 0 <= j < whole@.len() ==> is_digit(#[trigger] whole@[j]),
            decreases whole.len() - i,
        {
            let d: u128 = digit_of(whole[i]) as u128;
            proof {
                assert(whole@.take(i + 1).drop_last() =~= whole@.take(i as int));
                assert(whole@.take(i + 1).last() == whole@[i as int]);
            }
            let next: u128 = acc * 10 + d;
            acc = if next > 1_000_000_000_000_000_000_000_000_000 {
                1_000_000_000_000_000_000_000_000_000
            } else {
                next
            };
            i += 1;
        }
        assert(whole@.take(i as int) =~= whole@);
        let mut f: u128 = 0;
        let mut k: usize = 0;
        while k < 6
            invariant
                k <= 6,
                f == digits_value(padded_fraction(fraction@).take(k as int)),
                f < pow10(k as nat),
                forall|j: int| 0 <= j < fraction@.len() ==> is_digit(#[trigger] fraction@[j]),
            decreases 6 - k,
        {
            let d: u128 = if k < fraction.len() {
                digit_of(fraction[k]) as u128
            } else {
                0
            };
            proof {
                let p = padded_fraction(fraction@);
                assert(p.take(k + 1).drop_last() =~= p.take(k as int));
                assert(p.take(k + 1).last() == p[k as int]);
                reveal_with_fuel(pow10, 8);
            }
            f = f * 10 + d;
            k += 1;
        }
        assert(padded_fraction(fraction@).take(6) =~= padded_fraction(fraction@));
        proof {
            reveal_with_fuel(pow10, 8);
        }
        Self::positive(acc * 1_000_000 + f)
    }

    /// Renders the number with two decimal places.
    pub fn render(&self) -> (s: String)
        ensures
            s@ == self.rendering(),
    {
        let m: u128 = self.clamped();
        let q: u128 = m / 10_000;
        let r: u128 = m % 10_000;
        let h: u128 = if r > 5_000 || (r == 5_000 && q % 2 == 1) {
            q + 1
        } else {
            q
        };
        let mut out: Vec<char> = Vec::new();
        if self.negative {
            out.push('-');
        }
        let mut digits = digits_of(h / 100);
        out.append(&mut digits);
        out.push('.');
        out.push(char_of_digit(((h / 10) % 10) as u8));
        out.push(char_of_digit((h % 10) as u8));
        assert(out@ =~= self.rendering());
        crate::text::string_from_chars(&out)
    }
}

/// A whole part, or ten to the power 27 where it is beyond that: any whole
/// part that large denotes the largest number.
pub open spec fn whole_capped(w: nat) -> nat {
    if w <= 1_000_000_000_000_000_000_000_000_000 {
        w
    } else {
        1_000_000_000_000_000_000_000_000_000
    }
}

/// The product of two magnitudes from their whole parts `p`, `q` and
/// their fractional parts `s`, `t`, in units.
pub proof fn lemma_product_of_parts(p: int, s: int, q: int, t: int)
    requires
        p >= 0,
        q >= 0,
        0 <= s < 1_000_000,
        0 <= t < 1_000_000,
    ensures
        ((p * 1_000_000 + s) * (q * 1_000_000 + t)) / 1_000_000 == p * q * 1_000_000 + p * t + s
            * q + (s * t) / 1_000_000,
        p * q * 1_000_000 + p * t + s * q + (s * t) / 1_000_000 >= p * q * 1_000_000,
{
    let x = p * q * 1_000_000 + p * t + s * q;
    let y = s * t;
    assert((p * 1_000_000 + s) * (q * 1_000_000 + t) == x * 1_000_000 + y) by (nonlinear_arith)
        requires
            x == p * q * 1_000_000 + p * t + s * q,
            y == s * t,
    ;
    assert(y >= 0) by (nonlinear_arith)
        requires
            y == s * t,
            s >= 0,
            t >= 0,
    ;
    assert(p * t >= 0 && s * q >= 0) by (nonlinear_arith)
        requires
            p >= 0,
            q >= 0,
            s >= 0,
            t >= 0,
    ;
    assert((x * 1_000_000 + y) / 1_000_000 == x + y / 1_000_000);
}

/// A product is negative where its factors are of opposite signs and
/// neither is zero.
pub proof fn lemma_product_sign(a: int, b: int)
    ensures
        (a * b < 0) == ((a < 0 && b > 0) || (a > 0 && b < 0)),
        (a * b == 0) == (a == 0 || b == 0),
{
    assert((a * b < 0) == ((a < 0 && b > 0) || (a > 0 && b < 0))) by (nonlinear_arith);
    assert((a * b == 0) == (a == 0 || b == 0)) by (nonlinear_arith);
}

/// Negating a number twice gives the number back.
pub proof fn lemma_double_negation(n: Number)
    ensures
        n.negation().negation() == n,
{
}

/// Ten to the power `k`.
pub open spec fn pow10(k: nat) -> nat
    decreases k,
{
    if k == 0 {
        1
    } else {
        10 * pow10((k - 1) as nat)
    }
}

/// The value of a decimal digit character.
pub fn digit_of(c: char) -> (d: u8)
    requires
        is_digit(c),
    ensures
        d == digit_value(c),
        d < 10,
{
    (c as u32 - '0' as u32) as u8
}

/// The character of a decimal digit.
pub fn char_of_digit(d: u8) -> (c: char)
    requires
        d < 10,
    ensures
        c == digit_char(d as int),
        is_digit(c),
{
    (('0' as u8) + d) as char
}

/// The decimal digits of `n`, most significant first.
pub fn digits_of(n: u128) -> (v: Vec<char>)
    ensures
        v@ == decimal_digits(n as nat),
    decreases n,
{
    if n < 10 {
        let mut v: Vec<char> = Vec::new();
        v.push(char_of_digit(n as u8));
        v
    } else {
        let mut v = digits_of(n / 10);
        v.push(char_of_digit((n % 10) as u8));
        v
    }
}

} // verus!
