//! Magnitudes: exact rational numbers, kept as a numerator over a positive
//! denominator with their common divisor taken out.

use crate::text::{all_digits, decimal_value, digit_of, is_digit};
use vstd::prelude::*;

verus! {

/// A rational number as a numerator over a denominator.
pub struct MagView {
    pub num: int,
    pub den: int,
}

/// The range that a numerator and a denominator are held in: that of a
/// signed 128-bit integer without its least value, so that every number in
/// it can be negated.
pub open spec fn in_range(x: int) -> bool {
    -i128::MAX <= x <= i128::MAX
}

/// The absolute value of an integer.
pub open spec fn abs(x: int) -> nat {
    if x < 0 {
        (-x) as nat
    } else {
        x as nat
    }
}

/// The greatest common divisor, by the rule of Euclid. Of zero and zero it
/// is zero.
pub open spec fn gcd(a: nat, b: nat) -> nat
    decreases b,
{
    if b == 0 {
        a
    } else {
        gcd(b, a % b)
    }
}

/// The fraction `n / d` with the greatest common divisor of `n` and `d`
/// taken out of both. The denominator `d` is positive.
pub open spec fn lowest(n: int, d: int) -> MagView {
    let g = gcd(abs(n), abs(d)) as int;
    if n < 0 {
        MagView { num: -((-n) / g), den: d / g }
    } else {
        MagView { num: n / g, den: d / g }
    }
}

/// The number one.
pub open spec fn mag_one() -> MagView {
    MagView { num: 1, den: 1 }
}

/// The whole number `v`.
pub open spec fn mag_int(v: int) -> MagView {
    MagView { num: v, den: 1 }
}

/// The product, where numerator and denominator both stay in range before
/// the common divisor is taken out.
pub open spec fn mag_mul(a: MagView, b: MagView) -> Option<MagView> {
    if in_range(a.num * b.num) && in_range(a.den * b.den) {
        Some(lowest(a.num * b.num, a.den * b.den))
    } else {
        None
    }
}

/// The quotient, where the divisor is not zero and numerator and
/// denominator both stay in range before the common divisor is taken out.
pub open spec fn mag_div(a: MagView, b: MagView) -> Option<MagView> {
    if b.num == 0 {
        None
    } else if in_range(a.num * b.den) && in_range(a.den * b.num) {
        if b.num < 0 {
            Some(lowest(-(a.num * b.den), -(a.den * b.num)))
        } else {
            Some(lowest(a.num * b.den, a.den * b.num))
        }
    } else {
        None
    }
}

/// The sum, where the two cross products, their sum and the product of the
/// denominators all stay in range.
pub open spec fn mag_add(a: MagView, b: MagView) -> Option<MagView> {
    if in_range(a.num * b.den) && in_range(b.num * a.den) && in_range(
        a.num * b.den + b.num * a.den,
    ) && in_range(a.den * b.den) {
        Some(lowest(a.num * b.den + b.num * a.den, a.den * b.den))
    } else {
        None
    }
}

/// The difference, under the same conditions as the sum.
pub open spec fn mag_sub(a: MagView, b: MagView) -> Option<MagView> {
    if in_range(a.num * b.den) && in_range(b.num * a.den) && in_range(
        a.num * b.den - b.num * a.den,
    ) && in_range(a.den * b.den) {
        Some(lowest(a.num * b.den - b.num * a.den, a.den * b.den))
    } else {
        None
    }
}

/// `a` multiplied `k` times by `b`, where every product on the way can be
/// held.
pub open spec fn mag_mul_times(a: MagView, b: MagView, k: nat) -> Option<MagView>
    decreases k,
{
    if k == 0 {
        Some(a)
    } else {
        match mag_mul_times(a, b, (k - 1) as nat) {
            Some(m) => mag_mul(m, b),
            None => None,
        }
    }
}

/// `m` to the power `e`: for a negative `e`, one over `m` to the power
/// `-e`.
pub open spec fn mag_pow(m: MagView, e: int) -> Option<MagView> {
    if e >= 0 {
        mag_mul_times(mag_one(), m, e as nat)
    } else {
        match mag_mul_times(mag_one(), m, (-e) as nat) {
            Some(p) => mag_div(mag_one(), p),
            None => None,
        }
    }
}

/// Ten to the power `k`.
pub open spec fn pow10(k: nat) -> nat
    decreases k,
{
    if k == 0 {
        1
    } else {
        10 * pow10((k - 1) as nat)
    }
}

/// The position of the first period in `text` at or after `i`, or the length
/// of `text` where there is none.
pub open spec fn period_from(text: Seq<char>, i: int) -> int
    decreases text.len() - i,
{
    if i < 0 || i >= text.len() {
        text.len() as int
    } else if text[i] == '.' {
        i
    } else {
        period_from(text, i + 1)
    }
}

/// The number that a decimal numeral denotes: digits, with at most one
/// period among them and at least one digit in all. It denotes nothing where
/// the digits taken together, or the power of ten under them, cannot be
/// held.
pub open spec fn decimal_magnitude(text: Seq<char>) -> Option<MagView> {
    let dot = period_from(text, 0);
    let whole = text.take(dot);
    let fraction = if dot < text.len() {
        text.skip(dot + 1)
    } else {
        Seq::empty()
    };
    if !all_digits(whole) || !all_digits(fraction) || whole.len() + fraction.len() == 0 {
        None
    } else if in_range(decimal_value(whole + fraction) as int) && in_range(
        pow10(fraction.len()) as int,
    ) {
        Some(lowest(decimal_value(whole + fraction) as int, pow10(fraction.len()) as int))
    } else {
        None
    }
}

/// The greatest common divisor is positive unless both numbers are zero.
pub proof fn lemma_gcd_positive(a: nat, b: nat)
    requires
        a > 0 || b > 0,
    ensures
        gcd(a, b) > 0,
    decreases b,
{
    if b != 0 {
        lemma_gcd_positive(b, a % b);
    }
}

/// The greatest common divisor is no more than its second argument, unless
/// that is zero.
pub proof fn lemma_gcd_bound(a: nat, b: nat)
    requires
        b > 0,
    ensures
        gcd(a, b) <= b,
    decreases b,
{
    if a % b != 0 {
        lemma_gcd_bound(b, a % b);
    } else {
        assert(gcd(b, 0) == b);
    }
}

/// The greatest common divisor divides both numbers.
pub proof fn lemma_gcd_divides(a: nat, b: nat)
    ensures
        exists|x: nat, y: nat| a == #[trigger] (gcd(a, b) * x) && b == #[trigger] (gcd(a, b) * y),
    decreases b,
{
    let g = gcd(a, b);
    if b == 0 {
        assert(a == g * 1nat && b == g * 0nat);
    } else {
        lemma_gcd_divides(b, a % b);
        let (x, y): (nat, nat) = choose|x: nat, y: nat|
            b == #[trigger] (gcd(b, a % b) * x) && a % b == #[trigger] (gcd(b, a % b) * y);
        let q = a / b;
        assert(a == b * q + a % b) by (nonlinear_arith)
            requires
                b > 0,
                q == a / b,
        ;
        let z: nat = x * q + y;
        assert(a == g * z) by (nonlinear_arith)
            requires
                a == b * q + a % b,
                b == g * x,
                a % b == g * y,
                z == x * q + y,
        ;
        assert(a == g * z && b == g * x);
    }
}

/// Taking the common divisor out does not change the number: the fraction
/// `n / d` and its lowest terms have the same cross products, and the
/// denominator stays positive.
pub proof fn law_lowest_keeps_value(n: int, d: int)
    requires
        d > 0,
    ensures
        lowest(n, d).den > 0,
        lowest(n, d).num * d == n * lowest(n, d).den,
{
    let a = abs(n);
    let b = abs(d);
    let g = gcd(a, b);
    lemma_gcd_positive(a, b);
    lemma_gcd_divides(a, b);
    let (x, y): (nat, nat) = choose|x: nat, y: nat|
        a == #[trigger] (g * x) && b == #[trigger] (g * y);
    assert(a as int / g as int == x && b as int / g as int == y && y > 0) by (nonlinear_arith)
        requires
            a == g * x,
            b == g * y,
            g > 0,
            b > 0,
    ;
    let low = lowest(n, d);
    assert(low.den == y);
    if n < 0 {
        assert(low.num == -(x as int));
        assert(low.num * d == n * low.den) by (nonlinear_arith)
            requires
                low.num == -(x as int),
                low.den == y,
                -n == g * x,
                d == g * y,
        ;
    } else {
        assert(low.num == x);
        assert(low.num * d == n * low.den) by (nonlinear_arith)
            requires
                low.num == x,
                low.den == y,
                n == g * x,
                d == g * y,
        ;
    }
}

/// Whether the magnitude `m` is the fraction `n / d`.
pub open spec fn is_fraction(m: MagView, n: int, d: int) -> bool {
    m.den > 0 && m.num * d == n * m.den
}

/// The magnitudes that the four operations give are the product, the
/// quotient, the sum and the difference of the fractions that they are
/// given.
pub proof fn law_exact_arithmetic(a: MagView, b: MagView)
    requires
        a.den > 0,
        b.den > 0,
    ensures
        mag_mul(a, b) matches Some(m) ==> is_fraction(m, a.num * b.num, a.den * b.den),
        mag_div(a, b) matches Some(m) ==> is_fraction(m, a.num * b.den, a.den * b.num),
        mag_add(a, b) matches Some(m) ==> is_fraction(
            m,
            a.num * b.den + b.num * a.den,
            a.den * b.den,
        ),
        mag_sub(a, b) matches Some(m) ==> is_fraction(
            m,
            a.num * b.den - b.num * a.den,
            a.den * b.den,
        ),
{
    assert(a.den * b.den > 0) by (nonlinear_arith)
        requires
            a.den > 0,
            b.den > 0,
    ;
    law_lowest_keeps_value(a.num * b.num, a.den * b.den);
    law_lowest_keeps_value(a.num * b.den + b.num * a.den, a.den * b.den);
    law_lowest_keeps_value(a.num * b.den - b.num * a.den, a.den * b.den);
    if b.num > 0 {
        assert(a.den * b.num > 0) by (nonlinear_arith)
            requires
                a.den > 0,
                b.num > 0,
        ;
        law_lowest_keeps_value(a.num * b.den, a.den * b.num);
    } else if b.num < 0 {
        assert(-(a.den * b.num) > 0) by (nonlinear_arith)
            requires
                a.den > 0,
                b.num < 0,
        ;
        let n = -(a.num * b.den);
        let d = -(a.den * b.num);
        law_lowest_keeps_value(n, d);
        let m = lowest(n, d);
        assert(m.num * (a.den * b.num) == (a.num * b.den) * m.den) by (nonlinear_arith)
            requires
                m.num * d == n * m.den,
                n == -(a.num * b.den),
                d == -(a.den * b.num),
        ;
    }
}

/// An exact rational number. The denominator is positive, and numerator and
/// denominator are in range.
#[derive(Debug, Clone, Copy, PartialEq, Eq)]
pub struct Magnitude {
    num: i128,
    den: i128,
}

impl View for Magnitude {
    type V = MagView;

    closed spec fn view(&self) -> MagView {
        MagView { num: self.num as int, den: self.den as int }
    }
}

/// The product of two integers, if it is in range.
fn product(a: i128, b: i128) -> (r: Option<i128>)
    ensures
        r == if in_range(a * b) {
            Some((a * b) as i128)
        } else {
            None::<i128>
        },
{
    match a.checked_mul(b) {
        Some(p) => if p == i128::MIN {
            None
        } else {
            Some(p)
        },
        None => None,
    }
}

/// The greatest common divisor of two numbers.
fn gcd_of(a: u128, b: u128) -> (g: u128)
    ensures
        g == gcd(a as nat, b as nat),
{
    let mut x = a;
    let mut y = b;
    while y != 0
        invariant
            gcd(x as nat, y as nat) == gcd(a as nat, b as nat),
        decreases y,
    {
        let r = x % y;
        x = y;
        y = r;
    }
    x
}

/// The absolute value of an integer in range.
fn magnitude_of(x: i128) -> (r: u128)
    requires
        in_range(x as int),
    ensures
        r == abs(x as int),
{
    if x < 0 {
        (-x) as u128
    } else {
        x as u128
    }
}

impl Magnitude {
    #[verifier::type_invariant]
    spec fn well_formed(self) -> bool {
        &&& self.den > 0
        &&& in_range(self.num as int)
    }

    /// The fraction `n / d` in lowest terms.
    fn lowest_terms(n: i128, d: i128) -> (r: Self)
        requires
            in_range(n as int),
            d > 0,
        ensures
            r@ == lowest(n as int, d as int),
    {
        let a = magnitude_of(n);
        let b = magnitude_of(d);
        let g = gcd_of(a, b);
        proof {
            lemma_gcd_positive(a as nat, b as nat);
            lemma_gcd_bound(a as nat, b as nat);
        }
        let q = (a / g) as i128;
        let den = (b / g) as i128;
        assert(den > 0) by (nonlinear_arith)
            requires
                den == (b as int) / (g as int),
                b >= g,
                g > 0,
        ;
        if n < 0 {
            Magnitude { num: -q, den }
        } else {
            Magnitude { num: q, den }
        }
    }

    /// The number one.
    pub fn one() -> (r: Self)
        ensures
            r@ == mag_one(),
    {
        Magnitude { num: 1, den: 1 }
    }

    /// The whole number `v`.
    pub fn from_int(v: i64) -> (r: Self)
        ensures
            r@ == mag_int(v as int),
    {
        Magnitude { num: v as i128, den: 1 }
    }

    /// The fraction `n / d` in lowest terms, with the sign in the numerator.
    /// There is none where `d` is zero or one of the two is the least 128-bit
    /// integer.
    pub fn ratio(n: i128, d: i128) -> (r: Option<Self>)
        ensures
            match r {
                Some(m) => d != 0 && in_range(n as int) && in_range(d as int) && m@ == (if d < 0 {
                    lowest(-n, -d)
                } else {
                    lowest(n as int, d as int)
                }),
                None => d == 0 || !in_range(n as int) || !in_range(d as int),
            },
    {
        if d == 0 || n == i128::MIN || d == i128::MIN {
            None
        } else if d < 0 {
            Some(Self::lowest_terms(-n, -d))
        } else {
            Some(Self::lowest_terms(n, d))
        }
    }

    /// The numerator.
    pub fn numerator(&self) -> (r: i128)
        ensures
            r == self@.num,
    {
        self.num
    }

    /// The denominator, which is positive.
    pub fn denominator(&self) -> (r: i128)
        ensures
            r == self@.den,
            r > 0,
    {
        proof {
            use_type_invariant(self);
        }
        self.den
    }

    /// Whether the two magnitudes have the same numerator and the same
    /// denominator.
    pub fn same(&self, other: &Self) -> (r: bool)
        ensures
            r == (self@ == other@),
    {
        self.num == other.num && self.den == other.den
    }

    /// The product, if it can be held.
    pub fn checked_mul(&self, other: &Self) -> (r: Option<Self>)
        ensures
            match r {
                Some(m) => mag_mul(self@, other@) == Some(m@),
                None => mag_mul(self@, other@) is None,
            },
    {
        proof {
            use_type_invariant(self);
            use_type_invariant(other);
        }
        match (product(self.num, other.num), product(self.den, other.den)) {
            (Some(n), Some(d)) => {
                assert(d > 0) by (nonlinear_arith)
                    requires
                        d == self.den * other.den,
                        self.den > 0,
                        other.den > 0,
                ;
                Some(Self::lowest_terms(n, d))
            },
            _ => None,
        }
    }

    /// The quotient, if the divisor is not zero and it can be held.
    pub fn checked_div(&self, other: &Self) -> (r: Option<Self>)
        ensures
            match r {
                Some(m) => mag_div(self@, other@) == Some(m@),
                None => mag_div(self@, other@) is None,
            },
    {
        proof {
            use_type_invariant(self);
            use_type_invariant(other);
        }
        if other.num == 0 {
            return None;
        }
        match (product(self.num, other.den), product(self.den, other.num)) {
            (Some(n), Some(d)) => {
                assert(d != 0) by (nonlinear_arith)
                    requires
                        d == self.den * other.num,
                        self.den > 0,
                        other.num != 0,
                ;
                assert((d < 0) == (other.num < 0)) by (nonlinear_arith)
                    requires
                        d == self.den * other.num,
                        self.den > 0,
                        other.num != 0,
                ;
                if other.num < 0 {
                    Some(Self::lowest_terms(-n, -d))
                } else {
                    Some(Self::lowest_terms(n, d))
                }
            },
            _ => None,
        }
    }

    /// The sum, if it can be held.
    pub fn checked_add(&self, other: &Self) -> (r: Option<Self>)
        ensures
            match r {
                Some(m) => mag_add(self@, other@) == Some(m@),
                None => mag_add(self@, other@) is None,
            },
    {
        proof {
            use_type_invariant(self);
            use_type_invariant(other);
        }
        match (
            product(self.num, other.den),
            product(other.num, self.den),
            product(self.den, other.den),
        ) {
            (Some(x), Some(y), Some(d)) => {
                assert(d > 0) by (nonlinear_arith)
                    requires
                        d == self.den * other.den,
                        self.den > 0,
                        other.den > 0,
                ;
                match x.checked_add(y) {
                    Some(n) => if n == i128::MIN {
                        None
                    } else {
                        Some(Self::lowest_terms(n, d))
                    },
                    None => None,
                }
            },
            _ => None,
        }
    }

    /// The difference, if it can be held.
    pub fn checked_sub(&self, other: &Self) -> (r: Option<Self>)
        ensures
            match r {
                Some(m) => mag_sub(self@, other@) == Some(m@),
                None => mag_sub(self@, other@) is None,
            },
    {
        proof {
            use_type_invariant(self);
            use_type_invariant(other);
        }
        match (
            product(self.num, other.den),
            product(other.num, self.den),
            product(self.den, other.den),
        ) {
            (Some(x), Some(y), Some(d)) => {
                assert(d > 0) by (nonlinear_arith)
                    requires
                        d == self.den * other.den,
                        self.den > 0,
                        other.den > 0,
                ;
                match x.checked_sub(y) {
                    Some(n) => if n == i128::MIN {
                        None
                    } else {
                        Some(Self::lowest_terms(n, d))
                    },
                    None => None,
                }
            },
            _ => None,
        }
    }

    /// The power with a whole exponent, if every product on the way can be
    /// held and, for a negative exponent, the magnitude is not zero.
    pub fn checked_pow(&self, e: i8) -> (r: Option<Self>)
        ensures
            match r {
                Some(m) => mag_pow(self@, e as int) == Some(m@),
                None => mag_pow(self@, e as int) is None,
            },
    {
        let times: u8 = if e < 0 {
            if e == i8::MIN {
                128
            } else {
                (-e) as u8
            }
        } else {
            e as u8
        };
        let mut acc = Self::one();
        let mut i: u8 = 0;
        while i < times
            invariant
                i <= times,
                times == abs(e as int),
                mag_mul_times(mag_one(), self@, i as nat) == Some(acc@),
            decreases times - i,
        {
            match acc.checked_mul(self) {
                Some(m) => {
                    acc = m;
                },
                None => {
                    proof {
                        assert(mag_mul_times(mag_one(), self@, (i + 1) as nat) is None);
                        lemma_mul_times_fails(mag_one(), self@, (i + 1) as nat, times as nat);
                    }
                    return None;
                },
            }
            i += 1;
        }
        if e < 0 {
            Self::one().checked_div(&acc)
        } else {
            Some(acc)
        }
    }

    /// Reads `chars[from..to]` as a decimal numeral: digits with at most one
    /// period among them.
    pub fn from_decimal(chars: &Vec<char>, from: usize, to: usize) -> (r: Option<Self>)
        requires
            from <= to <= chars.len(),
        ensures
            match r {
                Some(m) => decimal_magnitude(chars@.subrange(from as int, to as int)) == Some(m@),
                None => decimal_magnitude(chars@.subrange(from as int, to as int)) is None,
            },
    {
        let ghost text = chars@.subrange(from as int, to as int);
        // Find the first period.
        let mut dot: usize = from;
        while dot < to && chars[dot] != '.'
            invariant
                from <= dot <= to <= chars.len(),
                text == chars@.subrange(from as int, to as int),
                period_from(text, 0) == period_from(text, dot - from),
            decreases to - dot,
        {
            dot += 1;
        }
        let ghost whole = text.take(dot - from);
        let ghost fraction = if dot < to {
            text.skip(dot - from + 1)
        } else {
            Seq::<char>::empty()
        };
        assert(period_from(text, 0) == dot - from);
        // The digits before and behind the period, read as one number.
        let mut mantissa: i128 = 0;
        let mut scale: i128 = 1;
        let mut fits = true;
        let mut count: usize = 0;
        let mut i: usize = from;
        let ghost mut seen: Seq<char> = Seq::empty();
        let ghost mut behind: nat = 0;
        while i < to
            invariant
                from <= dot <= to <= chars.len(),
                from <= i <= to,
                text == chars@.subrange(from as int, to as int),
                period_from(text, 0) == dot - from,
                whole == text.take(dot - from),
                fraction == (if dot < to {
                    text.skip(dot - from + 1)
                } else {
                    Seq::<char>::empty()
                }),
                i <= dot ==> seen == whole.take(i - from) && behind == 0,
                i > dot ==> seen == whole + fraction.take(i - dot - 1) && behind == i - dot - 1,
                all_digits(seen),
                count == seen.len(),
                fits ==> mantissa == decimal_value(seen) && scale == pow10(behind) && 0
                    <= mantissa <= i128::MAX && 0 < scale <= i128::MAX,
                !fits ==> !in_range(decimal_value(seen) as int) || !in_range(pow10(behind) as int),
            decreases to - i,
        {
            if i == dot {
                proof {
                    assert(whole.take(i - from) =~= whole);
                    assert(fraction.take(0) =~= Seq::<char>::empty());
                    assert(whole + Seq::<char>::empty() =~= whole);
                }
                i += 1;
                continue ;
            }
            let c = chars[i];
            match digit_of(c) {
                None => {
                    proof {
                        if i < dot {
                            assert(whole[i - from] == c);
                            assert(!all_digits(whole));
                        } else {
                            assert(fraction[i - dot - 1] == c);
                            assert(!all_digits(fraction));
                        }
                    }
                    return None;
                },
                Some(d) => {
                    let ghost next = seen.push(c);
                    proof {
                        assert(next.drop_last() =~= seen);
                        assert(next.last() == c);
                        if i < dot {
                            assert(whole.take(i - from + 1) =~= whole.take(i - from).push(c));
                        } else {
                            assert(fraction.take(i - dot) =~= fraction.take(i - dot - 1).push(c));
                            assert(whole + fraction.take(i - dot) =~= (whole + fraction.take(
                                i - dot - 1,
                            )).push(c));
                        }
                        lemma_decimal_grows(seen, c);
                        lemma_pow10_grows(behind);
                    }
                    if fits {
                        let grown = match product(mantissa, 10) {
                            Some(m) => m.checked_add(d as i128),
                            None => None,
                        };
                        let scaled = if i > dot {
                            product(scale, 10)
                        } else {
                            Some(scale)
                        };
                        match (grown, scaled) {
                            (Some(m), Some(s)) => {
                                mantissa = m;
                                scale = s;
                            },
                            _ => {
                                fits = false;
                            },
                        }
                    }
                    proof {
                        seen = next;
                        if i > dot {
                            behind = behind + 1;
                        }
                    }
                    count += 1;
                },
            }
            i += 1;
        }
        proof {
            if dot < to {
                assert(fraction.take(to - dot - 1) =~= fraction);
            } else {
                assert(whole.take(to - from) =~= whole);
                assert(whole + fraction =~= whole);
            }
            assert(seen =~= whole + fraction);
            lemma_all_digits_split(whole, fraction);
        }
        if count == 0 || !fits {
            None
        } else {
            Some(Self::lowest_terms(mantissa, scale))
        }
    }
}

/// Once a product on the way cannot be held, no longer chain of products
/// can.
pub proof fn lemma_mul_times_fails(a: MagView, b: MagView, k: nat, n: nat)
    requires
        k <= n,
        mag_mul_times(a, b, k) is None,
    ensures
        mag_mul_times(a, b, n) is None,
    decreases n,
{
    if k < n {
        lemma_mul_times_fails(a, b, k, (n - 1) as nat);
    }
}

/// A numeral with one more digit denotes at least as much.
pub proof fn lemma_decimal_grows(digits: Seq<char>, c: char)
    requires
        is_digit(c),
    ensures
        decimal_value(digits.push(c)) == decimal_value(digits) * 10 + crate::text::digit_value(c),
        decimal_value(digits.push(c)) >= decimal_value(digits),
{
    assert(digits.push(c).drop_last() =~= digits);
}

/// The next power of ten is ten times the one before.
pub proof fn lemma_pow10_grows(k: nat)
    ensures
        pow10(k + 1) == 10 * pow10(k),
        pow10(k) > 0,
    decreases k,
{
    if k > 0 {
        lemma_pow10_grows((k - 1) as nat);
    }
}

/// A sequence is all digits exactly when its two parts are.
pub proof fn lemma_all_digits_split(a: Seq<char>, b: Seq<char>)
    ensures
        all_digits(a + b) == (all_digits(a) && all_digits(b)),
{
    if all_digits(a + b) {
        assert forall|i: int| 0 <= i < a.len() implies is_digit(#[trigger] a[i]) by {
            assert((a + b)[i] == a[i]);
        }
        assert forall|i: int| 0 <= i < b.len() implies is_digit(#[trigger] b[i]) by {
            assert((a + b)[a.len() + i] == b[i]);
        }
    }
}

} // verus!
