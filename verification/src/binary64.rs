//! Binary64 numbers of IEEE 754, held as bit patterns and computed with
//! integers alone.
//!
//! Every finite number is a whole multiple of the smallest positive one, so
//! its magnitude is a natural number of such units. The exact outcome of an
//! operation is a fraction of naturals, and what the operation returns is the
//! number nearest to that fraction.

use crate::natural::Natural;
use crate::text::{decimal, padded, padded_text};
use vstd::arithmetic::div_mod::*;
use vstd::arithmetic::mul::*;
use vstd::arithmetic::power2::*;
use vstd::prelude::*;

verus! {

/// The bit that makes a number negative.
pub const SIGN_BIT: u64 = 0x8000_0000_0000_0000;

/// The bit pattern of positive infinity; larger magnitudes are not numbers.
pub const INFINITE: u64 = 0x7ff0_0000_0000_0000;

/// The lowest bit of the exponent field, and the hidden bit of a significand.
pub const HIDDEN_BIT: u64 = 0x10_0000_0000_0000;

/// Significands lie below this bound.
pub const SIGNIFICAND_BOUND: u64 = 0x20_0000_0000_0000;

/// One is two to this power, in units of the smallest positive number.
pub const UNIT_SCALE: u32 = 1074;

/// The quotient `n / d` rounded to a whole number, halves to the even one.
pub open spec fn half_even(n: nat, d: nat) -> nat {
    let q = n / d;
    let r = n % d;
    if 2 * r > d || (2 * r == d && q % 2 == 1) {
        q + 1
    } else {
        q
    }
}

/// How many low bits `q` has beyond a significand.
pub open spec fn excess(q: nat) -> nat
    decreases q,
{
    if q < SIGNIFICAND_BOUND {
        0
    } else {
        1 + excess(q / 2)
    }
}

/// The bit pattern of the number nearest to `n / d` units.
pub open spec fn nearest_magnitude(n: nat, d: nat) -> nat {
    let s = excess(n / d);
    let bits = s * HIDDEN_BIT + half_even(n, d * pow2(s));
    if bits < INFINITE {
        bits as nat
    } else {
        INFINITE as nat
    }
}

/// The number nearest to `n / d` units, ties to the even one, with a sign.
pub open spec fn nearest(negative: bool, n: nat, d: nat) -> Binary64 {
    signed(negative, nearest_magnitude(n, d))
}

/// The number with a sign and a magnitude's bit pattern.
pub open spec fn signed(negative: bool, magnitude: nat) -> Binary64 {
    Binary64 {
        bits: (magnitude + if negative {
            SIGN_BIT as int
        } else {
            0
        }) as u64,
    }
}

/// A binary64 number.
#[derive(Clone, Copy, PartialEq, Eq, Structural, Debug)]
pub struct Binary64 {
    pub bits: u64,
}

impl Binary64 {
    pub open spec fn negative_spec(self) -> bool {
        self.bits >= SIGN_BIT
    }

    /// The bit pattern without the sign; it grows with the magnitude.
    pub open spec fn magnitude_spec(self) -> u64 {
        self.bits % SIGN_BIT
    }

    pub open spec fn finite_spec(self) -> bool {
        self.magnitude_spec() < INFINITE
    }

    pub open spec fn nan_spec(self) -> bool {
        self.magnitude_spec() > INFINITE
    }

    pub open spec fn infinite_spec(self) -> bool {
        self.magnitude_spec() == INFINITE
    }

    pub open spec fn zero_spec(self) -> bool {
        self.magnitude_spec() == 0
    }

    /// The significand as a whole number.
    pub open spec fn significand_spec(self) -> nat {
        let m = self.magnitude_spec();
        if m < HIDDEN_BIT {
            m as nat
        } else {
            (m % HIDDEN_BIT + HIDDEN_BIT) as nat
        }
    }

    /// The power of two that the significand is scaled by, in units.
    pub open spec fn scale_spec(self) -> nat {
        let m = self.magnitude_spec();
        if m < HIDDEN_BIT {
            0
        } else {
            (m / HIDDEN_BIT - 1) as nat
        }
    }

    /// The magnitude of a finite number, in units.
    pub open spec fn units(self) -> nat {
        self.significand_spec() * pow2(self.scale_spec())
    }

    /// A whole number that orders all but the numbers that are not numbers.
    pub open spec fn rank(self) -> int {
        if self.negative_spec() {
            -(self.magnitude_spec() as int)
        } else {
            self.magnitude_spec() as int
        }
    }

    pub open spec fn not_a_number() -> Binary64 {
        Binary64 { bits: 0x7ff8_0000_0000_0000 }
    }

    pub open spec fn opposite(self) -> Binary64 {
        signed(!self.negative_spec(), self.magnitude_spec() as nat)
    }

    /// Signed units of a finite number.
    pub open spec fn value(self) -> int {
        if self.negative_spec() {
            -(self.units() as int)
        } else {
            self.units() as int
        }
    }

    /// The sum of two numbers.
    pub open spec fn sum(self, other: Binary64) -> Binary64 {
        if self.nan_spec() || other.nan_spec() {
            Binary64::not_a_number()
        } else if self.infinite_spec() {
            if other.infinite_spec() && self.negative_spec() != other.negative_spec() {
                Binary64::not_a_number()
            } else {
                self
            }
        } else if other.infinite_spec() {
            other
        } else {
            let total = self.value() + other.value();
            let negative = if total == 0 {
                self.negative_spec() && other.negative_spec()
            } else {
                total < 0
            };
            nearest(negative, vstd::math::abs(total) as nat, 1)
        }
    }

    /// The product of two numbers.
    pub open spec fn product(self, other: Binary64) -> Binary64 {
        let negative = self.negative_spec() != other.negative_spec();
        if self.nan_spec() || other.nan_spec() {
            Binary64::not_a_number()
        } else if self.infinite_spec() || other.infinite_spec() {
            if self.zero_spec() || other.zero_spec() {
                Binary64::not_a_number()
            } else {
                signed(negative, INFINITE as nat)
            }
        } else {
            nearest(negative, self.units() * other.units(), pow2(UNIT_SCALE as nat))
        }
    }

    /// The quotient of two numbers.
    pub open spec fn quotient(self, other: Binary64) -> Binary64 {
        let negative = self.negative_spec() != other.negative_spec();
        if self.nan_spec() || other.nan_spec() {
            Binary64::not_a_number()
        } else if self.infinite_spec() {
            if other.infinite_spec() {
                Binary64::not_a_number()
            } else {
                signed(negative, INFINITE as nat)
            }
        } else if other.infinite_spec() {
            signed(negative, 0)
        } else if other.zero_spec() {
            if self.zero_spec() {
                Binary64::not_a_number()
            } else {
                signed(negative, INFINITE as nat)
            }
        } else {
            nearest(negative, self.units() * pow2(UNIT_SCALE as nat), other.units())
        }
    }

    /// Whether `self <= other` as numbers.
    pub open spec fn at_most(self, other: Binary64) -> bool {
        !self.nan_spec() && !other.nan_spec() && self.rank() <= other.rank()
    }

    /// Whether `self < other` as numbers.
    pub open spec fn less_than(self, other: Binary64) -> bool {
        !self.nan_spec() && !other.nan_spec() && self.rank() < other.rank()
    }

    /// Whether this is a number above zero.
    pub open spec fn above_zero(self) -> bool {
        !self.nan_spec() && self.rank() > 0
    }

    /// Whether this is a finite number that is not below zero.
    pub open spec fn measurable(self) -> bool {
        self.finite_spec() && self.rank() >= 0
    }

    pub open spec fn of_bits(bits: u64) -> Binary64 {
        Binary64 { bits }
    }

    /// The number nearest to a whole number.
    pub open spec fn of_nat(value: nat) -> Binary64 {
        nearest(false, value * pow2(UNIT_SCALE as nat), 1)
    }
}

pub(crate) proof fn lemma_excess_coarse(q: nat, k: nat)
    requires
        k >= 1,
        q >= SIGNIFICAND_BOUND * pow2((k - 1) as nat),
    ensures
        excess(q) == k + excess(q / pow2(k)),
    decreases k,
{
    lemma2_to64();
    if k > 1 {
        let w = pow2((k - 2) as nat);
        lemma_pow2_unfold((k - 1) as nat);
        lemma_pow2_unfold(k);
        lemma_pow2_pos((k - 2) as nat);
        assert(q >= SIGNIFICAND_BOUND && q / 2 >= SIGNIFICAND_BOUND * w) by (nonlinear_arith)
            requires
                q >= SIGNIFICAND_BOUND * (2 * w),
                w >= 1,
        ;
        lemma_excess_coarse(q / 2, (k - 1) as nat);
        lemma_div_denominator(q as int, 2, pow2((k - 1) as nat) as int);
    }
}

proof fn lemma_quotient_below(n: nat, d: nat, bound: nat)
    requires
        d > 0,
    ensures
        n / d < bound <==> n < bound * d,
{
    lemma_fundamental_div_mod(n as int, d as int);
    lemma_mod_bound(n as int, d as int);
    if n < bound * d {
        assert(n / d < bound) by (nonlinear_arith)
            requires
                n < bound * d,
                n == d * (n / d) + n % d,
                0 <= n % d,
                d > 0,
        ;
    } else {
        assert(n / d >= bound) by (nonlinear_arith)
            requires
                n >= bound * d,
                n == d * (n / d) + n % d,
                n % d < d,
                d > 0,
        ;
    }
}

/// The quotient rounded to a whole number, where it fits in a significand.
fn rounded_quotient(n: &Natural, d: &Natural) -> (result: u64)
    requires
        d@ > 0,
        n@ < SIGNIFICAND_BOUND * d@,
    ensures
        result == half_even(n@, d@),
        result <= SIGNIFICAND_BOUND,
{
    let bound = d.shifted(53);
    proof {
        lemma2_to64();
        lemma2_to64_rest();
    }
    assert(bound@ == d@ * SIGNIFICAND_BOUND);
    let mut rest = n.scaled(1, 0);
    let mut q: u64 = 0;
    let mut step: u32 = 0;
    while step < 53
        invariant
            step <= 53,
            rest@ < bound@,
            n@ * pow2(step as nat) == q * bound@ + rest@,
            q < pow2(step as nat),
            d@ > 0,
            bound@ == d@ * SIGNIFICAND_BOUND,
        decreases 53 - step,
    {
        let doubled = rest.scaled(2, 0);
        proof {
            lemma2_to64();
            lemma2_to64_rest();
            lemma_pow2_unfold((step + 1) as nat);
            if step < 52 {
                lemma_pow2_strictly_increases(step as nat, 52);
            }
            assert(n@ * (2 * pow2(step as nat)) == 2 * q * bound@ + 2 * rest@)
                by (nonlinear_arith)
                requires
                    n@ * pow2(step as nat) == q * bound@ + rest@,
            ;
        }
        match doubled.less(&bound) {
            Some(less) => {
                assert((2 * q + 1) * bound@ == 2 * q * bound@ + bound@) by (nonlinear_arith);
                q = 2 * q + 1;
                rest = less;
            },
            None => {
                q = 2 * q;
                rest = doubled;
            },
        }
        step = step + 1;
    }
    let ghost r = rest@;
    let doubled = rest.scaled(2, 0);
    let above = bound.below(&doubled);
    let under = doubled.below(&bound);
    proof {
        lemma2_to64_rest();
        // rest is a whole multiple of the bound on significands
        let part: int = n@ - q * d@;
        assert(r == SIGNIFICAND_BOUND * part) by (nonlinear_arith)
            requires
                n@ * SIGNIFICAND_BOUND == q * bound@ + r,
                bound@ == d@ * SIGNIFICAND_BOUND,
                part == n@ - q * d@,
        ;
        assert(0 <= part < d@) by (nonlinear_arith)
            requires
                r == SIGNIFICAND_BOUND * part,
                0 <= r < d@ * SIGNIFICAND_BOUND,
                SIGNIFICAND_BOUND > 0,
        ;
        lemma_fundamental_div_mod_converse(n@ as int, d@ as int, q as int, part);
        assert(2 * r > bound@ <==> 2 * part > d@) by (nonlinear_arith)
            requires
                r == SIGNIFICAND_BOUND * part,
                bound@ == d@ * SIGNIFICAND_BOUND,
                SIGNIFICAND_BOUND > 0,
        ;
        assert(2 * r < bound@ <==> 2 * part < d@) by (nonlinear_arith)
            requires
                r == SIGNIFICAND_BOUND * part,
                bound@ == d@ * SIGNIFICAND_BOUND,
                SIGNIFICAND_BOUND > 0,
        ;
    }
    if above || (!under && q % 2 == 1) {
        q + 1
    } else {
        q
    }
}

proof fn lemma_narrowed(n: nat, d: nat, s: nat, divisor: nat, k: nat)
    requires
        d > 0,
        divisor > 0,
        divisor == d * pow2(s),
        k >= 1,
        n >= divisor * pow2((52 + k) as nat),
    ensures
        divisor * pow2(k) == d * pow2(s + k),
        divisor * pow2(k) > 0,
        excess(n / divisor) == k + excess(n / (divisor * pow2(k))),
{
    lemma2_to64_rest();
    lemma_pow2_pos(k);
    lemma_pow2_adds(s, k);
    lemma_pow2_adds(53, (k - 1) as nat);
    let g = (SIGNIFICAND_BOUND * pow2((k - 1) as nat)) as nat;
    assert(n >= g * divisor) by (nonlinear_arith)
        requires
            n >= divisor * pow2((52 + k) as nat),
            pow2((52 + k) as nat) == g,
    ;
    lemma_quotient_below(n, divisor, g);
    lemma_excess_coarse(n / divisor, k);
    lemma_div_denominator(n as int, divisor as int, pow2(k) as int);
    assert(d * pow2(s) * pow2(k) == d * (pow2(s) * pow2(k))) by (nonlinear_arith);
    assert(divisor * pow2(k) > 0) by (nonlinear_arith)
        requires
            divisor > 0,
            pow2(k) > 0,
    ;
}

/// The number nearest to `n / d` units.
pub(crate) fn nearest_of(negative: bool, n: &Natural, d: &Natural) -> (result: Binary64)
    requires
        d@ > 0,
    ensures
        result == nearest(negative, n@, d@),
{
    let mut s: u32 = 0;
    let mut divisor = d.scaled(1, 0);
    let sign: u64 = if negative {
        SIGN_BIT
    } else {
        0
    };
    proof {
        lemma2_to64();
        lemma2_to64_rest();
        assert(d@ * 1 == d@);
    }
    let mut bound = divisor.shifted(85);
    while s <= 2015 && !n.below(&bound)
        invariant
            d@ > 0,
            divisor@ == d@ * pow2(s as nat),
            divisor@ > 0,
            excess(n@ / d@) == s + excess(n@ / divisor@),
            bound@ == divisor@ * pow2(85),
            s <= 2047,
        decreases 2047 - s,
    {
        proof {
            lemma_pow2_strictly_increases(84, 85);
            assert(divisor@ * pow2(84) <= divisor@ * pow2(85)) by (nonlinear_arith)
                requires
                    pow2(84) <= pow2(85),
            ;
            lemma_narrowed(n@, d@, s as nat, divisor@, 32);
            let (w, k) = (pow2(85), pow2(32));
            assert(divisor@ * w * k == divisor@ * k * w) by (nonlinear_arith);
        }
        divisor = divisor.shifted(32);
        bound = bound.shifted(32);
        s = s + 32;
    }
    bound = divisor.shifted(53);
    while s < 2047 && !n.below(&bound)
        invariant
            d@ > 0,
            divisor@ == d@ * pow2(s as nat),
            divisor@ > 0,
            excess(n@ / d@) == s + excess(n@ / divisor@),
            bound@ == divisor@ * pow2(53),
            s <= 2047,
        decreases 2047 - s,
    {
        proof {
            lemma_narrowed(n@, d@, s as nat, divisor@, 1);
            let (w, k) = (pow2(53), pow2(1));
            assert(divisor@ * w * k == divisor@ * k * w) by (nonlinear_arith);
        }
        divisor = divisor.shifted(1);
        bound = bound.shifted(1);
        s = s + 1;
    }
    proof {
        lemma2_to64_rest();
        assert(divisor@ * pow2(53) == SIGNIFICAND_BOUND * divisor@) by (nonlinear_arith)
            requires
                pow2(53) == SIGNIFICAND_BOUND,
        ;
    }
    if s >= 2047 {
        proof {
            assert(excess(n@ / d@) * HIDDEN_BIT >= 2047 * HIDDEN_BIT) by (nonlinear_arith)
                requires
                    excess(n@ / d@) >= 2047,
            ;
        }
        Binary64 { bits: INFINITE + sign }
    } else {
        proof {
            lemma_quotient_below(n@, divisor@, SIGNIFICAND_BOUND as nat);
        }
        let m: u64 = rounded_quotient(n, &divisor);
        let bits: u64 = s as u64 * HIDDEN_BIT + m;
        if bits < INFINITE {
            Binary64 { bits: bits + sign }
        } else {
            Binary64 { bits: INFINITE + sign }
        }
    }
}

pub(crate) proof fn lemma_units_positive(x: Binary64)
    requires
        x.finite_spec(),
    ensures
        x.units() == 0 <==> x.zero_spec(),
        x.significand_spec() < SIGNIFICAND_BOUND,
        x.scale_spec() <= 2045,
        x.scale_spec() > 0 ==> x.significand_spec() >= HIDDEN_BIT,
{
    lemma_pow2_pos(x.scale_spec());
    let (a, b) = (x.significand_spec(), pow2(x.scale_spec()));
    assert(a * b == 0 <==> a == 0) by (nonlinear_arith)
        requires
            b > 0,
    ;
}

impl Binary64 {
    /// The number with a bit pattern.
    pub fn from_bits(bits: u64) -> (result: Binary64)
        ensures
            result == Binary64::of_bits(bits),
    {
        Binary64 { bits }
    }

    /// Whether the sign bit is set.
    pub fn is_negative(self) -> (result: bool)
        ensures
            result == self.negative_spec(),
    {
        self.bits >= SIGN_BIT
    }

    /// Whether this is a number and not an infinite one.
    pub fn is_finite(self) -> (result: bool)
        ensures
            result == self.finite_spec(),
    {
        self.bits % SIGN_BIT < INFINITE
    }

    /// Whether this is not a number.
    pub fn is_nan(self) -> (result: bool)
        ensures
            result == self.nan_spec(),
    {
        self.bits % SIGN_BIT > INFINITE
    }

    fn is_infinite(self) -> (result: bool)
        ensures
            result == self.infinite_spec(),
    {
        self.bits % SIGN_BIT == INFINITE
    }

    fn is_zero(self) -> (result: bool)
        ensures
            result == self.zero_spec(),
    {
        self.bits % SIGN_BIT == 0
    }

    /// Whether this is a number above zero.
    pub fn is_above_zero(self) -> (result: bool)
        ensures
            result == self.above_zero(),
    {
        !self.is_nan() && !self.is_negative() && !self.is_zero()
    }

    /// Whether this is a finite number that is not below zero.
    pub fn is_measurable(self) -> (result: bool)
        ensures
            result == self.measurable(),
    {
        self.is_finite() && (!self.is_negative() || self.is_zero())
    }

    /// The number without its sign.
    pub fn magnitude(self) -> (result: Binary64)
        ensures
            result == signed(false, self.magnitude_spec() as nat),
    {
        Binary64 { bits: self.bits % SIGN_BIT }
    }

    fn significand(self) -> (result: u64)
        ensures
            result == self.significand_spec(),
    {
        let m: u64 = self.bits % SIGN_BIT;
        if m < HIDDEN_BIT {
            m
        } else {
            m % HIDDEN_BIT + HIDDEN_BIT
        }
    }

    fn scale(self) -> (result: u32)
        ensures
            result == self.scale_spec(),
            result <= 2046,
    {
        let m: u64 = self.bits % SIGN_BIT;
        if m < HIDDEN_BIT {
            0
        } else {
            (m / HIDDEN_BIT - 1) as u32
        }
    }

    fn in_units(self) -> (result: Natural)
        ensures
            result@ == self.units(),
    {
        Natural::new(self.significand()).shifted(self.scale())
    }

    /// The number nearest to `value`.
    pub fn from_u64(value: u64) -> (result: Binary64)
        ensures
            result == Binary64::of_nat(value as nat),
    {
        let n = Natural::new(value).shifted(UNIT_SCALE);
        nearest_of(false, &n, &Natural::new(1))
    }

    /// The same magnitude with the other sign.
    pub fn negated(self) -> (result: Binary64)
        ensures
            result == self.opposite(),
    {
        if self.bits >= SIGN_BIT {
            Binary64 { bits: self.bits - SIGN_BIT }
        } else {
            Binary64 { bits: self.bits + SIGN_BIT }
        }
    }

    /// The sum of two numbers.
    pub fn plus(self, other: Binary64) -> (result: Binary64)
        ensures
            result == self.sum(other),
    {
        if self.is_nan() || other.is_nan() {
            return Binary64 { bits: 0x7ff8_0000_0000_0000 };
        }
        if self.is_infinite() {
            if other.is_infinite() && self.is_negative() != other.is_negative() {
                return Binary64 { bits: 0x7ff8_0000_0000_0000 };
            }
            return self;
        }
        if other.is_infinite() {
            return other;
        }
        let a = self.in_units();
        let b = other.in_units();
        let one = Natural::new(1);
        if self.is_negative() == other.is_negative() {
            nearest_of(self.is_negative(), &a.plus(&b), &one)
        } else {
            match a.less(&b) {
                Some(rest) => {
                    let nothing = rest.below(&one);
                    nearest_of(self.is_negative() && !nothing, &rest, &one)
                },
                None => {
                    match b.less(&a) {
                        Some(rest) => nearest_of(other.is_negative(), &rest, &one),
                        None => other,
                    }
                },
            }
        }
    }

    /// The difference of two numbers.
    pub fn minus(self, other: Binary64) -> (result: Binary64)
        ensures
            result == self.sum(other.opposite()),
    {
        self.plus(other.negated())
    }

    /// The product of two numbers.
    pub fn times(self, other: Binary64) -> (result: Binary64)
        ensures
            result == self.product(other),
    {
        let negative = self.is_negative() != other.is_negative();
        let sign: u64 = if negative {
            SIGN_BIT
        } else {
            0
        };
        if self.is_nan() || other.is_nan() {
            return Binary64 { bits: 0x7ff8_0000_0000_0000 };
        }
        if self.is_infinite() || other.is_infinite() {
            if self.is_zero() || other.is_zero() {
                return Binary64 { bits: 0x7ff8_0000_0000_0000 };
            }
            return Binary64 { bits: INFINITE + sign };
        }
        let d = Natural::new(1).shifted(UNIT_SCALE);
        let n = self.in_units().times(other.significand()).shifted(other.scale());
        proof {
            lemma_pow2_pos(UNIT_SCALE as nat);
            let (a, b, c) = (self.units(), other.significand_spec(), pow2(other.scale_spec()));
            assert(a * b * c == a * (b * c)) by (nonlinear_arith);
        }
        nearest_of(negative, &n, &d)
    }

    /// The quotient of two numbers.
    pub fn over(self, other: Binary64) -> (result: Binary64)
        ensures
            result == self.quotient(other),
    {
        let negative = self.is_negative() != other.is_negative();
        let sign: u64 = if negative {
            SIGN_BIT
        } else {
            0
        };
        if self.is_nan() || other.is_nan() {
            return Binary64 { bits: 0x7ff8_0000_0000_0000 };
        }
        if self.is_infinite() {
            if other.is_infinite() {
                return Binary64 { bits: 0x7ff8_0000_0000_0000 };
            }
            return Binary64 { bits: INFINITE + sign };
        }
        if other.is_infinite() {
            return Binary64 { bits: sign };
        }
        if other.is_zero() {
            if self.is_zero() {
                return Binary64 { bits: 0x7ff8_0000_0000_0000 };
            }
            return Binary64 { bits: INFINITE + sign };
        }
        proof {
            lemma_units_positive(other);
        }
        let n = self.in_units().shifted(UNIT_SCALE);
        nearest_of(negative, &n, &other.in_units())
    }

    /// Whether `self <= other`.
    pub fn le(self, other: Binary64) -> (result: bool)
        ensures
            result == self.at_most(other),
    {
        if self.is_nan() || other.is_nan() {
            return false;
        }
        let a: u64 = self.bits % SIGN_BIT;
        let b: u64 = other.bits % SIGN_BIT;
        if self.is_negative() {
            if other.is_negative() {
                b <= a
            } else {
                true
            }
        } else if other.is_negative() {
            a == 0 && b == 0
        } else {
            a <= b
        }
    }

    /// Whether `self < other`.
    pub fn lt(self, other: Binary64) -> (result: bool)
        ensures
            result == self.less_than(other),
    {
        !self.is_nan() && !other.is_nan() && !other.le(self)
    }
}

/// Ten to a power.
pub open spec fn ten_power(places: nat) -> nat
    decreases places,
{
    if places == 0 {
        1
    } else {
        10 * ten_power((places - 1) as nat)
    }
}

/// A count of the smallest decimal places as digits with a point.
pub open spec fn point_text(n: nat, places: nat) -> Seq<char> {
    if places == 0 {
        decimal(n)
    } else {
        decimal(n / ten_power(places)) + seq!['.'] + padded(n % ten_power(places), places)
    }
}

proof fn lemma_scaled_floor(a: nat, s: nat, t: nat)
    requires
        s <= t,
    ensures
        (a * pow2(s)) / pow2(t) == a / pow2((t - s) as nat),
        half_even(a * pow2(s), pow2(t)) == half_even(a, pow2((t - s) as nat)),
{
    let k = pow2((t - s) as nat);
    let w = pow2(s);
    lemma_pow2_pos(s);
    lemma_pow2_pos((t - s) as nat);
    lemma_pow2_adds((t - s) as nat, s);
    lemma_fundamental_div_mod(a as int, k as int);
    lemma_mod_bound(a as int, k as int);
    let (q, r) = (a / k, a % k);
    assert(a * w == q * (k * w) + r * w) by (nonlinear_arith)
        requires
            a == k * q + r,
    ;
    assert(0 <= r * w < k * w) by (nonlinear_arith)
        requires
            0 <= r < k,
            w > 0,
    ;
    lemma_fundamental_div_mod_converse((a * w) as int, (k * w) as int, q as int, (r * w) as int);
    assert(2 * (r * w) > k * w <==> 2 * r > k) by (nonlinear_arith)
        requires
            w > 0,
    ;
    assert(2 * (r * w) == k * w <==> 2 * r == k) by (nonlinear_arith)
        requires
            w > 0,
    ;
}

proof fn lemma_scaled_whole(a: nat, s: nat, t: nat)
    requires
        s >= t,
    ensures
        (a * pow2(s)) / pow2(t) == a * pow2((s - t) as nat),
        (a * pow2(s)) % pow2(t) == 0,
{
    let k = pow2((s - t) as nat);
    let w = pow2(t);
    lemma_pow2_pos(t);
    lemma_pow2_adds((s - t) as nat, t);
    assert(a * (k * w) == (a * k) * w) by (nonlinear_arith);
    lemma_fundamental_div_mod_converse((a * pow2(s)) as int, w as int, (a * k) as int, 0);
}

fn power_of_two(k: u32) -> (result: u64)
    requires
        k < 64,
    ensures
        result == pow2(k as nat),
{
    proof {
        vstd::bits::lemma_u64_pow2_no_overflow(k as nat);
        vstd::bits::lemma_u64_shl_is_mul(1, k as u64);
    }
    1u64 << (k as u64)
}

impl Binary64 {
    /// The whole part, kept within 64 bits.
    pub open spec fn whole_part(self) -> nat {
        if self.nan_spec() || self.negative_spec() {
            0
        } else if self.infinite_spec() || self.units() / pow2(UNIT_SCALE as nat) > u64::MAX {
            u64::MAX as nat
        } else {
            self.units() / pow2(UNIT_SCALE as nat)
        }
    }

    /// The magnitude of a finite number in decimal places, halves to the even one.
    pub open spec fn in_places(self, places: nat) -> nat {
        half_even(self.units() * ten_power(places), pow2(UNIT_SCALE as nat))
    }

    /// The number with a fixed count of decimal places.
    pub open spec fn fixed_spec(self, places: nat) -> Seq<char> {
        if self.nan_spec() {
            "NaN"@
        } else {
            let body = if self.infinite_spec() {
                "inf"@
            } else {
                point_text(self.in_places(places), places)
            };
            if self.negative_spec() {
                "-"@ + body
            } else {
                body
            }
        }
    }

    /// The magnitude rounded to a whole number, halves up, kept within 64 bits.
    pub open spec fn rounded_part(self) -> nat {
        let one = pow2(UNIT_SCALE as nat);
        let whole = (2 * self.units() + one) / (2 * one);
        if self.infinite_spec() || whole > u64::MAX {
            u64::MAX as nat
        } else {
            whole
        }
    }

    /// The whole part, kept within 64 bits: zero for what is below zero or not
    /// a number.
    pub fn truncated(self) -> (result: u64)
        ensures
            result == self.whole_part(),
    {
        if self.is_nan() || self.is_negative() {
            return 0;
        }
        if self.is_infinite() {
            return u64::MAX;
        }
        proof {
            lemma_units_positive(self);
        }
        let a: u64 = self.significand();
        let s: u32 = self.scale();
        if s >= UNIT_SCALE {
            let k: u32 = s - UNIT_SCALE;
            proof {
                lemma_scaled_whole(a as nat, s as nat, UNIT_SCALE as nat);
                lemma2_to64();
            }
            if k > 11 {
                proof {
                    if k > 12 {
                        lemma_pow2_strictly_increases(12, k as nat);
                    }
                    assert(a * pow2(k as nat) > u64::MAX) by (nonlinear_arith)
                        requires
                            a >= HIDDEN_BIT,
                            pow2(k as nat) >= 0x1000,
                    ;
                }
                return u64::MAX;
            }
            let w: u64 = power_of_two(k);
            proof {
                if k < 11 {
                    lemma_pow2_strictly_increases(k as nat, 11);
                }
                assert(a * w <= SIGNIFICAND_BOUND * 0x800) by (nonlinear_arith)
                    requires
                        a < SIGNIFICAND_BOUND,
                        w <= 0x800,
                ;
            }
            let whole: u128 = a as u128 * w as u128;
            if whole > u64::MAX as u128 {
                u64::MAX
            } else {
                whole as u64
            }
        } else {
            let k: u32 = UNIT_SCALE - s;
            proof {
                lemma_scaled_floor(a as nat, s as nat, UNIT_SCALE as nat);
            }
            if k > 63 {
                proof {
                    lemma2_to64_rest();
                    lemma_pow2_strictly_increases(63, k as nat);
                    lemma_basic_div(a as int, pow2(k as nat) as int);
                }
                return 0;
            }
            let w: u64 = power_of_two(k);
            proof {
                lemma_pow2_pos(k as nat);
                assert(a / w <= a) by (nonlinear_arith)
                    requires
                        w > 0,
                ;
            }
            a / w
        }
    }

    /// The magnitude rounded to a whole number, halves up, kept within 64
    /// bits.
    pub fn rounded(self) -> (result: u64)
        requires
            !self.nan_spec(),
        ensures
            result == self.rounded_part(),
    {
        if self.is_infinite() {
            return u64::MAX;
        }
        proof {
            lemma_units_positive(self);
            lemma_pow2_pos(UNIT_SCALE as nat);
        }
        let a: u64 = self.significand();
        let s: u32 = self.scale();
        if s >= UNIT_SCALE {
            let magnitude = Binary64 { bits: self.bits % SIGN_BIT };
            proof {
                let one = pow2(UNIT_SCALE as nat);
                lemma_scaled_whole(a as nat, s as nat, UNIT_SCALE as nat);
                lemma_fundamental_div_mod(self.units() as int, one as int);
                let q = self.units() / one;
                assert(2 * self.units() + one == (2 * one) * q + one) by (nonlinear_arith)
                    requires
                        self.units() == one * q,
                ;
                lemma_fundamental_div_mod_converse(
                    (2 * self.units() + one) as int,
                    (2 * one) as int,
                    q as int,
                    one as int,
                );
                assert(magnitude.units() == self.units());
            }
            magnitude.truncated()
        } else {
            let k: u32 = UNIT_SCALE - s;
            let ghost one = pow2(UNIT_SCALE as nat);
            let ghost part = pow2(k as nat);
            let ghost n = (2 * a + part) as nat;
            proof {
                lemma_pow2_pos(k as nat);
                lemma_pow2_adds(k as nat, s as nat);
                lemma_pow2_unfold((k + 1) as nat);
                lemma_pow2_unfold((UNIT_SCALE + 1) as nat);
                assert(2 * self.units() + one == n * pow2(s as nat)) by (nonlinear_arith)
                    requires
                        self.units() == a * pow2(s as nat),
                        one == part * pow2(s as nat),
                        n == 2 * a + part,
                ;
                lemma_scaled_floor(n, s as nat, (UNIT_SCALE + 1) as nat);
                assert((UNIT_SCALE + 1 - s) as nat == (k + 1) as nat);
            }
            if k > 61 {
                proof {
                    lemma2_to64_rest();
                    lemma_pow2_strictly_increases(61, k as nat);
                    lemma_basic_div(n as int, pow2((k + 1) as nat) as int);
                }
                return 0;
            }
            let w: u64 = power_of_two(k);
            proof {
                lemma2_to64_rest();
                if k < 61 {
                    lemma_pow2_strictly_increases(k as nat, 61);
                }
                let m = 2 * a + w;
                assert(m / (2 * w as int) <= m) by (nonlinear_arith)
                    requires
                        w > 0,
                        m >= 0,
                ;
            }
            (2 * a + w) / (2 * w)
        }
    }

    /// The number with up to three decimal places.
    pub fn fixed(self, places: u32) -> (out: String)
        requires
            places <= 3,
        ensures
            out@ == self.fixed_spec(places as nat),
    {
        if self.is_nan() {
            return "NaN".to_string();
        }
        let body = if self.is_infinite() {
            "inf".to_string()
        } else {
            proof {
                reveal_with_fuel(ten_power, 4);
                lemma_units_positive(self);
            }
            let factor: u32 = if places == 0 {
                1
            } else if places == 1 {
                10
            } else if places == 2 {
                100
            } else {
                1000
            };
            let a: u64 = self.significand();
            let s: u32 = self.scale();
            let n: u64 = a * factor as u64;
            let ghost p2 = pow2(s as nat);
            assert(self.units() * ten_power(places as nat) == n * p2) by (nonlinear_arith)
                requires
                    self.units() == a * p2,
                    n == a * factor,
                    ten_power(places as nat) == factor,
            ;
            let count = if s >= UNIT_SCALE {
                proof {
                    lemma_scaled_whole(n as nat, s as nat, UNIT_SCALE as nat);
                    lemma_pow2_pos(UNIT_SCALE as nat);
                }
                Natural::new(n).shifted(s - UNIT_SCALE)
            } else {
                let k: u32 = UNIT_SCALE - s;
                proof {
                    lemma_scaled_floor(n as nat, s as nat, UNIT_SCALE as nat);
                }
                if k > 64 {
                    proof {
                        lemma2_to64_rest();
                        lemma_pow2_strictly_increases(64, k as nat);
                        lemma_basic_div(n as int, pow2(k as nat) as int);
                        lemma_small_mod(n as nat, pow2(k as nat));
                    }
                    Natural::new(0)
                } else {
                    let w: u128 = 2 * power_of_two(k - 1) as u128;
                    proof {
                        lemma_pow2_unfold(k as nat);
                        lemma_pow2_pos((k - 1) as nat);
                    }
                    let q: u64 = (n as u128 / w) as u64;
                    let r: u128 = n as u128 % w;
                    if 2 * r > w || (2 * r == w && q % 2 == 1) {
                        Natural::new(q + 1)
                    } else {
                        Natural::new(q)
                    }
                }
            };
            let (whole, rest) = count.divided(factor);
            proof {
                lemma_fundamental_div_mod_converse(
                    count@ as int,
                    factor as int,
                    whole@ as int,
                    rest as int,
                );
            }
            let mut body = whole.decimal_text();
            if places > 0 {
                body.push('.');
                let tail = padded_text(rest, places);
                body.append(tail.as_str());
                assert(body@ =~= point_text(count@, places as nat));
            } else {
                assert(count@ / 1 == count@);
            }
            body
        };
        if self.is_negative() {
            let mut out = "-".to_string();
            out.append(body.as_str());
            out
        } else {
            body
        }
    }
}

pub(crate) proof fn lemma_nearest_is_a_number(negative: bool, n: nat, d: nat)
    requires
        d > 0,
    ensures
        !nearest(negative, n, d).nan_spec(),
        nearest(negative, n, d).negative_spec() == negative,
        nearest(negative, n, d).magnitude_spec() == nearest_magnitude(n, d),
{
    let s = excess(n / d);
    lemma_div_pos_is_pos(n as int, d as int);
    lemma_pow2_pos(s);
    let w = d * pow2(s);
    assert(w > 0) by (nonlinear_arith)
        requires
            d > 0,
            pow2(s) > 0,
            w == d * pow2(s),
    ;
    lemma_div_pos_is_pos(n as int, w as int);
    assert(s * HIDDEN_BIT >= 0) by (nonlinear_arith)
        requires
            s >= 0,
    ;
    assert(0 <= nearest_magnitude(n, d) <= INFINITE);
}

proof fn lemma_excess_bounded(q: nat, k: nat)
    requires
        q < SIGNIFICAND_BOUND * pow2(k),
    ensures
        excess(q) <= k,
        q / pow2(excess(q)) < SIGNIFICAND_BOUND,
    decreases k,
{
    lemma2_to64();
    if q >= SIGNIFICAND_BOUND {
        if k == 0 {
            assert(false);
        }
        let w = pow2((k - 1) as nat);
        lemma_pow2_unfold(k);
        assert(q / 2 < SIGNIFICAND_BOUND * w) by (nonlinear_arith)
            requires
                q < SIGNIFICAND_BOUND * (2 * w),
        ;
        lemma_excess_bounded(q / 2, (k - 1) as nat);
        let s = excess(q / 2);
        lemma_pow2_pos(s);
        lemma_pow2_unfold(s + 1);
        lemma_div_denominator(q as int, 2, pow2(s) as int);
    } else {
        assert(q / 1 == q);
    }
}

/// Whole numbers of 64 bits are finite and not below zero.
pub proof fn whole_numbers_are_finite(value: nat)
    requires
        value <= u64::MAX,
    ensures
        Binary64::of_nat(value).finite_spec(),
        !Binary64::of_nat(value).negative_spec(),
{
    let n = value * pow2(UNIT_SCALE as nat);
    lemma2_to64_rest();
    lemma_pow2_pos(UNIT_SCALE as nat);
    lemma_pow2_adds(11, UNIT_SCALE as nat);
    lemma2_to64();
    let u = pow2(UNIT_SCALE as nat);
    assert(n < SIGNIFICAND_BOUND * pow2(1085)) by (nonlinear_arith)
        requires
            n == value * u,
            value <= 0xffff_ffff_ffff_ffff,
            pow2(1085) == 0x800 * u,
            SIGNIFICAND_BOUND == 0x20_0000_0000_0000,
            u > 0,
    ;
    assert(n / 1 == n);
    lemma_excess_bounded(n, 1085);
    let s = excess(n);
    lemma_pow2_pos(s);
    assert(1 * pow2(s) == pow2(s));
    lemma_div_pos_is_pos(n as int, pow2(s) as int);
    assert(half_even(n, 1 * pow2(s)) <= SIGNIFICAND_BOUND);
    assert(s * HIDDEN_BIT <= 1085 * HIDDEN_BIT) by (nonlinear_arith)
        requires
            s <= 1085,
    ;
    lemma_nearest_is_a_number(false, n, 1);
}

impl Binary64 {
    /// The product of finite numbers is a number.
    pub proof fn product_of_finite_is_a_number(self, other: Binary64)
        requires
            self.finite_spec(),
            other.finite_spec(),
        ensures
            !self.product(other).nan_spec(),
    {
        lemma_pow2_pos(UNIT_SCALE as nat);
        lemma_nearest_is_a_number(
            self.negative_spec() != other.negative_spec(),
            self.units() * other.units(),
            pow2(UNIT_SCALE as nat),
        );
    }
}

proof fn lemma_excess_exact(significand: nat, scale: nat)
    requires
        HIDDEN_BIT <= significand < SIGNIFICAND_BOUND || scale == 0,
        significand < SIGNIFICAND_BOUND,
    ensures
        excess(significand * pow2(scale)) == scale,
    decreases scale,
{
    lemma2_to64();
    if scale > 0 {
        let w = pow2((scale - 1) as nat);
        let q = significand * pow2(scale);
        lemma_pow2_unfold(scale);
        lemma_pow2_pos((scale - 1) as nat);
        assert(q == 2 * (significand * w)) by (nonlinear_arith)
            requires
                q == significand * (2 * w),
        ;
        assert(q >= SIGNIFICAND_BOUND) by (nonlinear_arith)
            requires
                q == 2 * (significand * w),
                significand >= HIDDEN_BIT,
                w >= 1,
                SIGNIFICAND_BOUND == 2 * HIDDEN_BIT,
        ;
        lemma_excess_exact(significand, (scale - 1) as nat);
    } else {
        assert(significand * 1 == significand);
    }
}

/// A finite number is the one nearest to itself: what can be represented is
/// never rounded away.
pub proof fn representable_numbers_stay(x: Binary64)
    requires
        x.finite_spec(),
    ensures
        nearest(x.negative_spec(), x.units(), 1) == x,
{
    let (a, s) = (x.significand_spec(), x.scale_spec());
    let n = x.units();
    lemma_units_positive(x);
    lemma_excess_exact(a, s);
    assert(n / 1 == n);
    lemma_pow2_pos(s);
    assert(1 * pow2(s) == pow2(s));
    lemma_scaled_whole(a, s, s);
    lemma2_to64();
    assert(a * pow2(0) == a);
    assert(half_even(n, pow2(s)) == a);
    let m = x.magnitude_spec();
    assert(s * HIDDEN_BIT + a == m) by {
        if m >= HIDDEN_BIT {
            lemma_fundamental_div_mod(m as int, HIDDEN_BIT as int);
            assert(s * HIDDEN_BIT + HIDDEN_BIT == HIDDEN_BIT * (m as int / HIDDEN_BIT as int))
                by (nonlinear_arith)
                requires
                    s + 1 == m as int / HIDDEN_BIT as int,
            ;
        } else {
            assert(s * HIDDEN_BIT == 0) by (nonlinear_arith)
                requires
                    s == 0,
            ;
        }
    }
}

proof fn lemma_half_even_grows(n1: nat, d1: nat, n2: nat, d2: nat)
    requires
        d1 > 0,
        d2 > 0,
        n1 * d2 <= n2 * d1,
    ensures
        n1 / d1 <= n2 / d2,
        half_even(n1, d1) <= half_even(n2, d2),
{
    let (q1, r1, q2, r2) = (n1 / d1, n1 % d1, n2 / d2, n2 % d2);
    lemma_fundamental_div_mod(n1 as int, d1 as int);
    lemma_fundamental_div_mod(n2 as int, d2 as int);
    lemma_mod_bound(n1 as int, d1 as int);
    lemma_mod_bound(n2 as int, d2 as int);
    assert(q1 <= q2) by (nonlinear_arith)
        requires
            n1 * d2 <= n2 * d1,
            n1 == d1 * q1 + r1,
            n2 == d2 * q2 + r2,
            0 <= r1,
            r2 < d2,
            d1 > 0,
            d2 > 0,
    ;
    if q1 == q2 {
        assert(r1 * d2 <= r2 * d1) by (nonlinear_arith)
            requires
                n1 * d2 <= n2 * d1,
                n1 == d1 * q1 + r1,
                n2 == d2 * q2 + r2,
                q1 == q2,
        ;
        if 2 * r1 > d1 {
            assert(2 * r2 > d2) by (nonlinear_arith)
                requires
                    2 * r1 > d1,
                    r1 * d2 <= r2 * d1,
                    d1 > 0,
                    d2 > 0,
            ;
        } else if 2 * r1 == d1 {
            assert(2 * r2 >= d2) by (nonlinear_arith)
                requires
                    2 * r1 == d1,
                    r1 * d2 <= r2 * d1,
                    d1 > 0,
                    d2 > 0,
            ;
        }
    }
}

proof fn lemma_excess_grows(q1: nat, q2: nat)
    requires
        q1 <= q2,
    ensures
        excess(q1) <= excess(q2),
    decreases q2,
{
    if q1 >= SIGNIFICAND_BOUND {
        lemma_excess_grows(q1 / 2, q2 / 2);
    }
}

proof fn lemma_excess_range(q: nat)
    ensures
        q < SIGNIFICAND_BOUND * pow2(excess(q)),
        excess(q) > 0 ==> q >= HIDDEN_BIT * pow2(excess(q)),
    decreases q,
{
    lemma2_to64();
    if q >= SIGNIFICAND_BOUND {
        let s = excess(q / 2);
        let w = pow2(s);
        lemma_excess_range(q / 2);
        lemma_pow2_unfold(s + 1);
        assert(q < SIGNIFICAND_BOUND * (2 * w)) by (nonlinear_arith)
            requires
                q / 2 < SIGNIFICAND_BOUND * w,
        ;
        if s > 0 {
            assert(q >= HIDDEN_BIT * (2 * w)) by (nonlinear_arith)
                requires
                    q / 2 >= HIDDEN_BIT * w,
            ;
        }
    }
}

proof fn lemma_narrow_quotient(n: nat, d: nat)
    requires
        d > 0,
    ensures
        d * pow2(excess(n / d)) > 0,
        half_even(n, d * pow2(excess(n / d))) <= SIGNIFICAND_BOUND,
        excess(n / d) > 0 ==> half_even(n, d * pow2(excess(n / d))) >= HIDDEN_BIT,
{
    let s = excess(n / d);
    let w = pow2(s);
    lemma_pow2_pos(s);
    lemma_excess_range(n / d);
    let g = (SIGNIFICAND_BOUND * w) as nat;
    let h = (HIDDEN_BIT * w) as nat;
    lemma_quotient_below(n, d, g);
    lemma_quotient_below(n, d, h);
    assert(d * w > 0) by (nonlinear_arith)
        requires
            d > 0,
            w > 0,
    ;
    assert(g * d == SIGNIFICAND_BOUND * (d * w)) by (nonlinear_arith)
        requires
            g == SIGNIFICAND_BOUND * w,
    ;
    assert(h * d == HIDDEN_BIT * (d * w)) by (nonlinear_arith)
        requires
            h == HIDDEN_BIT * w,
    ;
    lemma_quotient_below(n, d * w, SIGNIFICAND_BOUND as nat);
    lemma_quotient_below(n, d * w, HIDDEN_BIT as nat);
}

/// Rounding keeps the order: a larger fraction has no smaller nearest number.
pub proof fn rounding_keeps_the_order(n1: nat, d1: nat, n2: nat, d2: nat)
    requires
        d1 > 0,
        d2 > 0,
        n1 * d2 <= n2 * d1,
    ensures
        nearest_magnitude(n1, d1) <= nearest_magnitude(n2, d2),
{
    let (s1, s2) = (excess(n1 / d1), excess(n2 / d2));
    lemma_half_even_grows(n1, d1, n2, d2);
    lemma_excess_grows(n1 / d1, n2 / d2);
    lemma_narrow_quotient(n1, d1);
    lemma_narrow_quotient(n2, d2);
    if s1 == s2 {
        let w = pow2(s1);
        assert(n1 * (d2 * w) <= n2 * (d1 * w)) by (nonlinear_arith)
            requires
                n1 * d2 <= n2 * d1,
                w >= 0,
        ;
        lemma_half_even_grows(n1, d1 * w, n2, d2 * w);
    } else {
        assert(s1 * HIDDEN_BIT + HIDDEN_BIT <= s2 * HIDDEN_BIT) by (nonlinear_arith)
            requires
                s1 + 1 <= s2,
        ;
    }
}

pub(crate) proof fn lemma_units_grow(x: Binary64, y: Binary64)
    requires
        x.finite_spec(),
        y.finite_spec(),
        x.magnitude_spec() <= y.magnitude_spec(),
    ensures
        x.units() <= y.units(),
{
    let (a, s) = (x.significand_spec(), x.scale_spec());
    let (b, t) = (y.significand_spec(), y.scale_spec());
    let (m, n) = (x.magnitude_spec(), y.magnitude_spec());
    lemma_units_positive(x);
    lemma_units_positive(y);
    lemma_fundamental_div_mod(m as int, HIDDEN_BIT as int);
    lemma_fundamental_div_mod(n as int, HIDDEN_BIT as int);
    lemma_div_is_ordered(m as int, n as int, HIDDEN_BIT as int);
    lemma2_to64();
    lemma_pow2_pos(s);
    lemma_pow2_pos(t);
    let (u, w) = (pow2(s), pow2(t));
    if s == t {
        assert(a <= b);
        assert(a * u <= b * w) by (nonlinear_arith)
            requires
                a <= b,
                u == w,
                u > 0,
        ;
    } else {
        assert(s < t);
        lemma_pow2_adds(s + 1, (t - s - 1) as nat);
        lemma_pow2_unfold(s + 1);
        lemma_pow2_pos((t - s - 1) as nat);
        let k = pow2((t - s - 1) as nat);
        assert(w >= 2 * u) by (nonlinear_arith)
            requires
                w == (2 * u) * k,
                k >= 1,
                u > 0,
        ;
        assert(a * u <= b * w) by (nonlinear_arith)
            requires
                a <= 2 * HIDDEN_BIT,
                b >= HIDDEN_BIT,
                w >= 2 * u,
                u > 0,
        ;
    }
}

/// Whole numbers keep their order.
pub proof fn whole_numbers_keep_their_order(a: nat, b: nat)
    requires
        a <= b <= u64::MAX,
    ensures
        Binary64::of_nat(a).value() <= Binary64::of_nat(b).value(),
{
    let one = pow2(UNIT_SCALE as nat);
    whole_numbers_are_finite(a);
    whole_numbers_are_finite(b);
    assert(a * one * 1 <= b * one * 1) by (nonlinear_arith)
        requires
            a <= b,
            one >= 0,
    ;
    rounding_keeps_the_order(a * one, 1, b * one, 1);
    lemma_nearest_is_a_number(false, a * one, 1);
    lemma_nearest_is_a_number(false, b * one, 1);
    lemma_units_grow(Binary64::of_nat(a), Binary64::of_nat(b));
}

/// A significand with a scale is itself, where it is not too large.
pub proof fn scaled_significands_are_exact(value: nat, t: nat)
    requires
        value < SIGNIFICAND_BOUND,
        nearest(false, value * pow2(t), 1).finite_spec(),
    ensures
        nearest(false, value * pow2(t), 1).units() == value * pow2(t),
{
    let one = pow2(t);
    let n = value * one;
    let s = excess(n);
    let x = nearest(false, n, 1);
    lemma_nearest_is_a_number(false, n, 1);
    assert(n / 1 == n);
    assert(1 * pow2(s) == pow2(s));
    lemma_excess_range(n);
    lemma_pow2_pos(s);
    lemma_pow2_pos(t);
    if s > t {
        lemma_pow2_adds(t + 1, (s - t - 1) as nat);
        lemma_pow2_unfold(t + 1);
        lemma_pow2_pos((s - t - 1) as nat);
        let k = pow2((s - t - 1) as nat);
        let w = pow2(s);
        assert(false) by (nonlinear_arith)
            requires
                n >= HIDDEN_BIT * w,
                w == (2 * one) * k,
                k >= 1,
                n == value * one,
                value < SIGNIFICAND_BOUND,
                SIGNIFICAND_BOUND == 2 * HIDDEN_BIT,
                one > 0,
        ;
    }
    let a = value * pow2((t - s) as nat);
    let w = pow2(s);
    lemma_scaled_whole(value, t, s);
    assert(half_even(n, w) == a);
    lemma_fundamental_div_mod(n as int, w as int);
    assert(n == a * w) by (nonlinear_arith)
        requires
            n == w * (n / w) + n % w,
            n / w == a,
            n % w == 0,
    ;
    assert(a < SIGNIFICAND_BOUND) by (nonlinear_arith)
        requires
            a * w < SIGNIFICAND_BOUND * w,
            w > 0,
    ;
    if s > 0 {
        assert(a >= HIDDEN_BIT) by (nonlinear_arith)
            requires
                a * w >= HIDDEN_BIT * w,
                w > 0,
        ;
    }
    let m = x.magnitude_spec();
    assert(m == s * HIDDEN_BIT + a);
    if a >= HIDDEN_BIT {
        lemma_fundamental_div_mod_converse(
            m as int,
            HIDDEN_BIT as int,
            s as int + 1,
            a - HIDDEN_BIT,
        );
    } else {
        assert(s == 0);
    }
    assert(x.significand_spec() == a && x.scale_spec() == s);
}

/// A whole number that fits in a significand is itself.
pub proof fn small_whole_numbers_are_exact(value: nat)
    requires
        value < SIGNIFICAND_BOUND,
    ensures
        Binary64::of_nat(value).finite_spec(),
        !Binary64::of_nat(value).negative_spec(),
        Binary64::of_nat(value).units() == value * pow2(UNIT_SCALE as nat),
{
    whole_numbers_are_finite(value);
    scaled_significands_are_exact(value, UNIT_SCALE as nat);
}

/// Two to the sixty-second is itself.
pub(crate) proof fn lemma_large_power_is_exact()
    ensures
        Binary64::of_nat(0x4000_0000_0000_0000).finite_spec(),
        Binary64::of_nat(0x4000_0000_0000_0000).units() == 0x4000_0000_0000_0000 * pow2(
            UNIT_SCALE as nat,
        ),
{
    lemma2_to64_rest();
    lemma_pow2_adds(62, UNIT_SCALE as nat);
    whole_numbers_are_finite(0x4000_0000_0000_0000);
    assert(1 * pow2(1136) == 0x4000_0000_0000_0000 * pow2(UNIT_SCALE as nat));
    scaled_significands_are_exact(1, 1136);
}

/// The difference of two sizes up to two to the sixty-second, divided by one or
/// more, stays within that bound.
pub proof fn bounded_quotients_stay_bounded(x: Binary64, y: Binary64, d: Binary64)
    requires
        x.finite_spec(),
        y.finite_spec(),
        !x.negative_spec(),
        !y.negative_spec(),
        x.units() <= 0x4000_0000_0000_0000 * pow2(UNIT_SCALE as nat),
        y.units() <= 0x4000_0000_0000_0000 * pow2(UNIT_SCALE as nat),
        d.finite_spec() ==> d.units() >= pow2(UNIT_SCALE as nat),
    ensures
        x.sum(y.opposite()).quotient(d).finite_spec() ==> x.sum(y.opposite()).quotient(
            d,
        ).rounded_part() <= 0x4000_0000_0000_0000,
{
    let one = pow2(UNIT_SCALE as nat);
    let top = 0x4000_0000_0000_0000 * one;
    let most = Binary64::of_nat(0x4000_0000_0000_0000);
    let change = x.sum(y.opposite());
    let n = vstd::math::abs(x.value() - y.value()) as nat;
    lemma_pow2_pos(UNIT_SCALE as nat);
    lemma_large_power_is_exact();
    differences_mirror(x, y);
    lemma_nearest_is_a_number(false, top as nat, 1);
    rounding_keeps_the_order(n, 1, top as nat, 1);
    lemma_units_grow(change, most);
    let result = change.quotient(d);
    if d.finite_spec() {
        let m = change.units() * one;
        lemma_units_positive(d);
        assert(m * 1 <= top * d.units()) by (nonlinear_arith)
            requires
                m == change.units() * one,
                change.units() <= top,
                one <= d.units(),
                one > 0,
                top >= 0,
        ;
        rounding_keeps_the_order(m, d.units(), top as nat, 1);
        lemma_nearest_is_a_number(
            change.negative_spec() != d.negative_spec(),
            m,
            d.units(),
        );
        lemma_units_grow(result, most);
    } else if !d.nan_spec() {
        lemma_units_positive(result);
    }
    if result.finite_spec() {
        assert((2 * result.units() + one) / (2 * one) <= 0x4000_0000_0000_0000) by {
            let all = 2 * result.units() + one;
            lemma_quotient_below(all, 2 * one, 0x4000_0000_0000_0001);
            assert(all < 0x4000_0000_0000_0001 * (2 * one)) by (nonlinear_arith)
                requires
                    all == 2 * result.units() + one,
                    result.units() <= 0x4000_0000_0000_0000 * one,
                    one > 0,
            ;
        }
    }
}

proof fn lemma_quotient_keeps_sign(x: Binary64, y: Binary64)
    requires
        !x.negative_spec(),
        !y.negative_spec(),
    ensures
        !x.quotient(y).negative_spec(),
{
    if x.finite_spec() && y.finite_spec() && !y.zero_spec() {
        lemma_units_positive(y);
        lemma_nearest_is_a_number(false, x.units() * pow2(UNIT_SCALE as nat), y.units());
    }
}

proof fn lemma_sum_keeps_sign(x: Binary64, y: Binary64)
    requires
        !x.negative_spec(),
        !y.negative_spec(),
    ensures
        !x.sum(y).negative_spec(),
{
    if x.finite_spec() && y.finite_spec() {
        let total = x.value() + y.value();
        lemma_nearest_is_a_number(false, vstd::math::abs(total) as nat, 1);
    }
}

/// Numbers of one sign have a sum and a quotient without another.
pub proof fn signs_are_kept(x: Binary64, y: Binary64)
    requires
        !x.negative_spec(),
        !y.negative_spec(),
    ensures
        !x.sum(y).negative_spec(),
        !x.quotient(y).negative_spec(),
{
    lemma_sum_keeps_sign(x, y);
    lemma_quotient_keeps_sign(x, y);
}

/// Exchanging the two sides of a difference turns its sign and keeps its
/// magnitude.
pub proof fn differences_mirror(x: Binary64, y: Binary64)
    requires
        x.finite_spec(),
        y.finite_spec(),
        !x.negative_spec(),
        !y.negative_spec(),
    ensures
        x.sum(y.opposite()).magnitude_spec() == y.sum(x.opposite()).magnitude_spec(),
        !x.sum(y.opposite()).nan_spec(),
        x.value() == y.value() ==> x.sum(y.opposite()).zero_spec(),
        x.value() != y.value() ==> x.sum(y.opposite()).negative_spec() == (x.value() < y.value()),
        x.sum(y.opposite()).magnitude_spec() == nearest_magnitude(
            vstd::math::abs(x.value() - y.value()) as nat,
            1,
        ),
{
    assert(x.opposite().value() == -x.value());
    assert(y.opposite().value() == -y.value());
    let d = x.value() - y.value();
    let n = vstd::math::abs(d) as nat;
    lemma_nearest_is_a_number(true, n, 1);
    lemma_nearest_is_a_number(false, n, 1);
    if d == 0 {
        lemma2_to64();
        assert(excess(0) == 0);
        assert(half_even(0, 1) == 0);
    }
}

/// Numbers that differ in their sign alone have quotients that do so too, or
/// quotients that are not numbers.
pub proof fn quotients_mirror(x: Binary64, y: Binary64, d: Binary64)
    requires
        x.magnitude_spec() == y.magnitude_spec(),
    ensures
        x.quotient(d).magnitude_spec() == y.quotient(d).magnitude_spec(),
        !x.quotient(d).nan_spec() && x.negative_spec() != y.negative_spec() ==> x.quotient(
            d,
        ).negative_spec() != y.quotient(d).negative_spec(),
        !x.quotient(d).nan_spec() ==> x.quotient(d).negative_spec() == (x.negative_spec()
            != d.negative_spec()),
        x.zero_spec() ==> x.quotient(d).zero_spec() || !x.quotient(d).finite_spec(),
{
    if x.finite_spec() && d.finite_spec() && !d.zero_spec() {
        lemma_units_positive(x);
        lemma_units_positive(d);
        let n = x.units() * pow2(UNIT_SCALE as nat);
        lemma_nearest_is_a_number(true, n, d.units());
        lemma_nearest_is_a_number(false, n, d.units());
        if x.zero_spec() {
            assert(n == 0);
            lemma2_to64();
            assert(0nat / d.units() == 0) by (nonlinear_arith)
                requires
                    d.units() > 0,
            ;
            assert(excess(0) == 0);
            assert(d.units() * pow2(0) == d.units());
            assert(half_even(0, d.units()) == 0) by {
                lemma_fundamental_div_mod_converse(0, d.units() as int, 0, 0);
            }
        }
    }
}

/// A quotient that comes out even is exact.
pub proof fn even_quotients_are_exact(x: Binary64, d: Binary64, quotient: nat, divisor: nat)
    requires
        x.finite_spec(),
        x.units() == quotient * divisor * pow2(UNIT_SCALE as nat),
        d.finite_spec(),
        d.units() == divisor * pow2(UNIT_SCALE as nat),
        divisor > 0,
        quotient < SIGNIFICAND_BOUND,
    ensures
        x.quotient(d).finite_spec(),
        x.quotient(d).units() == quotient * pow2(UNIT_SCALE as nat),
        x.quotient(d).rounded_part() == quotient,
{
    let one = pow2(UNIT_SCALE as nat);
    lemma_pow2_pos(UNIT_SCALE as nat);
    lemma_units_positive(d);
    assert(d.units() > 0) by (nonlinear_arith)
        requires
            d.units() == divisor * one,
            divisor > 0,
            one > 0,
    ;
    let n = x.units() * one;
    let m = quotient * one;
    assert(n * 1 == m * d.units()) by (nonlinear_arith)
        requires
            n == x.units() * one,
            m == quotient * one,
            x.units() == quotient * divisor * one,
            d.units() == divisor * one,
    ;
    rounding_keeps_the_order(n, d.units(), m, 1);
    rounding_keeps_the_order(m, 1, n, d.units());
    let negative = x.negative_spec() != d.negative_spec();
    lemma_nearest_is_a_number(negative, n, d.units());
    lemma_nearest_is_a_number(false, m, 1);
    small_whole_numbers_are_exact(quotient);
    let (r, w) = (x.quotient(d), Binary64::of_nat(quotient));
    assert(r.magnitude_spec() == w.magnitude_spec());
    assert(r.units() == w.units());
    assert((2 * m + one) / (2 * one) == quotient) by {
        assert(2 * m + one == quotient * (2 * one) + one) by (nonlinear_arith)
            requires
                m == quotient * one,
        ;
        lemma_fundamental_div_mod_converse(
            (2 * m + one) as int,
            (2 * one) as int,
            quotient as int,
            one as int,
        );
    }
}

/// The product of two whole numbers is itself, where it fits in a significand.
pub proof fn small_products_are_exact(x: Binary64, y: Binary64, a: nat, b: nat)
    requires
        x.finite_spec(),
        y.finite_spec(),
        x.units() == a * pow2(UNIT_SCALE as nat),
        y.units() == b * pow2(UNIT_SCALE as nat),
        a * b < SIGNIFICAND_BOUND,
    ensures
        x.product(y).finite_spec(),
        x.product(y).units() == a * b * pow2(UNIT_SCALE as nat),
        x.product(y).negative_spec() == (x.negative_spec() != y.negative_spec()),
{
    let one = pow2(UNIT_SCALE as nat);
    lemma_pow2_pos(UNIT_SCALE as nat);
    let n = x.units() * y.units();
    let m = a * b * one;
    assert(n * 1 == m * one) by (nonlinear_arith)
        requires
            n == x.units() * y.units(),
            m == a * b * one,
            x.units() == a * one,
            y.units() == b * one,
    ;
    rounding_keeps_the_order(n, one, m, 1);
    rounding_keeps_the_order(m, 1, n, one);
    lemma_nearest_is_a_number(x.negative_spec() != y.negative_spec(), n, one);
    lemma_nearest_is_a_number(false, m, 1);
    small_whole_numbers_are_exact(a * b);
}

/// Nothing times anything finite is nothing.
pub proof fn nothing_stays_nothing(x: Binary64, y: Binary64)
    requires
        x.zero_spec(),
        y.finite_spec(),
    ensures
        x.product(y).zero_spec(),
{
    let one = pow2(UNIT_SCALE as nat);
    lemma_pow2_pos(UNIT_SCALE as nat);
    lemma_units_positive(x);
    let n = x.units() * y.units();
    assert(n == 0);
    lemma_nearest_is_a_number(x.negative_spec() != y.negative_spec(), n, one);
    lemma2_to64();
    assert(0nat / one == 0) by {
        lemma_fundamental_div_mod_converse(0, one as int, 0, 0);
    }
    assert(excess(0) == 0);
    assert(one * pow2(0) == one);
    assert(half_even(0, one) == 0) by {
        lemma_fundamental_div_mod_converse(0, one as int, 0, 0);
    }
}

/// Quotients of whole numbers keep the order of the fractions that they are.
pub proof fn quotients_keep_the_order(a: nat, b: nat, c: nat, d: nat)
    requires
        0 < b < SIGNIFICAND_BOUND,
        0 < d < SIGNIFICAND_BOUND,
        a < SIGNIFICAND_BOUND,
        c < SIGNIFICAND_BOUND,
        a * d <= c * b,
    ensures
        Binary64::of_nat(a).quotient(Binary64::of_nat(b)).finite_spec(),
        Binary64::of_nat(c).quotient(Binary64::of_nat(d)).finite_spec(),
        !Binary64::of_nat(a).quotient(Binary64::of_nat(b)).negative_spec(),
        !Binary64::of_nat(c).quotient(Binary64::of_nat(d)).negative_spec(),
        Binary64::of_nat(a).quotient(Binary64::of_nat(b)).magnitude_spec() <= Binary64::of_nat(
            c,
        ).quotient(Binary64::of_nat(d)).magnitude_spec(),
{
    let one = pow2(UNIT_SCALE as nat);
    lemma_pow2_pos(UNIT_SCALE as nat);
    small_whole_numbers_are_exact(a);
    small_whole_numbers_are_exact(b);
    small_whole_numbers_are_exact(c);
    small_whole_numbers_are_exact(d);
    let (w, x) = (Binary64::of_nat(a), Binary64::of_nat(b));
    let (y, z) = (Binary64::of_nat(c), Binary64::of_nat(d));
    lemma_units_positive(x);
    lemma_units_positive(z);
    assert(x.units() > 0 && z.units() > 0) by (nonlinear_arith)
        requires
            x.units() == b * one,
            z.units() == d * one,
            b > 0,
            d > 0,
            one > 0,
    ;
    let (n1, n2) = (w.units() * one, y.units() * one);
    assert(n1 * z.units() <= n2 * x.units()) by (nonlinear_arith)
        requires
            n1 == (a * one) * one,
            n2 == (c * one) * one,
            x.units() == b * one,
            z.units() == d * one,
            a * d <= c * b,
            one > 0,
    ;
    rounding_keeps_the_order(n1, x.units(), n2, z.units());
    lemma_nearest_is_a_number(false, n1, x.units());
    lemma_nearest_is_a_number(false, n2, z.units());
    assert(n2 * 1 <= (c * one) * z.units()) by (nonlinear_arith)
        requires
            n2 == (c * one) * one,
            z.units() == d * one,
            d >= 1,
            one > 0,
    ;
    rounding_keeps_the_order(n2, z.units(), c * one, 1);
    lemma_nearest_is_a_number(false, c * one, 1);
}

/// Products with a whole number keep the order of what is multiplied.
pub proof fn products_keep_the_order(x: Binary64, y: Binary64, k: nat)
    requires
        x.finite_spec(),
        y.finite_spec(),
        x.magnitude_spec() <= y.magnitude_spec(),
        0 < k < SIGNIFICAND_BOUND,
    ensures
        x.product(Binary64::of_nat(k)).magnitude_spec() <= y.product(
            Binary64::of_nat(k),
        ).magnitude_spec(),
        !x.product(Binary64::of_nat(k)).nan_spec(),
        !y.product(Binary64::of_nat(k)).nan_spec(),
        x.product(Binary64::of_nat(k)).negative_spec() == x.negative_spec(),
        y.product(Binary64::of_nat(k)).negative_spec() == y.negative_spec(),
{
    let one = pow2(UNIT_SCALE as nat);
    lemma_pow2_pos(UNIT_SCALE as nat);
    small_whole_numbers_are_exact(k);
    lemma_units_grow(x, y);
    let f = Binary64::of_nat(k).units();
    let (n1, n2) = (x.units() * f, y.units() * f);
    assert(n1 * one <= n2 * one) by (nonlinear_arith)
        requires
            n1 == x.units() * f,
            n2 == y.units() * f,
            x.units() <= y.units(),
            f >= 0,
            one > 0,
    ;
    rounding_keeps_the_order(n1, one, n2, one);
    lemma_nearest_is_a_number(x.negative_spec(), n1, one);
    lemma_nearest_is_a_number(y.negative_spec(), n2, one);
}

} // verus!
