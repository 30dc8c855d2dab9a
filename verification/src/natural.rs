//! Natural numbers of any size, held as 32-bit limbs with the lowest first.

use crate::text::{decimal, digit_char};
use vstd::arithmetic::power2::*;
use vstd::prelude::*;

verus! {

/// One more than the largest value of a limb.
pub open spec fn radix() -> nat {
    0x1_0000_0000
}

/// The weight of limb `i`.
pub open spec fn weight(i: nat) -> nat
    decreases i,
{
    if i == 0 {
        1
    } else {
        radix() * weight((i - 1) as nat)
    }
}

/// Limb `i`, or zero above the highest one.
pub open spec fn limb_at(limbs: Seq<u32>, i: int) -> nat {
    if 0 <= i < limbs.len() {
        limbs[i] as nat
    } else {
        0
    }
}

/// What the lowest `count` limbs stand for.
pub open spec fn low_value(limbs: Seq<u32>, count: nat) -> nat
    decreases count,
{
    if count == 0 {
        0
    } else {
        low_value(limbs, (count - 1) as nat)
            + limb_at(limbs, count - 1) * weight((count - 1) as nat)
    }
}

proof fn lemma_weight_positive(i: nat)
    ensures
        weight(i) > 0,
    decreases i,
{
    if i > 0 {
        lemma_weight_positive((i - 1) as nat);
        assert(radix() * weight((i - 1) as nat) > 0) by (nonlinear_arith)
            requires
                weight((i - 1) as nat) > 0,
                radix() == 0x1_0000_0000,
        ;
    }
}

proof fn lemma_low_agrees(a: Seq<u32>, b: Seq<u32>, count: nat)
    requires
        forall|i: int| 0 <= i < count ==> limb_at(a, i) == limb_at(b, i),
    ensures
        low_value(a, count) == low_value(b, count),
    decreases count,
{
    if count > 0 {
        lemma_low_agrees(a, b, (count - 1) as nat);
    }
}

proof fn lemma_low_beyond(limbs: Seq<u32>, count: nat)
    requires
        count >= limbs.len(),
    ensures
        low_value(limbs, count) == low_value(limbs, limbs.len()),
    decreases count,
{
    if count > limbs.len() {
        lemma_low_beyond(limbs, (count - 1) as nat);
        assert(limb_at(limbs, count - 1) * weight((count - 1) as nat) == 0) by (nonlinear_arith)
            requires
                limb_at(limbs, count - 1) == 0,
        ;
    }
}

proof fn lemma_low_bounded(limbs: Seq<u32>, count: nat)
    ensures
        low_value(limbs, count) < weight(count),
    decreases count,
{
    if count > 0 {
        let w = weight((count - 1) as nat);
        lemma_low_bounded(limbs, (count - 1) as nat);
        let l = limb_at(limbs, count - 1);
        assert(l * w + w <= radix() * w) by (nonlinear_arith)
            requires
                l + 1 <= radix(),
        ;
    }
}

/// What limbs with the highest one first stand for.
spec fn high_value(limbs: Seq<u32>) -> nat
    decreases limbs.len(),
{
    if limbs.len() == 0 {
        0
    } else {
        high_value(limbs.drop_last()) * radix() + limbs.last() as nat
    }
}

/// A natural number without an upper bound.
pub struct Natural {
    limbs: Vec<u32>,
}

impl View for Natural {
    type V = nat;

    closed spec fn view(&self) -> nat {
        low_value(self.limbs@, self.limbs@.len())
    }
}

impl Natural {
    /// The number `value`.
    pub fn new(value: u64) -> (result: Natural)
        ensures
            result@ == value,
    {
        let low: u32 = (value % 0x1_0000_0000) as u32;
        let high: u32 = (value / 0x1_0000_0000) as u32;
        let limbs: Vec<u32> = vec![low, high];
        proof {
            reveal_with_fuel(low_value, 3);
            reveal_with_fuel(weight, 3);
            assert(limbs@.len() == 2);
            assert(limb_at(limbs@, 0) == low && limb_at(limbs@, 1) == high);
            assert(weight(0) == 1 && weight(1) == radix());
            assert(low_value(limbs@, 1) == low * 1);
            assert(low_value(limbs@, 2) == low_value(limbs@, 1) + high * radix());
        }
        Natural { limbs }
    }

    /// The number times `factor`, plus `addend`.
    pub fn scaled(&self, factor: u32, addend: u32) -> (result: Natural)
        ensures
            result@ == self@ * factor + addend,
    {
        let mut limbs: Vec<u32> = Vec::new();
        let mut carry: u64 = addend as u64;
        proof {
            assert(low_value(self.limbs@, 0) * factor == 0) by (nonlinear_arith)
                requires
                    low_value(self.limbs@, 0) == 0,
            ;
            assert(low_value(limbs@, 0) == 0 && weight(0) == 1);
            assert(carry * weight(0) == carry) by (nonlinear_arith)
                requires
                    weight(0) == 1,
            ;
        }
        for i in 0..self.limbs.len()
            invariant
                limbs@.len() == i,
                carry < radix(),
                low_value(limbs@, i as nat) + carry * weight(i as nat) == low_value(
                    self.limbs@,
                    i as nat,
                ) * factor + addend,
        {
            let limb: u32 = self.limbs[i];
            proof {
                assert(limb * factor <= 0xffff_ffffu64 * 0xffff_ffffu64) by (nonlinear_arith)
                    requires
                        limb <= 0xffff_ffffu32,
                        factor <= 0xffff_ffffu32,
                ;
            }
            let total: u64 = limb as u64 * factor as u64 + carry;
            let digit: u32 = (total % 0x1_0000_0000) as u32;
            let next: u64 = total / 0x1_0000_0000;
            let ghost before = limbs@;
            limbs.push(digit);
            proof {
                lemma_low_agrees(before, limbs@, i as nat);
                let w = weight(i as nat);
                let l = low_value(self.limbs@, i as nat);
                assert(weight((i + 1) as nat) == radix() * w);
                assert(digit * w + next * (radix() * w) == carry * w + limb * w * factor)
                    by (nonlinear_arith)
                    requires
                        digit + next * radix() == limb * factor + carry,
                ;
                assert((l + limb * w) * factor == l * factor + limb * w * factor)
                    by (nonlinear_arith);
                assert(limb_at(limbs@, i as int) == digit);
                assert(limb_at(self.limbs@, i as int) == limb);
            }
            carry = next;
        }
        if carry != 0 {
            let ghost before = limbs@;
            let top: u32 = carry as u32;
            limbs.push(top);
            proof {
                lemma_low_agrees(before, limbs@, self.limbs@.len());
                assert(limb_at(limbs@, self.limbs@.len() as int) == top);
            }
        } else {
            assert(carry * weight(self.limbs@.len()) == 0) by (nonlinear_arith)
                requires
                    carry == 0,
            ;
        }
        Natural { limbs }
    }

    /// The sum with `other`.
    pub fn plus(&self, other: &Natural) -> (result: Natural)
        ensures
            result@ == self@ + other@,
    {
        let count: usize = if self.limbs.len() < other.limbs.len() {
            other.limbs.len()
        } else {
            self.limbs.len()
        };
        let mut limbs: Vec<u32> = Vec::new();
        let mut carry: u64 = 0;
        proof {
            assert(carry * weight(0) == 0) by (nonlinear_arith)
                requires
                    carry == 0,
            ;
        }
        for i in 0..count
            invariant
                limbs@.len() == i,
                carry <= 1,
                low_value(self.limbs@, i as nat) + low_value(other.limbs@, i as nat) == low_value(
                    limbs@,
                    i as nat,
                ) + carry * weight(i as nat),
        {
            let a: u64 = if i < self.limbs.len() {
                self.limbs[i] as u64
            } else {
                0
            };
            let b: u64 = if i < other.limbs.len() {
                other.limbs[i] as u64
            } else {
                0
            };
            let total: u64 = a + b + carry;
            let digit: u32 = (total % 0x1_0000_0000) as u32;
            let next: u64 = total / 0x1_0000_0000;
            let ghost before = limbs@;
            limbs.push(digit);
            proof {
                lemma_low_agrees(before, limbs@, i as nat);
                let w = weight(i as nat);
                assert(weight((i + 1) as nat) == radix() * w);
                assert(a * w + b * w + carry * w == digit * w + next * (radix() * w))
                    by (nonlinear_arith)
                    requires
                        digit + next * radix() == a + b + carry,
                ;
                assert(limb_at(limbs@, i as int) == digit);
                assert(limb_at(self.limbs@, i as int) == a);
                assert(limb_at(other.limbs@, i as int) == b);
            }
            carry = next;
        }
        let ghost before = limbs@;
        let top: u32 = carry as u32;
        limbs.push(top);
        proof {
            lemma_low_beyond(self.limbs@, count as nat);
            lemma_low_beyond(other.limbs@, count as nat);
            lemma_low_agrees(before, limbs@, count as nat);
            assert(limb_at(limbs@, count as int) == top);
        }
        Natural { limbs }
    }

    /// The number times a 64-bit factor.
    pub fn times(&self, factor: u64) -> (result: Natural)
        ensures
            result@ == self@ * factor,
    {
        let low: u32 = (factor % 0x1_0000_0000) as u32;
        let high: u32 = (factor / 0x1_0000_0000) as u32;
        let upper = self.scaled(high, 0).shifted(32);
        let lower = self.scaled(low, 0);
        proof {
            lemma2_to64();
            assert(self@ * factor == self@ * high * 0x1_0000_0000 + self@ * low)
                by (nonlinear_arith)
                requires
                    factor == high * 0x1_0000_0000 + low,
            ;
        }
        upper.plus(&lower)
    }

    /// What is left after taking `other` away, where it is no larger.
    pub fn less(&self, other: &Natural) -> (result: Option<Natural>)
        ensures
            match result {
                Some(rest) => rest@ + other@ == self@,
                None => self@ < other@,
            },
    {
        let count: usize = if self.limbs.len() < other.limbs.len() {
            other.limbs.len()
        } else {
            self.limbs.len()
        };
        let mut limbs: Vec<u32> = Vec::new();
        let mut borrow: u64 = 0;
        proof {
            assert(borrow * weight(0) == 0) by (nonlinear_arith)
                requires
                    borrow == 0,
            ;
        }
        for i in 0..count
            invariant
                limbs@.len() == i,
                borrow <= 1,
                low_value(self.limbs@, i as nat) + borrow * weight(i as nat) == low_value(
                    other.limbs@,
                    i as nat,
                ) + low_value(limbs@, i as nat),
        {
            let a: u64 = if i < self.limbs.len() {
                self.limbs[i] as u64
            } else {
                0
            };
            let b: u64 = if i < other.limbs.len() {
                other.limbs[i] as u64
            } else {
                0
            };
            let taken: u64 = b + borrow;
            let next: u64 = if a < taken {
                1
            } else {
                0
            };
            let digit: u32 = (a + next * 0x1_0000_0000 - taken) as u32;
            let ghost before = limbs@;
            limbs.push(digit);
            proof {
                lemma_low_agrees(before, limbs@, i as nat);
                let w = weight(i as nat);
                assert(weight((i + 1) as nat) == radix() * w);
                assert(a * w + next * (radix() * w) == b * w + borrow * w + digit * w)
                    by (nonlinear_arith)
                    requires
                        digit + b + borrow == a + next * radix(),
                ;
                assert(limb_at(limbs@, i as int) == digit);
                assert(limb_at(self.limbs@, i as int) == a);
                assert(limb_at(other.limbs@, i as int) == b);
            }
            borrow = next;
        }
        proof {
            lemma_low_beyond(self.limbs@, count as nat);
            lemma_low_beyond(other.limbs@, count as nat);
            lemma_low_bounded(limbs@, count as nat);
            assert(borrow * weight(count as nat) == if borrow == 0 {
                0
            } else {
                weight(count as nat) as int
            }) by (nonlinear_arith)
                requires
                    borrow <= 1,
            ;
        }
        if borrow == 0 {
            Some(Natural { limbs })
        } else {
            None
        }
    }

    /// The number times two to the power `exponent`.
    pub fn shifted(&self, exponent: u32) -> (result: Natural)
        ensures
            result@ == self@ * pow2(exponent as nat),
    {
        let mut result = self.scaled(1, 0);
        let mut done: u32 = 0;
        proof {
            lemma2_to64();
            assert(self@ * 1 == self@);
        }
        while exponent - done >= 31
            invariant
                done <= exponent,
                result@ == self@ * pow2(done as nat),
            decreases exponent - done,
        {
            result = result.scaled(0x8000_0000, 0);
            proof {
                lemma2_to64();
                lemma_pow2_adds(done as nat, 31);
                assert(self@ * pow2(done as nat) * 0x8000_0000 == self@ * (pow2(done as nat)
                    * 0x8000_0000)) by (nonlinear_arith);
            }
            done = done + 31;
        }
        let mut factor: u32 = 1;
        let ghost start = done as nat;
        while done < exponent
            invariant
                start <= done <= exponent,
                exponent - start < 31,
                factor == pow2((done - start) as nat),
                result@ == self@ * pow2(start),
            decreases exponent - done,
        {
            proof {
                lemma_pow2_adds((done - start) as nat, 1);
                lemma2_to64();
                if done - start < 30 {
                    lemma_pow2_strictly_increases((done - start) as nat, 30);
                }
            }
            factor = factor * 2;
            done = done + 1;
        }
        proof {
            lemma_pow2_adds(start, (exponent - start) as nat);
            assert(self@ * pow2(start) * factor == self@ * (pow2(start) * factor))
                by (nonlinear_arith);
        }
        result.scaled(factor, 0)
    }

    /// The quotient and the remainder by a 32-bit divisor.
    pub fn divided(&self, divisor: u32) -> (result: (Natural, u32))
        requires
            divisor > 0,
        ensures
            self@ == result.0@ * divisor + result.1,
            result.1 < divisor,
    {
        let count: usize = self.limbs.len();
        let mut reversed: Vec<u32> = Vec::new();
        let mut rest: u64 = 0;
        let mut i: usize = count;
        let ghost mut q: nat = 0;
        proof {
            assert((q * divisor + rest) * weight(i as nat) == 0) by (nonlinear_arith)
                requires
                    q == 0,
                    rest == 0,
            ;
        }
        while i > 0
            invariant
                i <= count,
                count == self.limbs@.len(),
                reversed@.len() == count - i,
                rest < divisor,
                low_value(self.limbs@, count as nat) == low_value(self.limbs@, i as nat) + (q
                    * divisor + rest) * weight(i as nat),
                q == high_value(reversed@),
            decreases i,
        {
            let limb: u32 = self.limbs[i - 1];
            let total: u64 = rest * 0x1_0000_0000 + limb as u64;
            let digit: u64 = total / divisor as u64;
            let next: u64 = total % divisor as u64;
            proof {
                assert(total == digit * divisor + next) by (nonlinear_arith)
                    requires
                        digit == total / divisor as u64,
                        next == total % divisor as u64,
                        divisor > 0,
                ;
                assert(digit < 0x1_0000_0000) by (nonlinear_arith)
                    requires
                        total == digit * divisor + next,
                        total < divisor * 0x1_0000_0000,
                        divisor > 0,
                ;
                let w = weight((i - 1) as nat);
                assert(weight(i as nat) == radix() * w);
                let q2 = (q * radix() + digit) as nat;
                assert(limb * w + (q * divisor + rest) * (radix() * w) == (q2 * divisor + next) * w)
                    by (nonlinear_arith)
                    requires
                        rest * radix() + limb == digit * divisor + next,
                        q2 == q * radix() + digit,
                ;
                assert(limb_at(self.limbs@, i - 1) == limb);
                assert(reversed@.push(digit as u32).drop_last() =~= reversed@);
                q = q2;
            }
            reversed.push(digit as u32);
            rest = next;
            i = i - 1;
        }
        let mut limbs: Vec<u32> = Vec::new();
        let mut j: usize = count;
        proof {
            assert(reversed@.take(count as int) =~= reversed@);
            assert(low_value(limbs@, 0) == 0);
            assert(high_value(reversed@.take(count as int)) * weight(0) == high_value(reversed@))
                by (nonlinear_arith)
                requires
                    weight(0) == 1,
                    reversed@.take(count as int) == reversed@,
            ;
        }
        while j > 0
            invariant
                j <= count,
                count == reversed@.len(),
                limbs@.len() == count - j,
                high_value(reversed@) == low_value(limbs@, (count - j) as nat) + high_value(
                    reversed@.take(j as int),
                ) * weight((count - j) as nat),
            decreases j,
        {
            let ghost before = limbs@;
            let digit: u32 = reversed[j - 1];
            limbs.push(digit);
            proof {
                let k = (count - j) as nat;
                lemma_low_agrees(before, limbs@, k);
                assert(limb_at(limbs@, k as int) == digit);
                assert(reversed@.take(j as int).drop_last() =~= reversed@.take(j - 1));
                let h = high_value(reversed@.take(j - 1));
                let w = weight(k);
                assert(weight(k + 1) == radix() * w);
                assert((h * radix() + digit) * w == digit * w + h * (radix() * w))
                    by (nonlinear_arith);
                assert(low_value(limbs@, k + 1) == low_value(limbs@, k) + digit * w);
            }
            j = j - 1;
        }
        proof {
            assert(high_value(reversed@.take(0)) * weight(count as nat) == 0) by (nonlinear_arith)
                requires
                    high_value(reversed@.take(0)) == 0,
            ;
            assert(weight(0) == 1);
            assert((q * divisor + rest) * weight(0) == q * divisor + rest) by (nonlinear_arith)
                requires
                    weight(0) == 1,
            ;
        }
        (Natural { limbs }, rest as u32)
    }

    /// The digits of the number.
    pub fn decimal_text(&self) -> (out: String)
        ensures
            out@ == decimal(self@),
    {
        let ten = Natural::new(10);
        let mut reversed: Vec<char> = Vec::new();
        let mut rest = self.scaled(1, 0);
        assert(decimal(self@) =~= decimal(rest@) + reversed@.reverse());
        while !rest.below(&ten)
            invariant
                ten@ == 10,
                decimal(self@) == decimal(rest@) + reversed@.reverse(),
            decreases rest@,
        {
            let (quotient, digit) = rest.divided(10);
            proof {
                let before = reversed@;
                let c = digit_char(digit as nat);
                assert(rest@ / 10 == quotient@ && rest@ % 10 == digit);
                assert(before.push(c).reverse() =~= seq![c] + before.reverse());
                assert(decimal(rest@) + before.reverse() =~= decimal(quotient@) + (seq![c]
                    + before.reverse()));
            }
            reversed.push((48 + digit as u8) as char);
            rest = quotient;
        }
        let (_, digit) = rest.divided(10);
        assert(rest@ == digit);
        let ghost before = reversed@;
        reversed.push((48 + digit as u8) as char);
        let ghost c = digit_char(digit as nat);
        assert(before.push(c).reverse() =~= seq![c] + before.reverse());
        let mut out = String::new();
        let mut j: usize = reversed.len();
        assert(reversed@.skip(j as int).reverse() =~= Seq::empty());
        while j > 0
            invariant
                j <= reversed@.len(),
                out@ == reversed@.skip(j as int).reverse(),
            decreases j,
        {
            assert(reversed@.skip(j - 1).reverse() =~= reversed@.skip(j as int).reverse().push(
                reversed@[j - 1],
            ));
            out.push(reversed[j - 1]);
            j = j - 1;
        }
        assert(reversed@.skip(0) =~= reversed@);
        out
    }

    /// Whether the number is smaller than `other`.
    pub fn below(&self, other: &Natural) -> (result: bool)
        ensures
            result == (self@ < other@),
    {
        self.less(other).is_none()
    }
}

} // verus!
