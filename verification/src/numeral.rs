//! Decimal numerals as binary64 numbers.

use crate::binary64::{
    excess, lemma_excess_coarse, nearest, nearest_magnitude, nearest_of, signed, ten_power,
    Binary64, HIDDEN_BIT, INFINITE, SIGN_BIT, UNIT_SCALE,
};
use crate::natural::Natural;
use crate::text::{
    all_digits, chars, digits_value, index_of, is_digit, lower, position, same, text, to_lower,
    whole_text,
};
use vstd::arithmetic::div_mod::*;
use vstd::arithmetic::power2::*;
use vstd::prelude::*;

verus! {

/// What a sign at the start of a text says, and what follows it.
pub open spec fn signed_text(s: Seq<char>) -> (bool, Seq<char>) {
    if s.len() > 0 && (s[0] == '-' || s[0] == '+') {
        (s[0] == '-', s.drop_first())
    } else {
        (false, s)
    }
}

/// A run of digits after an optional sign.
pub open spec fn signed_digits(s: Seq<char>) -> Option<int> {
    let (negative, digits) = signed_text(s);
    if digits.len() > 0 && all_digits(digits) {
        Some(
            if negative {
                -(digits_value(digits) as int)
            } else {
                digits_value(digits) as int
            },
        )
    } else {
        None
    }
}

/// An unsigned numeral as digits and the power of ten that scales them.
pub open spec fn numeral_parts(s: Seq<char>) -> Option<(nat, int)> {
    let i = position(lower(s), 'e') as int;
    let mantissa = s.take(i);
    let exponent = if i < s.len() {
        signed_digits(s.skip(i + 1))
    } else {
        Some(0)
    };
    let j = position(mantissa, '.') as int;
    let whole = mantissa.take(j);
    let fraction = if j < mantissa.len() {
        mantissa.skip(j + 1)
    } else {
        Seq::empty()
    };
    if all_digits(whole) && all_digits(fraction) && whole.len() + fraction.len() > 0 && exponent
        is Some {
        Some((digits_value(whole + fraction), exponent.unwrap() - fraction.len()))
    } else {
        None
    }
}

/// The number nearest to `digits` times ten to the power `exponent`.
pub open spec fn scientific(negative: bool, digits: nat, exponent: int) -> Binary64 {
    if exponent >= 0 {
        nearest(negative, digits * ten_power(exponent as nat) * pow2(UNIT_SCALE as nat), 1)
    } else {
        nearest(negative, digits * pow2(UNIT_SCALE as nat), ten_power((-exponent) as nat))
    }
}

/// The number that a text denotes: digits with an optional point and an
/// optional exponent, an infinity, or a text for what is not a number.
pub open spec fn real_number(s: Seq<char>) -> Option<Binary64> {
    let (negative, body) = signed_text(s);
    if lower(body) == "inf"@ || lower(body) == "infinity"@ {
        Some(signed(negative, INFINITE as nat))
    } else if lower(body) == "nan"@ {
        Some(signed(negative, 0x7ff8_0000_0000_0000))
    } else {
        match numeral_parts(body) {
            Some((digits, exponent)) => Some(scientific(negative, digits, exponent)),
            None => None,
        }
    }
}

proof fn lemma_ten_power_adds(a: nat, b: nat)
    ensures
        ten_power(a + b) == ten_power(a) * ten_power(b),
    decreases a,
{
    if a > 0 {
        lemma_ten_power_adds((a - 1) as nat, b);
        let (x, y) = (ten_power((a - 1) as nat), ten_power(b));
        assert(10 * (x * y) == (10 * x) * y) by (nonlinear_arith);
        assert((a + b - 1) as nat == (a - 1) as nat + b);
    } else {
        assert(1 * ten_power(b) == ten_power(b));
    }
}

proof fn lemma_ten_power_large(k: nat)
    ensures
        ten_power(k) >= pow2(3 * k),
        ten_power(k) > 0,
    decreases k,
{
    lemma2_to64();
    if k > 0 {
        lemma_ten_power_large((k - 1) as nat);
        lemma_pow2_adds((3 * (k - 1)) as nat, 3);
    }
}

proof fn lemma_digits_bounded(s: Seq<char>)
    requires
        all_digits(s),
    ensures
        digits_value(s) < ten_power(s.len()),
    decreases s.len(),
{
    if s.len() > 0 {
        assert(all_digits(s.drop_last()));
        lemma_digits_bounded(s.drop_last());
        assert(crate::text::is_digit_spec(s[s.len() - 1]));
    }
}

proof fn lemma_overflows(digits: nat, exponent: nat)
    requires
        digits > 0,
        exponent >= 400,
    ensures
        nearest_magnitude(digits * ten_power(exponent) * pow2(UNIT_SCALE as nat), 1) == INFINITE,
{
    let t = ten_power(exponent);
    let u = pow2(UNIT_SCALE as nat);
    let n = digits * t * u;
    lemma_ten_power_large(exponent);
    if exponent > 400 {
        lemma_pow2_strictly_increases(1200, 3 * exponent);
    }
    lemma_pow2_adds(1200, UNIT_SCALE as nat);
    lemma_pow2_strictly_increases(2099, 2274);
    lemma_pow2_adds(53, 2046);
    lemma2_to64_rest();
    lemma_pow2_pos(UNIT_SCALE as nat);
    assert(n >= pow2(1200) * u) by (nonlinear_arith)
        requires
            n == digits * t * u,
            digits >= 1,
            t >= pow2(1200),
            u > 0,
    ;
    assert(n / 1 == n);
    lemma_excess_coarse(n, 2047);
    lemma_pow2_pos(2047);
    lemma_div_pos_is_pos(n as int, pow2(2047) as int);
    let rest = excess(n / pow2(2047));
    assert(excess(n) == 2047 + rest);
    assert(excess(n) * HIDDEN_BIT >= 2047 * HIDDEN_BIT) by (nonlinear_arith)
        requires
            excess(n) >= 2047,
    ;
}

proof fn lemma_vanishes(digits: nat, count: nat, places: nat)
    requires
        digits < ten_power(count),
        places >= count + 400,
    ensures
        nearest_magnitude(digits * pow2(UNIT_SCALE as nat), ten_power(places)) == 0,
{
    let u = pow2(UNIT_SCALE as nat);
    let (a, b) = (ten_power(count), ten_power((places - count) as nat));
    let n = digits * u;
    lemma_ten_power_adds(count, (places - count) as nat);
    lemma_ten_power_large((places - count) as nat);
    lemma_ten_power_large(places);
    if places - count > 400 {
        lemma_pow2_strictly_increases(1200, (3 * (places - count)) as nat);
    }
    lemma_pow2_strictly_increases(1075, 1200);
    lemma_pow2_unfold(1075);
    lemma_pow2_pos(UNIT_SCALE as nat);
    lemma2_to64();
    assert(2 * n < a * b) by (nonlinear_arith)
        requires
            n == digits * u,
            digits < a,
            b >= 2 * u,
            u > 0,
    ;
    lemma_basic_div(n as int, (a * b) as int);
    lemma_small_mod(n, (a * b) as nat);
    assert(ten_power(places) * 1 == ten_power(places));
}

/// The digits from one position up to another, as a number.
fn digits_natural(list: &Vec<char>, from: usize, to: usize) -> (result: Option<Natural>)
    requires
        from <= to <= list@.len(),
    ensures
        match result {
            Some(n) => all_digits(list@.subrange(from as int, to as int)) && n@ == digits_value(
                list@.subrange(from as int, to as int),
            ),
            None => !all_digits(list@.subrange(from as int, to as int)),
        },
{
    let ghost all = list@.subrange(from as int, to as int);
    let mut n = Natural::new(0);
    for i in from..to
        invariant
            from <= i <= to <= list@.len(),
            all == list@.subrange(from as int, to as int),
            all_digits(all.take(i - from)),
            n@ == digits_value(all.take(i - from)),
    {
        let c = list[i];
        assert(c == all[i - from]);
        if !is_digit(c) {
            return None;
        }
        let d: u32 = c as u32 - 48;
        assert(all.take(i + 1 - from).drop_last() =~= all.take(i - from));
        n = n.scaled(10, d);
    }
    assert(all.take(to - from) =~= all);
    Some(n)
}

/// No exponent that is read goes beyond this.
const EXPONENT_CAP: i128 = 0x10_0000_0000_0000_0000_0000_0000;

/// Digits as a number, kept within the cap.
fn digits_capped(list: &Vec<char>, from: usize) -> (result: Option<i128>)
    requires
        from <= list@.len(),
    ensures
        match result {
            Some(n) => all_digits(list@.skip(from as int)) && n == if digits_value(
                list@.skip(from as int),
            ) < EXPONENT_CAP {
                digits_value(list@.skip(from as int)) as int
            } else {
                EXPONENT_CAP as int
            },
            None => !all_digits(list@.skip(from as int)),
        },
{
    let ghost all = list@.skip(from as int);
    let mut n: i128 = 0;
    for i in from..list.len()
        invariant
            from <= i <= list@.len(),
            all == list@.skip(from as int),
            all_digits(all.take(i - from)),
            0 <= n <= EXPONENT_CAP,
            n == if digits_value(all.take(i - from)) < EXPONENT_CAP {
                digits_value(all.take(i - from)) as int
            } else {
                EXPONENT_CAP as int
            },
    {
        let c = list[i];
        assert(c == all[i - from]);
        if !is_digit(c) {
            return None;
        }
        let d: i128 = (c as u32 - 48) as i128;
        assert(all.take(i + 1 - from).drop_last() =~= all.take(i - from));
        let next: i128 = n * 10 + d;
        n = if next < EXPONENT_CAP {
            next
        } else {
            EXPONENT_CAP
        };
    }
    assert(all.take(list@.len() - from) =~= all);
    Some(n)
}

/// The exponent that a text holds from one position on, kept within the cap.
fn exponent_capped(list: &Vec<char>, from: usize) -> (result: Option<i128>)
    requires
        from <= list@.len(),
    ensures
        match result {
            Some(n) => match signed_digits(list@.skip(from as int)) {
                Some(exact) => n == if exact >= EXPONENT_CAP {
                    EXPONENT_CAP as int
                } else if exact <= -EXPONENT_CAP {
                    -EXPONENT_CAP as int
                } else {
                    exact
                },
                None => false,
            },
            None => signed_digits(list@.skip(from as int)) is None,
        },
{
    let ghost all = list@.skip(from as int);
    let signed = from < list.len() && (list[from] == '-' || list[from] == '+');
    let negative = signed && list[from] == '-';
    let start: usize = if signed {
        from + 1
    } else {
        from
    };
    assert(signed_text(all).1 =~= list@.skip(start as int));
    if start == list.len() {
        return None;
    }
    match digits_capped(list, start) {
        Some(n) => Some(
            if negative {
                -n
            } else {
                n
            },
        ),
        None => None,
    }
}

/// A number times ten to a power.
fn times_ten_power(n: Natural, places: i128) -> (result: Natural)
    requires
        places >= 0,
    ensures
        result@ == n@ * ten_power(places as nat),
{
    let mut result = n;
    let mut i: i128 = 0;
    assert(n@ * 1 == n@);
    while i < places
        invariant
            0 <= i <= places,
            result@ == n@ * ten_power(i as nat),
        decreases places - i,
    {
        proof {
            let t = ten_power(i as nat);
            assert(n@ * t * 10 == n@ * (10 * t)) by (nonlinear_arith);
        }
        result = result.scaled(10, 0);
        i = i + 1;
    }
    result
}

/// The number nearest to `n`, which has at most `count` digits, times ten to
/// a power. Beyond the range of binary64 the power may be off.
fn scaled_numeral(
    n: Natural,
    count: usize,
    power: i128,
    exact_power: Ghost<int>,
    negative: bool,
) -> (result: Binary64)
    requires
        n@ < ten_power(count as nat),
        -0x20_0000_0000_0000_0000_0000_0000 <= power <= 0x20_0000_0000_0000_0000_0000_0000,
        power == exact_power@ || (power >= 400 && exact_power@ >= 400) || (power + count <= -400
            && exact_power@ + count <= -400),
    ensures
        result == scientific(negative, n@, exact_power@),
{
    let ghost exact_power = exact_power@;
    let one = Natural::new(1);
    let sign: u64 = if negative {
        SIGN_BIT
    } else {
        0
    };
    proof {
        lemma2_to64();
    }
    if n.below(&one) {
        proof {
            let t = if exact_power >= 0 {
                1nat
            } else {
                ten_power((-exact_power) as nat)
            };
            lemma_ten_power_large(
                if exact_power >= 0 {
                    0
                } else {
                    (-exact_power) as nat
                },
            );
            assert(0 * ten_power(exact_power as nat) * pow2(UNIT_SCALE as nat) == 0)
                by (nonlinear_arith);
            assert(0 * pow2(UNIT_SCALE as nat) == 0);
            lemma_basic_div(0, t as int);
            lemma_small_mod(0, t);
            assert(t * 1 == t);
        }
        Binary64 { bits: sign }
    } else if power >= 400 {
        proof {
            lemma_overflows(n@, exact_power as nat);
        }
        Binary64 { bits: INFINITE + sign }
    } else if power >= 0 {
        let scaled = times_ten_power(n, power).shifted(UNIT_SCALE);
        nearest_of(negative, &scaled, &one)
    } else if power + (count as i128) <= -400 {
        proof {
            lemma_vanishes(n@, count as nat, (-exact_power) as nat);
        }
        Binary64 { bits: sign }
    } else {
        proof {
            lemma_ten_power_large((-exact_power) as nat);
        }
        let scale = times_ten_power(one, -power);
        assert(1 * ten_power((-power) as nat) == ten_power((-power) as nat));
        nearest_of(negative, &n.shifted(UNIT_SCALE), &scale)
    }
}

/// The unsigned numeral in a list of characters, with a sign.
fn numeral(list: &Vec<char>, negative: bool) -> (result: Option<Binary64>)
    ensures
        match result {
            Some(x) => match numeral_parts(list@) {
                Some((digits, exponent)) => x == scientific(negative, digits, exponent),
                None => false,
            },
            None => numeral_parts(list@) is None,
        },
{
    let folded = chars(to_lower(whole_text(list).as_str()).as_str());
    let i: usize = index_of(&folded, 'e');
    let ghost mantissa = list@.take(i as int);
    let exponent: i128 = if i < list.len() {
        match exponent_capped(list, i + 1) {
            Some(n) => n,
            None => {
                return None;
            },
        }
    } else {
        0
    };
    let ghost exact = if i < list@.len() {
        signed_digits(list@.skip(i + 1)).unwrap()
    } else {
        0
    };
    let front = chars(text(list, 0, i).as_str());
    assert(front@ =~= mantissa);
    let j: usize = index_of(&front, '.');
    let mut digits: Vec<char> = Vec::new();
    let mut k: usize = 0;
    while k < front.len()
        invariant
            k <= front@.len(),
            j <= front@.len(),
            front@ == mantissa,
            digits@ == mantissa.take(if k <= j {
                k as int
            } else {
                j as int
            }) + if k <= j {
                Seq::empty()
            } else {
                mantissa.subrange(j + 1, k as int)
            },
        decreases front@.len() - k,
    {
        if k != j {
            digits.push(front[k]);
        }
        proof {
            if k < j {
                assert(digits@ =~= mantissa.take(k + 1) + Seq::empty());
            } else if k == j {
                assert(digits@ =~= mantissa.take(j as int) + mantissa.subrange(j + 1, k + 1));
            } else {
                assert(digits@ =~= mantissa.take(j as int) + mantissa.subrange(j + 1, k + 1));
            }
        }
        k = k + 1;
    }
    let places: usize = if j < front.len() {
        front.len() - j - 1
    } else {
        0
    };
    let ghost whole = mantissa.take(j as int);
    let ghost fraction = if j < mantissa.len() {
        mantissa.skip(j + 1)
    } else {
        Seq::empty()
    };
    assert(digits@ =~= whole + fraction);
    assert(digits@.subrange(0, digits@.len() as int) =~= digits@);
    let total: usize = digits.len();
    if total == 0 {
        return None;
    }
    let n = match digits_natural(&digits, 0, total) {
        Some(n) => n,
        None => {
            proof {
                if all_digits(whole) && all_digits(fraction) {
                    assert forall|x: int| 0 <= x < digits@.len() implies
                        crate::text::is_digit_spec(#[trigger] digits@[x]) by {
                        if x < whole.len() {
                            assert(digits@[x] == whole[x]);
                        } else {
                            assert(digits@[x] == fraction[x - whole.len()]);
                        }
                    }
                }
            }
            return None;
        },
    };
    proof {
        assert forall|x: int| 0 <= x < whole.len() implies crate::text::is_digit_spec(
            #[trigger] whole[x],
        ) by {
            assert(digits@[x] == whole[x]);
        }
        assert forall|x: int| 0 <= x < fraction.len() implies crate::text::is_digit_spec(
            #[trigger] fraction[x],
        ) by {
            assert(digits@[x + whole.len()] == fraction[x]);
        }
        lemma_digits_bounded(digits@);
    }
    let power: i128 = exponent - places as i128;
    let ghost exact_power = exact - fraction.len();
    proof {
        assert(numeral_parts(list@) == Some((n@, exact_power)));
    }
    Some(scaled_numeral(n, total, power, Ghost(exact_power), negative))
}

/// The number that a text denotes.
pub fn parse_real(s: &str) -> (result: Option<Binary64>)
    ensures
        result == real_number(s@),
{
    let list = chars(s);
    let signed = list.len() > 0 && (list[0] == '-' || list[0] == '+');
    let negative = signed && list[0] == '-';
    let from: usize = if signed {
        1
    } else {
        0
    };
    let body = text(&list, from, list.len());
    assert(body@ =~= signed_text(s@).1);
    let folded = to_lower(body.as_str());
    let sign: u64 = if negative {
        SIGN_BIT
    } else {
        0
    };
    if same(folded.as_str(), "inf") || same(folded.as_str(), "infinity") {
        Some(Binary64 { bits: INFINITE + sign })
    } else if same(folded.as_str(), "nan") {
        Some(Binary64 { bits: 0x7ff8_0000_0000_0000 + sign })
    } else {
        numeral(&chars(body.as_str()), negative)
    }
}

proof fn lemma_no_mark(s: Seq<char>, mark: char)
    requires
        forall|i: int| 0 <= i < s.len() ==> #[trigger] s[i] != mark,
    ensures
        position(s, mark) == s.len(),
    decreases s.len(),
{
    if s.len() > 0 {
        assert(s[0] != mark);
        assert forall|i: int| 0 <= i < s.drop_first().len() implies #[trigger] s.drop_first()[i]
            != mark by {
            assert(s.drop_first()[i] == s[i + 1]);
        }
        lemma_no_mark(s.drop_first(), mark);
    }
}

/// A whole number that is written out reads back as the number nearest to it.
pub proof fn written_whole_numbers_read_back(n: nat)
    ensures
        real_number(crate::text::decimal(n)) == Some(Binary64::of_nat(n)),
{
    let s = crate::text::decimal(n);
    crate::text::lemma_decimal_digits(n);
    assert(forall|i: int| 0 <= i < s.len() ==> crate::text::is_digit_spec(#[trigger] s[i]));
    assert(lower(s) =~= s);
    assert(crate::text::is_digit_spec(s[0]));
    reveal_strlit("inf");
    reveal_strlit("infinity");
    reveal_strlit("nan");
    assert(s != "inf"@ && s != "infinity"@ && s != "nan"@) by {
        assert("inf"@[0] == 'i' && "infinity"@[0] == 'i' && "nan"@[0] == 'n');
    }
    lemma_no_mark(s, 'e');
    assert(s.take(s.len() as int) =~= s);
    lemma_no_mark(s, '.');
    assert(s + Seq::<char>::empty() =~= s);
    assert(ten_power(0) == 1);
    assert(n * 1 == n);
}

} // verus!
