//! Sizes, rates and counts: how they are measured and how they are shown.

use crate::binary64::{
    bounded_quotients_stay_bounded, differences_mirror, even_quotients_are_exact,
    lemma_large_power_is_exact, lemma_nearest_is_a_number, lemma_units_grow, lemma_units_positive,
    nothing_stays_nothing, quotients_mirror, rounding_keeps_the_order, signs_are_kept,
    small_products_are_exact, small_whole_numbers_are_exact, ten_power, whole_numbers_are_finite,
    whole_numbers_keep_their_order, Binary64, SIGNIFICAND_BOUND, UNIT_SCALE,
};
use crate::numeral::{parse_real, real_number, written_whole_numbers_read_back};
use crate::text::{
    chars, decimal, decimal_text, digit_char, first_chars, is_digit, is_digit_spec, is_letter,
    is_letter_spec, is_space, is_space_spec, lemma_decimal_digits, lower, padded, same, shortened,
    strip_marks, stripped, text, to_lower,
};
use vstd::arithmetic::div_mod::lemma_fundamental_div_mod_converse;
use vstd::arithmetic::power2::{lemma_pow2_pos, pow2};
use vstd::prelude::*;

verus! {

pub const KIB: u64 = 1024;

pub const MIB: u64 = 1024 * 1024;

pub const GIB: u64 = 1024 * 1024 * 1024;

pub const TIB: u64 = 1024 * 1024 * 1024 * 1024;

/// A span of time.
#[derive(Clone, Copy, Debug, PartialEq, Eq, Structural)]
pub struct Elapsed {
    pub secs: u64,
    pub nanos: u32,
}

impl Elapsed {
    /// The span in seconds.
    pub open spec fn seconds_spec(self) -> Binary64 {
        Binary64::of_nat(self.secs as nat).sum(
            Binary64::of_nat(self.nanos as nat).quotient(Binary64::of_nat(1_000_000_000)),
        )
    }

    /// The span in seconds, a millisecond at least.
    pub open spec fn divisor_spec(self) -> Binary64 {
        let least = Binary64::of_nat(1).quotient(Binary64::of_nat(1000));
        if self.seconds_spec().less_than(least) {
            least
        } else {
            self.seconds_spec()
        }
    }

    /// The span in seconds.
    pub fn seconds(self) -> (result: Binary64)
        ensures
            result == self.seconds_spec(),
    {
        let fraction = Binary64::from_u64(self.nanos as u64).over(
            Binary64::from_u64(1_000_000_000),
        );
        Binary64::from_u64(self.secs).plus(fraction)
    }

    /// The span in seconds, a millisecond at least.
    pub fn divisor(self) -> (result: Binary64)
        ensures
            result == self.divisor_spec(),
    {
        let least = Binary64::from_u64(1).over(Binary64::from_u64(1000));
        let seconds = self.seconds();
        if seconds.lt(least) {
            least
        } else {
            seconds
        }
    }
}

/// How far a counter has moved; a counter that went back has not moved.
pub open spec fn delta_spec(current: u64, previous: u64) -> u64 {
    if current >= previous {
        (current - previous) as u64
    } else {
        0
    }
}

/// How far a counter has moved; a counter that went back has not moved.
pub fn delta(current: u64, previous: u64) -> (result: u64)
    ensures
        result == delta_spec(current, previous),
{
    if current >= previous {
        current - previous
    } else {
        0
    }
}

/// A sum that stays within 64 bits.
pub open spec fn total_spec(a: u64, b: u64) -> u64 {
    if a + b <= u64::MAX {
        (a + b) as u64
    } else {
        u64::MAX
    }
}

/// A sum that stays within 64 bits.
pub fn total(a: u64, b: u64) -> (result: u64)
    ensures
        result == total_spec(a, b),
{
    if a <= u64::MAX - b {
        a + b
    } else {
        u64::MAX
    }
}

/// A product that stays within 64 bits.
pub open spec fn product_spec(a: u64, b: u64) -> u64 {
    if a * b <= u64::MAX {
        (a * b) as u64
    } else {
        u64::MAX
    }
}

/// A product that stays within 64 bits.
pub fn product(a: u64, b: u64) -> (result: u64)
    ensures
        result == product_spec(a, b),
{
    proof {
        assert(a * b <= u64::MAX * u64::MAX) by (nonlinear_arith)
            requires
                a <= u64::MAX,
                b <= u64::MAX,
        ;
    }
    let exact: u128 = a as u128 * b as u128;
    if exact <= u64::MAX as u128 {
        exact as u64
    } else {
        u64::MAX
    }
}

/// Bytes per second, rounded to a whole number.
pub open spec fn rate_bytes_spec(delta_units: u64, unit_bytes: u64, elapsed: Elapsed) -> nat {
    let value = Binary64::of_nat(delta_units as nat).product(
        Binary64::of_nat(unit_bytes as nat),
    ).quotient(elapsed.divisor_spec());
    if value.finite_spec() {
        value.rounded_part()
    } else {
        0
    }
}

/// Bytes per second for a count of units that passed in a span of time.
pub fn rate_bytes(delta_units: u64, unit_bytes: u64, elapsed: Elapsed) -> (result: u64)
    ensures
        result == rate_bytes_spec(delta_units, unit_bytes, elapsed),
{
    let units = Binary64::from_u64(delta_units).times(Binary64::from_u64(unit_bytes));
    let value = units.over(elapsed.divisor());
    if value.is_finite() {
        value.rounded()
    } else {
        0
    }
}

/// Bytes per second by which a size has changed, kept within 64 bits.
pub open spec fn signed_rate_bytes_spec(current: u64, previous: u64, elapsed: Elapsed) -> int {
    let change = Binary64::of_nat(current as nat).sum(
        Binary64::of_nat(previous as nat).opposite(),
    );
    let value = change.quotient(elapsed.divisor_spec());
    let magnitude = value.rounded_part();
    if !value.finite_spec() {
        0
    } else if value.negative_spec() {
        if magnitude > i64::MAX {
            i64::MIN as int
        } else {
            -magnitude
        }
    } else if magnitude > i64::MAX {
        i64::MAX as int
    } else {
        magnitude as int
    }
}

/// Bytes per second by which a size has changed in a span of time.
pub fn signed_rate_bytes(current: u64, previous: u64, elapsed: Elapsed) -> (result: i64)
    ensures
        result == signed_rate_bytes_spec(current, previous, elapsed),
{
    let change = Binary64::from_u64(current).minus(Binary64::from_u64(previous));
    let value = change.over(elapsed.divisor());
    if !value.is_finite() {
        return 0;
    }
    let magnitude: u64 = value.rounded();
    if value.is_negative() {
        if magnitude > i64::MAX as u64 {
            i64::MIN
        } else {
            -(magnitude as i64)
        }
    } else if magnitude > i64::MAX as u64 {
        i64::MAX
    } else {
        magnitude as i64
    }
}

proof fn lemma_divisor_is_positive(elapsed: Elapsed)
    ensures
        !elapsed.divisor_spec().negative_spec(),
{
    let whole = Binary64::of_nat(elapsed.secs as nat);
    let part = Binary64::of_nat(elapsed.nanos as nat);
    let billion = Binary64::of_nat(1_000_000_000);
    whole_numbers_are_finite(elapsed.secs as nat);
    whole_numbers_are_finite(elapsed.nanos as nat);
    whole_numbers_are_finite(1_000_000_000);
    whole_numbers_are_finite(1);
    whole_numbers_are_finite(1000);
    signs_are_kept(part, billion);
    signs_are_kept(whole, part.quotient(billion));
    signs_are_kept(Binary64::of_nat(1), Binary64::of_nat(1000));
}

proof fn lemma_zero_rounds_to_zero(x: Binary64)
    requires
        x.zero_spec(),
    ensures
        x.rounded_part() == 0,
{
    let one = pow2(UNIT_SCALE as nat);
    lemma_pow2_pos(UNIT_SCALE as nat);
    lemma_units_positive(x);
    lemma_fundamental_div_mod_converse(one as int, (2 * one) as int, 0, one as int);
}

/// Growth and loss mirror each other: exchanging the two sizes turns the rate's
/// sign, but for the one step by which the negative whole numbers of 64 bits
/// reach further. A size that stays has no rate, one that does not grow has no
/// positive rate, and one that does not shrink no negative one.
pub proof fn growth_and_loss_mirror_each_other(a: u64, b: u64, elapsed: Elapsed)
    ensures
        signed_rate_bytes_spec(a, b, elapsed) == -signed_rate_bytes_spec(b, a, elapsed) || (
        signed_rate_bytes_spec(a, b, elapsed) == i64::MAX && signed_rate_bytes_spec(b, a, elapsed)
            == i64::MIN) || (signed_rate_bytes_spec(a, b, elapsed) == i64::MIN
            && signed_rate_bytes_spec(b, a, elapsed) == i64::MAX),
        signed_rate_bytes_spec(a, a, elapsed) == 0,
        signed_rate_bytes_spec(a, b, elapsed) > 0 ==> a > b,
        signed_rate_bytes_spec(a, b, elapsed) < 0 ==> a < b,
{
    let (x, y) = (Binary64::of_nat(a as nat), Binary64::of_nat(b as nat));
    let d = elapsed.divisor_spec();
    whole_numbers_are_finite(a as nat);
    whole_numbers_are_finite(b as nat);
    lemma_divisor_is_positive(elapsed);
    differences_mirror(x, y);
    differences_mirror(y, x);
    differences_mirror(x, x);
    let (there, back, still) = (x.sum(y.opposite()), y.sum(x.opposite()), x.sum(x.opposite()));
    quotients_mirror(there, back, d);
    quotients_mirror(back, there, d);
    quotients_mirror(still, still, d);
    if still.quotient(d).zero_spec() {
        lemma_zero_rounds_to_zero(still.quotient(d));
    }
    if there.quotient(d).zero_spec() {
        lemma_zero_rounds_to_zero(there.quotient(d));
        lemma_zero_rounds_to_zero(back.quotient(d));
    }
    assert(there.quotient(d).units() == back.quotient(d).units());
    if a <= b {
        whole_numbers_keep_their_order(a as nat, b as nat);
    }
    if b <= a {
        whole_numbers_keep_their_order(b as nat, a as nat);
    }
}

proof fn lemma_whole_seconds(secs: u64)
    requires
        0 < secs < SIGNIFICAND_BOUND,
    ensures
        (Elapsed { secs, nanos: 0 }).divisor_spec() == Binary64::of_nat(secs as nat),
{
    let elapsed = Elapsed { secs, nanos: 0 };
    let one = pow2(UNIT_SCALE as nat);
    let (whole, part) = (Binary64::of_nat(secs as nat), Binary64::of_nat(0));
    let billion = Binary64::of_nat(1_000_000_000);
    lemma_pow2_pos(UNIT_SCALE as nat);
    small_whole_numbers_are_exact(secs as nat);
    small_whole_numbers_are_exact(0);
    small_whole_numbers_are_exact(1);
    small_whole_numbers_are_exact(1000);
    small_whole_numbers_are_exact(1_000_000_000);
    even_quotients_are_exact(part, billion, 0, 1_000_000_000);
    signs_are_kept(part, billion);
    let total = secs as nat * one;
    assert(total > 0) by (nonlinear_arith)
        requires
            total == secs as nat * one,
            secs > 0,
            one > 0,
    ;
    assert(elapsed.seconds_spec() == whole);
    let thousand = Binary64::of_nat(1000);
    let least = Binary64::of_nat(1).quotient(thousand);
    assert(one * one * 1 <= total * (1000 * one)) by (nonlinear_arith)
        requires
            total == secs as nat * one,
            secs >= 1,
            one > 0,
    ;
    rounding_keeps_the_order(one * one, 1000 * one, total, 1);
    lemma_nearest_is_a_number(false, one * one, 1000 * one);
    lemma_nearest_is_a_number(false, total, 1);
    lemma_units_positive(thousand);
    assert(least.rank() <= whole.rank());
}

proof fn lemma_long_spans_divide(elapsed: Elapsed)
    requires
        elapsed.secs >= 1,
    ensures
        elapsed.divisor_spec().finite_spec() ==> elapsed.divisor_spec().units() >= pow2(
            UNIT_SCALE as nat,
        ),
{
    let one = pow2(UNIT_SCALE as nat);
    let unit = Binary64::of_nat(1);
    let whole = Binary64::of_nat(elapsed.secs as nat);
    let nanos = Binary64::of_nat(elapsed.nanos as nat);
    let billion = Binary64::of_nat(1_000_000_000);
    let part = nanos.quotient(billion);
    let seconds = elapsed.seconds_spec();
    lemma_pow2_pos(UNIT_SCALE as nat);
    small_whole_numbers_are_exact(1);
    small_whole_numbers_are_exact(1000);
    whole_numbers_are_finite(elapsed.secs as nat);
    whole_numbers_are_finite(elapsed.nanos as nat);
    whole_numbers_are_finite(1_000_000_000);
    whole_numbers_keep_their_order(1, elapsed.secs as nat);
    signs_are_kept(nanos, billion);
    signs_are_kept(whole, part);
    lemma_nearest_is_a_number(false, one, 1);
    if part.finite_spec() {
        let total = (whole.value() + part.value()) as nat;
        assert(total >= one);
        lemma_nearest_is_a_number(false, total, 1);
        rounding_keeps_the_order(one, 1, total, 1);
        assert(1 * one == one);
        if seconds.finite_spec() {
            lemma_units_grow(unit, seconds);
        }
    }
    assert(seconds.nan_spec() || seconds.rank() >= unit.rank());
    let thousand = Binary64::of_nat(1000);
    lemma_units_positive(thousand);
    assert(one * one * 1 <= one * (1000 * one)) by (nonlinear_arith)
        requires
            one > 0,
    ;
    rounding_keeps_the_order(one * one, 1000 * one, one, 1);
    lemma_nearest_is_a_number(false, one * one, 1000 * one);
}

/// Sizes up to two to the sixty-second that are a second or more apart have
/// rates that mirror each other exactly.
pub proof fn usual_rates_mirror_exactly(a: u64, b: u64, elapsed: Elapsed)
    requires
        a <= 0x4000_0000_0000_0000,
        b <= 0x4000_0000_0000_0000,
        elapsed.secs >= 1,
    ensures
        signed_rate_bytes_spec(a, b, elapsed) == -signed_rate_bytes_spec(b, a, elapsed),
{
    let (x, y) = (Binary64::of_nat(a as nat), Binary64::of_nat(b as nat));
    whole_numbers_are_finite(a as nat);
    whole_numbers_are_finite(b as nat);
    whole_numbers_keep_their_order(a as nat, 0x4000_0000_0000_0000);
    whole_numbers_keep_their_order(b as nat, 0x4000_0000_0000_0000);
    whole_numbers_are_finite(0x4000_0000_0000_0000);
    lemma_large_power_is_exact();
    lemma_long_spans_divide(elapsed);
    bounded_quotients_stay_bounded(x, y, elapsed.divisor_spec());
    bounded_quotients_stay_bounded(y, x, elapsed.divisor_spec());
    growth_and_loss_mirror_each_other(a, b, elapsed);
}

/// A size that changes by a whole number of bytes in each of a whole number of
/// seconds has exactly that rate.
pub proof fn even_growth_is_exact(previous: u64, step: u64, secs: u64)
    requires
        0 < secs,
        previous + step * secs < SIGNIFICAND_BOUND,
    ensures
        ({
            let current = (previous + step * secs) as u64;
            let elapsed = Elapsed { secs, nanos: 0 };
            &&& signed_rate_bytes_spec(current, previous, elapsed) == step
            &&& signed_rate_bytes_spec(previous, current, elapsed) == -step
        }),
{
    let current = (previous + step * secs) as u64;
    let elapsed = Elapsed { secs, nanos: 0 };
    let one = pow2(UNIT_SCALE as nat);
    let change = (step * secs) as nat;
    let (x, y) = (Binary64::of_nat(current as nat), Binary64::of_nat(previous as nat));
    assert(step <= change) by (nonlinear_arith)
        requires
            change == step * secs,
            secs >= 1,
    ;
    if step > 0 {
        assert(secs <= change) by (nonlinear_arith)
            requires
                change == step * secs,
                step >= 1,
        ;
    }
    if step == 0 {
        assert(current == previous);
        growth_and_loss_mirror_each_other(current, previous, elapsed);
    } else {
        small_whole_numbers_are_exact(current as nat);
        small_whole_numbers_are_exact(previous as nat);
        small_whole_numbers_are_exact(change);
        small_whole_numbers_are_exact(secs as nat);
        lemma_whole_seconds(secs);
        differences_mirror(x, y);
        differences_mirror(y, x);
        assert(x.value() - y.value() == change * one) by (nonlinear_arith)
            requires
                x.value() == current as nat * one,
                y.value() == previous as nat * one,
                current == previous + change,
        ;
        lemma_pow2_pos(UNIT_SCALE as nat);
        assert(change * one > 0) by (nonlinear_arith)
            requires
                change >= 1,
                one > 0,
        ;
        let (there, back) = (x.sum(y.opposite()), y.sum(x.opposite()));
        lemma_nearest_is_a_number(false, change * one, 1);
        assert(there.magnitude_spec() == Binary64::of_nat(change).magnitude_spec());
        assert(there.units() == change * one);
        assert(back.units() == change * one);
        let d = elapsed.divisor_spec();
        even_quotients_are_exact(there, d, step as nat, secs as nat);
        even_quotients_are_exact(back, d, step as nat, secs as nat);
        quotients_mirror(there, back, d);
        quotients_mirror(back, there, d);
    }
}

/// The quotient of two counts, with one decimal place.
pub open spec fn tenths(value: u64, divisor: u64) -> Seq<char> {
    Binary64::of_nat(value as nat).quotient(Binary64::of_nat(divisor as nat)).fixed_spec(1)
}

/// The quotient of two counts, with one decimal place.
pub fn tenths_text(value: u64, divisor: u64) -> (out: String)
    ensures
        out@ == tenths(value, divisor),
{
    Binary64::from_u64(value).over(Binary64::from_u64(divisor)).fixed(1)
}

/// A size in the largest binary unit that it reaches.
pub open spec fn bytes_spec(value: u64) -> Seq<char> {
    if value >= GIB {
        tenths(value, GIB) + " GiB"@
    } else if value >= MIB {
        tenths(value, MIB) + " MiB"@
    } else if value >= KIB {
        tenths(value, KIB) + " KiB"@
    } else {
        decimal(value as nat) + " B"@
    }
}

/// A size in the largest binary unit that it reaches.
pub fn bytes(value: u64) -> (out: String)
    ensures
        out@ == bytes_spec(value),
{
    if value >= GIB {
        tenths_text(value, GIB).concat(" GiB")
    } else if value >= MIB {
        tenths_text(value, MIB).concat(" MiB")
    } else if value >= KIB {
        tenths_text(value, KIB).concat(" KiB")
    } else {
        decimal_text(value).concat(" B")
    }
}

pub open spec fn optional_bytes_spec(value: Option<u64>) -> Seq<char> {
    match value {
        Some(value) => bytes_spec(value),
        None => "—"@,
    }
}

/// A size, or a dash where it is not known.
pub fn optional_bytes(value: Option<u64>) -> (out: String)
    ensures
        out@ == optional_bytes_spec(value),
{
    match value {
        Some(value) => bytes(value),
        None => "—".to_string(),
    }
}

pub open spec fn rate_spec(value: u64) -> Seq<char> {
    bytes_spec(value) + "/s"@
}

/// A size per second.
pub fn rate(value: u64) -> (out: String)
    ensures
        out@ == rate_spec(value),
{
    bytes(value).concat("/s")
}

pub open spec fn signed_rate_spec(value: i64) -> Seq<char> {
    if value > 0 {
        "+"@ + rate_spec(value as u64)
    } else if value < 0 {
        "-"@ + rate_spec((-value) as u64)
    } else {
        "0 B/s"@
    }
}

/// A size per second that may shrink.
pub fn signed_rate(value: i64) -> (out: String)
    ensures
        out@ == signed_rate_spec(value),
{
    if value > 0 {
        "+".to_string().concat(rate(value as u64).as_str())
    } else if value < 0 {
        let magnitude: u64 = (-(value as i128)) as u64;
        "-".to_string().concat(rate(magnitude).as_str())
    } else {
        "0 B/s".to_string()
    }
}

pub open spec fn compact_tokens_spec(value: u64) -> Seq<char> {
    if value >= 1_000_000 {
        tenths(value, 1_000_000) + "M"@
    } else if value >= 1_000 {
        tenths(value, 1_000) + "k"@
    } else {
        decimal(value as nat)
    }
}

/// A count of tokens in at most a few characters.
pub fn compact_tokens(value: u64) -> (out: String)
    ensures
        out@ == compact_tokens_spec(value),
{
    if value >= 1_000_000 {
        tenths_text(value, 1_000_000).concat("M")
    } else if value >= 1_000 {
        tenths_text(value, 1_000).concat("k")
    } else {
        decimal_text(value)
    }
}

pub open spec fn optional_tokens_spec(value: Option<u64>) -> Seq<char> {
    match value {
        Some(value) => compact_tokens_spec(value),
        None => "—"@,
    }
}

/// A count of tokens, or a dash where it is not known.
pub fn optional_tokens(value: Option<u64>) -> (out: String)
    ensures
        out@ == optional_tokens_spec(value),
{
    match value {
        Some(value) => compact_tokens(value),
        None => "—".to_string(),
    }
}

pub open spec fn tokens_per_second_spec(value: Option<Binary64>) -> Seq<char> {
    match value {
        Some(value) => value.fixed_spec(1) + " tok/s"@,
        None => "—"@,
    }
}

/// A token rate, or a dash where it is not known.
pub fn tokens_per_second(value: Option<Binary64>) -> (out: String)
    ensures
        out@ == tokens_per_second_spec(value),
{
    match value {
        Some(value) => value.fixed(1).concat(" tok/s"),
        None => "—".to_string(),
    }
}

pub open spec fn percent_spec(value: Option<Binary64>) -> Seq<char> {
    match value {
        Some(value) => value.fixed_spec(1) + "%"@,
        None => "—"@,
    }
}

/// A percentage with one decimal place, or a dash where it is not known.
pub fn percent(value: Option<Binary64>) -> (out: String)
    ensures
        out@ == percent_spec(value),
{
    match value {
        Some(value) => value.fixed(1).concat("%"),
        None => "—".to_string(),
    }
}

pub open spec fn percent_u8_spec(value: Option<u8>) -> Seq<char> {
    match value {
        Some(value) => decimal(value as nat) + "%"@,
        None => "—"@,
    }
}

/// A whole percentage, or a dash where it is not known.
pub fn percent_u8(value: Option<u8>) -> (out: String)
    ensures
        out@ == percent_u8_spec(value),
{
    match value {
        Some(value) => decimal_text(value as u64).concat("%"),
        None => "—".to_string(),
    }
}

pub open spec fn count_spec(value: Option<u64>) -> Seq<char> {
    match value {
        Some(value) => decimal(value as nat),
        None => "—"@,
    }
}

/// A count, or a dash where it is not known.
pub fn count(value: Option<u64>) -> (out: String)
    ensures
        out@ == count_spec(value),
{
    match value {
        Some(value) => decimal_text(value),
        None => "—".to_string(),
    }
}

/// A label cut to a width, with an ellipsis where something was cut off.
pub open spec fn compact_label_spec(value: Seq<char>, max_chars: nat) -> Seq<char> {
    if value.len() <= max_chars {
        value
    } else if max_chars == 0 {
        seq!['…']
    } else {
        value.take(max_chars - 1).push('…')
    }
}

/// A label cut to a width, with an ellipsis where something was cut off.
pub fn compact_label(value: &str, max_chars: usize) -> (out: String)
    ensures
        out@ == compact_label_spec(value@, max_chars as nat),
{
    if value.unicode_len() <= max_chars {
        return value.to_string();
    }
    let kept: usize = if max_chars == 0 {
        0
    } else {
        max_chars - 1
    };
    let mut out = shortened(value, kept);
    out.push('…');
    assert(out@ =~= compact_label_spec(value@, max_chars as nat));
    out
}

/// A label is no wider than it may be, beyond a lone ellipsis; one that fits is
/// left alone, and one that was cut starts as it did and says so.
pub proof fn labels_fit(value: Seq<char>, max_chars: nat)
    ensures
        compact_label_spec(value, max_chars).len() <= max_chars || max_chars == 0,
        compact_label_spec(value, 0).len() <= 1,
        value.len() <= max_chars ==> compact_label_spec(value, max_chars) == value,
        value.len() > max_chars ==> {
            let label = compact_label_spec(value, max_chars);
            label.last() == '…' && label.drop_last().is_prefix_of(value)
        },
{
    if value.len() > max_chars && max_chars > 0 {
        assert(compact_label_spec(value, max_chars).drop_last() =~= value.take(max_chars - 1));
    }
}

/// Where the first ASCII letter stands; the length where there is none.
pub open spec fn first_letter(s: Seq<char>) -> nat
    decreases s.len(),
{
    if s.len() == 0 || is_letter_spec(s[0]) {
        0
    } else {
        1 + first_letter(s.drop_first())
    }
}

/// How many bytes a unit stands for.
pub open spec fn unit_factor(unit: Seq<char>) -> u64 {
    let name = lower(unit);
    if name == "k"@ || name == "kb"@ {
        KIB
    } else if name == "m"@ || name == "mb"@ {
        MIB
    } else if name == "g"@ || name == "gb"@ {
        GIB
    } else if name == "t"@ || name == "tb"@ {
        TIB
    } else {
        1
    }
}

/// A size written as a number and a unit, in whole bytes.
pub open spec fn parse_unit_spec(value: Seq<char>) -> nat {
    let t = stripped(value, ',', ',');
    let i = first_letter(t) as int;
    let number = match real_number(t.take(i)) {
        Some(number) => number,
        None => Binary64 { bits: 0 },
    };
    number.product(Binary64::of_nat(unit_factor(t.skip(i)) as nat)).whole_part()
}

/// A size written as a number and a unit, in whole bytes; zero where the
/// number cannot be read.
pub fn parse_unit(value: &str) -> (result: u64)
    ensures
        result == parse_unit_spec(value@),
{
    let trimmed = strip_marks(value, ',', ',');
    let list = chars(trimmed.as_str());
    let ghost t = trimmed@;
    let mut i: usize = 0;
    assert(t.skip(0) =~= t);
    while i < list.len() && !is_letter(list[i])
        invariant
            list@ == t,
            i <= list@.len(),
            first_letter(t) == i + first_letter(t.skip(i as int)),
        decreases list@.len() - i,
    {
        assert(t.skip(i as int).drop_first() =~= t.skip(i + 1));
        i = i + 1;
    }
    let head = text(&list, 0, i);
    let unit = to_lower(text(&list, i, list.len()).as_str());
    proof {
        assert(head@ =~= t.take(i as int));
        assert(list@.subrange(i as int, list@.len() as int) =~= t.skip(i as int));
    }
    let number = match parse_real(head.as_str()) {
        Some(number) => number,
        None => Binary64 { bits: 0 },
    };
    let name = unit.as_str();
    let factor: u64 = if same(name, "k") || same(name, "kb") {
        KIB
    } else if same(name, "m") || same(name, "mb") {
        MIB
    } else if same(name, "g") || same(name, "gb") {
        GIB
    } else if same(name, "t") || same(name, "tb") {
        TIB
    } else {
        1
    };
    number.times(Binary64::from_u64(factor)).truncated()
}

/// What a character becomes in a field of a log line.
pub open spec fn log_char(c: char) -> char {
    if is_letter_spec(c) || is_digit_spec(c) || c == '-' || c == '_' || c == '.' || c == '/' || c
        == ':' || c == '%' || c == '@' {
        c
    } else if is_space_spec(c) {
        '_'
    } else {
        '?'
    }
}

/// A text as one field of a log line.
pub open spec fn log_field_spec(value: Seq<char>) -> Seq<char> {
    first_chars(value, 160).map_values(|c: char| log_char(c))
}

/// A text as one field of a log line: at most 160 characters, none of which
/// ends the field or the line.
pub fn log_field(value: &str) -> (out: String)
    ensures
        out@ == log_field_spec(value@),
{
    let list = chars(shortened(value, 160).as_str());
    let mut out = String::new();
    for i in 0..list.len()
        invariant
            list@ == first_chars(value@, 160),
            out@ == log_field_spec(value@).take(i as int),
    {
        let c = list[i];
        let kept = if is_letter(c) || is_digit(c) || c == '-' || c == '_' || c == '.' || c == '/'
            || c == ':' || c == '%' || c == '@' {
            c
        } else if is_space(c) {
            '_'
        } else {
            '?'
        };
        assert(log_field_spec(value@).take(i + 1) =~= log_field_spec(value@).take(i as int).push(
            kept,
        ));
        out.push(kept);
    }
    assert(log_field_spec(value@).take(list@.len() as int) =~= log_field_spec(value@));
    out
}

/// A field of a log line never holds white space and never grows beyond 160
/// characters.
pub proof fn log_field_is_one_bounded_word(value: Seq<char>)
    ensures
        log_field_spec(value).len() <= 160,
        forall|i: int|
            0 <= i < log_field_spec(value).len() ==> !is_space_spec(
                #[trigger] log_field_spec(value)[i],
            ),
{
}

pub open spec fn log_optional_u64_spec(value: Option<u64>) -> Seq<char> {
    match value {
        Some(value) => decimal(value as nat),
        None => "na"@,
    }
}

/// A count for a log line.
pub fn log_optional_u64(value: Option<u64>) -> (out: String)
    ensures
        out@ == log_optional_u64_spec(value),
{
    match value {
        Some(value) => decimal_text(value),
        None => "na".to_string(),
    }
}

/// A small count for a log line.
pub fn log_optional_u8(value: Option<u8>) -> (out: String)
    ensures
        out@ == (match value {
            Some(value) => decimal(value as nat),
            None => "na"@,
        }),
{
    match value {
        Some(value) => decimal_text(value as u64),
        None => "na".to_string(),
    }
}

/// A measure for a log line, to three decimal places.
pub fn log_optional_f64(value: Option<Binary64>) -> (out: String)
    ensures
        out@ == (match value {
            Some(value) => if value.finite_spec() {
                value.fixed_spec(3)
            } else {
                "na"@
            },
            None => "na"@,
        }),
{
    match value {
        Some(value) => {
            if value.is_finite() {
                value.fixed(3)
            } else {
                "na".to_string()
            }
        },
        None => "na".to_string(),
    }
}

/// Where nothing has passed the rate is nothing, however large a unit and however
/// short the time.
pub proof fn no_events_no_rate(unit_bytes: u64, elapsed: Elapsed)
    ensures
        rate_bytes_spec(0, unit_bytes, elapsed) == 0,
{
    let d = elapsed.divisor_spec();
    small_whole_numbers_are_exact(0);
    lemma_pow2_pos(UNIT_SCALE as nat);
    lemma_units_positive(Binary64::of_nat(0));
    whole_numbers_are_finite(unit_bytes as nat);
    nothing_stays_nothing(Binary64::of_nat(0), Binary64::of_nat(unit_bytes as nat));
    let units = Binary64::of_nat(0).product(Binary64::of_nat(unit_bytes as nat));
    quotients_mirror(units, units, d);
    if units.quotient(d).zero_spec() {
        lemma_zero_rounds_to_zero(units.quotient(d));
    }
}

/// As many units in each of a whole number of seconds make exactly that many
/// units per second.
pub proof fn even_rates_are_exact(per_second: u64, unit_bytes: u64, secs: u64)
    requires
        0 < secs,
        0 < unit_bytes,
        per_second * secs * unit_bytes < SIGNIFICAND_BOUND,
    ensures
        per_second * secs <= u64::MAX,
        rate_bytes_spec(
            (per_second * secs) as u64,
            unit_bytes,
            Elapsed { secs, nanos: 0 },
        ) == per_second * unit_bytes,
{
    let elapsed = Elapsed { secs, nanos: 0 };
    let count = (per_second * secs) as nat;
    assert(count <= count * unit_bytes) by (nonlinear_arith)
        requires
            unit_bytes >= 1,
            count >= 0,
    ;
    if per_second == 0 {
        no_events_no_rate(unit_bytes, elapsed);
    } else {
        assert(count >= 1 && count >= secs) by (nonlinear_arith)
            requires
                count == per_second * secs,
                per_second >= 1,
                secs >= 1,
        ;
        assert(unit_bytes <= count * unit_bytes) by (nonlinear_arith)
            requires
                count >= 1,
        ;
        let rate = (per_second * unit_bytes) as nat;
        assert(rate * secs == count * unit_bytes) by (nonlinear_arith)
            requires
                rate == per_second * unit_bytes,
                count == per_second * secs,
        ;
        assert(rate <= rate * secs) by (nonlinear_arith)
            requires
                secs >= 1,
                rate >= 0,
        ;
        small_whole_numbers_are_exact(count);
        small_whole_numbers_are_exact(unit_bytes as nat);
        small_whole_numbers_are_exact(secs as nat);
        let (x, y) = (Binary64::of_nat(count), Binary64::of_nat(unit_bytes as nat));
        small_products_are_exact(x, y, count, unit_bytes as nat);
        lemma_whole_seconds(secs);
        even_quotients_are_exact(x.product(y), elapsed.divisor_spec(), rate, secs as nat);
    }
}

/// A count that is divided by a whole number of seconds comes out even where it
/// is that many in each.
pub proof fn whole_seconds_divide(per_second: u64, secs: u64)
    requires
        0 < secs,
        0 < per_second,
        per_second * secs < SIGNIFICAND_BOUND,
    ensures
        ({
            let count = Binary64::of_nat((per_second * secs) as nat);
            let rate = count.quotient((Elapsed { secs, nanos: 0 }).divisor_spec());
            rate.units() == per_second * pow2(UNIT_SCALE as nat)
        }),
{
    let count = (per_second * secs) as nat;
    small_whole_numbers_are_exact(count);
    assert(secs <= count && per_second <= count) by (nonlinear_arith)
        requires
            count == per_second * secs,
            per_second >= 1,
            secs >= 1,
    ;
    small_whole_numbers_are_exact(secs as nat);
    lemma_whole_seconds(secs);
    even_quotients_are_exact(
        Binary64::of_nat(count),
        (Elapsed { secs, nanos: 0 }).divisor_spec(),
        per_second as nat,
        secs as nat,
    );
}

proof fn lemma_whole_tenths(whole: nat, divisor: nat)
    requires
        0 < divisor,
        whole * divisor < SIGNIFICAND_BOUND,
        0 < whole,
    ensures
        whole * divisor <= u64::MAX,
        divisor <= u64::MAX,
        tenths((whole * divisor) as u64, divisor as u64) == decimal(whole) + ".0"@,
{
    let one = pow2(UNIT_SCALE as nat);
    let value = whole * divisor;
    lemma_pow2_pos(UNIT_SCALE as nat);
    assert(divisor <= value && whole <= value) by (nonlinear_arith)
        requires
            value == whole * divisor,
            whole >= 1,
            divisor >= 1,
    ;
    small_whole_numbers_are_exact(value);
    small_whole_numbers_are_exact(divisor);
    let (x, d) = (Binary64::of_nat(value), Binary64::of_nat(divisor));
    even_quotients_are_exact(x, d, whole, divisor);
    signs_are_kept(x, d);
    let q = x.quotient(d);
    let n = q.units() * ten_power(1);
    assert(ten_power(1) == 10) by {
        assert(ten_power(0) == 1);
    }
    assert(n == (whole * 10) * one) by (nonlinear_arith)
        requires
            n == q.units() * 10,
            q.units() == whole * one,
    ;
    lemma_fundamental_div_mod_converse(n as int, one as int, (whole * 10) as int, 0);
    assert(q.in_places(1) == whole * 10);
    assert((whole * 10) / 10 == whole && (whole * 10) % 10 == 0);
    reveal_strlit(".0");
    assert(padded(0, 1) =~= seq!['0']) by {
        assert(padded(0, 0) =~= Seq::<char>::empty());
        assert(digit_char(0) == '0');
    }
    assert(q.fixed_spec(1) =~= decimal(whole) + ".0"@);
}

/// A size that is a whole number of its unit is written as that number: bytes as
/// they are, and as many KiB, MiB or GiB, in the largest unit that fits.
pub proof fn whole_sizes_are_written_whole(n: nat)
    ensures
        n < 1024 ==> bytes_spec(n as u64) == decimal(n) + " B"@,
        0 < n < 1024 ==> bytes_spec((n * 1024) as u64) == decimal(n) + ".0"@ + " KiB"@,
        0 < n < 1024 ==> bytes_spec((n * 1024 * 1024) as u64) == decimal(n) + ".0"@ + " MiB"@,
        0 < n < 0x40_0000 ==> bytes_spec((n * 1024 * 1024 * 1024) as u64) == decimal(n) + ".0"@
            + " GiB"@,
        n < 1024 ==> rate_spec(n as u64) == decimal(n) + " B"@ + "/s"@,
{
    if 0 < n < 1024 {
        lemma_whole_tenths(n, 1024);
        lemma_whole_tenths(n, 1024 * 1024);
    }
    if 0 < n < 0x40_0000 {
        lemma_whole_tenths(n, 1024 * 1024 * 1024);
    }
}

/// A count of tokens is written as it is below a thousand, and above in thousands
/// or millions.
pub proof fn whole_counts_are_written_whole(n: nat)
    ensures
        n < 1000 ==> compact_tokens_spec(n as u64) == decimal(n),
        0 < n < 1000 ==> compact_tokens_spec((n * 1000) as u64) == decimal(n) + ".0"@ + "k"@,
        0 < n < 0x1_0000_0000 ==> compact_tokens_spec((n * 1_000_000) as u64) == decimal(n) + ".0"@
            + "M"@,
{
    if 0 < n < 1000 {
        lemma_whole_tenths(n, 1000);
    }
    if 0 < n < 0x1_0000_0000 {
        lemma_whole_tenths(n, 1_000_000);
    }
}

/// A change is written with its sign: what grows with a plus, what shrinks with a
/// minus, each with its size, and what stays as nothing.
pub proof fn changes_are_written_with_their_sign(value: i64)
    ensures
        value > 0 ==> signed_rate_spec(value) == "+"@ + rate_spec(value as u64),
        value < 0 ==> signed_rate_spec(value) == "-"@ + rate_spec((-value) as u64),
        signed_rate_spec(0) == "0 B/s"@,
{
}

/// What is not known is written as a dash, and never as a number.
pub proof fn unknown_figures_are_dashes()
    ensures
        optional_bytes_spec(None) == "—"@,
        optional_tokens_spec(None) == "—"@,
        tokens_per_second_spec(None) == "—"@,
        percent_spec(None) == "—"@,
        percent_u8_spec(None) == "—"@,
        count_spec(None) == "—"@,
{
}


proof fn lemma_first_letter(digits: Seq<char>, unit: Seq<char>)
    requires
        forall|i: int| 0 <= i < digits.len() ==> is_digit_spec(#[trigger] digits[i]),
        unit.len() == 0 || is_letter_spec(unit[0]),
    ensures
        first_letter(digits + unit) == digits.len(),
    decreases digits.len(),
{
    let s = digits + unit;
    if digits.len() == 0 {
        assert(s =~= unit);
    } else {
        assert(is_digit_spec(digits[0]));
        assert(s[0] == digits[0]);
        let fewer = digits.drop_first();
        assert forall|i: int| 0 <= i < fewer.len() implies is_digit_spec(#[trigger] fewer[i]) by {
            assert(fewer[i] == digits[i + 1]);
        }
        lemma_first_letter(fewer, unit);
        assert(s.drop_first() =~= fewer + unit);
    }
}

/// Whether a unit of sizes stands for so many bytes.
pub open spec fn stands_for(unit: Seq<char>, bytes: nat) -> bool {
    ||| unit == ""@ && bytes == 1
    ||| (unit == "K"@ || unit == "KB"@) && bytes == 1024
    ||| (unit == "M"@ || unit == "MB"@) && bytes == 1024 * 1024
    ||| (unit == "G"@ || unit == "GB"@) && bytes == 1024 * 1024 * 1024
    ||| (unit == "T"@ || unit == "TB"@) && bytes == 1024 * 1024 * 1024 * 1024
}

proof fn lemma_units(unit: Seq<char>, bytes: nat)
    requires
        stands_for(unit, bytes),
    ensures
        unit_factor(unit) == bytes,
        unit.len() == 0 || is_letter_spec(unit[0]) && is_letter_spec(unit.last()),
{
    reveal_strlit("");
    reveal_strlit("K");
    reveal_strlit("KB");
    reveal_strlit("M");
    reveal_strlit("MB");
    reveal_strlit("G");
    reveal_strlit("GB");
    reveal_strlit("T");
    reveal_strlit("TB");
    reveal_strlit("k");
    reveal_strlit("kb");
    reveal_strlit("m");
    reveal_strlit("mb");
    reveal_strlit("g");
    reveal_strlit("gb");
    reveal_strlit("t");
    reveal_strlit("tb");
    let name = lower(unit);
    assert("k"@[0] == 'k' && "kb"@[0] == 'k');
    assert("m"@[0] == 'm' && "mb"@[0] == 'm');
    assert("g"@[0] == 'g' && "gb"@[0] == 'g');
    assert("t"@[0] == 't' && "tb"@[0] == 't');
    if bytes == 1 {
        assert(name.len() == 0);
    } else if unit.len() == 1 {
        assert(name =~= seq![crate::text::lower_char(unit[0])]);
        assert(name =~= "k"@ || name =~= "m"@ || name =~= "g"@ || name =~= "t"@);
    } else {
        assert(name =~= seq![crate::text::lower_char(unit[0]), 'b']);
        assert(name =~= "kb"@ || name =~= "mb"@ || name =~= "gb"@ || name =~= "tb"@);
    }
}

/// A size reads back as it is written: the number times what its unit stands for,
/// as long as the bytes can be told apart.
pub proof fn written_sizes_read_back(n: nat, unit: Seq<char>, bytes: nat)
    requires
        stands_for(unit, bytes),
        n * bytes < SIGNIFICAND_BOUND,
        n < SIGNIFICAND_BOUND,
    ensures
        parse_unit_spec(decimal(n) + unit) == n * bytes,
{
    let s = decimal(n) + unit;
    let digits = decimal(n);
    lemma_decimal_digits(n);
    lemma_units(unit, bytes);
    lemma_first_letter(digits, unit);
    assert(is_digit_spec(digits[0]) && is_digit_spec(digits.last()));
    assert(s[0] == digits[0]);
    assert(s.last() == if unit.len() == 0 {
        digits.last()
    } else {
        unit.last()
    });
    assert(stripped(s, ',', ',') =~= s);
    assert(s.take(digits.len() as int) =~= digits);
    assert(s.skip(digits.len() as int) =~= unit);
    written_whole_numbers_read_back(n);
    small_whole_numbers_are_exact(n);
    small_whole_numbers_are_exact(bytes);
    let x = Binary64::of_nat(n);
    let y = Binary64::of_nat(bytes);
    small_products_are_exact(x, y, n, bytes);
    let one = pow2(UNIT_SCALE as nat);
    lemma_pow2_pos(UNIT_SCALE as nat);
    assert(x.product(y).units() / one == n * bytes) by {
        lemma_fundamental_div_mod_converse(
            x.product(y).units() as int,
            one as int,
            (n * bytes) as int,
            0,
        );
    }
}
} // verus!
