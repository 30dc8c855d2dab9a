use mlxtop::binary64::Binary64;
use mlxtop::chart::{swap_chart_percent, SWAP_CHART_LOG_ANCHOR, SWAP_CHART_SCALE};
use mlxtop::natural::Natural;
use mlxtop::numeral::parse_real;
use mlxtop::text::{
    contains, decimal_text, lines, parse_u64, same, shortened, split_once, starts_with, to_lower,
    to_upper, trim, words,
};
use mlxtop::units::{
    bytes, compact_label, compact_tokens, log_optional_f64, parse_unit, percent, rate, rate_bytes,
    signed_rate, signed_rate_bytes, tokens_per_second, Elapsed,
};

fn number(value: f64) -> Binary64 {
    Binary64 { bits: value.to_bits() }
}

fn values() -> Vec<f64> {
    vec![
        0.0,
        -0.0,
        1.0,
        -1.0,
        0.1,
        0.2,
        0.3,
        -2.5,
        29.4,
        132.9,
        1.0 / 3.0,
        100.0,
        99.95,
        0.05,
        0.25,
        1e-7,
        123456789.125,
        9007199254740993.0,
        1.7976931348623157e308,
        -1e300,
        5e-324,
        2.2250738585072014e-308,
        1e22,
        f64::INFINITY,
        f64::NEG_INFINITY,
        f64::NAN,
    ]
}

fn same_number(ours: Binary64, theirs: f64) -> bool {
    if theirs.is_nan() {
        ours.is_nan()
    } else {
        ours.bits == theirs.to_bits()
    }
}

#[test]
fn arithmetic_rounds_to_the_nearest_number() {
    for a in values() {
        for b in values() {
            let (x, y) = (number(a), number(b));
            assert!(same_number(x.plus(y), a + b), "{a} + {b}");
            assert!(same_number(x.minus(y), a - b), "{a} - {b}");
            assert!(same_number(x.times(y), a * b), "{a} * {b}");
            assert!(same_number(x.over(y), a / b), "{a} / {b}");
            assert_eq!(x.lt(y), a < b, "{a} < {b}");
            assert_eq!(x.le(y), a <= b, "{a} <= {b}");
        }
    }
}

#[test]
fn whole_numbers_become_the_nearest_number() {
    for value in [0, 1, 7, 1 << 53, (1 << 53) + 1, (1 << 53) + 3, u64::MAX, u64::MAX - 1024] {
        assert_eq!(Binary64::from_u64(value).bits, (value as f64).to_bits(), "{value}");
    }
}

#[test]
fn numbers_are_cut_and_rounded_like_the_machine_does() {
    for value in values() {
        assert_eq!(number(value).truncated(), value as u64, "{value}");
        if !value.is_nan() {
            assert_eq!(number(value).rounded(), value.abs().round() as u64, "{value}");
        }
    }
    for value in [0.5, 1.5, 2.5, 0.49999999999999994, 4503599627370495.5, 1.8446744073709552e19] {
        assert_eq!(number(value).rounded(), value.round() as u64, "{value}");
    }
}

#[test]
fn numbers_are_written_with_fixed_places() {
    for value in values() {
        assert_eq!(number(value).fixed(0), format!("{value:.0}"), "{value}");
        assert_eq!(number(value).fixed(1), format!("{value:.1}"), "{value}");
        assert_eq!(number(value).fixed(3), format!("{value:.3}"), "{value}");
    }
    assert_eq!(number(0.25).fixed(1), "0.2");
    assert_eq!(number(0.35).fixed(1), "0.3");
    assert_eq!(number(2.5).fixed(0), "2");
}

#[test]
fn numerals_are_read_as_the_nearest_number() {
    for text in [
        "0", "-0", "1", "+1", "12.5", ".5", "5.", "0.1", "1e3", "1E-3", "-2.5e+2", "449.88",
        "179769313486231580793e289", "1e400", "1e-400", "0e99999999999", "9007199254740993",
        "0.000000000000000000000000000001", "2.4703282292062327208e-324", "4.9406564584124654e-324",
        "inf", "-Infinity", "NaN", "1e99999999999999999999999999", "1e-99999999999999999999999999",
    ] {
        let ours = parse_real(text).expect(text);
        let theirs: f64 = text.parse().expect(text);
        assert!(same_number(ours, theirs), "{text}");
    }
    for text in ["", "+", "-", ".", "e5", "1e", "1e+", "1.2.3", "12a", " 1", "1 ", "infin", "--1"] {
        assert!(parse_real(text).is_none(), "{text}");
        assert!(text.parse::<f64>().is_err(), "{text}");
    }
}

#[test]
fn large_naturals_are_computed_exactly() {
    let mut power = Natural::new(1);
    for _ in 0..100 {
        power = power.scaled(10, 0);
    }
    assert_eq!(power.decimal_text(), format!("1{}", "0".repeat(100)));
    let one = Natural::new(1);
    let less = power.less(&one).expect("smaller");
    assert_eq!(less.decimal_text(), "9".repeat(100));
    assert!(less.below(&power));
    assert!(one.less(&power).is_none());
    assert_eq!(less.plus(&one).decimal_text(), power.decimal_text());
    let (quotient, rest) = less.divided(7);
    assert_eq!(quotient.scaled(7, rest).decimal_text(), less.decimal_text());
    assert_eq!(
        Natural::new(u64::MAX).times(u64::MAX).decimal_text(),
        (u64::MAX as u128 * u64::MAX as u128).to_string()
    );
    assert_eq!(Natural::new(5).shifted(70).decimal_text(), (5u128 << 70).to_string());
}

fn sizes() -> Vec<u64> {
    let mut list = vec![
        0,
        1,
        999,
        1000,
        1023,
        1024,
        1050,
        1150,
        1250,
        1536,
        57 * 1024 + 640,
        999_949,
        999_950,
        1_000_000,
        1_050_000,
        1_048_575,
        1_048_576,
        u64::MAX,
        u64::MAX / 3,
        (1 << 53) + 1,
    ];
    let mut value: u64 = 12345;
    for _ in 0..200 {
        value = value.wrapping_mul(6364136223846793005).wrapping_add(1442695040888963407);
        list.push(value >> (value % 60));
    }
    list
}

#[test]
fn sizes_and_counts_read_like_their_formulas() {
    for value in sizes() {
        let expected = if value >= 1 << 30 {
            format!("{:.1} GiB", value as f64 / 1024_f64.powi(3))
        } else if value >= 1 << 20 {
            format!("{:.1} MiB", value as f64 / 1024_f64.powi(2))
        } else if value >= 1 << 10 {
            format!("{:.1} KiB", value as f64 / 1024.0)
        } else {
            format!("{value} B")
        };
        assert_eq!(bytes(value), expected);
        assert_eq!(rate(value), format!("{expected}/s"));
        let expected = if value >= 1_000_000 {
            format!("{:.1}M", value as f64 / 1_000_000.0)
        } else if value >= 1_000 {
            format!("{:.1}k", value as f64 / 1_000.0)
        } else {
            value.to_string()
        };
        assert_eq!(compact_tokens(value), expected);
        assert_eq!(decimal_text(value), value.to_string());
        assert_eq!(parse_u64(&value.to_string()), Some(value));
    }
    assert_eq!(bytes(0), "0 B");
    assert_eq!(bytes(1536), "1.5 KiB");
    assert_eq!(signed_rate(0), "0 B/s");
    assert_eq!(signed_rate(-1024 * 1024), "-1.0 MiB/s");
    assert_eq!(signed_rate(2048), "+2.0 KiB/s");
    assert_eq!(signed_rate(i64::MIN), "-8589934592.0 GiB/s");
    assert_eq!(compact_tokens(32768), "32.8k");
    assert_eq!(tokens_per_second(Some(number(29.44))), "29.4 tok/s");
    assert_eq!(tokens_per_second(None), "—");
    assert_eq!(percent(Some(number(54.71))), "54.7%");
    assert_eq!(log_optional_f64(Some(number(29.4))), "29.400");
    assert_eq!(log_optional_f64(Some(number(f64::INFINITY))), "na");
}

#[test]
fn rates_follow_their_formula() {
    for (delta, unit, secs, nanos) in [
        (100, 4096, 1, 500_000_000),
        (0, 4096, 1, 0),
        (1, 1, 0, 0),
        (7, 16384, 0, 999_999_999),
        (u64::MAX, u64::MAX, 0, 1),
        (12345678901, 16384, 3, 141_592_653),
    ] {
        let elapsed = Elapsed { secs, nanos };
        let seconds = std::time::Duration::new(secs, nanos).as_secs_f64().max(0.001);
        let expected = (delta as f64 * unit as f64 / seconds).round() as u64;
        assert_eq!(rate_bytes(delta, unit, elapsed), expected);
        let expected = ((delta as f64 - unit as f64) / seconds).round() as i64;
        assert_eq!(signed_rate_bytes(delta, unit, elapsed), expected);
    }
}

#[test]
fn growth_and_loss_are_mirrored() {
    for (a, b, secs, nanos) in [
        (150, 100, 2, 0),
        (1 << 62, 0, 1, 0),
        (7, 3, 0, 1),
        (u64::MAX, 1, 3, 5),
        (9, 9, 1, 0),
    ] {
        let elapsed = Elapsed { secs, nanos };
        let there = signed_rate_bytes(a, b, elapsed);
        assert_eq!(there, -signed_rate_bytes(b, a, elapsed));
        assert_eq!(there.signum(), if a == b { 0 } else { 1 });
    }
    let instant = Elapsed { secs: 0, nanos: 0 };
    assert_eq!(signed_rate_bytes(u64::MAX, 0, instant), i64::MAX);
    assert_eq!(signed_rate_bytes(0, u64::MAX, instant), i64::MIN);
    let two = Elapsed { secs: 2, nanos: 0 };
    assert_eq!(signed_rate_bytes(150, 100, two), 25);
    assert_eq!(signed_rate_bytes(100, 150, two), -25);
}

#[test]
fn paging_heights_follow_the_logarithmic_curve() {
    let curve = |value: u64| {
        let anchor = SWAP_CHART_LOG_ANCHOR as f64;
        let numerator = (1.0 + value as f64 / anchor).ln();
        let denominator = (1.0 + SWAP_CHART_SCALE as f64 / anchor).ln();
        (100.0 * numerator / denominator).round().min(100.0) as u64
    };
    let mut value: u64 = 0;
    let mut before: u64 = 0;
    while value < SWAP_CHART_SCALE + 500_000 {
        let height = swap_chart_percent(value);
        assert_eq!(height, curve(value), "{value}");
        assert!(height >= before);
        before = height;
        value += 100_003;
    }
    assert_eq!(swap_chart_percent(59_008), 12);
    assert_eq!(swap_chart_percent(u64::MAX), 100);
}

#[test]
fn units_are_read_with_their_multipliers() {
    assert_eq!(parse_unit("8.00G"), 8 << 30);
    assert_eq!(parse_unit("1.50G,"), 1536 << 20);
    assert_eq!(parse_unit("512kb"), 512 << 10);
    assert_eq!(parse_unit("2M"), 2 << 20);
    assert_eq!(parse_unit("1t"), 1 << 40);
    assert_eq!(parse_unit("17"), 17);
    assert_eq!(parse_unit("3.9x"), 3);
    assert_eq!(parse_unit("nothing"), 0);
    assert_eq!(parse_unit("-5G"), 0);
}

#[test]
fn texts_are_split_like_the_standard_library_splits_them() {
    for text in [
        "",
        " ",
        "a",
        " a  b\tc ",
        "one\ntwo\r\nthree",
        "tail\n",
        "\n\n",
        "a\rb\n\r\n",
        "last\r",
        "\u{a0}x\u{2003}y\u{3000}",
        "naïve · wörds",
    ] {
        assert_eq!(words(text), text.split_whitespace().collect::<Vec<_>>(), "{text:?}");
        assert_eq!(lines(text), text.lines().collect::<Vec<_>>(), "{text:?}");
        assert_eq!(trim(text), text.trim(), "{text:?}");
        assert_eq!(to_lower(text), text.to_ascii_lowercase());
        assert_eq!(to_upper(text), text.to_ascii_uppercase());
        assert!(same(text, text));
    }
    assert_eq!(
        split_once("a=b=c", '='),
        Some(("a".to_owned(), "b=c".to_owned()))
    );
    assert_eq!(split_once("abc", '='), None);
    assert!(starts_with("limited 80%", "limited"));
    assert!(!starts_with("lim", "limited"));
    assert!(contains("a needle here", "needle"));
    assert!(contains("anything", ""));
    assert!(!contains("aaa", "aaaa"));
    assert_eq!(shortened("wörter", 3), "wör");
    assert_eq!(parse_u64("+18446744073709551615"), Some(u64::MAX));
    assert_eq!(parse_u64("18446744073709551616"), None);
    assert_eq!(parse_u64("+"), None);
    assert_eq!(parse_u64("-1"), None);
}

#[test]
fn labels_are_cut_with_an_ellipsis() {
    assert_eq!(compact_label("model", 5), "model");
    assert_eq!(compact_label("models", 5), "mode…");
    assert_eq!(compact_label("models", 1), "…");
    assert_eq!(compact_label("models", 0), "…");
}
