//! Charts of captured samples: one column for each, the newest at the right.

use crate::natural::Natural;
use crate::order::newest;
use crate::text::{decimal, decimal_text};
use crate::thresholds::{load_tone, load_tone_spec, Thresholds, Tone, SWAP_CRITICAL_RATE};
use crate::units::{product, product_spec, rate, rate_spec, tenths, tenths_text};
use std::collections::VecDeque;
use vstd::arithmetic::power::*;
use vstd::prelude::*;

verus! {

/// The top of the generation chart, in tenths of a token per second.
pub const GENERATION_CHART_SCALE_MAX: u64 = 1000;

/// The top of the prefill chart, in tenths of a token per second.
pub const PREFILL_CHART_SCALE_MAX: u64 = 2000;

/// Paging is shown on a logarithmic curve that tops out at the critical rate.
pub const SWAP_CHART_SCALE: u64 = SWAP_CRITICAL_RATE;

/// Where the logarithmic curve takes off; churn far below it stays at zero.
pub const SWAP_CHART_LOG_ANCHOR: u64 = 64 * 1024;

/// What a chart shows.
#[derive(Clone, Copy, Debug, PartialEq, Eq, Structural)]
pub enum ChartMetric {
    Generation,
    Prefill,
    Cache,
    Memory,
    Swap,
    Gpu,
}

impl ChartMetric {
    pub open spec fn is_rate_spec(self) -> bool {
        self == ChartMetric::Generation || self == ChartMetric::Prefill
    }

    /// Whether the chart shows a token rate.
    pub fn is_rate(self) -> (result: bool)
        ensures
            result == self.is_rate_spec(),
    {
        self == ChartMetric::Generation || self == ChartMetric::Prefill
    }

    pub open spec fn chart_tone_spec(self) -> Tone {
        match self {
            ChartMetric::Swap => Tone::Yellow,
            ChartMetric::Gpu => Tone::Blue,
            _ => Tone::Cyan,
        }
    }

    /// The tone of the chart's title.
    pub fn chart_tone(self) -> (result: Tone)
        ensures
            result == self.chart_tone_spec(),
    {
        match self {
            ChartMetric::Swap => Tone::Yellow,
            ChartMetric::Gpu => Tone::Blue,
            _ => Tone::Cyan,
        }
    }

    pub open spec fn tone_spec(self, value: u64, thresholds: Thresholds) -> Tone {
        match self {
            ChartMetric::Memory => load_tone_spec(
                value,
                thresholds.memory_warn_load,
                thresholds.memory_critical_load,
            ),
            ChartMetric::Gpu => load_tone_spec(
                value,
                thresholds.gpu_warn_load,
                thresholds.gpu_critical_load,
            ),
            ChartMetric::Swap => load_tone_spec(
                value,
                thresholds.swap_warn_rate,
                thresholds.swap_critical_rate,
            ),
            _ => Tone::Cyan,
        }
    }

    /// The tone of a value.
    pub fn tone(self, value: u64, thresholds: Thresholds) -> (result: Tone)
        ensures
            result == self.tone_spec(value, thresholds),
    {
        match self {
            ChartMetric::Memory => load_tone(
                value,
                thresholds.memory_warn_load,
                thresholds.memory_critical_load,
            ),
            ChartMetric::Gpu => load_tone(
                value,
                thresholds.gpu_warn_load,
                thresholds.gpu_critical_load,
            ),
            ChartMetric::Swap => load_tone(
                value,
                thresholds.swap_warn_rate,
                thresholds.swap_critical_rate,
            ),
            _ => Tone::Cyan,
        }
    }
}

/// A captured value and the tone that it had when it was captured.
#[derive(Clone, Copy, Debug, PartialEq, Eq, Structural)]
pub struct ChartPoint {
    pub value: Option<u64>,
    pub tone: Tone,
}

impl ChartPoint {
    /// A captured value with its tone.
    pub fn new(value: Option<u64>, tone: Tone) -> (result: ChartPoint)
        ensures
            result == (ChartPoint { value, tone }),
    {
        ChartPoint { value, tone }
    }
}

/// One character of a chart.
#[derive(Clone, Copy, Debug, PartialEq, Eq, Structural)]
pub struct TraceCell {
    pub glyph: char,
    pub tone: Tone,
}

/// One column of a chart.
#[derive(Clone, Copy, Debug, PartialEq, Eq, Structural)]
pub struct RenderPoint {
    pub value: Option<u64>,
    pub tone: Tone,
    pub break_before: bool,
}

/// The point that is recorded for a value.
pub open spec fn recorded_point(
    value: Option<u64>,
    metric: ChartMetric,
    thresholds: Thresholds,
) -> ChartPoint {
    ChartPoint {
        value,
        tone: match value {
            Some(value) => metric.tone_spec(value, thresholds),
            None => Tone::Muted,
        },
    }
}

/// Records a value. The newest `limit` points are kept, as they were recorded.
pub fn push_history(
    history: &mut VecDeque<ChartPoint>,
    value: Option<u64>,
    metric: ChartMetric,
    limit: usize,
    thresholds: Thresholds,
)
    ensures
        final(history)@ == newest(
            old(history)@.push(recorded_point(value, metric, thresholds)),
            limit as nat,
        ),
{
    let tone = match value {
        Some(value) => metric.tone(value, thresholds),
        None => Tone::Muted,
    };
    history.push_back(ChartPoint { value, tone });
    let ghost all = history@;
    let ghost mut dropped: int = 0;
    assert(all.skip(0) =~= all);
    while history.len() > limit
        invariant
            0 <= dropped <= all.len(),
            dropped > 0 ==> all.len() - dropped >= limit,
            history@ == all.skip(dropped),
        decreases history@.len(),
    {
        let _ = history.pop_front();
        proof {
            assert(history@ =~= all.skip(dropped + 1));
            dropped = dropped + 1;
        }
    }
    assert(history@ =~= newest(all, limit as nat));
}

/// Recording keeps the history within its limit, and what stays keeps its
/// value and its tone.
pub proof fn history_is_bounded_and_never_rewritten(
    before: Seq<ChartPoint>,
    point: ChartPoint,
    limit: nat,
)
    ensures
        newest(before.push(point), limit).len() <= limit,
        limit > 0 ==> newest(before.push(point), limit).last() == point,
        before.len() < limit ==> newest(before.push(point), limit) == before.push(point),
        0 < limit <= before.len() ==> newest(before.push(point), limit).drop_last() == newest(
            before,
            (limit - 1) as nat,
        ),
{
    if 0 < limit <= before.len() {
        assert(newest(before.push(point), limit).drop_last() =~= newest(
            before,
            (limit - 1) as nat,
        ));
    }
}

/// Whether a paging rate reaches a height of the logarithmic curve.
///
/// With the anchor `a` the height of a rate `v` is `100 * ln(1 + v / a) / ln(257)`,
/// rounded. It is `percent` at least where `(1 + v / a) ^ 200` is at least
/// `257 ^ (2 * percent - 1)`.
pub open spec fn log_reaches(value: nat, percent: nat) -> bool {
    percent == 0 || pow((SWAP_CHART_LOG_ANCHOR + value) as int, 200) >= pow(
        257,
        (2 * percent - 1) as nat,
    ) * pow(SWAP_CHART_LOG_ANCHOR as int, 200)
}

/// The greatest height up to `percent` that a rate reaches.
pub open spec fn log_height(value: nat, percent: nat) -> nat
    decreases percent,
{
    if log_reaches(value, percent) {
        percent
    } else {
        log_height(value, (percent - 1) as nat)
    }
}

/// The height of a paging rate on the logarithmic curve, in percent.
pub open spec fn swap_chart_percent_spec(value: u64) -> nat {
    log_height(value as nat, 100)
}

proof fn lemma_pow_base_grows(a: int, b: int, e: nat)
    requires
        0 <= a <= b,
    ensures
        0 <= pow(a, e) <= pow(b, e),
    decreases e,
{
    reveal(pow);
    if e > 0 {
        lemma_pow_base_grows(a, b, (e - 1) as nat);
        let (x, y) = (pow(a, (e - 1) as nat), pow(b, (e - 1) as nat));
        assert(0 <= a * x <= b * y) by (nonlinear_arith)
            requires
                0 <= a <= b,
                0 <= x <= y,
        ;
    }
}

proof fn lemma_pow_splits(a: int, b: int, e: nat)
    ensures
        pow(a * b, e) == pow(a, e) * pow(b, e),
{
    lemma_pow_distributes(a, b, e);
}

proof fn lemma_log_unreached(value: nat, percent: nat, top: nat)
    requires
        1 <= percent <= top,
        !log_reaches(value, percent),
    ensures
        log_height(value, top) == log_height(value, (percent - 1) as nat),
    decreases top - percent,
{
    if percent < top {
        let a = pow(SWAP_CHART_LOG_ANCHOR as int, 200);
        let low = pow(257, (2 * percent - 1) as nat);
        let high = pow(257, (2 * percent + 1) as nat);
        lemma_pow_positive(SWAP_CHART_LOG_ANCHOR as int, 200);
        lemma_pow_positive(257, (2 * percent - 1) as nat);
        lemma_pow_increases(257, (2 * percent - 1) as nat, (2 * percent + 1) as nat);
        assert(low * a <= high * a) by (nonlinear_arith)
            requires
                low <= high,
                a > 0,
        ;
        lemma_log_unreached(value, (percent + 1) as nat, top);
    }
}

proof fn lemma_log_top(value: u64)
    requires
        value >= SWAP_CHART_SCALE,
    ensures
        log_reaches(value as nat, 100),
{
    let a = SWAP_CHART_LOG_ANCHOR as int;
    lemma_pow_base_grows(257 * a, (SWAP_CHART_LOG_ANCHOR + value) as int, 200);
    lemma_pow_splits(257, a, 200);
    lemma_pow_increases(257, 199, 200);
    lemma_pow_positive(a, 200);
    let (p, q, w) = (pow(257, 199), pow(257, 200), pow(a, 200));
    assert(p * w <= q * w) by (nonlinear_arith)
        requires
            p <= q,
            w > 0,
    ;
}

proof fn lemma_log_bottom()
    ensures
        !log_reaches(0, 1),
{
    let w = pow(SWAP_CHART_LOG_ANCHOR as int, 200);
    reveal_with_fuel(pow, 2);
    lemma_pow_positive(SWAP_CHART_LOG_ANCHOR as int, 200);
    assert(pow(257, 1) == 257);
    assert(257 * w > w) by (nonlinear_arith)
        requires
            w > 0,
    ;
}

fn natural_power(base: u32, exponent: u32) -> (result: Natural)
    ensures
        result@ == pow(base as int, exponent as nat),
{
    let mut result = Natural::new(1);
    let mut i: u32 = 0;
    proof {
        reveal(pow);
    }
    while i < exponent
        invariant
            i <= exponent,
            result@ == pow(base as int, i as nat),
        decreases exponent - i,
    {
        proof {
            reveal(pow);
            assert(pow(base as int, i as nat) * base == base * pow(base as int, i as nat))
                by (nonlinear_arith);
        }
        result = result.scaled(base, 0);
        i = i + 1;
    }
    result
}

/// The height of a paging rate on the logarithmic curve, in percent.
pub fn swap_chart_percent(value: u64) -> (result: u64)
    ensures
        result == swap_chart_percent_spec(value),
        result <= 100,
{
    if value >= SWAP_CHART_SCALE {
        proof {
            lemma_log_top(value);
        }
        return 100;
    }
    let reached = natural_power((SWAP_CHART_LOG_ANCHOR + value) as u32, 200);
    let mut needed = natural_power(SWAP_CHART_LOG_ANCHOR as u32, 200).scaled(257, 0);
    let mut percent: u64 = 1;
    proof {
        reveal_with_fuel(pow, 2);
        let w = pow(SWAP_CHART_LOG_ANCHOR as int, 200);
        assert(pow(257, 1) == 257);
        assert(w * 257 == 257 * w) by (nonlinear_arith);
    }
    while percent <= 100 && !reached.below(&needed)
        invariant
            1 <= percent <= 101,
            log_reaches(value as nat, (percent - 1) as nat),
            reached@ == pow((SWAP_CHART_LOG_ANCHOR + value) as int, 200),
            needed@ == pow(257, (2 * percent - 1) as nat) * pow(SWAP_CHART_LOG_ANCHOR as int, 200),
        decreases 101 - percent,
    {
        proof {
            let e = (2 * percent - 1) as nat;
            let w = pow(SWAP_CHART_LOG_ANCHOR as int, 200);
            let p = pow(257, e);
            lemma_pow_adds(257, e, 2);
            lemma_pow_squares();
            assert(p * w * 66049 == p * 66049 * w) by (nonlinear_arith);
        }
        needed = needed.scaled(66049, 0);
        percent = percent + 1;
    }
    proof {
        if percent <= 100 {
            lemma_log_unreached(value as nat, percent as nat, 100);
        }
    }
    percent - 1
}

proof fn lemma_pow_squares()
    ensures
        pow(257, 2) == 66049,
{
    reveal_with_fuel(pow, 3);
}

pub open spec fn normalize_chart_value_spec(metric: ChartMetric, value: u64) -> u64 {
    match metric {
        ChartMetric::Generation | ChartMetric::Prefill => value,
        ChartMetric::Swap => swap_chart_percent_spec(value) as u64,
        _ => if value <= 100 {
            value
        } else {
            100
        },
    }
}

/// A value on the scale of its chart; token rates keep their own.
pub fn normalize_chart_value(metric: ChartMetric, value: u64) -> (result: u64)
    ensures
        result == normalize_chart_value_spec(metric, value),
        !metric.is_rate_spec() ==> result <= 100,
{
    match metric {
        ChartMetric::Generation | ChartMetric::Prefill => value,
        ChartMetric::Swap => swap_chart_percent(value),
        _ => if value <= 100 {
            value
        } else {
            100
        },
    }
}

/// What a value counts as in the statistics; paging counts in bytes.
pub open spec fn stat_value(metric: ChartMetric, value: u64) -> u64 {
    if metric == ChartMetric::Swap {
        value
    } else {
        normalize_chart_value_spec(metric, value)
    }
}

/// The values that were captured.
pub open spec fn stat_values(points: Seq<ChartPoint>, metric: ChartMetric) -> Seq<u64>
    decreases points.len(),
{
    if points.len() == 0 {
        Seq::empty()
    } else {
        let rest = stat_values(points.drop_last(), metric);
        match points.last().value {
            Some(value) => rest.push(stat_value(metric, value)),
            None => rest,
        }
    }
}

/// The sum of values.
pub open spec fn sum_of(values: Seq<u64>) -> nat
    decreases values.len(),
{
    if values.len() == 0 {
        0
    } else {
        sum_of(values.drop_last()) + values.last() as nat
    }
}

/// The largest of the values, or zero.
pub open spec fn peak_of(values: Seq<u64>) -> u64
    decreases values.len(),
{
    if values.len() == 0 {
        0
    } else {
        let rest = peak_of(values.drop_last());
        if values.last() > rest {
            values.last()
        } else {
            rest
        }
    }
}

/// The mean, rounded down, and the peak of what was captured. The sum stays
/// within 64 bits.
pub open spec fn chart_stats_spec(points: Seq<ChartPoint>, metric: ChartMetric) -> (
    Option<u64>,
    Option<u64>,
) {
    let values = stat_values(points, metric);
    let total = if sum_of(values) <= u64::MAX {
        sum_of(values)
    } else {
        u64::MAX as nat
    };
    if values.len() == 0 {
        (None, None)
    } else {
        (Some((total / values.len()) as u64), Some(peak_of(values)))
    }
}

fn stats_from(history: &VecDeque<ChartPoint>, start: usize, metric: ChartMetric) -> (result: (
    Option<u64>,
    Option<u64>,
))
    requires
        start <= history@.len(),
    ensures
        result == chart_stats_spec(history@.skip(start as int), metric),
{
    let ghost shown = history@.skip(start as int);
    let mut count: u64 = 0;
    let mut total: u64 = 0;
    let mut peak: u64 = 0;
    for i in start..history.len()
        invariant
            start <= i <= history@.len(),
            shown == history@.skip(start as int),
            count == stat_values(shown.take(i - start), metric).len(),
            count <= i - start,
            total == if sum_of(stat_values(shown.take(i - start), metric)) <= u64::MAX {
                sum_of(stat_values(shown.take(i - start), metric))
            } else {
                u64::MAX as nat
            },
            peak == peak_of(stat_values(shown.take(i - start), metric)),
    {
        let point = history[i];
        proof {
            assert(shown.take(i + 1 - start).drop_last() =~= shown.take(i - start));
            assert(shown.take(i + 1 - start).last() == point);
        }
        if let Some(value) = point.value {
            let kept: u64 = if metric == ChartMetric::Swap {
                value
            } else {
                normalize_chart_value(metric, value)
            };
            proof {
                let before = stat_values(shown.take(i - start), metric);
                assert(before.push(kept).drop_last() =~= before);
            }
            count = count + 1;
            total = if total <= u64::MAX - kept {
                total + kept
            } else {
                u64::MAX
            };
            if kept > peak {
                peak = kept;
            }
        }
    }
    assert(shown.take(history@.len() - start) =~= shown);
    if count == 0 {
        (None, None)
    } else {
        (Some(total / count), Some(peak))
    }
}

/// The mean and the peak of what was captured.
pub fn chart_stats(points: &VecDeque<ChartPoint>, metric: ChartMetric) -> (result: (
    Option<u64>,
    Option<u64>,
))
    ensures
        result == chart_stats_spec(points@, metric),
{
    assert(points@.skip(0) =~= points@);
    stats_from(points, 0, metric)
}

/// The mean and the peak of the samples that fit a width.
pub fn chart_stats_for_width(
    history: &VecDeque<ChartPoint>,
    metric: ChartMetric,
    width: usize,
) -> (result: (Option<u64>, Option<u64>))
    ensures
        result == chart_stats_spec(newest(history@, width as nat), metric),
{
    let start: usize = if history.len() > width {
        history.len() - width
    } else {
        0
    };
    assert(history@.skip(start as int) =~= newest(history@, width as nat));
    stats_from(history, start, metric)
}

pub open spec fn chart_stat_label_spec(metric: ChartMetric, value: Option<u64>) -> Seq<char> {
    match value {
        Some(value) => match metric {
            ChartMetric::Generation | ChartMetric::Prefill => tenths(value, 10),
            ChartMetric::Swap => rate_spec(value),
            _ => decimal(value as nat) + "%"@,
        },
        None => "—"@,
    }
}

/// A mean or a peak in the unit of its chart.
pub fn chart_stat_label(metric: ChartMetric, value: Option<u64>) -> (out: String)
    ensures
        out@ == chart_stat_label_spec(metric, value),
{
    match value {
        Some(value) => match metric {
            ChartMetric::Generation | ChartMetric::Prefill => tenths_text(value, 10),
            ChartMetric::Swap => rate(value),
            _ => decimal_text(value).concat("%"),
        },
        None => "—".to_string(),
    }
}

pub open spec fn chart_scale_max_spec(metric: ChartMetric) -> u64 {
    match metric {
        ChartMetric::Generation => GENERATION_CHART_SCALE_MAX,
        ChartMetric::Prefill => PREFILL_CHART_SCALE_MAX,
        _ => 100,
    }
}

/// The top of a chart. It depends on the metric alone, so that new samples
/// never rescale old ones.
pub fn chart_scale_max(_history: &VecDeque<ChartPoint>, metric: ChartMetric) -> (result: u64)
    ensures
        result == chart_scale_max_spec(metric),
{
    match metric {
        ChartMetric::Generation => GENERATION_CHART_SCALE_MAX,
        ChartMetric::Prefill => PREFILL_CHART_SCALE_MAX,
        _ => 100,
    }
}

/// A value as a percentage of a chart's height.
pub open spec fn chart_display_value_spec(metric: ChartMetric, value: u64, scale_max: u64) -> u64 {
    if metric.is_rate_spec() {
        let height = product_spec(value, 100) as int / (if scale_max == 0 {
            1
        } else {
            scale_max as int
        });
        if height <= 100 {
            height as u64
        } else {
            100
        }
    } else {
        normalize_chart_value_spec(metric, value)
    }
}

/// A value as a percentage of a chart's height.
pub fn chart_display_value(metric: ChartMetric, value: u64, scale_max: u64) -> (result: u64)
    ensures
        result == chart_display_value_spec(metric, value, scale_max),
        result <= 100,
{
    if metric.is_rate() {
        let height: u64 = product(value, 100) / if scale_max == 0 {
            1
        } else {
            scale_max
        };
        if height <= 100 {
            height
        } else {
            100
        }
    } else {
        normalize_chart_value(metric, value)
    }
}

pub open spec fn chart_window_label_spec(samples: usize, interval: u64) -> Seq<char> {
    let step = if interval == 0 {
        1
    } else {
        interval
    };
    let seconds = product_spec(samples as u64, step as u64) as nat;
    if seconds >= 60 {
        decimal(seconds / 60) + "m"@
    } else {
        decimal(seconds) + "s"@
    }
}

/// The span of time that a number of samples covers, at an interval in
/// seconds.
pub fn chart_window_label(samples: usize, interval: u64) -> (out: String)
    ensures
        out@ == chart_window_label_spec(samples, interval),
{
    let step: u64 = if interval == 0 {
        1
    } else {
        interval
    };
    let seconds: u64 = product(samples as u64, step);
    if seconds >= 60 {
        decimal_text(seconds / 60).concat("m")
    } else {
        decimal_text(seconds).concat("s")
    }
}

/// A column without a sample.
pub open spec fn empty_column() -> RenderPoint {
    RenderPoint { value: None, tone: Tone::Muted, break_before: true }
}

/// The columns of a width: each holds one sample, the newest at the right, and
/// those on the left that no sample fills are empty.
pub open spec fn columns_of(
    points: Seq<ChartPoint>,
    values: Seq<Option<u64>>,
    width: nat,
) -> Seq<RenderPoint> {
    Seq::new(
        width,
        |i: int|
            {
                let at = points.len() - width + i;
                if at < 0 {
                    empty_column()
                } else {
                    RenderPoint {
                        value: values[at],
                        tone: points[at].tone,
                        break_before: points[at].value is None,
                    }
                }
            },
    )
}

pub open spec fn captured_values(points: Seq<ChartPoint>) -> Seq<Option<u64>> {
    points.map_values(|p: ChartPoint| p.value)
}

pub open spec fn chart_columns_spec(points: Seq<ChartPoint>, width: nat) -> Seq<RenderPoint> {
    columns_of(points, captured_values(points), width)
}

/// The columns of a width, with the values as they were captured.
pub fn chart_columns(history: &VecDeque<ChartPoint>, width: usize) -> (result: Vec<RenderPoint>)
    ensures
        result@ == chart_columns_spec(history@, width as nat),
{
    let mut columns: Vec<RenderPoint> = Vec::new();
    let total: usize = history.len();
    for i in 0..width
        invariant
            total == history@.len(),
            columns@ == chart_columns_spec(history@, width as nat).take(i as int),
    {
        let missing: usize = width - i;
        let column = if total < missing {
            RenderPoint { value: None, tone: Tone::Muted, break_before: true }
        } else {
            let point = history[total - missing];
            RenderPoint {
                value: point.value,
                tone: point.tone,
                break_before: point.value.is_none(),
            }
        };
        assert(chart_columns_spec(history@, width as nat).take(i + 1) =~= chart_columns_spec(
            history@,
            width as nat,
        ).take(i as int).push(column));
        columns.push(column);
    }
    assert(columns@ =~= chart_columns_spec(history@, width as nat));
    columns
}

/// Whether two values are so close that a quarter of a row does not tell them
/// apart.
pub open spec fn within_deadband(
    metric: ChartMetric,
    left: u64,
    right: u64,
    plot_height: nat,
) -> bool {
    let scale = chart_scale_max_spec(metric);
    let difference = chart_display_value_spec(metric, left, scale) - chart_display_value_spec(
        metric,
        right,
        scale,
    );
    plot_height <= 1 || 4 * vstd::math::abs(difference) * (plot_height - 1) <= 100
}

/// The value that is plotted for a sample, given what was plotted before it.
pub open spec fn plotted(
    metric: ChartMetric,
    before: Option<u64>,
    value: Option<u64>,
    plot_height: nat,
) -> Option<u64> {
    match (before, value) {
        (Some(anchor), Some(value)) => if within_deadband(metric, anchor, value, plot_height) {
            Some(anchor)
        } else {
            Some(value)
        },
        _ => value,
    }
}

/// The values that are plotted: one that hardly differs from the one plotted
/// before it stays level with it, and a gap starts anew.
pub open spec fn chart_plot_values_spec(
    points: Seq<ChartPoint>,
    metric: ChartMetric,
    plot_height: nat,
) -> Seq<Option<u64>>
    decreases points.len(),
{
    if points.len() == 0 {
        Seq::empty()
    } else {
        let rest = chart_plot_values_spec(points.drop_last(), metric, plot_height);
        let before = if rest.len() == 0 {
            None
        } else {
            rest.last()
        };
        rest.push(plotted(metric, before, points.last().value, plot_height))
    }
}

proof fn lemma_plot_length(points: Seq<ChartPoint>, metric: ChartMetric, plot_height: nat)
    ensures
        chart_plot_values_spec(points, metric, plot_height).len() == points.len(),
    decreases points.len(),
{
    if points.len() > 0 {
        lemma_plot_length(points.drop_last(), metric, plot_height);
    }
}

fn is_within_deadband(metric: ChartMetric, left: u64, right: u64, scale: u64, plot_height: usize) ->
    (result: bool)
    requires
        scale == chart_scale_max_spec(metric),
    ensures
        result == within_deadband(metric, left, right, plot_height as nat),
{
    let a: u64 = chart_display_value(metric, left, scale);
    let b: u64 = chart_display_value(metric, right, scale);
    let difference: u128 = if a >= b {
        (a - b) as u128
    } else {
        (b - a) as u128
    };
    if plot_height <= 1 {
        return true;
    }
    let rows: u128 = (plot_height - 1) as u128;
    proof {
        assert(4 * difference * rows <= 400 * rows) by (nonlinear_arith)
            requires
                0 <= difference <= 100,
                rows >= 0,
        ;
    }
    4 * difference * rows <= 100
}

/// The values that are plotted. A value depends on the samples up to its own
/// alone.
pub fn chart_plot_values(
    history: &VecDeque<ChartPoint>,
    metric: ChartMetric,
    plot_height: usize,
) -> (result: Vec<Option<u64>>)
    ensures
        result@ == chart_plot_values_spec(history@, metric, plot_height as nat),
        result@.len() == history@.len(),
{
    let scale: u64 = chart_scale_max(history, metric);
    let mut anchor: Option<u64> = None;
    let mut values: Vec<Option<u64>> = Vec::new();
    for i in 0..history.len()
        invariant
            scale == chart_scale_max_spec(metric),
            values@.len() == i,
            values@ == chart_plot_values_spec(history@.take(i as int), metric, plot_height as nat),
            anchor == if i == 0 {
                None
            } else {
                values@.last()
            },
    {
        let point = history[i];
        assert(history@.take(i + 1).drop_last() =~= history@.take(i as int));
        let shown: Option<u64> = match (anchor, point.value) {
            (Some(previous), Some(value)) => if is_within_deadband(
                metric,
                previous,
                value,
                scale,
                plot_height,
            ) {
                Some(previous)
            } else {
                Some(value)
            },
            _ => point.value,
        };
        values.push(shown);
        anchor = shown;
    }
    assert(history@.take(history@.len() as int) =~= history@);
    values
}

/// Smoothing looks back only: what is plotted for the first samples does not
/// depend on those that follow.
pub proof fn smoothing_is_causal(
    points: Seq<ChartPoint>,
    metric: ChartMetric,
    plot_height: nat,
    count: int,
)
    requires
        0 <= count <= points.len(),
    ensures
        chart_plot_values_spec(points, metric, plot_height).take(count) == chart_plot_values_spec(
            points.take(count),
            metric,
            plot_height,
        ),
    decreases points.len(),
{
    lemma_plot_length(points, metric, plot_height);
    if count == points.len() {
        assert(points.take(count) =~= points);
        assert(chart_plot_values_spec(points, metric, plot_height).take(count)
            =~= chart_plot_values_spec(points, metric, plot_height));
    } else {
        lemma_plot_length(points.drop_last(), metric, plot_height);
        smoothing_is_causal(points.drop_last(), metric, plot_height, count);
        assert(points.drop_last().take(count) =~= points.take(count));
        assert(chart_plot_values_spec(points, metric, plot_height).take(count)
            =~= chart_plot_values_spec(points.drop_last(), metric, plot_height).take(count));
    }
}

/// Smoothing neither fills a gap nor makes one, and what it plots lies within
/// the deadband of what was captured.
pub proof fn smoothing_stays_close(
    points: Seq<ChartPoint>,
    metric: ChartMetric,
    plot_height: nat,
    at: int,
)
    requires
        0 <= at < points.len(),
    ensures
        chart_plot_values_spec(points, metric, plot_height).len() == points.len(),
        match (chart_plot_values_spec(points, metric, plot_height)[at], points[at].value) {
            (Some(shown), Some(value)) => shown == value || within_deadband(
                metric,
                shown,
                value,
                plot_height,
            ),
            (None, None) => true,
            _ => false,
        },
    decreases points.len(),
{
    lemma_plot_length(points, metric, plot_height);
    lemma_plot_length(points.drop_last(), metric, plot_height);
    if at < points.len() - 1 {
        smoothing_stays_close(points.drop_last(), metric, plot_height, at);
    }
}

pub open spec fn chart_columns_for_plot_spec(
    points: Seq<ChartPoint>,
    width: nat,
    metric: ChartMetric,
    plot_height: nat,
) -> Seq<RenderPoint> {
    columns_of(points, chart_plot_values_spec(points, metric, plot_height), width)
}

/// The columns of a width, with the values as they are plotted.
pub fn chart_columns_for_plot(
    history: &VecDeque<ChartPoint>,
    width: usize,
    metric: ChartMetric,
    plot_height: usize,
) -> (result: Vec<RenderPoint>)
    ensures
        result@ == chart_columns_for_plot_spec(history@, width as nat, metric, plot_height as nat),
{
    let captured = chart_columns(history, width);
    let values = chart_plot_values(history, metric, plot_height);
    let total: usize = history.len();
    let mut columns: Vec<RenderPoint> = Vec::new();
    let ghost goal = chart_columns_for_plot_spec(
        history@,
        width as nat,
        metric,
        plot_height as nat,
    );
    for i in 0..width
        invariant
            total == history@.len(),
            values@ == chart_plot_values_spec(history@, metric, plot_height as nat),
            values@.len() == total,
            captured@ == chart_columns_spec(history@, width as nat),
            goal == chart_columns_for_plot_spec(
                history@,
                width as nat,
                metric,
                plot_height as nat,
            ),
            columns@ == goal.take(i as int),
    {
        let missing: usize = width - i;
        let column = if total < missing {
            captured[i]
        } else {
            RenderPoint {
                value: values[total - missing],
                tone: captured[i].tone,
                break_before: captured[i].break_before,
            }
        };
        assert(goal.take(i + 1) =~= goal.take(i as int).push(column));
        columns.push(column);
    }
    assert(columns@ =~= goal);
    columns
}

/// Every column that shows a sample shows it with the tone that it was
/// recorded with, and the newest sample stands at the right edge.
pub proof fn columns_show_one_sample_each(
    points: Seq<ChartPoint>,
    width: nat,
    metric: ChartMetric,
    plot_height: nat,
    column: int,
)
    requires
        0 <= column < width,
    ensures
        chart_columns_for_plot_spec(points, width, metric, plot_height).len() == width,
        ({
            let shown = chart_columns_for_plot_spec(points, width, metric, plot_height)[column];
            let at = points.len() - width + column;
            if at < 0 {
                shown == empty_column()
            } else {
                &&& shown.tone == points[at].tone
                &&& shown.value == chart_plot_values_spec(points, metric, plot_height)[at]
                &&& shown.value is None <==> points[at].value is None
            }
        }),
{
    let at = points.len() - width + column;
    if at >= 0 {
        smoothing_stays_close(points, metric, plot_height, at);
    }
}

pub open spec fn trace_row(value: u64, height: nat) -> nat {
    let v = if value <= 100 {
        value as int
    } else {
        100
    };
    let rows = (height - 1) as u64;
    let from_bottom = product_spec(v as u64, rows) / 100;
    (height - 1 - if from_bottom <= rows {
        from_bottom
    } else {
        rows
    }) as nat
}

/// The row of a height that a percentage is drawn in, counted from the top,
/// and its glyph.
pub fn trace_point(value: u64, height: usize) -> (result: Option<(usize, char)>)
    ensures
        match result {
            Some((row, glyph)) => height > 0 && row == trace_row(value, height as nat) && row
                < height && glyph == '━',
            None => height == 0,
        },
{
    if height == 0 {
        return None;
    }
    let v: u64 = if value <= 100 {
        value
    } else {
        100
    };
    let rows: u64 = (height - 1) as u64;
    let from_bottom: u64 = product(v, rows) / 100;
    let raised: u64 = if from_bottom <= rows {
        from_bottom
    } else {
        rows
    };
    Some((height - 1 - raised as usize, '━'))
}

pub open spec fn chart_row_value_spec(row: nat, height: nat) -> u64 {
    if height <= 1 || row >= height - 1 {
        0
    } else {
        (product_spec((height - 1 - row) as u64, 100) as int / (height - 1)) as u64
    }
}

/// The percentage that a row stands for.
pub fn chart_row_value(row: usize, height: usize) -> (result: u64)
    ensures
        result == chart_row_value_spec(row as nat, height as nat),
        result <= 100,
{
    if height <= 1 || row >= height - 1 {
        return 0;
    }
    let rows: u64 = (height - 1) as u64;
    let above: u64 = (height - 1 - row) as u64;
    let scaled: u64 = product(above, 100);
    proof {
        assert(scaled as int / rows as int <= 100) by (nonlinear_arith)
            requires
                0 <= scaled <= above * 100,
                0 <= above <= rows,
                rows > 0,
        ;
    }
    scaled / rows
}

pub open spec fn chart_transition_tone_spec(
    metric: ChartMetric,
    display_value: u64,
    previous_tone: Tone,
    tone: Tone,
    thresholds: Thresholds,
) -> Tone {
    match metric {
        ChartMetric::Generation | ChartMetric::Prefill => if previous_tone == tone {
            tone
        } else {
            Tone::Muted
        },
        ChartMetric::Cache => tone,
        ChartMetric::Memory | ChartMetric::Gpu => metric.tone_spec(display_value, thresholds),
        ChartMetric::Swap => metric.tone_spec(
            product_spec(display_value, SWAP_CHART_SCALE) / 100,
            thresholds,
        ),
    }
}

/// The tone of a step between two samples, at the level that it crosses.
pub fn chart_transition_tone(
    metric: ChartMetric,
    display_value: u64,
    previous_tone: Tone,
    tone: Tone,
    thresholds: Thresholds,
) -> (result: Tone)
    ensures
        result == chart_transition_tone_spec(
            metric,
            display_value,
            previous_tone,
            tone,
            thresholds,
        ),
{
    match metric {
        ChartMetric::Generation | ChartMetric::Prefill => if previous_tone == tone {
            tone
        } else {
            Tone::Muted
        },
        ChartMetric::Cache => tone,
        ChartMetric::Memory | ChartMetric::Gpu => metric.tone(display_value, thresholds),
        ChartMetric::Swap => metric.tone(
            product(display_value, SWAP_CHART_SCALE) / 100,
            thresholds,
        ),
    }
}

/// How a step between two samples is coloured.
#[derive(Clone, Copy, Debug, PartialEq, Eq, Structural)]
pub struct TraceStyle {
    pub metric: ChartMetric,
    pub previous_tone: Tone,
    pub tone: Tone,
    pub thresholds: Thresholds,
}

/// The cell of a step that stands in a row between the two levels or at one of
/// them.
pub open spec fn step_cell(
    row: int,
    height: nat,
    previous_row: int,
    next_row: int,
    style: TraceStyle,
) -> TraceCell {
    let down = next_row > previous_row;
    if row == previous_row {
        TraceCell {
            glyph: if down {
                '┓'
            } else {
                '┛'
            },
            tone: style.previous_tone,
        }
    } else if row == next_row {
        TraceCell {
            glyph: if down {
                '┗'
            } else {
                '┏'
            },
            tone: style.tone,
        }
    } else {
        TraceCell {
            glyph: '┃',
            tone: chart_transition_tone_spec(
                style.metric,
                chart_row_value_spec(row as nat, height),
                style.previous_tone,
                style.tone,
                style.thresholds,
            ),
        }
    }
}

pub open spec fn between(row: int, a: int, b: int) -> bool {
    (a <= row && row <= b) || (b <= row && row <= a)
}

/// Whether a grid has rows of one width.
pub open spec fn rectangular(cells: Seq<Vec<TraceCell>>, width: nat) -> bool {
    forall|r: int| 0 <= r < cells.len() ==> (#[trigger] cells[r])@.len() == width
}

/// Whether a step between two rows can be drawn in a column.
pub open spec fn step_fits(
    cells: Seq<Vec<TraceCell>>,
    column: int,
    previous_row: int,
    row: int,
) -> bool {
    &&& cells.len() > 0
    &&& column < cells[0]@.len()
    &&& previous_row != row
    &&& previous_row < cells.len()
    &&& row < cells.len()
}

fn set_cell(cells: &mut Vec<Vec<TraceCell>>, row: usize, column: usize, cell: TraceCell)
    requires
        row < old(cells)@.len(),
        column < old(cells)@[row as int]@.len(),
    ensures
        final(cells)@.len() == old(cells)@.len(),
        final(cells)@[row as int]@ == old(cells)@[row as int]@.update(column as int, cell),
        forall|r: int|
            0 <= r < old(cells)@.len() && r != row ==> #[trigger] final(cells)@[r] == old(
                cells,
            )@[r],
{
    cells[row][column] = cell;
}

/// Draws the step from one row to another into a column. Where the column or a
/// row lies outside, or there is no step, nothing is drawn.
pub fn trace_connector(
    cells: &mut Vec<Vec<TraceCell>>,
    column: usize,
    previous_row: usize,
    row: usize,
    style: TraceStyle,
)
    requires
        old(cells)@.len() > 0 ==> rectangular(old(cells)@, old(cells)@[0]@.len()),
    ensures
        final(cells)@.len() == old(cells)@.len(),
        forall|r: int|
            0 <= r < old(cells)@.len() ==> (#[trigger] final(cells)@[r])@ == if step_fits(
                old(cells)@,
                column as int,
                previous_row as int,
                row as int,
            ) && between(r, previous_row as int, row as int) {
                old(cells)@[r]@.update(
                    column as int,
                    step_cell(r, old(cells)@.len(), previous_row as int, row as int, style),
                )
            } else {
                old(cells)@[r]@
            },
{
    let height: usize = cells.len();
    if height == 0 || column >= cells[0].len() || previous_row == row || previous_row >= height
        || row >= height {
        return;
    }
    let upper: usize = if previous_row < row {
        previous_row
    } else {
        row
    };
    let lower: usize = if previous_row < row {
        row
    } else {
        previous_row
    };
    let ghost before = cells@;
    let ghost width = before[0]@.len();
    let mut at: usize = upper;
    while at <= lower
        invariant
            before == old(cells)@,
            height == before.len(),
            cells@.len() == before.len(),
            rectangular(before, width),
            column < width,
            upper <= at <= lower + 1,
            lower < height,
            previous_row != row,
            upper == if previous_row < row {
                previous_row
            } else {
                row
            },
            lower == if previous_row < row {
                row
            } else {
                previous_row
            },
            forall|r: int|
                0 <= r < before.len() ==> (#[trigger] cells@[r])@ == if upper <= r < at {
                    before[r]@.update(
                        column as int,
                        step_cell(r, height as nat, previous_row as int, row as int, style),
                    )
                } else {
                    before[r]@
                },
        decreases lower + 1 - at,
    {
        let cell = if at == previous_row {
            TraceCell {
                glyph: if row > previous_row {
                    '┓'
                } else {
                    '┛'
                },
                tone: style.previous_tone,
            }
        } else if at == row {
            TraceCell {
                glyph: if row > previous_row {
                    '┗'
                } else {
                    '┏'
                },
                tone: style.tone,
            }
        } else {
            TraceCell {
                glyph: '┃',
                tone: chart_transition_tone(
                    style.metric,
                    chart_row_value(at, height),
                    style.previous_tone,
                    style.tone,
                    style.thresholds,
                ),
            }
        };
        assert(cells@[at as int]@ == before[at as int]@);
        set_cell(cells, at, column, cell);
        at = at + 1;
    }
}

/// The background of a chart: a floor, a line at half height, and nothing
/// else.
pub open spec fn guide_cell(row: int, height: nat) -> TraceCell {
    TraceCell {
        glyph: if row + 1 == height {
            '─'
        } else if row * 2 == height {
            '┄'
        } else {
            ' '
        },
        tone: Tone::Muted,
    }
}

/// The row that a column's value is drawn in.
pub open spec fn column_row(point: RenderPoint, metric: ChartMetric, height: nat) -> Option<int> {
    match point.value {
        Some(value) => Some(
            trace_row(
                chart_display_value_spec(metric, value, chart_scale_max_spec(metric)),
                height,
            ) as int,
        ),
        None => None,
    }
}

/// What stands in a row and a column of a chart. A value is a bar at its level;
/// where the column before holds a value at another level, the step between
/// the two takes the bar's place. A gap stays empty and is not bridged.
pub open spec fn chart_cell(
    columns: Seq<RenderPoint>,
    metric: ChartMetric,
    thresholds: Thresholds,
    height: nat,
    row: int,
    column: int,
) -> TraceCell {
    let before = if column > 0 {
        column_row(columns[column - 1], metric, height)
    } else {
        None
    };
    match (before, column_row(columns[column], metric, height)) {
        (Some(previous), Some(level)) => if previous == level {
            if row == level {
                TraceCell { glyph: '━', tone: columns[column].tone }
            } else {
                guide_cell(row, height)
            }
        } else if between(row, previous, level) {
            step_cell(
                row,
                height,
                previous,
                level,
                TraceStyle {
                    metric,
                    previous_tone: columns[column - 1].tone,
                    tone: columns[column].tone,
                    thresholds,
                },
            )
        } else {
            guide_cell(row, height)
        },
        (None, Some(level)) => if row == level {
            TraceCell { glyph: '━', tone: columns[column].tone }
        } else {
            guide_cell(row, height)
        },
        (_, None) => guide_cell(row, height),
    }
}

/// Whether a grid is the chart of some columns.
pub open spec fn draws(
    cells: Seq<Vec<TraceCell>>,
    columns: Seq<RenderPoint>,
    metric: ChartMetric,
    thresholds: Thresholds,
    height: nat,
) -> bool {
    &&& cells.len() == height
    &&& rectangular(cells, columns.len())
    &&& forall|row: int, column: int|
        0 <= row < height && 0 <= column < columns.len() ==> #[trigger] cells[row]@[column]
            == chart_cell(columns, metric, thresholds, height, row, column)
}

fn guide_rows(width: usize, height: usize) -> (cells: Vec<Vec<TraceCell>>)
    ensures
        cells@.len() == height,
        rectangular(cells@, width as nat),
        forall|row: int, column: int|
            0 <= row < height && 0 <= column < width ==> #[trigger] cells@[row]@[column]
                == guide_cell(row, height as nat),
{
    let mut cells: Vec<Vec<TraceCell>> = Vec::new();
    for row in 0..height
        invariant
            cells@.len() == row,
            rectangular(cells@, width as nat),
            forall|r: int, column: int|
                0 <= r < row && 0 <= column < width ==> #[trigger] cells@[r]@[column] == guide_cell(
                    r,
                    height as nat,
                ),
    {
        let glyph = if row + 1 == height {
            '─'
        } else if row == height - row {
            '┄'
        } else {
            ' '
        };
        let cell = TraceCell { glyph, tone: Tone::Muted };
        let mut line: Vec<TraceCell> = Vec::new();
        for column in 0..width
            invariant
                line@.len() == column,
                forall|k: int| 0 <= k < column ==> #[trigger] line@[k] == cell,
        {
            line.push(cell);
        }
        cells.push(line);
    }
    cells
}

fn level_of(point: RenderPoint, metric: ChartMetric, scale: u64, height: usize) -> (result: Option<
    usize,
>)
    requires
        scale == chart_scale_max_spec(metric),
        height > 0,
    ensures
        match result {
            Some(row) => column_row(point, metric, height as nat) == Some(row as int) && row
                < height,
            None => column_row(point, metric, height as nat) is None,
        },
{
    match point.value {
        Some(value) => match trace_point(chart_display_value(metric, value, scale), height) {
            Some((row, _)) => Some(row),
            None => None,
        },
        None => None,
    }
}

/// The chart of some columns as a grid.
pub fn chart_cells(
    columns: &Vec<RenderPoint>,
    metric: ChartMetric,
    height: usize,
    thresholds: Thresholds,
) -> (cells: Vec<Vec<TraceCell>>)
    ensures
        draws(cells@, columns@, metric, thresholds, height as nat),
{
    let width: usize = columns.len();
    let mut cells = guide_rows(width, height);
    if height == 0 {
        return cells;
    }
    let scale: u64 = match metric {
        ChartMetric::Generation => GENERATION_CHART_SCALE_MAX,
        ChartMetric::Prefill => PREFILL_CHART_SCALE_MAX,
        _ => 100,
    };
    for column in 0..width
        invariant
            width == columns@.len(),
            height > 0,
            scale == chart_scale_max_spec(metric),
            cells@.len() == height,
            rectangular(cells@, width as nat),
            forall|r: int, k: int|
                0 <= r < height && 0 <= k < width ==> #[trigger] cells@[r]@[k] == if k < column {
                    chart_cell(columns@, metric, thresholds, height as nat, r, k)
                } else {
                    guide_cell(r, height as nat)
                },
    {
        let ghost before = cells@;
        if let Some(row) = level_of(columns[column], metric, scale, height) {
            set_cell(
                &mut cells,
                row,
                column,
                TraceCell { glyph: '━', tone: columns[column].tone },
            );
            assert(rectangular(cells@, width as nat)) by {
                assert forall|r: int| 0 <= r < cells@.len() implies (
                #[trigger] cells@[r])@.len() == width by {
                    if r != row {
                        assert(cells@[r] == before[r]);
                    } else {
                        assert(before[r]@.len() == width);
                    }
                }
            }
            let ghost marked = cells@;
            assert forall|r: int, k: int| 0 <= r < height
                && 0 <= k < width implies #[trigger] marked[r]@[k]
                == if r == row && k == column {
                (TraceCell { glyph: '━', tone: columns@[column as int].tone })
            } else {
                before[r]@[k]
            } by {
                if r != row {
                    assert(marked[r] == before[r]);
                }
            }
            if column > 0 {
                if let Some(previous) = level_of(columns[column - 1], metric, scale, height) {
                    let style = TraceStyle {
                        metric,
                        previous_tone: columns[column - 1].tone,
                        tone: columns[column].tone,
                        thresholds,
                    };
                    assert(marked[0]@.len() == width);
                    trace_connector(&mut cells, column, previous, row, style);
                    assert(rectangular(cells@, width as nat)) by {
                        assert forall|r: int| 0 <= r < cells@.len() implies (
                        #[trigger] cells@[r])@.len() == width by {
                            assert(marked[r]@.len() == width);
                        }
                    }
                    assert forall|r: int, k: int| 0 <= r < height && 0 <= k < width implies
                        #[trigger] cells@[r]@[k] == if k < column + 1 {
                        chart_cell(columns@, metric, thresholds, height as nat, r, k)
                    } else {
                        guide_cell(r, height as nat)
                    } by {
                        assert(marked[r]@.len() == width);
                        assert(marked[r]@[k] == if r == row && k == column {
                            (TraceCell { glyph: '━', tone: columns@[column as int].tone })
                        } else {
                            before[r]@[k]
                        });
                    }
                }
            }
        }
    }
    cells
}

/// Characters of one tone.
#[derive(Debug)]
pub struct Run {
    pub text: String,
    pub tone: Tone,
}

pub open spec fn runs_view(runs: Seq<Run>) -> Seq<(Seq<char>, Tone)> {
    runs.map_values(|r: Run| (r.text@, r.tone))
}

/// A row of cells as the longest runs of one tone.
pub open spec fn runs_of(cells: Seq<TraceCell>) -> Seq<(Seq<char>, Tone)>
    decreases cells.len(),
{
    if cells.len() == 0 {
        Seq::empty()
    } else {
        let rest = runs_of(cells.drop_last());
        let cell = cells.last();
        if rest.len() > 0 && rest.last().1 == cell.tone {
            rest.drop_last().push((rest.last().0.push(cell.glyph), cell.tone))
        } else {
            rest.push((seq![cell.glyph], cell.tone))
        }
    }
}

/// A row of cells as the longest runs of one tone.
pub fn tone_runs(cells: &Vec<TraceCell>) -> (runs: Vec<Run>)
    ensures
        runs_view(runs@) == runs_of(cells@),
{
    let mut runs: Vec<Run> = Vec::new();
    assert(runs_view(runs@) =~= runs_of(cells@.take(0)));
    for i in 0..cells.len()
        invariant
            runs_view(runs@) == runs_of(cells@.take(i as int)),
    {
        let cell = cells[i];
        let ghost before = runs@;
        proof {
            assert(cells@.take(i + 1).drop_last() =~= cells@.take(i as int));
            assert(runs_view(before).len() == before.len());
            if before.len() > 0 {
                assert(runs_view(before).last() == (before.last().text@, before.last().tone));
            }
        }
        let count: usize = runs.len();
        if count > 0 && runs[count - 1].tone == cell.tone {
            let last = runs.pop();
            if let Some(mut run) = last {
                run.text.push(cell.glyph);
                runs.push(run);
            }
            assert(runs_view(runs@) =~= runs_of(cells@.take(i + 1)));
        } else {
            let mut text = String::new();
            text.push(cell.glyph);
            assert(text@ =~= seq![cell.glyph]);
            runs.push(Run { text, tone: cell.tone });
            assert(runs_view(runs@) =~= runs_of(cells@.take(i + 1)));
        }
    }
    assert(cells@.take(cells@.len() as int) =~= cells@);
    runs
}

/// A gap stays empty, and nothing is drawn across it: the first value behind a
/// gap is a bar at its level and no step.
pub proof fn gaps_stay_disconnected(
    columns: Seq<RenderPoint>,
    metric: ChartMetric,
    thresholds: Thresholds,
    height: nat,
    row: int,
    column: int,
)
    requires
        0 <= column < columns.len(),
    ensures
        columns[column].value is None ==> chart_cell(
            columns,
            metric,
            thresholds,
            height,
            row,
            column,
        ) == guide_cell(row, height),
        column > 0 && columns[column - 1].value is None ==> ({
            let cell = chart_cell(columns, metric, thresholds, height, row, column);
            cell == guide_cell(row, height) || cell == (TraceCell {
                glyph: '━',
                tone: columns[column].tone,
            })
        }),
{
}

/// A new sample moves what was shown by one column to the left and changes
/// nothing of it: neither its level nor its tone.
pub proof fn charts_scroll(
    points: Seq<ChartPoint>,
    point: ChartPoint,
    width: nat,
    metric: ChartMetric,
    plot_height: nat,
    column: int,
)
    requires
        0 < column < width,
    ensures
        chart_columns_for_plot_spec(points.push(point), width, metric, plot_height)[column - 1]
            == chart_columns_for_plot_spec(points, width, metric, plot_height)[column],
{
    let more = points.push(point);
    let at = points.len() - width + column;
    smoothing_is_causal(more, metric, plot_height, points.len() as int);
    assert(more.take(points.len() as int) =~= points);
    lemma_plot_length(more, metric, plot_height);
    lemma_plot_length(points, metric, plot_height);
    if at >= 0 {
        let all = chart_plot_values_spec(more, metric, plot_height);
        assert(all[at] == all.take(points.len() as int)[at]);
    }
}

/// Columns as they were captured depend on the newest samples alone: those that
/// have left on the left make no difference.
pub proof fn captured_columns_keep_the_tail(points: Seq<ChartPoint>, width: nat)
    ensures
        chart_columns_spec(points, width) == chart_columns_spec(newest(points, width), width),
{
    assert(chart_columns_spec(points, width) =~= chart_columns_spec(newest(points, width), width));
}

/// The characters of some runs, one after the other.
pub open spec fn run_glyphs(runs: Seq<(Seq<char>, Tone)>) -> Seq<char>
    decreases runs.len(),
{
    if runs.len() == 0 {
        Seq::empty()
    } else {
        run_glyphs(runs.drop_last()) + runs.last().0
    }
}

/// The runs of a row hold its characters, each once and in order, and no two
/// neighbours have the same tone.
pub proof fn runs_hold_their_row(cells: Seq<TraceCell>)
    ensures
        run_glyphs(runs_of(cells)) == cells.map_values(|c: TraceCell| c.glyph),
        forall|i: int|
            0 < i < runs_of(cells).len() ==> (#[trigger] runs_of(cells)[i]).1 != runs_of(cells)[i
                - 1].1,
    decreases cells.len(),
{
    let glyphs = cells.map_values(|c: TraceCell| c.glyph);
    if cells.len() == 0 {
        assert(glyphs =~= Seq::empty());
    } else {
        let shorter = cells.drop_last();
        let rest = runs_of(shorter);
        let all = runs_of(cells);
        let cell = cells.last();
        runs_hold_their_row(shorter);
        assert(glyphs =~= shorter.map_values(|c: TraceCell| c.glyph).push(cell.glyph));
        if rest.len() > 0 && rest.last().1 == cell.tone {
            assert(all.drop_last() =~= rest.drop_last());
            assert(run_glyphs(all) =~= run_glyphs(rest).push(cell.glyph));
            assert forall|i: int| 0 < i < all.len() implies (#[trigger] all[i]).1 != all[i
                - 1].1 by {
                assert(rest[i].1 != rest[i - 1].1);
                assert(all[i].1 == rest[i].1 && all[i - 1].1 == rest[i - 1].1);
            }
        } else {
            assert(all.drop_last() =~= rest);
            assert(run_glyphs(all) =~= run_glyphs(rest).push(cell.glyph));
            assert forall|i: int| 0 < i < all.len() implies (#[trigger] all[i]).1 != all[i
                - 1].1 by {
                if i < rest.len() {
                    assert(rest[i].1 != rest[i - 1].1);
                }
            }
        }
    }
}

proof fn lemma_log_height_grows(value: nat, more: nat, percent: nat)
    requires
        value <= more,
    ensures
        log_height(value, percent) <= log_height(more, percent),
        log_height(more, percent) <= percent,
    decreases percent,
{
    lemma_pow_base_grows(
        (SWAP_CHART_LOG_ANCHOR + value) as int,
        (SWAP_CHART_LOG_ANCHOR + more) as int,
        200,
    );
    if percent > 0 {
        lemma_log_height_grows(value, more, (percent - 1) as nat);
    }
}

/// More paging is never drawn lower; none is drawn at the bottom, and the
/// critical rate at the top.
pub proof fn paging_heights_grow(value: u64, more: u64)
    requires
        value <= more,
    ensures
        swap_chart_percent_spec(value) <= swap_chart_percent_spec(more) <= 100,
        swap_chart_percent_spec(0) == 0,
        more >= SWAP_CHART_SCALE ==> swap_chart_percent_spec(more) == 100,
{
    lemma_log_height_grows(value as nat, more as nat, 100);
    lemma_log_bottom();
    lemma_log_unreached(0, 1, 100);
    if more >= SWAP_CHART_SCALE {
        lemma_log_top(more);
    }
}

/// A value is recorded in the tone of its own levels: memory in those of the
/// memory, the GPU in those of the GPU, paging in those of paging.
pub proof fn points_have_the_tone_of_their_own_levels(value: u64, thresholds: Thresholds)
    ensures
        value >= thresholds.memory_critical_load ==> recorded_point(
            Some(value),
            ChartMetric::Memory,
            thresholds,
        ).tone == Tone::Red,
        thresholds.memory_warn_load <= value < thresholds.memory_critical_load ==> recorded_point(
            Some(value),
            ChartMetric::Memory,
            thresholds,
        ).tone == Tone::Yellow,
        value >= thresholds.gpu_critical_load ==> recorded_point(
            Some(value),
            ChartMetric::Gpu,
            thresholds,
        ).tone == Tone::Red,
        thresholds.gpu_warn_load <= value < thresholds.gpu_critical_load ==> recorded_point(
            Some(value),
            ChartMetric::Gpu,
            thresholds,
        ).tone == Tone::Yellow,
        value >= thresholds.swap_critical_rate ==> recorded_point(
            Some(value),
            ChartMetric::Swap,
            thresholds,
        ).tone == Tone::Red,
        thresholds.swap_warn_rate <= value < thresholds.swap_critical_rate ==> recorded_point(
            Some(value),
            ChartMetric::Swap,
            thresholds,
        ).tone == Tone::Yellow,
        value < thresholds.swap_warn_rate && value < thresholds.swap_critical_rate
            ==> recorded_point(Some(value), ChartMetric::Swap, thresholds).tone == Tone::Green,
        forall|metric: ChartMetric|
            #![trigger recorded_point(None, metric, thresholds)]
            recorded_point(None, metric, thresholds).tone == Tone::Muted && recorded_point(
                None,
                metric,
                thresholds,
            ).value is None,
        forall|metric: ChartMetric|
            #![trigger recorded_point(Some(value), metric, thresholds)]
            recorded_point(Some(value), metric, thresholds).value == Some(value),
{
}

proof fn lemma_stats(points: Seq<ChartPoint>, metric: ChartMetric, at: int)
    requires
        0 <= at < points.len(),
        points[at].value is Some,
    ensures
        stat_values(points, metric).len() > 0,
        peak_of(stat_values(points, metric)) >= stat_value(metric, points[at].value.unwrap()),
    decreases points.len(),
{
    let shorter = points.drop_last();
    let values = stat_values(points, metric);
    let rest = stat_values(shorter, metric);
    if points.last().value is Some {
        assert(values.drop_last() =~= rest);
        assert(values.last() == stat_value(metric, points.last().value.unwrap()));
    }
    if at < shorter.len() {
        assert(shorter[at] == points[at]);
        lemma_stats(shorter, metric, at);
    }
}

proof fn lemma_sum_below_peak(values: Seq<u64>)
    ensures
        sum_of(values) <= values.len() * peak_of(values),
        values.len() > 0 ==> values.contains(peak_of(values)) || peak_of(values) == 0,
    decreases values.len(),
{
    if values.len() > 0 {
        let rest = values.drop_last();
        lemma_sum_below_peak(rest);
        let (n, p, q) = (rest.len(), peak_of(rest), peak_of(values));
        assert(n * p <= n * q) by (nonlinear_arith)
            requires
                p <= q,
                n >= 0,
        ;
        assert(values.len() * q == n * q + q) by (nonlinear_arith)
            requires
                values.len() == n + 1,
        ;
        if q == values.last() {
            assert(values[values.len() - 1] == q);
        } else if rest.contains(p) {
            let k = choose|k: int| 0 <= k < rest.len() && rest[k] == p;
            assert(values[k] == q);
        }
    }
}

/// The peak is no lower than anything that was captured, and the mean no higher
/// than the peak. What was not captured counts for nothing.
pub proof fn peaks_top_what_was_captured(points: Seq<ChartPoint>, metric: ChartMetric, at: int)
    requires
        0 <= at < points.len(),
        points[at].value is Some,
    ensures
        ({
            let (mean, peak) = chart_stats_spec(points, metric);
            let value = points[at].value.unwrap();
            &&& mean is Some && peak is Some
            &&& mean.unwrap() <= peak.unwrap()
            &&& metric == ChartMetric::Swap || metric.is_rate_spec() ==> peak.unwrap() >= value
            &&& metric == ChartMetric::Gpu || metric == ChartMetric::Memory || metric
                == ChartMetric::Cache ==> peak.unwrap() >= if value <= 100 {
                value
            } else {
                100
            }
        }),
{
    let values = stat_values(points, metric);
    lemma_stats(points, metric, at);
    lemma_sum_below_peak(values);
    let total = if sum_of(values) <= u64::MAX {
        sum_of(values)
    } else {
        u64::MAX as nat
    };
    let peak = peak_of(values) as nat;
    let n = values.len();
    vstd::arithmetic::div_mod::lemma_fundamental_div_mod(total as int, n as int);
    vstd::arithmetic::div_mod::lemma_mod_bound(total as int, n as int);
    assert(total / n <= peak) by (nonlinear_arith)
        requires
            total <= n * peak,
            total == n * (total / n) + total % n,
            0 <= total % n,
            n > 0,
    ;
}

/// One value is its own mean and its own peak, and a value that repeats is too.
pub proof fn one_value_is_its_own_mean(point: ChartPoint, metric: ChartMetric)
    requires
        point.value is Some,
    ensures
        metric == ChartMetric::Swap || metric.is_rate_spec() ==> chart_stats_spec(
            seq![point],
            metric,
        ) == (point.value, point.value),
        chart_stats_spec(Seq::empty(), metric) == (None::<u64>, None::<u64>),
{
    let values = stat_values(seq![point], metric);
    assert(seq![point].drop_last() =~= Seq::<ChartPoint>::empty());
    assert(stat_values(seq![point].drop_last(), metric) =~= Seq::<u64>::empty());
    assert(values =~= seq![stat_value(metric, point.value.unwrap())]);
    assert(values.drop_last() =~= Seq::<u64>::empty());
    assert(sum_of(values.drop_last()) == 0);
    assert(peak_of(values.drop_last()) == 0);
}

/// Token rates are drawn on scales that never change: a hundred tokens per second
/// fill the chart of what is generated, two hundred that of what is read.
pub proof fn rate_scales_are_fixed(tenths_per_second: u64)
    ensures
        tenths_per_second <= 1000 ==> chart_display_value_spec(
            ChartMetric::Generation,
            tenths_per_second,
            chart_scale_max_spec(ChartMetric::Generation),
        ) == tenths_per_second / 10,
        1000 <= tenths_per_second <= 100_000_000 ==> chart_display_value_spec(
            ChartMetric::Generation,
            tenths_per_second,
            chart_scale_max_spec(ChartMetric::Generation),
        ) == 100,
        tenths_per_second <= 2000 ==> chart_display_value_spec(
            ChartMetric::Prefill,
            tenths_per_second,
            chart_scale_max_spec(ChartMetric::Prefill),
        ) == tenths_per_second / 20,
        tenths_per_second <= 100 ==> chart_display_value_spec(
            ChartMetric::Gpu,
            tenths_per_second,
            chart_scale_max_spec(ChartMetric::Gpu),
        ) == tenths_per_second,
        tenths_per_second <= 100 ==> chart_display_value_spec(
            ChartMetric::Memory,
            tenths_per_second,
            chart_scale_max_spec(ChartMetric::Memory),
        ) == tenths_per_second,
        tenths_per_second <= 100 ==> chart_display_value_spec(
            ChartMetric::Cache,
            tenths_per_second,
            chart_scale_max_spec(ChartMetric::Cache),
        ) == tenths_per_second,
{
    let t = tenths_per_second as int;
    if t <= 100_000_000 {
        assert(chart_scale_max_spec(ChartMetric::Generation) == 1000);
        assert(chart_scale_max_spec(ChartMetric::Prefill) == 2000);
        assert(product_spec(tenths_per_second, 100) == t * 100);
        assert((t * 100) / 1000 == t / 10);
        assert((t * 100) / 2000 == t / 20);
        assert(t >= 1000 ==> (t * 100) / 1000 >= 100);
    }
}

/// A larger percentage is never drawn lower: nothing stands at the bottom, all at
/// the top.
pub proof fn larger_values_are_drawn_higher(a: u64, b: u64, height: nat)
    requires
        a <= b,
        1 <= height <= 0x1_0000_0000,
    ensures
        trace_row(b, height) <= trace_row(a, height) < height,
        trace_row(0, height) == height - 1,
        b >= 100 ==> trace_row(b, height) == 0,
{
    let rows = (height - 1) as u64;
    let (x, y) = (
        if a <= 100 {
            a
        } else {
            100
        },
        if b <= 100 {
            b
        } else {
            100
        },
    );
    assert(x * rows <= y * rows && y * rows <= 100 * rows) by (nonlinear_arith)
        requires
            x <= y <= 100,
            rows >= 0,
    ;
    let (p, q) = (x * rows, y * rows);
    assert(p / 100 <= q / 100);
    assert(q / 100 <= rows);
    assert((100 * rows) / 100 == rows);
    assert(0 * rows == 0);
}

/// The time that a chart shows is that of its samples.
pub proof fn windows_are_as_long_as_their_samples(samples: usize, interval: u64)
    requires
        0 < interval,
        samples * interval <= u64::MAX,
    ensures
        samples * interval < 60 ==> chart_window_label_spec(samples, interval) == decimal(
            (samples * interval) as nat,
        ) + "s"@,
        samples * interval >= 60 ==> chart_window_label_spec(samples, interval) == decimal(
            ((samples * interval) / 60) as nat,
        ) + "m"@,
{
}


/// A step of a trace leads from its old row to its new one: it leaves the old row
/// towards the new one, in the old tone, and enters the new row from there, in
/// the new tone.
pub proof fn steps_lead_from_row_to_row(
    row: int,
    height: nat,
    from: int,
    to: int,
    style: TraceStyle,
)
    requires
        from != to,
    ensures
        from < to ==> step_cell(from, height, from, to, style).glyph == '┓' && step_cell(
            to,
            height,
            from,
            to,
            style,
        ).glyph == '┗',
        from > to ==> step_cell(from, height, from, to, style).glyph == '┛' && step_cell(
            to,
            height,
            from,
            to,
            style,
        ).glyph == '┏',
        step_cell(from, height, from, to, style).tone == style.previous_tone,
        step_cell(to, height, from, to, style).tone == style.tone,
        row != from && row != to ==> step_cell(row, height, from, to, style).glyph == '┃',
        row != from && row != to && style.metric == ChartMetric::Cache ==> step_cell(
            row,
            height,
            from,
            to,
            style,
        ).tone == style.tone,
        row != from && row != to && (style.metric == ChartMetric::Generation || style.metric
            == ChartMetric::Prefill) && style.tone != style.previous_tone ==> step_cell(
            row,
            height,
            from,
            to,
            style,
        ).tone == Tone::Muted,
{
}

/// The rows of a chart stand for levels from nothing at the bottom to all at the
/// top, and a higher row never for less.
pub proof fn rows_stand_for_their_levels(height: nat, row: nat, lower: nat)
    requires
        2 <= height <= 1000,
        row <= lower < height,
    ensures
        chart_row_value_spec(0, height) == 100,
        chart_row_value_spec((height - 1) as nat, height) == 0,
        chart_row_value_spec(row, height) >= chart_row_value_spec(lower, height),
        chart_row_value_spec(row, height) <= 100,
{
    let d = height - 1;
    vstd::arithmetic::div_mod::lemma_fundamental_div_mod_converse(100 * d, d, 100, 0);
    let a = (d - row) * 100;
    let b = (d - lower) * 100;
    assert(b / d <= a / d) by {
        vstd::arithmetic::div_mod::lemma_div_is_ordered(b, a, d);
    }
    assert(a / d <= (100 * d) / d) by {
        assert(a <= 100 * d);
        vstd::arithmetic::div_mod::lemma_div_is_ordered(a, 100 * d, d);
    }
    assert(0 <= b / d) by {
        vstd::arithmetic::div_mod::lemma_div_is_ordered(0, b, d);
    }
}
} // verus!
