//! A chart with its title, its axis and its rows.

use crate::binary64::{
    small_products_are_exact, small_whole_numbers_are_exact, whole_numbers_are_finite, Binary64,
    SIGNIFICAND_BOUND, UNIT_SCALE,
};
use crate::chart::{
    chart_cells, chart_columns_for_plot, chart_columns_for_plot_spec, chart_scale_max,
    chart_scale_max_spec, chart_stat_label, chart_stat_label_spec, chart_stats_for_width,
    chart_stats_spec, chart_window_label, chart_window_label_spec, draws, runs_of, runs_view,
    tone_runs, ChartMetric, ChartPoint, Run, TraceCell,
};
use crate::model::Sample;
use crate::order::newest;
use crate::text::{
    carries, decimal, decimal_text, same, texts_carry_their_parts, texts_carry_their_start,
};
use crate::thresholds::{Thresholds, Tone};
use crate::units::{rate, rate_spec, tenths, tenths_text};
use std::collections::VecDeque;
use vstd::arithmetic::div_mod::lemma_fundamental_div_mod_converse;
use vstd::arithmetic::power2::{lemma_pow2_pos, pow2};
use vstd::prelude::*;

verus! {

/// The rate of the request that runs now, in tenths of a token per second.
/// Averages and rates out of a log are no measurement of the current sample.
pub open spec fn chart_rate_value_spec(sample: Sample, metric: ChartMetric) -> Option<u64> {
    let (value, live) = match metric {
        ChartMetric::Generation => (sample.llm_generation_tps, sample.llm_generation_tps_live),
        ChartMetric::Prefill => (sample.llm_prefill_tps, sample.llm_prefill_tps_live),
        _ => (None, false),
    };
    match value {
        Some(value) => if live && value.measurable() {
            Some(value.product(Binary64::of_nat(10)).rounded_part() as u64)
        } else {
            None
        },
        None => None,
    }
}

/// The rate of the request that runs now, in tenths of a token per second.
pub fn chart_rate_value(sample: &Sample, metric: ChartMetric) -> (result: Option<u64>)
    ensures
        result == chart_rate_value_spec(*sample, metric),
{
    let (value, live): (Option<Binary64>, bool) = match metric {
        ChartMetric::Generation => (sample.llm_generation_tps, sample.llm_generation_tps_live),
        ChartMetric::Prefill => (sample.llm_prefill_tps, sample.llm_prefill_tps_live),
        _ => (None, false),
    };
    match value {
        Some(value) => if live && value.is_measurable() {
            let scaled = value.times(Binary64::from_u64(10));
            proof {
                whole_numbers_are_finite(10);
                value.product_of_finite_is_a_number(Binary64::of_nat(10));
            }
            Some(scaled.rounded())
        } else {
            None
        },
        None => None,
    }
}

/// Nothing but a live rate reaches a rate chart.
pub proof fn only_live_rates_are_charted(sample: Sample, metric: ChartMetric)
    ensures
        chart_rate_value_spec(sample, metric) is Some ==> metric.is_rate_spec(),
        metric == ChartMetric::Generation && !sample.llm_generation_tps_live
        ==> chart_rate_value_spec(sample, metric) is None,
        metric == ChartMetric::Prefill && !sample.llm_prefill_tps_live ==> chart_rate_value_spec(
            sample,
            metric,
        ) is None,
{
}

pub open spec fn chart_inactive_rate_label_spec(metric: ChartMetric, sample: Sample) -> Seq<char> {
    if metric == ChartMetric::Generation && sample.llm_status@ == "prefilling"@ {
        "prefill active"@
    } else if metric == ChartMetric::Generation && sample.llm_status@ == "generating"@ {
        "active"@
    } else if metric == ChartMetric::Prefill && sample.llm_status@ == "prefilling"@ {
        "active"@
    } else if metric == ChartMetric::Prefill && sample.llm_status@ == "generating"@ {
        "decode active"@
    } else if sample.llm_status@ == "idle"@ || sample.llm_status@ == "last result"@ {
        "idle"@
    } else if sample.llm_status@ == "waiting"@ {
        "waiting"@
    } else if sample.llm_status@ == "offline"@ {
        "offline"@
    } else {
        "—"@
    }
}

/// What stands in place of a rate that is not measured.
pub fn chart_inactive_rate_label(metric: ChartMetric, sample: &Sample) -> (out: String)
    ensures
        out@ == chart_inactive_rate_label_spec(metric, *sample),
{
    if metric == ChartMetric::Generation && same(sample.llm_status.as_str(), "prefilling") {
        "prefill active".to_string()
    } else if metric == ChartMetric::Generation && same(sample.llm_status.as_str(), "generating") {
        "active".to_string()
    } else if metric == ChartMetric::Prefill && same(sample.llm_status.as_str(), "prefilling") {
        "active".to_string()
    } else if metric == ChartMetric::Prefill && same(sample.llm_status.as_str(), "generating") {
        "decode active".to_string()
    } else if same(sample.llm_status.as_str(), "idle") || same(
        sample.llm_status.as_str(),
        "last result",
    ) {
        "idle".to_string()
    } else if same(sample.llm_status.as_str(), "waiting") {
        "waiting".to_string()
    } else if same(sample.llm_status.as_str(), "offline") {
        "offline".to_string()
    } else {
        "—".to_string()
    }
}

pub open spec fn current_label_spec(
    metric: ChartMetric,
    current: Option<u64>,
    sample: Sample,
) -> Seq<char> {
    match current {
        Some(value) => match metric {
            ChartMetric::Generation | ChartMetric::Prefill => tenths(value, 10) + " tok/s"@,
            ChartMetric::Swap => rate_spec(value),
            _ => decimal(value as nat) + "%"@,
        },
        None => if metric.is_rate_spec() {
            chart_inactive_rate_label_spec(metric, sample)
        } else {
            "—"@
        },
    }
}

/// The newest value in the unit of its chart.
pub fn current_label(metric: ChartMetric, current: Option<u64>, sample: &Sample) -> (out: String)
    ensures
        out@ == current_label_spec(metric, current, *sample),
{
    match current {
        Some(value) => match metric {
            ChartMetric::Generation | ChartMetric::Prefill => tenths_text(value, 10).concat(" tok/s"),
            ChartMetric::Swap => rate(value),
            _ => decimal_text(value as u64).concat("%"),
        },
        None => if metric.is_rate() {
            chart_inactive_rate_label(metric, sample)
        } else {
            "—".to_string()
        },
    }
}

pub open spec fn axis_value_spec(metric: ChartMetric, divisor: u64) -> Seq<char> {
    Binary64::of_nat(chart_scale_max_spec(metric) as nat).quotient(
        Binary64::of_nat(divisor as nat),
    ).fixed_spec(0)
}

/// The top of a rate chart divided by a whole number, as a whole number.
pub fn axis_value(metric: ChartMetric, divisor: u64) -> (out: String)
    ensures
        out@ == axis_value_spec(metric, divisor),
{
    Binary64::from_u64(chart_scale_max(&VecDeque::new(), metric)).over(
        Binary64::from_u64(divisor),
    ).fixed(0)
}

pub open spec fn top_axis_spec(metric: ChartMetric) -> Seq<char> {
    if metric.is_rate_spec() {
        axis_value_spec(metric, 10)
    } else {
        "100"@
    }
}

/// The label at the top of the axis.
pub fn top_axis(metric: ChartMetric) -> (out: String)
    ensures
        out@ == top_axis_spec(metric),
{
    if metric.is_rate() {
        axis_value(metric, 10)
    } else {
        "100".to_string()
    }
}

pub open spec fn axis_label_spec(metric: ChartMetric) -> Seq<char> {
    if metric.is_rate_spec() {
        "0–"@ + axis_value_spec(metric, 10)
    } else if metric == ChartMetric::Swap {
        "0–100 log"@
    } else {
        "0–100"@
    }
}

/// The range of the axis.
pub fn axis_label(metric: ChartMetric) -> (out: String)
    ensures
        out@ == axis_label_spec(metric),
{
    if metric.is_rate() {
        "0–".to_string().concat(axis_value(metric, 10).as_str())
    } else if metric == ChartMetric::Swap {
        "0–100 log".to_string()
    } else {
        "0–100".to_string()
    }
}

pub open spec fn row_label_spec(metric: ChartMetric, row: usize, height: usize) -> Seq<char> {
    if row == 0 {
        top_axis_spec(metric) + " "@
    } else if row + 1 == height {
        "0 "@
    } else if row * 2 == height {
        if metric.is_rate_spec() {
            axis_value_spec(metric, 20) + " "@
        } else {
            "50 "@
        }
    } else {
        Seq::empty()
    }
}

/// The label of a row on the axis.
pub fn row_label(metric: ChartMetric, row: usize, height: usize) -> (out: String)
    requires
        row < height,
    ensures
        out@ == row_label_spec(metric, row, height),
{
    if row == 0 {
        top_axis(metric).concat(" ")
    } else if row + 1 == height {
        "0 ".to_string()
    } else if row == height - row {
        if metric.is_rate() {
            axis_value(metric, 20).concat(" ")
        } else {
            "50 ".to_string()
        }
    } else {
        String::new()
    }
}

/// A text with spaces before it up to a width.
pub open spec fn right_aligned(label: Seq<char>, width: nat) -> Seq<char> {
    if label.len() >= width {
        label
    } else {
        Seq::new((width - label.len()) as nat, |i: int| ' ') + label
    }
}

fn align_right(label: &str, width: usize) -> (out: String)
    ensures
        out@ == right_aligned(label@, width as nat),
{
    let count: usize = label.unicode_len();
    if count >= width {
        return label.to_string();
    }
    let mut out = String::new();
    for i in 0..width - count
    invariant
    out@ == Seq::new(i as nat, |i: int| ' '),
    {
        out.push(' ');
        assert(out@ =~= Seq::new((i + 1) as nat, |i: int| ' '));
    }
    out.concat(label)
}

/// How many columns the axis takes in an area of a width, borders included.
pub open spec fn label_width_spec(metric: ChartMetric, area_width: u16) -> nat {
    let wanted = top_axis_spec(metric).len() + 1;
    let kept = if wanted < 3 {
        3
    } else if wanted > 6 {
        6
    } else {
        wanted
    };
    let room = if area_width >= 2 {
        (area_width - 2) as nat
    } else {
        0
    };
    if kept <= room {
        kept
    } else {
        room
    }
}

/// How many columns are left for the samples.
pub open spec fn plot_width_spec(metric: ChartMetric, area_width: u16) -> nat {
    if area_width >= 2 {
        (area_width - 2 - label_width_spec(metric, area_width)) as nat
    } else {
        0
    }
}

fn widths(metric: ChartMetric, area_width: u16) -> (result: (usize, usize))
    ensures
        result.0 == label_width_spec(metric, area_width),
        result.1 == plot_width_spec(metric, area_width),
{
    let top = top_axis(metric);
    let count: usize = top.as_str().unicode_len();
    let kept: usize = if count < 2 {
        3
    } else if count > 5 {
        6
    } else {
        count + 1
    };
    let room: usize = if area_width >= 2 {
        (area_width - 2) as usize
    } else {
        0
    };
    let label: usize = if kept <= room {
        kept
    } else {
        room
    };
    (label, room - label)
}

/// What follows the newest value in the title: the wider the area, the more.
pub open spec fn stats_spec(
    points: Seq<ChartPoint>,
    metric: ChartMetric,
    area_width: u16,
    interval: u64,
) -> Seq<char> {
    let width = plot_width_spec(metric, area_width);
    let (average, peak) = chart_stats_spec(newest(points, width), metric);
    let shown = newest(points, width).len();
    let window = chart_window_label_spec(shown as usize, interval);
    if area_width >= 68 {
        "  · avg "@ + chart_stat_label_spec(metric, average) + " · peak "@ + chart_stat_label_spec(
            metric,
            peak,
        ) + " · "@ + window + " · "@ + axis_label_spec(metric) + " · older → now"@
    } else if area_width >= 52 {
        "  · avg "@ + chart_stat_label_spec(metric, average) + " · peak "@ + chart_stat_label_spec(
            metric,
            peak,
        ) + " · "@ + window
    } else {
        " · "@ + window
    }
}

fn stats(
    history: &VecDeque<ChartPoint>,
    metric: ChartMetric,
    area_width: u16,
    interval: u64,
) -> (out: String)
    ensures
        out@ == stats_spec(history@, metric, area_width, interval),
{
    let (_, width) = widths(metric, area_width);
    let (average, peak) = chart_stats_for_width(history, metric, width);
    let shown: usize = if history.len() <= width {
        history.len()
    } else {
        width
    };
    assert(shown == newest(history@, width as nat).len());
    let window = chart_window_label(shown, interval);
    if area_width >= 68 {
        "  · avg ".to_string().concat(chart_stat_label(metric, average).as_str()).concat(
            " · peak ",
        ).concat(chart_stat_label(metric, peak).as_str()).concat(" · ").concat(
            window.as_str(),
        ).concat(" · ").concat(axis_label(metric).as_str()).concat(" · older → now")
    } else if area_width >= 52 {
        "  · avg ".to_string().concat(chart_stat_label(metric, average).as_str()).concat(
            " · peak ",
        ).concat(chart_stat_label(metric, peak).as_str()).concat(" · ").concat(window.as_str())
    } else {
        " · ".to_string().concat(window.as_str())
    }
}

/// One line of a chart.
#[derive(Debug)]
pub struct ChartRow {
    pub label: String,
    pub runs: Vec<Run>,
}

/// A chart that is ready to be drawn.
#[derive(Debug)]
pub struct ChartPanel {
    pub title_tone: Tone,
    pub current: String,
    pub current_tone: Tone,
    pub stats: String,
    pub body: ChartBody,
}

/// What a chart holds: a word where nothing was captured, or its rows.
#[derive(Debug)]
pub enum ChartBody {
    Empty(String),
    Rows(Vec<ChartRow>),
}

pub open spec fn nothing_captured(points: Seq<ChartPoint>) -> bool {
    forall|i: int| 0 <= i < points.len() ==> (#[trigger] points[i]).value is None
}

pub open spec fn empty_message(metric: ChartMetric) -> Seq<char> {
    match metric {
        ChartMetric::Cache => "No interval cache data"@,
        ChartMetric::Generation | ChartMetric::Prefill => "No live rate samples"@,
        _ => "No samples available"@,
    }
}

/// Whether some rows are the chart of a history, each with its place on the
/// axis.
pub open spec fn shows(
    rows: Seq<ChartRow>,
    points: Seq<ChartPoint>,
    metric: ChartMetric,
    thresholds: Thresholds,
    area_width: u16,
    height: usize,
) -> bool {
    &&& rows.len() == height
    &&& exists|cells: Seq<Vec<TraceCell>>| #[trigger]
    draws(
        cells,
        chart_columns_for_plot_spec(
            points,
            plot_width_spec(metric, area_width),
            metric,
            height as nat,
        ),
        metric,
        thresholds,
        height as nat,
    ) && forall|r: int|
    0 <= r < height ==> runs_view((#[trigger] rows[r]).runs@) == runs_of(cells[r]@)
    &&& forall|r: int|
    0 <= r < height ==> (#[trigger] rows[r]).label@ == right_aligned(
        row_label_spec(metric, r as usize, height),
        label_width_spec(metric, area_width),
    )
}

fn chart_rows(
    history: &VecDeque<ChartPoint>,
    metric: ChartMetric,
    thresholds: Thresholds,
    area_width: u16,
    height: usize,
) -> (rows: Vec<ChartRow>)
    ensures
        shows(rows@, history@, metric, thresholds, area_width, height),
{
    let (label_width, plot_width) = widths(metric, area_width);
    let columns = chart_columns_for_plot(history, plot_width, metric, height);
    let cells = chart_cells(&columns, metric, height, thresholds);
    let mut rows: Vec<ChartRow> = Vec::new();
    for row in 0..height
    invariant
    cells@.len() == height,
    label_width == label_width_spec(metric, area_width),
    rows@.len() == row,
    forall|r: int|
    0 <= r < row ==> runs_view((#[trigger] rows@[r]).runs@) == runs_of(cells@[r]@),
    forall|r: int|
    0 <= r < row ==> (#[trigger] rows@[r]).label@ == right_aligned(
        row_label_spec(metric, r as usize, height),
        label_width_spec(metric, area_width),
    ),
    {
        let label = align_right(row_label(metric, row, height).as_str(), label_width);
        let runs = tone_runs(&cells[row]);
        rows.push(ChartRow { label, runs });
    }
    rows
}

/// A chart of a history in an area of a width, with `height` rows between the
/// borders. `interval` is the time between two samples, in seconds.
pub fn chart_panel(
    history: &VecDeque<ChartPoint>,
    metric: ChartMetric,
    sample: &Sample,
    area_width: u16,
    height: usize,
    interval: u64,
    thresholds: Thresholds,
) -> (panel: ChartPanel)
    ensures
        panel.title_tone == metric.chart_tone_spec(),
        panel.current@ == current_label_spec(
            metric,
            if history@.len() > 0 {
                history@.last().value
            } else {
                None
            },
            *sample,
        ),
        panel.current_tone == if history@.len() > 0 {
            history@.last().tone
        } else {
            Tone::Muted
        },
        panel.stats@ == stats_spec(history@, metric, area_width, interval),
        match panel.body {
            ChartBody::Empty(message) => nothing_captured(history@) && message@ == empty_message(
                metric,
            ),
            ChartBody::Rows(rows) => !nothing_captured(history@) && shows(
                rows@,
                history@,
                metric,
                thresholds,
                area_width,
                height,
            ),
        },
{
    let total: usize = history.len();
    let (current, current_tone): (Option<u64>, Tone) = if total > 0 {
        (history[total - 1].value, history[total - 1].tone)
    } else {
        (None, Tone::Muted)
    };
    let mut captured = false;
    for i in 0..total
    invariant
    total == history@.len(),
    captured <==> exists|j: int| 0 <= j < i && (#[trigger] history@[j]).value is Some,
    {
        if history[i].value.is_some() {
            captured = true;
        }
    }
    let body = if captured {
        ChartBody::Rows(chart_rows(history, metric, thresholds, area_width, height))
    } else {
        assert(nothing_captured(history@));
        ChartBody::Empty(
            match metric {
                ChartMetric::Cache => "No interval cache data".to_string(),
                ChartMetric::Generation | ChartMetric::Prefill => "No live rate samples".to_string(),
                _ => "No samples available".to_string(),
            },
        )
    };
    ChartPanel {
        title_tone: metric.chart_tone(),
        current: current_label(metric, current, sample),
        current_tone,
        stats: stats(history, metric, area_width, interval),
        body,
    }
}

/// A live rate of a whole number of tokens per second is charted as ten times as
/// many tenths, each rate in its own chart.
pub proof fn rates_are_charted_in_tenths(sample: Sample, generated: nat, read: nat)
    requires
        generated * 10 < SIGNIFICAND_BOUND,
        read * 10 < SIGNIFICAND_BOUND,
    ensures
        sample.llm_generation_tps_live && sample.llm_generation_tps == Some(
            Binary64::of_nat(generated),
        ) ==> chart_rate_value_spec(sample, ChartMetric::Generation) == Some(
            (generated * 10) as u64,
        ),
        sample.llm_prefill_tps_live && sample.llm_prefill_tps == Some(Binary64::of_nat(read))
            ==> chart_rate_value_spec(sample, ChartMetric::Prefill) == Some((read * 10) as u64),
{
    lemma_tenths(generated);
    lemma_tenths(read);
}

proof fn lemma_tenths(rate: nat)
    requires
        rate * 10 < SIGNIFICAND_BOUND,
    ensures
        Binary64::of_nat(rate).measurable(),
        Binary64::of_nat(rate).product(Binary64::of_nat(10)).rounded_part() == rate * 10,
{
    let one = pow2(UNIT_SCALE as nat);
    lemma_pow2_pos(UNIT_SCALE as nat);
    small_whole_numbers_are_exact(rate);
    small_whole_numbers_are_exact(10);
    small_whole_numbers_are_exact(1);
    let (x, y) = (Binary64::of_nat(rate), Binary64::of_nat(10));
    small_products_are_exact(x, y, rate, 10);
    let p = x.product(y);
    assert(rate * 10 * 1 * one == rate * 10 * one);
    assert((2 * p.units() + one) / (2 * one) == rate * 10) by {
        let all = 2 * p.units() + one;
        assert(all == (rate * 10) * (2 * one) + one) by (nonlinear_arith)
            requires
                all == 2 * p.units() + one,
                p.units() == rate * 10 * one,
        ;
        lemma_fundamental_div_mod_converse(
            all as int,
            (2 * one) as int,
            (rate * 10) as int,
            one as int,
        );
    }
}


/// A chart says its mean before its peak, each under its name, where there is
/// room, and what it shows of now: a rate in tokens per second, paging in bytes
/// per second, and anything else in per cent.
pub proof fn charts_say_their_own_figures(
    points: Seq<ChartPoint>,
    metric: ChartMetric,
    area_width: u16,
    interval: u64,
    value: u64,
    sample: Sample,
)
    ensures
        area_width >= 52 ==> {
            let shown = newest(points, plot_width_spec(metric, area_width));
            let (mean, peak) = chart_stats_spec(shown, metric);
            let line = stats_spec(points, metric, area_width, interval);
            &&& carries(line, "  · avg "@ + chart_stat_label_spec(metric, mean))
            &&& carries(line, " · peak "@ + chart_stat_label_spec(metric, peak))
            &&& carries(line, " · "@ + chart_window_label_spec(shown.len() as usize, interval))
        },
        metric == ChartMetric::Swap ==> current_label_spec(metric, Some(value), sample) == rate_spec(
            value,
        ),
        metric == ChartMetric::Generation || metric == ChartMetric::Prefill ==> current_label_spec(
            metric,
            Some(value),
            sample,
        ) == tenths(value, 10) + " tok/s"@,
        metric == ChartMetric::Gpu || metric == ChartMetric::Memory || metric == ChartMetric::Cache
            ==> current_label_spec(metric, Some(value), sample) == decimal(value as nat) + "%"@,
        metric == ChartMetric::Gpu || metric == ChartMetric::Memory || metric == ChartMetric::Cache
            || metric == ChartMetric::Swap ==> current_label_spec(metric, None, sample) == "—"@,
{
    let shown = newest(points, plot_width_spec(metric, area_width));
    let (mean, peak) = chart_stats_spec(shown, metric);
    let window = chart_window_label_spec(shown.len() as usize, interval);
    let s0 = "  · avg "@ + chart_stat_label_spec(metric, mean);
    texts_carry_their_start(s0, s0);
    let s1 = s0 + " · peak "@ + chart_stat_label_spec(metric, peak);
    texts_carry_their_parts(s0, " · peak "@, chart_stat_label_spec(metric, peak));
    let s2 = s1 + " · "@ + window;
    texts_carry_their_parts(s1, " · "@, window);
    let s3 = s2 + " · "@ + axis_label_spec(metric);
    texts_carry_their_parts(s2, " · "@, axis_label_spec(metric));
    texts_carry_their_parts(s3, " · older → now"@, Seq::empty());
    assert(s3 + " · older → now"@ + Seq::<char>::empty() =~= s3 + " · older → now"@);
}

/// What a rate chart says while there is no rate goes by what the server does:
/// the other half of its work, its own, or nothing.
pub proof fn silent_rates_say_what_goes_on(sample: Sample)
    ensures
        sample.llm_status@ == "prefilling"@ ==> chart_inactive_rate_label_spec(
            ChartMetric::Generation,
            sample,
        ) == "prefill active"@ && chart_inactive_rate_label_spec(ChartMetric::Prefill, sample)
            == "active"@,
        sample.llm_status@ == "generating"@ ==> chart_inactive_rate_label_spec(
            ChartMetric::Generation,
            sample,
        ) == "active"@ && chart_inactive_rate_label_spec(ChartMetric::Prefill, sample)
            == "decode active"@,
        sample.llm_status@ == "offline"@ ==> chart_inactive_rate_label_spec(
            ChartMetric::Generation,
            sample,
        ) == "offline"@ && chart_inactive_rate_label_spec(ChartMetric::Prefill, sample)
            == "offline"@,
{
    reveal_strlit("prefilling");
    reveal_strlit("generating");
    reveal_strlit("offline");
    reveal_strlit("idle");
    reveal_strlit("last result");
    reveal_strlit("waiting");
    assert("prefilling"@[0] == 'p' && "generating"@[0] == 'g' && "offline"@[0] == 'o');
    assert("idle"@[0] == 'i' && "last result"@[0] == 'l' && "waiting"@[0] == 'w');
}
} // verus!
