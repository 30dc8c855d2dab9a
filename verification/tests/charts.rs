use mlxtop::binary64::Binary64;
use mlxtop::chart::{
    chart_columns, chart_display_value, chart_plot_values, chart_scale_max, chart_stat_label,
    chart_stats, chart_window_label, normalize_chart_value, trace_connector, trace_point,
    ChartMetric, ChartPoint, TraceCell, TraceStyle, GENERATION_CHART_SCALE_MAX,
    PREFILL_CHART_SCALE_MAX, SWAP_CHART_SCALE,
};
use mlxtop::chart_panel::{chart_inactive_rate_label, chart_rate_value};
use mlxtop::model::{Sample, TelemetrySource};
use mlxtop::thresholds::{Thresholds, Tone};
use mlxtop::units::MIB;
use std::collections::VecDeque;

fn number(value: f64) -> Binary64 {
    Binary64 { bits: value.to_bits() }
}

#[test]
fn chart_colors_follow_load_thresholds() {
    assert_eq!(ChartMetric::Memory.tone(69, Thresholds::default()), Tone::Green);
    assert_eq!(ChartMetric::Memory.tone(70, Thresholds::default()), Tone::Yellow);
    assert_eq!(ChartMetric::Memory.tone(85, Thresholds::default()), Tone::Red);
    assert_eq!(ChartMetric::Swap.tone(0, Thresholds::default()), Tone::Green);
    assert_eq!(
        ChartMetric::Swap.tone(1024 * 1024, Thresholds::default()),
        Tone::Yellow
    );
    assert_eq!(
        ChartMetric::Swap.tone(16 * 1024 * 1024, Thresholds::default()),
        Tone::Red
    );
}

#[test]
fn chart_stats_use_normalized_values_and_keep_the_window_label_honest() {
    let history = VecDeque::from([
        ChartPoint::new(Some(0), Tone::Green),
        ChartPoint::new(Some(16 * 1024 * 1024), Tone::Red),
        ChartPoint::new(None, Tone::Muted),
    ]);
    // Paging stats stay in raw bytes/s so they match the live label.
    assert_eq!(
        chart_stats(&history, ChartMetric::Swap),
        (Some(8 * 1024 * 1024), Some(16 * 1024 * 1024))
    );
    assert_eq!(
        chart_stat_label(ChartMetric::Swap, Some(57 * 1024 + 640)),
        "57.6 KiB/s"
    );
    assert_eq!(
        chart_window_label(history.len(), 60),
        "3m"
    );
}

#[test]
fn composite_chart_normalizes_rate_indicators() {
    assert_eq!(normalize_chart_value(ChartMetric::Memory, 72), 72);
    assert_eq!(normalize_chart_value(ChartMetric::Gpu, 120), 100);
    assert_eq!(normalize_chart_value(ChartMetric::Cache, 120), 100);
    assert_eq!(normalize_chart_value(ChartMetric::Swap, 0), 0);
    // Log scale: small bursts stay visible, warn lands mid-plot, the
    // critical rate fills the axis.
    assert_eq!(
        normalize_chart_value(ChartMetric::Swap, 57 * 1024 + 640),
        12
    );
    assert_eq!(normalize_chart_value(ChartMetric::Swap, MIB), 51);
    assert_eq!(normalize_chart_value(ChartMetric::Swap, 8 * MIB), 88);
    assert_eq!(
        normalize_chart_value(ChartMetric::Swap, SWAP_CHART_SCALE),
        100
    );
    assert_eq!(normalize_chart_value(ChartMetric::Swap, 64 * MIB), 100);
}

#[test]
fn generation_chart_uses_a_stable_scale() {
    let history = VecDeque::from([
        ChartPoint::new(Some(239), Tone::Cyan),
        ChartPoint::new(Some(302), Tone::Cyan),
    ]);
    assert_eq!(
        chart_scale_max(&history, ChartMetric::Generation),
        GENERATION_CHART_SCALE_MAX
    );
    assert_eq!(
        chart_display_value(ChartMetric::Generation, 175, GENERATION_CHART_SCALE_MAX),
        17
    );
    assert_eq!(chart_stat_label(ChartMetric::Generation, Some(239)), "23.9");
    assert_eq!(
        chart_scale_max(&history, ChartMetric::Prefill),
        PREFILL_CHART_SCALE_MAX
    );
    assert_eq!(
        chart_display_value(ChartMetric::Prefill, 1000, PREFILL_CHART_SCALE_MAX),
        50
    );
    assert_eq!(chart_stat_label(ChartMetric::Prefill, Some(1098)), "109.8");
    assert_eq!(chart_stat_label(ChartMetric::Cache, Some(67)), "67%");
}

#[test]
fn inactive_rate_chart_identifies_the_other_active_phase() {
    let prefilling = Sample {
        llm_status: "prefilling".into(),
        ..Sample::default()
    };
    assert_eq!(
        chart_inactive_rate_label(ChartMetric::Generation, &prefilling),
        "prefill active"
    );
    assert_eq!(
        chart_inactive_rate_label(ChartMetric::Prefill, &prefilling),
        "active"
    );

    let generating = Sample {
        llm_status: "generating".into(),
        ..Sample::default()
    };
    assert_eq!(
        chart_inactive_rate_label(ChartMetric::Prefill, &generating),
        "decode active"
    );
}

#[test]
fn stepped_chart_uses_thin_trace_bars() {
    assert_eq!(trace_point(0, 4), Some((3, '━')));
    assert_eq!(trace_point(1, 4), Some((3, '━')));
    assert_eq!(trace_point(50, 4), Some((2, '━')));
    assert_eq!(trace_point(100, 4), Some((0, '━')));
    assert_eq!(trace_point(100, 0), None);
}

#[test]
fn stepped_chart_connectors_follow_the_level_being_crossed() {
    let mut cells = vec![
        vec![
            TraceCell {
                glyph: ' ',
                tone: Tone::Muted,
            };
            3
        ];
        7
    ];
    trace_connector(
        &mut cells,
        1,
        0,
        6,
        TraceStyle {
            metric: ChartMetric::Gpu,
            previous_tone: Tone::Red,
            tone: Tone::Green,
            thresholds: Thresholds::default(),
        },
    );
    assert_eq!(cells[0][1].glyph, '┓');
    assert_eq!(cells[0][1].tone, Tone::Red);
    assert_eq!(cells[1][1].glyph, '┃');
    assert_eq!(cells[1][1].tone, Tone::Yellow);
    assert_eq!(cells[2][1].tone, Tone::Green);
    assert_eq!(cells[6][1].glyph, '┗');
    assert_eq!(cells[6][1].tone, Tone::Green);

    trace_connector(
        &mut cells,
        2,
        6,
        0,
        TraceStyle {
            metric: ChartMetric::Gpu,
            previous_tone: Tone::Green,
            tone: Tone::Yellow,
            thresholds: Thresholds::default(),
        },
    );
    assert_eq!(cells[0][2].glyph, '┏');
    assert_eq!(cells[0][2].tone, Tone::Yellow);
    assert_eq!(cells[1][2].tone, Tone::Yellow);
    assert_eq!(cells[2][2].tone, Tone::Green);
    assert_eq!(cells[6][2].glyph, '┛');
    assert_eq!(cells[6][2].tone, Tone::Green);
}

#[test]
fn chart_columns_keep_samples_in_a_scrolling_ring_buffer() {
    let history = VecDeque::from([
        ChartPoint::new(Some(10), Tone::Green),
        ChartPoint::new(Some(20), Tone::Yellow),
    ]);
    let columns = chart_columns(&history, 6);
    assert_eq!(
        columns.iter().map(|point| point.value).collect::<Vec<_>>(),
        vec![None, None, None, None, Some(10), Some(20)]
    );
    assert_eq!(columns[4].tone, Tone::Green);
    assert_eq!(columns[5].tone, Tone::Yellow);
}

#[test]
fn chart_columns_keep_the_visible_tail_and_its_captured_tones() {
    let history = VecDeque::from([
        ChartPoint::new(Some(10), Tone::Green),
        ChartPoint::new(Some(20), Tone::Yellow),
        ChartPoint::new(Some(30), Tone::Red),
    ]);
    let columns = chart_columns(&history, 2);

    assert_eq!(
        columns.iter().map(|point| point.value).collect::<Vec<_>>(),
        vec![Some(20), Some(30)]
    );
    assert_eq!(columns[0].tone, Tone::Yellow);
    assert_eq!(columns[1].tone, Tone::Red);
}

#[test]
fn chart_columns_keep_gaps_disconnected_when_scrolled() {
    let history = VecDeque::from([
        ChartPoint::new(Some(10), Tone::Green),
        ChartPoint::new(None, Tone::Muted),
        ChartPoint::new(Some(30), Tone::Green),
    ]);
    let columns = chart_columns(&history, 4);
    assert_eq!(
        columns.iter().map(|point| point.value).collect::<Vec<_>>(),
        vec![None, Some(10), None, Some(30)]
    );
    assert!(columns[2].break_before);
    assert!(!columns[3].break_before);
}

#[test]
fn chart_columns_render_all_missing_data_without_dividing_by_zero() {
    let history = VecDeque::from([
        ChartPoint::new(None, Tone::Muted),
        ChartPoint::new(None, Tone::Muted),
        ChartPoint::new(None, Tone::Muted),
        ChartPoint::new(None, Tone::Muted),
        ChartPoint::new(None, Tone::Muted),
    ]);
    let columns = chart_columns(&history, 3);
    assert_eq!(columns.len(), 3);
    assert!(columns.iter().all(|point| point.value.is_none()));
}

#[test]
fn bar_chart_keeps_each_sample_tone_independent() {
    let history = VecDeque::from([
        ChartPoint::new(Some(69), ChartMetric::Memory.tone(69, Thresholds::default())),
        ChartPoint::new(Some(85), ChartMetric::Memory.tone(85, Thresholds::default())),
    ]);
    assert_eq!(history[0].tone, Tone::Green);
    assert_eq!(history[1].tone, Tone::Red);
}

#[test]
fn chart_smoothing_uses_dynamic_visual_resolution() {
    let history = VecDeque::from([
        ChartPoint::new(Some(100), Tone::Red),
        ChartPoint::new(Some(99), Tone::Red),
        ChartPoint::new(Some(98), Tone::Red),
        ChartPoint::new(Some(80), Tone::Yellow),
    ]);
    assert_eq!(
        chart_plot_values(&history, ChartMetric::Gpu, 10),
        vec![Some(100), Some(100), Some(100), Some(80)]
    );
    assert_eq!(
        chart_plot_values(&history, ChartMetric::Gpu, 20),
        vec![Some(100), Some(100), Some(98), Some(80)]
    );

    let generation_history = VecDeque::from([
        ChartPoint::new(Some(300), Tone::Cyan),
        ChartPoint::new(Some(299), Tone::Cyan),
        ChartPoint::new(Some(250), Tone::Cyan),
    ]);
    assert_eq!(
        chart_plot_values(&generation_history, ChartMetric::Generation, 10),
        vec![Some(300), Some(300), Some(250)]
    );

    let burst_history = VecDeque::from([
        ChartPoint::new(Some(0), Tone::Green),
        ChartPoint::new(Some(100), Tone::Red),
        ChartPoint::new(Some(0), Tone::Green),
        ChartPoint::new(Some(100), Tone::Red),
    ]);
    assert_eq!(
        chart_plot_values(&burst_history, ChartMetric::Gpu, 10),
        vec![Some(0), Some(100), Some(0), Some(100)]
    );
}

#[test]
fn chart_smoothing_resets_after_missing_data() {
    let history = VecDeque::from([
        ChartPoint::new(Some(100), Tone::Red),
        ChartPoint::new(None, Tone::Muted),
        ChartPoint::new(Some(99), Tone::Red),
    ]);

    assert_eq!(
        chart_plot_values(&history, ChartMetric::Gpu, 10),
        vec![Some(100), None, Some(99)]
    );
}

#[test]
fn rate_charts_skip_aggregate_and_log_fallbacks() {
    let sample = Sample {
        llm_source: TelemetrySource::Live,
        llm_status: "prefilling".into(),
        llm_generation_tps: Some(number(23.5)),
        llm_prefill_tps: Some(number(14.1)),
        ..Sample::default()
    };
    assert_eq!(chart_rate_value(&sample, ChartMetric::Generation), None);
    assert_eq!(chart_rate_value(&sample, ChartMetric::Prefill), None);

    let active = Sample {
        llm_source: TelemetrySource::Live,
        llm_generation_tps: Some(number(23.5)),
        llm_generation_tps_live: true,
        ..Sample::default()
    };
    assert_eq!(
        chart_rate_value(&active, ChartMetric::Generation),
        Some(235)
    );

    let log_sample = Sample {
        llm_source: TelemetrySource::Log,
        llm_generation_tps: Some(number(23.5)),
        ..Sample::default()
    };
    assert_eq!(chart_rate_value(&log_sample, ChartMetric::Generation), None);
}
