use mlxtop::binary64::Binary64;
use mlxtop::chart::{ChartMetric, ChartPoint};
use mlxtop::chart_panel::{chart_panel, chart_rate_value, ChartBody};
use mlxtop::collector::CollectorView;
use mlxtop::interface::{filtered_journal_events, App, KeyCode, KeyPress};
use mlxtop::journal::{EventKind, JournalFilter, SignalEvent};
use mlxtop::labels::llm_generation_rate_label;
use mlxtop::layout::{
    banner_height, centred_margin, chart_name, fits_cards, header_widths, help_share,
    overview_plan, panel_title, screen_size, strip, tab_labels, table_widths, Breadth, Panel,
    ScreenSize,
};
use mlxtop::model::{ProcessMemory, Sample, TelemetrySource};
use mlxtop::panels::{
    alert_banner, cache_card, compact_operations, compact_top_card, control_hints,
    counters_are_missing, diagnosis_card, empty_table_text, gpu_card, help_lines, journal_header,
    journal_page, memory_card, model_card, paging_card, process_cells, process_memory_lines,
    queue_line, signal_log, small_screen_lines, table_headers, table_mode, table_title, table_window, throughput_card,
    top_diagnosis_card, top_header, top_model_card, Card, MetricCard, TableMode, TextLine,
};
use mlxtop::processes::filtered_llm_processes;
use mlxtop::thresholds::{Thresholds, Tone};
use std::collections::VecDeque;

fn test_app(tab: usize) -> App {
    let mut app = App::new(1, Thresholds::default());
    app.collector.current.total_memory = 1;
    app.tab = tab;
    app
}

fn view_with_impact(impact: &str, updated: &str) -> CollectorView {
    CollectorView {
        current: Sample { impact: impact.into(), updated: updated.into(), ..Sample::default() },
        generation_history: VecDeque::new(),
        prefill_history: VecDeque::new(),
        cache_history: VecDeque::new(),
        load_history: VecDeque::new(),
        swap_history: VecDeque::new(),
        gpu_history: VecDeque::new(),
        signals: VecDeque::new(),
    }
}

fn press(character: char) -> KeyPress {
    KeyPress { code: KeyCode::Char(character), control: false, alt: false, pressed: true }
}

fn write_line(out: &mut String, line: &TextLine) {
    for piece in &line.pieces {
        out.push_str(&piece.text);
    }
    out.push('\n');
}

fn write_lines(out: &mut String, lines: &[TextLine]) {
    for line in lines {
        write_line(out, line);
    }
}

fn write_card(out: &mut String, card: &Card) {
    write_line(out, &card.title);
    write_lines(out, &card.lines);
}

fn write_metric(out: &mut String, card: &MetricCard) {
    write_line(out, &card.title);
    write_line(out, &card.headline);
    if let Some(gauge) = &card.gauge {
        out.push_str(&gauge.label);
    }
    write_line(out, &card.details);
}

fn write_title(out: &mut String, panel: Panel) {
    out.push_str(panel_title(panel));
    out.push('\n');
}

fn write_chart(out: &mut String, app: &App, metric: ChartMetric, grid: bool) {
    let history = match metric {
        ChartMetric::Generation => &app.collector.generation_history,
        ChartMetric::Prefill => &app.collector.prefill_history,
        ChartMetric::Cache => &app.collector.cache_history,
        ChartMetric::Memory => &app.collector.load_history,
        ChartMetric::Swap => &app.collector.swap_history,
        ChartMetric::Gpu => &app.collector.gpu_history,
    };
    let sample = &app.collector.current;
    let panel = chart_panel(history, metric, sample, 45, 12, app.interval, app.thresholds);
    out.push_str(chart_name(metric, grid));
    out.push_str(&panel.current);
    out.push_str(&panel.stats);
    match panel.body {
        ChartBody::Empty(text) => out.push_str(&text),
        ChartBody::Rows(rows) => {
            for row in rows {
                out.push_str(&row.label);
                for run in row.runs {
                    out.push_str(&run.text);
                }
                out.push('\n');
            }
        }
    }
    out.push('\n');
}

/// The texts that a screen of a size shows.
fn shown(app: &App, width: u16, height: u16) -> String {
    let mut out = String::new();
    let size = screen_size(width, height);
    if size == ScreenSize::TooSmall {
        write_lines(&mut out, &small_screen_lines(width, height));
        return out;
    }
    let sample = &app.collector.current;
    let columns = width as usize;
    for label in tab_labels(width) {
        out.push_str(label);
        out.push('\n');
    }
    write_line(&mut out, &control_hints(app.tab, header_widths(width).2, app.paused));
    match app.tab {
        0 => {
            if fits_cards(width) {
                write_card(&mut out, &model_card(sample, columns * 27 / 100 - 4, 0));
                write_card(&mut out, &throughput_card(sample));
                write_card(&mut out, &diagnosis_card(sample, columns * 39 / 100 - 4));
                write_metric(&mut out, &memory_card(sample, app.thresholds, columns / 4 - 4));
                write_metric(&mut out, &paging_card(sample, app.thresholds, columns / 4 - 4));
                write_metric(&mut out, &gpu_card(sample, app.thresholds, columns / 4 - 4));
                write_metric(&mut out, &cache_card(sample, columns / 4 - 4));
            } else {
                write_title(&mut out, Panel::Operations);
                write_lines(&mut out, &compact_operations(sample, columns - 4, 0));
            }
            for metric in strip() {
                write_chart(&mut out, app, metric, size == ScreenSize::Grid);
            }
            write_title(&mut out, Panel::ProcessMemory);
            write_lines(&mut out, &process_memory_lines(sample));
            write_title(&mut out, Panel::Queue);
            write_line(&mut out, &queue_line(sample));
            if size == ScreenSize::Grid || overview_plan(width, height - 2).log {
                write_title(&mut out, Panel::RecentJournal);
                write_lines(&mut out, &signal_log(&app.collector.signals, 2));
            }
            if counters_are_missing(sample) {
                out.push_str("counters unavailable");
            }
        }
        1 => {
            let listed = filtered_llm_processes(&sample.llm_processes, &app.top_filter, app.top_sort);
            write_title(&mut out, Panel::ProcessMonitor);
            let header = top_header(listed.len(), app.top_sort, &app.top_filter, app.top_filtering);
            write_lines(&mut out, &header);
            if fits_cards(width) {
                write_card(&mut out, &top_model_card(sample, columns / 3 - 4, 0));
                write_card(&mut out, &throughput_card(sample));
                write_card(&mut out, &top_diagnosis_card(sample, columns / 3 - 4));
            } else {
                write_card(&mut out, &compact_top_card(sample, columns - 4));
            }
            let mode = table_mode(width);
            let window = table_window(listed.len(), app.top_selected, height - 12);
            out.push_str(&table_title(app.top_sort, window, listed.len()));
            for header in table_headers(mode) {
                out.push_str(header);
                out.push(' ');
            }
            for process in &listed {
                write_line(&mut out, &process_cells(process, sample, app.thresholds, mode));
            }
            if listed.is_empty() {
                out.push_str(empty_table_text(&app.top_filter));
            }
        }
        _ => {
            let events = filtered_journal_events(&app.collector.signals, app.journal_filter);
            write_title(&mut out, Panel::EventJournal);
            let total = app.collector.signals.len();
            write_lines(&mut out, &journal_header(&events, total, app.journal_filter, 0));
            let room = (height - 9) as usize;
            let page = journal_page(&events, app.journal_filter, app.journal_scroll, room);
            out.push_str(&page.title);
            write_lines(&mut out, &page.lines);
        }
    }
    if let Some(alert) = &app.alert {
        if banner_height(width, height - 2).is_some() {
            write_lines(&mut out, &alert_banner(alert));
        }
    }
    if app.help {
        write_lines(&mut out, &help_lines());
    }
    out
}

#[test]
fn paging_alert_banner_shows_until_acknowledged_or_reset() {
    let mut app = test_app(0);
    app.collector.current.impact = "LLM READY".into();
    app.receive(view_with_impact("HEAVY PAGING", "00:52:54"));
    assert!(app.alert.is_some());

    let rendered = shown(&app, 180, 50);
    assert!(rendered.contains("⚠ HEAVY PAGING"));
    assert!(rendered.contains("a acknowledge"));

    app.handle_key(press('a'));
    assert!(app.alert.is_none());
    let rendered = shown(&app, 180, 50);
    assert!(!rendered.contains("⚠ HEAVY PAGING"));

    // A fresh episode after recovery raises again; reset retires it.
    app.receive(view_with_impact("LLM READY", "00:52:55"));
    app.receive(view_with_impact("SWAP THRASHING", "00:52:56"));
    assert_eq!(app.alert_bells, 2);
    app.handle_key(press('r'));
    assert!(app.alert.is_none());
    let rendered = shown(&app, 180, 50);
    assert!(!rendered.contains("⚠ SWAP THRASHING"));
}

#[test]
fn overview_uses_semantic_state_labels_instead_of_color_names() {
    let mut app = test_app(0);
    app.collector.current.pressure = "GREEN".into();
    app.collector.current.pressure_meaning = "normal".into();
    app.collector.current.pressure_tone = Tone::Green;
    app.collector.current.availability = Some(50);
    let rendered = shown(&app, 180, 50);

    assert!(rendered.contains("PRESSURE normal"));
    assert!(!rendered.contains("GREEN"));
    assert!(!rendered.contains("YELLOW"));
    assert!(!rendered.contains("RED"));
}

#[test]
fn overview_renders_stepped_traces_instead_of_braille_points() {
    let mut app = test_app(0);
    app.collector.load_history = VecDeque::from([
        ChartPoint::new(Some(10), Tone::Green),
        ChartPoint::new(Some(100), Tone::Red),
    ]);
    let rendered = shown(&app, 180, 50);

    assert!(rendered.contains('━'));
    assert!(!rendered.contains('⠁'));
}

#[test]
fn prompt_counts_are_visible_and_request_events_use_the_llm_filter() {
    let mut app = test_app(0);
    app.collector.current.llm_prompt_tokens = Some(32768);
    for (width, height) in [(80, 24), (100, 40), (180, 50)] {
        let rendered = shown(&app, width, height);
        assert!(
            rendered.contains("PROMPT 32.8k"),
            "prompt missing at {width}x{height}"
        );
    }
    assert!(JournalFilter::Llm.matches(EventKind::from_state("PROMPT")));
    let reported = Sample {
        llm_source: TelemetrySource::Report,
        llm_generation_tps: Some(Binary64 { bits: 30.0_f64.to_bits() }),
        ..Sample::default()
    };
    assert!(llm_generation_rate_label(&reported).starts_with("LAST GEN"));
    assert_eq!(chart_rate_value(&reported, ChartMetric::Generation), None);
}

#[test]
fn recent_journal_keeps_two_event_rows_after_header_compaction() {
    let mut app = test_app(0);
    app.collector.signals = VecDeque::from([
        SignalEvent {
            time: "12:00:00".into(),
            recorded_at: 0,
            kind: EventKind::Llm,
            state: "LLM".into(),
            summary: "request started".into(),
            tone: Tone::Cyan,
        },
        SignalEvent {
            time: "12:00:01".into(),
            recorded_at: 0,
            kind: EventKind::Gpu,
            state: "GPU".into(),
            summary: "compute burst started".into(),
            tone: Tone::Yellow,
        },
    ]);
    let rendered = shown(&app, 180, 50);
    assert!(rendered.contains("request started"));
    assert!(rendered.contains("compute burst started"));
    assert!(!rendered.contains("Live · sampling system counters"));
}

#[test]
fn overview_uses_a_compact_operational_strip_on_medium_terminals() {
    let rendered = shown(&test_app(0), 100, 40);
    for label in [
        "LLM OPERATIONS",
        "STATUS",
        "RATE",
        "DIAG",
        "generation",
        "GPU",
        "memory",
        "paging",
    ] {
        assert!(rendered.contains(label), "missing compact label: {label}");
    }
    assert!(!rendered.contains("Terminal too small"));
}

#[test]
fn overview_remains_useful_at_a_classic_eighty_column_size() {
    let rendered = shown(&test_app(0), 80, 24);
    for label in ["LLM OPERATIONS", "generation", "GPU", "memory", "paging"] {
        assert!(rendered.contains(label), "missing 80-column label: {label}");
    }
    assert!(!rendered.contains("This dashboard needs"));
}

#[test]
fn process_table_adapts_to_medium_terminals() {
    let rendered = shown(&test_app(1), 100, 40);
    for label in ["PROCESS MONITOR", "THROUGHPUT", "PAGEIN/s", "STATE"] {
        assert!(rendered.contains(label), "missing process label: {label}");
    }
    assert!(!rendered.contains("MEM%"));
}

#[test]
fn process_view_remains_scannable_at_eighty_columns() {
    let rendered = shown(&test_app(1), 80, 24);
    for label in ["WORKLOAD SUMMARY", "RATE", "LLM PROCESSES", "PROCESS"] {
        assert!(
            rendered.contains(label),
            "missing narrow process label: {label}"
        );
    }
    assert!(!rendered.contains("This dashboard needs"));
}

#[test]
fn help_remains_readable_at_eighty_columns() {
    let mut app = test_app(0);
    app.help = true;
    let rendered = shown(&app, 80, 24);
    for label in ["KEYBOARD", "cycle Overview", "change refresh interval"] {
        assert!(
            rendered.contains(label),
            "missing narrow help label: {label}"
        );
    }
}

#[test]
fn overview_renders_the_first_glance_cards_at_reference_size() {
    let rendered = shown(&test_app(0), 180, 50);
    for label in [
        "MODEL / STATE",
        "THROUGHPUT",
        "DIAGNOSIS",
        "MEMORY",
        "PAGING / I/O",
        "GPU / COMPUTE",
        "CACHE / QUEUE",
        "generation",
        "prefill",
        "cache",
        "queue",
        "process memory",
        "pause",
    ] {
        assert!(rendered.contains(label), "missing rendered label: {label}");
    }
    assert!(!rendered.contains("/ local LLM performance"));
    assert!(!rendered.contains("LLM READY  HEALTHY"));
}

#[test]
fn overview_labels_os_process_memory_and_growth() {
    let mut app = test_app(0);
    app.collector.current.process_memory = Some(ProcessMemory {
        pid: 37966,
        started: 1,
        resident: 16 * 1024 * 1024 * 1024,
        footprint: 17 * 1024 * 1024 * 1024,
        peak: 29 * 1024 * 1024 * 1024,
        at: 0,
    });
    app.collector.current.process_memory_growth = Some(-1024 * 1024);
    let screen = shown(&app, 180, 50);
    for label in [
        "PROCESS 37966",
        "footprint 17.0 GiB",
        "peak 29.0 GiB",
        "growth -1.0 MiB/s",
        "OS",
    ] {
        assert!(screen.contains(label), "missing {label}");
    }
    app.collector.current.process_memory = None;
    let screen = shown(&app, 180, 50);
    assert!(!screen.contains("PROCESS 37966"));
    assert!(!screen.contains("growth -1.0 MiB/s"));
}

#[test]
fn the_throughput_card_holds_the_process_memory() {
    let mut sample = Sample::default();
    assert_eq!(throughput_card(&sample).lines.len(), 3);
    sample.process_memory = Some(ProcessMemory {
        pid: 7,
        started: 1,
        resident: 1,
        footprint: 2048,
        peak: 4096,
        at: 0,
    });
    let mut card = String::new();
    write_lines(&mut card, &throughput_card(&sample).lines[3..]);
    assert_eq!(card, "PROCESS 7 · footprint 2.0 KiB\npeak 4.0 KiB · growth — · OS\n");
}

#[test]
fn compact_rows_keep_unavailable_paging_unavailable() {
    let mut app = test_app(0);
    app.collector.current.rate_ready = true;
    assert!(shown(&app, 80, 24).contains("PAGE sampling"));
    app.collector.current.swap_available = true;
    assert!(shown(&app, 80, 24).contains("PAGE sampling"));
    app.tab = 1;
    assert!(shown(&app, 80, 24).contains("PAGE sampling"));
    app.collector.current.vm_available = true;
    assert!(shown(&app, 80, 24).contains("PAGE 0 B/s"));
    app.tab = 0;
    assert!(shown(&app, 80, 24).contains("PAGE 0 B/s"));
    // Without swap space a rate of zero is still measured.
    app.collector.current.swap_available = false;
    assert!(shown(&app, 80, 24).contains("PAGE 0 B/s"));
    app.tab = 1;
    assert!(shown(&app, 80, 24).contains("PAGE 0 B/s"));
}

#[test]
fn the_journal_waits_for_its_first_event() {
    let journal = shown(&test_app(2), 180, 50);
    assert!(journal.contains("EVENT JOURNAL · IMPACT TIMELINE"));
    assert!(journal.contains("0 ALL events · 0 total"));
    assert!(journal.contains("waiting for the first recorded event · age —"));
}

#[test]
fn small_screens_say_what_they_need() {
    let rendered = shown(&test_app(0), 71, 24);
    assert!(rendered.contains("This dashboard needs at least 72×24 terminal cells."));
    assert!(rendered.contains("Current size: 71×24"));
    assert!(shown(&test_app(0), 72, 23).contains("Current size: 72×23"));
    let mut app = test_app(0);
    app.collector.current.total_memory = 0;
    assert!(!shown(&app, 80, 24).contains("counters unavailable"));
    app.collector.current.updated = "12:00:00".into();
    assert!(shown(&app, 80, 24).contains("counters unavailable"));
}

#[test]
fn areas_are_divided_by_their_size() {
    assert_eq!(header_widths(139), (17, 30, 18));
    assert_eq!(header_widths(140), (25, 40, 40));
    assert_eq!(help_share(119, 50), (94, 88));
    assert_eq!(help_share(120, 36), (60, 58));
    assert_eq!(centred_margin(94), 3);
    assert_eq!(banner_height(19, 10), None);
    assert_eq!(banner_height(20, 2), Some(2));
    assert_eq!(banner_height(80, 40), Some(3));
    assert!(!fits_cards(119) && fits_cards(120));
    for mode in [TableMode::Narrow, TableMode::Medium, TableMode::Wide] {
        assert_eq!(table_widths(mode).len(), table_headers(mode).len());
    }
    assert_eq!(table_widths(TableMode::Narrow)[1], Breadth::AtLeast(22));
    assert_eq!(strip().len(), 6);
}
