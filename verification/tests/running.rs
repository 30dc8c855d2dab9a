use mlxtop::chart::{chart_cells, chart_columns_for_plot, tone_runs, ChartMetric, ChartPoint, TraceCell};
use mlxtop::chart_panel::{chart_panel, ChartBody};
use mlxtop::cli::{help_text, parse_arguments, ArgumentError, Invocation, NumberError, Options, TerminalGuard};
use mlxtop::collector::{linux_machine, mac_machine, Collector, Machine, MacFacts, Readings, SystemReadings};
use mlxtop::diagnostics::{
    diagnostics_location, diagnostics_timestamp_ms, is_full, log_line, sample_details, LogLocation,
};
use mlxtop::interface::{filtered_journal_events, App, KeyCode, KeyPress, SamplerCommand};
use mlxtop::layout::{overview_plan, screen_size, ScreenSize};
use mlxtop::journal::{journal_entries, EventKind, JournalFilter, SignalEvent};
use mlxtop::model::{LlmTelemetry, MetalTelemetry, ProcessMemory, Sample, TelemetrySource};
use mlxtop::panels::{
    compact_operations, control_hints, diagnosis_card, help_lines, journal_page, memory_card,
    model_card, paging_card, process_cells, signal_log, table_headers, table_mode, table_title,
    table_window, throughput_card, Paint, TextLine,
};
use mlxtop::processes::{
    filtered_llm_processes, is_llm_process, parse_processes, process_provider, TopSort,
};
use mlxtop::report::static_report;
use mlxtop::requests::{new_requests, RequestUsage};
use mlxtop::sampling::{process_memory_growth, should_read_log, LinuxReadings, LlmLogStats, MacReadings};
use mlxtop::schedule::{Request, Schedule};
use mlxtop::system::{
    command_u64, linux_cpu_architecture, linux_nvidia_info, linux_page_size, linux_thermal_celsius,
    linux_total_memory, now_clock, parse_gpu, parse_thermal,
};
use mlxtop::thresholds::{Config, Thresholds, Tone};
use mlxtop::binary64::Binary64;
use std::collections::VecDeque;

const SECOND: u64 = 1_000_000_000;

fn number(value: f64) -> Binary64 {
    Binary64 { bits: value.to_bits() }
}

fn plain(lines: &[TextLine]) -> String {
    lines
        .iter()
        .map(|line| line.pieces.iter().map(|piece| piece.text.as_str()).collect::<String>() + "\n")
        .collect()
}

fn args(list: &[&str]) -> Vec<String> {
    list.iter().map(|arg| arg.to_string()).collect()
}

#[test]
fn arguments_replace_the_settings() {
    let run = |list: &[&str]| match parse_arguments(&args(list), 1, 300) {
        Ok(Invocation::Run(options)) => options,
        other => panic!("{other:?}"),
    };
    assert_eq!(run(&[]), Options { interval: 1, history: 300, once: false });
    assert_eq!(
        run(&["5", "-n", "20", "--once"]),
        Options { interval: 5, history: 20, once: true }
    );
    assert_eq!(run(&["-1", "-i", "+60"]), Options { interval: 60, history: 300, once: true });
    assert!(matches!(parse_arguments(&args(&["-i", "5", "-V", "x"]), 1, 300), Ok(Invocation::Version)));
    assert!(matches!(parse_arguments(&args(&["--help"]), 1, 300), Ok(Invocation::Help)));
}

#[test]
fn refused_arguments_say_why() {
    let message = |list: &[&str]| match parse_arguments(&args(list), 1, 300) {
        Err(error) => error.message(),
        Ok(invocation) => panic!("{invocation:?}"),
    };
    assert_eq!(message(&["-i"]), "missing interval");
    assert_eq!(message(&["--history"]), "missing history");
    assert_eq!(message(&["x"]), "invalid digit found in string");
    assert_eq!(message(&["-i", ""]), "cannot parse integer from empty string");
    assert_eq!(message(&["-n", "99999999999999999999"]), "number too large to fit in target type");
    assert_eq!(message(&["-i", "-"]), "invalid digit found in string");
    assert_eq!(message(&["5", "6"]), "unknown option: 6");
    assert_eq!(message(&["--odd"]), "unknown option: --odd");
    assert_eq!(message(&["0"]), "interval must be between 1 and 60 seconds");
    assert_eq!(message(&["-n", "19"]), "history must be between 20 and 3600");
    assert!(matches!(
        parse_arguments(&args(&["-i", "1x"]), 1, 300),
        Err(ArgumentError::Number(NumberError::InvalidDigit))
    ));
    for text in ["", "+", "-", "12", "+7", "-3", "1x", "18446744073709551616", "9999999999999999999999x"] {
        let ours = parse_arguments(&args(&["-i", text]), 1, 300);
        match (ours, text.parse::<u64>()) {
            (Err(ArgumentError::Number(_)), Err(error)) => {
                assert_eq!(message(&["-i", text]), error.to_string(), "{text}");
            }
            (Err(ArgumentError::Number(error)), Ok(_)) => panic!("{text}: {error:?}"),
            (_, theirs) => assert!(theirs.is_ok(), "{text}"),
        }
    }
    assert!(help_text(true).contains("~/.local/state/mlxtop/mlxtop.log (override"));
    assert!(help_text(false).starts_with("Usage: mlxtop [refresh-seconds] [options]\n\nOptions:"));
    let mut guard = TerminalGuard::new();
    assert!(guard.active);
    guard.disarm();
    assert!(!guard.active);
}

fn linux_readings(at: u64, swapped: u64) -> Readings {
    Readings {
        system: SystemReadings::Linux(LinuxReadings {
            meminfo: Some(
                "MemTotal: 1000 kB\nMemAvailable: 250 kB\nSwapTotal: 100 kB\nSwapFree: 40 kB\n".into(),
            ),
            stalls: Some("full avg10=0.00 avg60=0.00\n".into()),
            vmstat: Some(format!("pswpin {swapped}\npswpout 0\n")),
            gpu: Some("GPU, 95, 1, 2, 50".into()),
            thermal_zones: vec!["45000\n".into(), "-1".into()],
        }),
        processes: parse_processes("7 2048 50.0 1.0 S 3 ollama /usr/bin/ollama serve\n"),
        process_memory: None,
        live: None,
        log: LlmLogStats::default(),
        requests: Vec::new(),
        clock: "12:00:00".into(),
        at,
        now: at,
    }
}

fn collector(history: usize) -> Collector {
    let machine = Machine { page_size: 4096, total_memory: 0, metal: MetalTelemetry::nothing() };
    Collector::new(history, &Config::default(), machine)
}

#[test]
fn the_first_sample_has_no_rates_and_the_second_has() {
    let mut collector = collector(20);
    collector.sample(&linux_readings(0, 10));
    assert_eq!(collector.current.impact, "SAMPLING");
    assert!(!collector.current.rate_ready);
    assert_eq!(collector.current.total_memory, 1000 * 1024);
    assert_eq!(collector.current.availability, Some(25));
    assert_eq!(collector.current.pressure, "YELLOW");
    assert_eq!(collector.current.swap_used, 60 * 1024);
    assert_eq!(collector.current.llm_provider, "Ollama");
    assert_eq!(collector.current.llm_status, "running");
    assert_eq!(collector.current.llm_model, "ollama");
    assert_eq!(collector.current.thermal, "no warning");
    assert_eq!(collector.swap_history.back().expect("a point").value, None);
    let states: Vec<&str> = collector.signals.iter().map(|event| event.state.as_str()).collect();
    assert_eq!(states, ["SYSTEM", "LLM"]);

    collector.sample(&linux_readings(2 * SECOND, 10 + 1024));
    assert!(collector.current.rate_ready);
    assert_eq!(collector.current.swap_in, 1024 * 4096 / 2);
    assert_eq!(collector.current.impact, "MEMORY STRESS");
    assert_eq!(collector.swap_history.back().expect("a point").value, Some(2 << 20));
    assert_eq!(collector.swap_history.back().expect("a point").tone, Tone::Yellow);
    assert_eq!(collector.gpu_history.back().expect("a point").value, Some(95));
    assert_eq!(collector.load_history.back().expect("a point").value, Some(75));
    assert_eq!(collector.generation_history.back().expect("a point").value, None);
    assert_eq!(collector.current.llm_processes[0].pagein_rate, Some(number(0.0)));
    let events: Vec<(&str, EventKind)> =
        collector.signals.iter().map(|event| (event.state.as_str(), event.kind)).collect();
    assert!(events.contains(&("MEMORY STRESS", EventKind::Pressure)));
    assert!(events.contains(&("PAGING", EventKind::Paging)));
}

#[test]
fn what_a_collector_keeps_is_bounded_and_can_be_reset() {
    let mut collector = collector(20);
    for i in 0..300 {
        collector.sample(&linux_readings(i * SECOND, (i % 2) * 100_000 * i));
    }
    assert_eq!(collector.gpu_history.len(), 20);
    assert!(collector.signals.len() <= 40);
    assert!(collector.correlation.observations.len() <= 16);
    assert_eq!(collector.view().signals.len(), collector.signals.len());
    assert_eq!(collector.view().current.impact, collector.current.impact);
    collector.reset();
    assert!(collector.gpu_history.is_empty());
    assert!(collector.signals.is_empty());
    assert_eq!(collector.current.updated, "waiting");
    assert_eq!(collector.history_limit, 20);
}

#[test]
fn live_answers_go_before_the_log_and_grow_stale() {
    let mut collector = collector(20);
    let mut readings = linux_readings(0, 0);
    readings.processes = parse_processes("");
    readings.log = LlmLogStats {
        model: Some("logged".into()),
        tokens_per_second: Some(number(18.7)),
        ..LlmLogStats::default()
    };
    collector.sample(&readings);
    assert_eq!(collector.current.llm_provider, "oMLX");
    assert_eq!(collector.current.llm_status, "last result");
    assert_eq!(collector.current.llm_model, "logged");
    assert_eq!(collector.current.llm_source, TelemetrySource::Log);
    assert!(!collector.current.llm_generation_tps_live);
    readings.live = Some(LlmTelemetry {
        source: TelemetrySource::Live,
        observed_at: Some(0),
        status: Some("generating".into()),
        model: Some("live".into()),
        generation_tps: Some(number(30.0)),
        generation_tps_live: true,
        ..LlmTelemetry::nothing()
    });
    readings.at = SECOND;
    readings.now = 5 * SECOND;
    collector.sample(&readings);
    assert_eq!(collector.current.llm_model, "live");
    assert_eq!(collector.generation_history.back().expect("a point").value, Some(300));
    readings.at = 2 * SECOND;
    readings.now = 5 * SECOND + 1;
    collector.sample(&readings);
    assert_eq!(collector.current.llm_status, "stale");
    assert_eq!(collector.generation_history.back().expect("a point").value, None);
    assert!(should_read_log(false, false, &None));
    assert!(should_read_log(false, false, &Some("oMLX".into())));
    assert!(!should_read_log(false, false, &Some("Ollama".into())));
    assert!(!should_read_log(false, true, &None));
    assert!(!should_read_log(true, false, &None));
}

#[test]
fn a_mac_is_read_from_its_tools() {
    let facts = MacFacts {
        memory_size: Some("1073741824\n".into()),
        page_size: None,
        architecture: Some(" arm64\n".into()),
        wired_limit: Some("0".into()),
        accelerator: Some("\"model\" = \"Apple M4\"".into()),
    };
    let machine = mac_machine(&facts);
    assert_eq!(machine.total_memory, 1 << 30);
    assert_eq!(machine.page_size, 16_384);
    assert_eq!(machine.metal.architecture.as_deref(), Some("arm64"));
    assert_eq!(machine.metal.resource_limit, None);
    assert_eq!(machine.metal.device_name.as_deref(), Some("Apple M4"));
    let mut collector = Collector::new(20, &Config::default(), machine);
    let mut readings = linux_readings(0, 0);
    readings.system = SystemReadings::Mac(MacReadings {
        pressure_level: Some("4\n".into()),
        memory_pressure: Some("System-wide memory free percentage: 42%\n".into()),
        vm_stat: Some("Pages wired down: 3.\n".into()),
        swap_usage: Some("total = 2.00M  used = 1.00M  free = 1.00M".into()),
        rate_counters: Some("Swapins: 5.\n".into()),
        accelerator: Some("\"Device Utilization %\"=7".into()),
        thermal: Some("CPU_Speed_Limit = 80".into()),
    });
    collector.sample(&readings);
    assert_eq!(collector.current.pressure, "RED");
    assert_eq!(collector.current.availability, Some(42));
    assert_eq!(collector.current.wired, 3 * 16_384);
    assert_eq!(collector.current.swap_total, 2 << 20);
    assert_eq!(collector.current.gpu_util, Some(7));
    assert_eq!(collector.current.thermal, "limited 80%");
    assert_eq!(collector.current.metal.device_name.as_deref(), Some("Apple M4"));
}

#[test]
fn tools_that_print_nothing_leave_defaults() {
    assert_eq!(command_u64(Some(" 12 \n")), Some(12));
    assert_eq!(command_u64(Some("x")), None);
    assert_eq!(command_u64(None), None);
    assert_eq!(linux_page_size(None), 4096);
    assert_eq!(linux_page_size(Some("16384\n")), 16384);
    assert_eq!(linux_total_memory(Some("MemTotal: 2 kB\n")), 2048);
    assert_eq!(linux_total_memory(None), 0);
    assert_eq!(linux_cpu_architecture(Some("\n")), None);
    assert_eq!(now_clock(Some("12:00:00\n")), "12:00:00");
    assert_eq!(now_clock(None), "??:??:??");
    assert!(linux_nvidia_info(None).is_none());
    assert_eq!(linux_thermal_celsius(Some(40), &args(&["55999", "bad"])), Some(55));
    assert_eq!(linux_thermal_celsius(None, &args(&["-5000"])), None);
    assert_eq!(parse_thermal(""), "unavailable");
    assert_eq!(parse_thermal("CPU_Speed_Limit = 100"), "no limit");
    assert_eq!(parse_thermal("Note: No thermal warning level"), "no warning");
    assert_eq!(parse_thermal("trouble"), "warning reported");
    let machine = linux_machine(
        &Some("MemTotal: 4 kB\n".into()),
        &None,
        &Some("x86_64\n".into()),
        &Some("GPU, 1, 2, 3".into()),
    );
    assert_eq!(machine.total_memory, 4096);
    assert_eq!(machine.metal.device_name.as_deref(), Some("GPU"));
    assert_eq!(machine.metal.resource_limit, Some(3 << 20));
}

fn press(code: KeyCode) -> KeyPress {
    KeyPress { code, control: false, alt: false, pressed: true }
}

#[test]
fn keys_switch_and_return() {
    let mut app = App::new(1, Thresholds::default());
    assert_eq!(app.handle_key(press(KeyCode::Char('p'))), Some(SamplerCommand::SetPaused(true)));
    assert_eq!(app.handle_key(press(KeyCode::Char(' '))), Some(SamplerCommand::SetPaused(false)));
    assert_eq!(app.handle_key(press(KeyCode::Char('-'))), Some(SamplerCommand::SetInterval(1)));
    app.interval = 60;
    assert_eq!(app.handle_key(press(KeyCode::Char('+'))), Some(SamplerCommand::SetInterval(60)));
    app.handle_key(press(KeyCode::Left));
    assert_eq!(app.tab, 2);
    app.handle_key(press(KeyCode::Char('[')));
    assert_eq!(app.journal_filter, JournalFilter::System);
    app.handle_key(press(KeyCode::Char(']')));
    assert_eq!(app.journal_filter, JournalFilter::All);
    app.handle_key(press(KeyCode::Down));
    assert_eq!(app.journal_scroll, 1);
    assert_eq!(app.handle_key(press(KeyCode::Char('r'))), Some(SamplerCommand::Reset));
    assert_eq!(app.journal_scroll, 0);
    app.handle_key(press(KeyCode::Tab));
    assert_eq!(app.tab, 0);
    app.request_count = 3;
    app.handle_key(press(KeyCode::PageDown));
    assert_eq!(app.request_scroll, 2);
    app.handle_key(press(KeyCode::Char('h')));
    app.handle_key(press(KeyCode::Char('q')));
    assert!(app.help && !app.quit);
    app.handle_key(press(KeyCode::Esc));
    assert!(!app.help && !app.quit);
    app.handle_key(KeyPress { pressed: false, ..press(KeyCode::Char('q')) });
    assert!(!app.quit);
    app.handle_key(KeyPress { control: true, ..press(KeyCode::Char('c')) });
    assert!(app.quit);
}

#[test]
fn a_filter_is_typed_and_cleared() {
    let mut app = App::new(1, Thresholds::default());
    app.handle_key(press(KeyCode::Char('2')));
    app.handle_key(press(KeyCode::Char('/')));
    for c in "Ollq".chars() {
        app.handle_key(press(KeyCode::Char(c)));
    }
    app.handle_key(press(KeyCode::Backspace));
    app.handle_key(KeyPress { alt: true, ..press(KeyCode::Char('x')) });
    assert_eq!(app.top_filter, "Oll");
    app.handle_key(press(KeyCode::Enter));
    assert!(!app.top_filtering);
    let listing = "1 10 1.0 1.0 S 0 ollama ollama\n2 30 3.0 1.0 S 0 llama-server x\n3 20 2.0 1.0 S 0 ollama b\n";
    let processes = parse_processes(listing).llm_processes;
    let pids = |filter: &str, column| {
        filtered_llm_processes(&processes, filter, column).iter().map(|p| p.pid).collect::<Vec<_>>()
    };
    assert_eq!(pids("OLL", TopSort::Rss), [3, 1]);
    assert_eq!(pids("", TopSort::Rss), [2, 3, 1]);
    assert_eq!(pids("", TopSort::Cpu), [2, 3, 1]);
    assert_eq!(pids("", TopSort::Pid), [1, 2, 3]);
    assert_eq!(pids("", TopSort::Name), [2, 1, 3]);
    assert!(pids("none", TopSort::Name).is_empty());
    app.collector.current.llm_processes = processes;
    app.handle_key(press(KeyCode::End));
    assert_eq!(app.top_selected, 1);
    app.handle_key(press(KeyCode::Char('s')));
    assert_eq!((app.top_sort, app.top_selected), (TopSort::Cpu, 0));
    app.handle_key(press(KeyCode::Char('c')));
    assert_eq!(app.top_filter, "");
    assert!(app.note_disconnected());
    assert!(!app.note_disconnected());
}

fn event(state: &str, kind: EventKind) -> SignalEvent {
    SignalEvent {
        time: "12:00:00".into(),
        recorded_at: 0,
        kind,
        state: state.into(),
        summary: format!("{state} changed"),
        tone: Tone::Cyan,
    }
}

#[test]
fn the_journal_shows_the_newest_events_first() {
    let events: VecDeque<SignalEvent> =
        (0..5).map(|i| event(&format!("E{i}"), if i == 2 { EventKind::Gpu } else { EventKind::Llm })).collect();
    let shown = filtered_journal_events(&events, JournalFilter::Llm);
    assert_eq!(shown.len(), 4);
    let page = journal_page(&shown, JournalFilter::Llm, 99, 2);
    assert_eq!(page.position, 2);
    assert_eq!(page.title, "EVENTS · LLM · 3–4 of 4");
    assert_eq!(plain(&page.lines), " 12:00:00        E1         │  E1 changed\n 12:00:00        E0         │  E0 changed\n");
    assert!(page.scrollable);
    let empty = journal_page(&Vec::new(), JournalFilter::All, 0, 2);
    assert_eq!(empty.title, "EVENTS · ALL · 0–0 of 0");
    let log = plain(&signal_log(&events, 2));
    assert!(log.starts_with(" 12:00:00         E4           E4 changed\n"), "{log}");
    assert_eq!(plain(&signal_log(&VecDeque::new(), 2)), " waiting for the first classified sample\n");
}

#[test]
fn cards_tell_the_state_of_a_sample() {
    let sample = Sample {
        llm_status: "generating".into(),
        llm_provider: "oMLX".into(),
        llm_model: "model".into(),
        llm_count: 1,
        llm_rss: 1 << 30,
        llm_cpu: number(12.5),
        llm_source: TelemetrySource::Live,
        llm_observed_at: Some(0),
        llm_generation_tps: Some(number(29.4)),
        llm_generation_tps_live: true,
        llm_prompt_tokens: Some(32768),
        grade: "HEALTHY".into(),
        health: Some(100),
        availability: Some(40),
        total_memory: 1,
        swap_available: true,
        vm_available: true,
        rate_ready: true,
        swap_total: 200,
        swap_used: 50,
        ..Sample::default()
    };
    let card = model_card(&sample, 60, 3 * SECOND);
    assert_eq!(
        plain(&card.lines),
        " ! GENERATING   HEALTHY · 100/100\noMLX · model\n1 process(es) · RSS 1.0 GiB · CPU 12.5%\nLIVE 3s old · 3s old\n"
    );
    assert_eq!(card.tone, Tone::Yellow);
    assert_eq!(card.lines[0].pieces[0].paint, Paint::Badge(Tone::Yellow));
    assert!(plain(&throughput_card(&sample).lines).starts_with("GEN 29.4 tok/s · PREFILL —\nPROMPT 32.8k · OUT — · CONTEXT 32.8k\n"));
    assert!(plain(&diagnosis_card(&sample, 40).lines).contains("ACTION  Wait one refresh"));
    let memory = memory_card(&sample, Thresholds::default(), 80);
    assert_eq!(memory.gauge.as_ref().map(|gauge| gauge.percent), Some(60));
    let paging = paging_card(&sample, Thresholds::default(), 80);
    assert_eq!(paging.gauge.as_ref().map(|gauge| gauge.label.as_str()), Some("25%"));
    assert_eq!(plain(&[paging.headline]), "0 B/s  ·  USED 50 B / 200 B · IDLE\n");
    let compact = plain(&compact_operations(&sample, 70, 3 * SECOND));
    assert!(compact.contains("PROMPT 32.8k"));
    assert!(compact.contains("MEM 60% load"));
    assert_eq!(compact.lines().count(), 8);
}

#[test]
fn tables_fit_their_width_and_keep_the_selection_in_view() {
    let listing: String = (0..9).map(|i| format!("{} {} 1.0 2.5 S 3 ollama ollama\n", i + 1, 100 - i)).collect();
    let processes = parse_processes(&listing).llm_processes;
    let sample = Sample { llm_status: "idle".into(), ..Sample::default() };
    for (width, columns) in [(80, 5), (100, 7), (150, 9)] {
        let mode = table_mode(width);
        assert_eq!(table_headers(mode).len(), columns);
        assert_eq!(process_cells(&processes[0], &sample, Thresholds::default(), mode).pieces.len(), columns);
    }
    let window = table_window(9, 7, 6);
    assert_eq!((window.selected, window.start, window.visible), (7, 5, 3));
    assert_eq!(table_title(TopSort::Rss, window, 9), "LLM PROCESSES · SORT RSS · 6–8 of 9");
    let window = table_window(0, 5, 1);
    assert_eq!((window.selected, window.start, window.visible), (0, 0, 1));
    assert_eq!(table_title(TopSort::Pid, window, 0), "LLM PROCESSES · SORT PID · 0–0 of 0");
}

#[test]
fn the_screen_is_divided_by_its_size() {
    assert_eq!(screen_size(71, 40), ScreenSize::TooSmall);
    assert_eq!(screen_size(180, 50), ScreenSize::Grid);
    assert_eq!(screen_size(100, 40), ScreenSize::Stacked);
    assert!(overview_plan(100, 38).log);
    assert!(!overview_plan(80, 22).log);
    assert!(plain(&help_lines()).contains("cycle sort: RSS, CPU, PID, NAME"));
    assert_eq!(plain(&[control_hints(0, 80, false)]), " p pause   ↑↓ history   q quit  \n");
    assert!(plain(&[control_hints(2, 80, false)]).contains("event filter"));
    assert_eq!(plain(&[control_hints(1, 20, false)]), " ↑↓ select   / filter   q quit  \n");
}

#[test]
fn the_report_holds_every_figure() {
    let mut sample = Sample { impact: "LLM READY".into(), grade: "HEALTHY".into(), ..Sample::default() };
    let lines = static_report(&sample, 2, 0);
    assert_eq!(lines[0], "mlxtop · static report (2s sample)\n");
    assert_eq!(lines[1], "SIGNAL       LLM READY · HEALTHY");
    assert_eq!(lines[4], "PAGING       —");
    assert_eq!(lines[7], "LLM          not detected · offline · SOURCE — · not detected");
    assert_eq!(lines.len(), 12);
    sample.swap_available = true;
    sample.swap_total = 400;
    sample.swap_used = 100;
    sample.correlation.summary = "GEN 1.0 tok/s".into();
    sample.llm_requests = vec!["one".into()];
    let lines = static_report(&sample, 2, 0);
    assert_eq!(lines[4], "PAGING       100 B / 400 B · 25% used · in — · out —");
    assert!(lines.contains(&"REQUEST      one".to_owned()));
    sample.vm_available = true;
    sample.rate_ready = true;
    sample.swap_in = 2048;
    assert_eq!(
        static_report(&sample, 2, 0)[4],
        "PAGING       100 B / 400 B · 25% used · in 2.0 KiB/s · out 0 B/s"
    );
    assert!(lines.contains(&"CORRELATION   GEN 1.0 tok/s".to_owned()));
    assert_eq!(lines.last().map(String::as_str), Some("NEXT         WAIT — Wait one refresh before acting."));
}

#[test]
fn the_log_is_kept_in_lines() {
    assert_eq!(log_line(5, "INFO", "start", "a\r\nb"), "ts_ms=5 level=INFO event=start a\\n\\nb");
    let details = sample_details(&Sample { llm_model: "a model".into(), ..Sample::default() }, 7);
    assert!(details.starts_with("duration_ms=7 status=offline provider=not_detected model=a_model source=unavailable"));
    assert_eq!(diagnostics_timestamp_ms(1_999_999), 1);
    assert!(!is_full(8 * 1024 * 1024 - 1));
    assert!(is_full(8 * 1024 * 1024));
    let place = |chosen: Option<&str>, state: Option<&str>, linux, home| {
        format!(
            "{:?}",
            diagnostics_location(&chosen.map(str::to_owned), &state.map(str::to_owned), linux, home)
        )
    };
    assert_eq!(place(Some(" /a "), None, true, true), format!("{:?}", LogLocation::At("/a".into())));
    assert_eq!(place(Some(" "), Some("/s"), true, true), format!("{:?}", LogLocation::UnderState("/s".into())));
    assert_eq!(place(None, None, true, true), format!("{:?}", LogLocation::InHomeState));
    assert_eq!(place(None, Some("/s"), false, true), format!("{:?}", LogLocation::InHomeLogs));
    assert_eq!(place(None, None, false, false), format!("{:?}", LogLocation::Here));
}

#[test]
fn samples_are_due_by_the_schedule() {
    let mut schedule = Schedule::new(2, 0);
    assert!(schedule.is_due(0));
    schedule.sampled(0);
    assert!(!schedule.is_due(2 * SECOND - 1));
    assert_eq!(schedule.wait(2 * SECOND - 5), 5);
    assert_eq!(schedule.wait(0), 100_000_000);
    assert_eq!(schedule.obey(SamplerCommand::SetPaused(true), 0), Request::Nothing);
    assert!(!schedule.is_due(9 * SECOND));
    assert_eq!(schedule.obey(SamplerCommand::SetPaused(false), SECOND), Request::Nothing);
    assert!(schedule.is_due(SECOND));
    assert_eq!(schedule.obey(SamplerCommand::SetInterval(5), SECOND), Request::Nothing);
    assert_eq!(schedule.next_sample, 6 * SECOND);
    assert_eq!(schedule.obey(SamplerCommand::Reset, SECOND), Request::Reset);
    assert_eq!(schedule.obey(SamplerCommand::Stop, SECOND), Request::Stop);
}

#[test]
fn charts_bridge_steps_and_leave_gaps() {
    let history = VecDeque::from([
        ChartPoint::new(Some(0), Tone::Green),
        ChartPoint::new(Some(100), Tone::Red),
        ChartPoint::new(None, Tone::Muted),
        ChartPoint::new(Some(50), Tone::Green),
    ]);
    let columns = chart_columns_for_plot(&history, 5, ChartMetric::Gpu, 5);
    let cells = chart_cells(&columns, ChartMetric::Gpu, 5, Thresholds::default());
    let rows: Vec<String> =
        cells.iter().map(|row| row.iter().map(|cell| cell.glyph).collect()).collect();
    assert_eq!(rows, ["  ┏  ", "  ┃  ", "  ┃ ━", "  ┃  ", "─━┛──"]);
    let runs = tone_runs(&cells[4]);
    let texts: Vec<(&str, Tone)> = runs.iter().map(|run| (run.text.as_str(), run.tone)).collect();
    assert_eq!(
        texts,
        [("─", Tone::Muted), ("━┛", Tone::Green), ("──", Tone::Muted)]
    );
    assert!(tone_runs(&Vec::<TraceCell>::new()).is_empty());
    let sample = Sample::default();
    let panel = chart_panel(&history, ChartMetric::Gpu, &sample, 70, 4, 1, Thresholds::default());
    assert_eq!(panel.current, "50%");
    assert_eq!(panel.stats, "  · avg 50% · peak 100% · 4s · 0–100 · older → now");
    let ChartBody::Rows(rows) = panel.body else { panic!("rows") };
    let labels: Vec<&str> = rows.iter().map(|row| row.label.as_str()).collect();
    assert_eq!(labels, ["100 ", "    ", " 50 ", "  0 "]);
    let empty = VecDeque::from([ChartPoint::new(None, Tone::Muted)]);
    let panel = chart_panel(&empty, ChartMetric::Generation, &sample, 50, 4, 1, Thresholds::default());
    assert_eq!(panel.current, "offline");
    assert!(matches!(panel.body, ChartBody::Empty(text) if text == "No live rate samples"));
}

fn request(id: &str, prompt: u64) -> RequestUsage {
    RequestUsage { id: id.into(), prompt, summary: format!("{id} {prompt}") }
}

#[test]
fn repeated_requests_are_announced_once() {
    let mut seen = VecDeque::new();
    let list = vec![request("a", 10), request("b", 10), request("c", 0), request("a", 10)];
    assert_eq!(new_requests(&mut seen, &list), ["a 10", "b 10"]);
    assert!(new_requests(&mut seen, &list).is_empty());
    assert_eq!(new_requests(&mut seen, &vec![request("a", 11)]), ["a 11"]);
    let many: Vec<RequestUsage> = (0..600).map(|i| request(&format!("r{i}"), 1)).collect();
    assert_eq!(new_requests(&mut seen, &many).len(), 600);
    assert_eq!(seen.len(), 512);
    assert_eq!(new_requests(&mut seen, &vec![request("a", 10)]), ["a 10"]);

    let mut collector = collector(20);
    let mut readings = linux_readings(0, 0);
    readings.requests = vec![request("a", 10)];
    collector.sample(&readings);
    readings.at = SECOND;
    collector.sample(&readings);
    let prompts = collector.signals.iter().filter(|event| event.state == "PROMPT").count();
    assert_eq!(prompts, 1);
    assert_eq!(collector.current.llm_requests, ["a 10"]);
    collector.reset();
    assert!(collector.seen_requests.is_empty());
}

fn memory(pid: u32, started: u64, footprint: u64, at: u64) -> ProcessMemory {
    ProcessMemory { pid, started, resident: 0, footprint, peak: footprint, at }
}

#[test]
fn growth_starts_over_with_another_process() {
    let first = Some(memory(7, 1, 100, 0));
    assert_eq!(process_memory_growth(first, None), None);
    assert_eq!(process_memory_growth(None, first), None);
    let later = Some(memory(7, 1, 50, 2 * SECOND));
    assert_eq!(process_memory_growth(later, first), Some(-25));
    assert_eq!(process_memory_growth(Some(memory(8, 1, 50, SECOND)), first), None);
    assert_eq!(process_memory_growth(Some(memory(7, 2, 50, SECOND)), first), None);

    let mut collector = collector(20);
    let mut readings = linux_readings(0, 0);
    readings.process_memory = first;
    collector.sample(&readings);
    assert_eq!(collector.current.process_memory_growth, None);
    readings.at = 2 * SECOND;
    readings.process_memory = later;
    collector.sample(&readings);
    assert_eq!(collector.current.process_memory_growth, Some(-25));
    readings.process_memory = None;
    collector.sample(&readings);
    readings.process_memory = Some(memory(7, 1, 80, 3 * SECOND));
    collector.sample(&readings);
    assert_eq!(collector.current.process_memory_growth, None);
}

#[test]
fn missing_readings_are_not_journaled_as_recovery() {
    let busy = Sample {
        updated: "12:00:00".into(),
        gpu_util: Some(85),
        swap_in: 4096,
        swap_available: true,
        vm_available: true,
        rate_ready: true,
        llm_active_requests: Some(2),
        llm_waiting_requests: Some(1),
        ..Sample::default()
    };
    let lost = Sample { rate_ready: true, ..Sample::default() };
    let states = |after: &Sample| {
        journal_entries(Some(&busy), after, &Vec::new())
            .iter()
            .map(|entry| entry.state.clone())
            .collect::<Vec<_>>()
    };
    assert!(states(&lost).is_empty());
    let calm = Sample {
        gpu_util: Some(10),
        swap_available: true,
        vm_available: true,
        rate_ready: true,
        llm_active_requests: Some(0),
        llm_waiting_requests: Some(0),
        ..Sample::default()
    };
    assert_eq!(states(&calm), ["LLM", "QUEUE", "PAGING", "GPU"]);
    let without_swap = Sample { swap_available: false, ..calm };
    assert_eq!(states(&without_swap), ["LLM", "QUEUE", "PAGING", "GPU"]);
}

#[test]
fn the_bionic_app_belongs_to_lm_studio() {
    let command = "/Applications/Bionic.app/Contents/MacOS/Bionic";
    assert_eq!(process_provider("Bionic", command).as_deref(), Some("LM Studio"));
    assert!(is_llm_process("Bionic", command));
    assert!(!is_llm_process("bionic", "/usr/bin/bionic"));
    let listing = format!("9 2048 1.0 1.0 S 0 {command} {command}\n");
    assert_eq!(parse_processes(&listing).llm_count, 1);
}

#[test]
fn runtimes_are_known_by_their_programs() {
    for (name, command, provider) in [
        ("python3.12", "python3.12 -m mlx_lm.server --port 1", "mlx-lm"),
        ("python3", "/usr/bin/python3 KoboldCpp.py", "KoboldCpp"),
        ("local-ai", "./local-ai run", "LocalAI"),
        ("llmster", "/opt/llmster", "LM Studio"),
        ("LM", "/Applications/LM Studio.app/Contents/MacOS/LM Studio", "LM Studio"),
        ("llama-server", "/home/me/.lmstudio/extensions/llama-server", "LM Studio"),
        ("llama-server", "/usr/bin/llama-server", "llama.cpp"),
        ("omlx", "omlx serve", "oMLX"),
    ] {
        assert_eq!(process_provider(name, command).as_deref(), Some(provider), "{command}");
    }
    assert_eq!(process_provider("mlxtop", "mlxtop --once"), None);
    assert_eq!(process_provider("vim", "vim --cmd ollama"), None);
}

#[test]
fn a_load_beyond_a_percentage_is_not_read_as_idle() {
    assert_eq!(parse_gpu("\"Device Utilization %\"=100").0, Some(100));
    assert_eq!(parse_gpu("\"Device Utilization %\"=255").0, Some(255));
    assert_eq!(parse_gpu("\"Device Utilization %\"=256").0, None);
}
