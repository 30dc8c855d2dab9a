use mlxtop::classify::is_aggressive_paging;
use mlxtop::collector::CollectorView;
use mlxtop::interface::App;
use mlxtop::journal::{EventKind, JournalFilter};
use mlxtop::model::Sample;
use mlxtop::processes::TopSort;
use mlxtop::thresholds::Thresholds;
use std::collections::VecDeque;

fn test_app(tab: usize) -> App {
    let mut app = App::new(1, Thresholds::default());
    app.collector.current.total_memory = 1;
    app.tab = tab;
    app
}

fn view_with_impact(impact: &str, updated: &str) -> CollectorView {
    CollectorView {
        current: Sample { impact: impact.into(), updated: updated.into(), ..Sample::default() },
        generation_history: VecDeque::new(),
        prefill_history: VecDeque::new(),
        cache_history: VecDeque::new(),
        load_history: VecDeque::new(),
        swap_history: VecDeque::new(),
        gpu_history: VecDeque::new(),
        signals: VecDeque::new(),
    }
}

#[test]
fn aggressive_paging_impact_states_drive_the_alert() {
    assert!(is_aggressive_paging("SWAP THRASHING"));
    assert!(is_aggressive_paging("HEAVY PAGING"));
    assert!(is_aggressive_paging("PAGE-IN RECOVERY"));
    assert!(!is_aggressive_paging("PAGING ACTIVE"));
    assert!(!is_aggressive_paging("WATCH PAGING"));
    assert!(!is_aggressive_paging("MEMORY BOTTLENECK"));
    assert!(!is_aggressive_paging("LLM READY"));
    assert!(!is_aggressive_paging(""));
}

#[test]
fn paging_alert_rings_once_per_episode_and_rearms() {
    let mut app = test_app(0);
    app.collector.current.impact = "LLM READY".into();

    app.receive(view_with_impact("HEAVY PAGING", "00:52:54"));
    let alert = app.alert.as_ref().expect("alert should raise");
    assert_eq!(alert.state, "HEAVY PAGING");
    assert_eq!(alert.summary, "swap 0 B/s / growth 0 B/s");
    assert_eq!(alert.time, "00:52:54");
    assert_eq!(app.alert_bells, 1);

    // Staying aggressive must not re-ring; escalation refreshes the
    // banner without raising a second alert.
    app.receive(view_with_impact("SWAP THRASHING", "00:52:55"));
    let alert = app.alert.as_ref().expect("alert persists while paging");
    assert_eq!(alert.state, "SWAP THRASHING");
    assert_eq!(alert.time, "00:52:55");
    assert_eq!(app.alert_bells, 1);

    // Recovery retires the alert and re-arms it for the next episode.
    app.receive(view_with_impact("LLM READY", "00:52:56"));
    assert!(app.alert.is_none());
    app.receive(view_with_impact("HEAVY PAGING", "00:53:10"));
    assert_eq!(app.alert_bells, 2);
    assert_eq!(app.alert.as_ref().expect("rearmed").time, "00:53:10");
}

#[test]
fn paging_alert_survives_a_quiet_sample_while_paging_persists() {
    // A momentary 0 B/s sample inside an aggressive episode is normal
    // churn noise; the episode ends only when the classifier leaves the
    // aggressive states, so the alert must not flap on a single dip.
    let mut app = test_app(0);
    app.collector.current.impact = "WATCH PAGING".into();
    app.receive(view_with_impact("PAGE-IN RECOVERY", "00:52:54"));
    assert!(app.alert.is_some());
    assert_eq!(app.alert_bells, 1);
}

#[test]
fn llm_top_sort_cycles_in_a_predictable_order() {
    assert_eq!(TopSort::Rss.next(), TopSort::Cpu);
    assert_eq!(TopSort::Cpu.next(), TopSort::Pid);
    assert_eq!(TopSort::Pid.next(), TopSort::Name);
    assert_eq!(TopSort::Name.next(), TopSort::Rss);
}

#[test]
fn journal_filters_use_structured_event_kinds() {
    assert!(JournalFilter::Llm.matches(EventKind::Llm));
    assert!(JournalFilter::Llm.matches(EventKind::Queue));
    assert!(!JournalFilter::Llm.matches(EventKind::Gpu));
    assert!(JournalFilter::Paging.matches(EventKind::Paging));
}
