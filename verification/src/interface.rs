//! What the keys do, and when the paging alert is raised.

use crate::classify::{is_aggressive_paging, is_aggressive_paging_spec};
use crate::collector::CollectorView;
use crate::journal::{JournalFilter, SignalEvent};
use crate::labels::{signal_summary, signal_summary_spec};
use crate::model::Sample;
use crate::processes::{filtered_llm_processes, matching, TopSort};
use crate::text::{chars, same, text};
use crate::thresholds::{Thresholds, INTERVAL_MAX, INTERVAL_MIN};
use std::collections::VecDeque;
use vstd::prelude::*;

verus! {

/// A key, as far as the monitor knows it.
#[derive(Clone, Copy, Debug, PartialEq, Eq, Structural)]
pub enum KeyCode {
    Char(char),
    Esc,
    Enter,
    Backspace,
    Up,
    Down,
    PageUp,
    PageDown,
    Home,
    End,
    Tab,
    BackTab,
    Left,
    Right,
    Other,
}

/// A key that was pressed or let go, with its modifiers.
#[derive(Clone, Copy, Debug, PartialEq, Eq, Structural)]
pub struct KeyPress {
    pub code: KeyCode,
    pub control: bool,
    pub alt: bool,
    pub pressed: bool,
}

/// What the sampling thread is told.
#[derive(Clone, Copy, Debug, PartialEq, Eq, Structural)]
pub enum SamplerCommand {
    SetPaused(bool),
    SetInterval(u64),
    Reset,
    Stop,
}

/// A paging alert that was raised. It stays until it is acknowledged or paging
/// calms down.
#[derive(Debug)]
pub struct ActiveAlert {
    pub state: String,
    pub summary: String,
    pub time: String,
}

/// The state of the screen.
#[derive(Debug)]
pub struct App {
    pub collector: CollectorView,
    pub interval: u64,
    pub paused: bool,
    pub tab: usize,
    pub top_sort: TopSort,
    pub top_filter: String,
    pub top_filtering: bool,
    pub top_selected: usize,
    pub journal_filter: JournalFilter,
    pub journal_scroll: usize,
    pub request_scroll: usize,
    pub request_count: usize,
    pub help: bool,
    pub quit: bool,
    pub sampler_disconnected: bool,
    pub alert: Option<ActiveAlert>,
    pub alert_bells: usize,
    pub thresholds: Thresholds,
}

/// What the keys act on.
pub struct Controls {
    pub interval: u64,
    pub paused: bool,
    pub tab: usize,
    pub top_sort: TopSort,
    pub top_filter: Seq<char>,
    pub top_filtering: bool,
    pub top_selected: usize,
    pub journal_filter: JournalFilter,
    pub journal_scroll: usize,
    pub request_scroll: usize,
    pub help: bool,
    pub quit: bool,
    pub alert: Option<ActiveAlert>,
}

impl App {
    pub open spec fn controls(self) -> Controls {
        Controls {
            interval: self.interval,
            paused: self.paused,
            tab: self.tab,
            top_sort: self.top_sort,
            top_filter: self.top_filter@,
            top_filtering: self.top_filtering,
            top_selected: self.top_selected,
            journal_filter: self.journal_filter,
            journal_scroll: self.journal_scroll,
            request_scroll: self.request_scroll,
            help: self.help,
            quit: self.quit,
            alert: self.alert,
        }
    }
}

pub open spec fn back_by(at: usize, step: usize) -> usize {
    if at >= step {
        (at - step) as usize
    } else {
        0
    }
}

pub open spec fn on_by(at: usize, step: usize) -> usize {
    if at + step <= usize::MAX {
        (at + step) as usize
    } else {
        usize::MAX
    }
}

pub open spec fn capped(at: usize, last: usize) -> usize {
    if at <= last {
        at
    } else {
        last
    }
}

/// Where a key moves to in a list with a last entry.
pub open spec fn moved(at: usize, code: KeyCode, last: usize) -> Option<usize> {
    match code {
        KeyCode::Up => Some(back_by(at, 1)),
        KeyCode::Down => Some(on_by(at, 1)),
        KeyCode::PageUp => Some(back_by(at, 10)),
        KeyCode::PageDown => Some(on_by(at, 10)),
        KeyCode::Home => Some(0),
        KeyCode::End => Some(last),
        _ => None,
    }
}

/// Where a key moves to in a list that is not left behind.
pub open spec fn moved_within(at: usize, code: KeyCode, last: usize) -> Option<usize> {
    match code {
        KeyCode::Down => Some(capped(on_by(at, 1), last)),
        KeyCode::PageDown => Some(capped(on_by(at, 10), last)),
        _ => moved(at, code, last),
    }
}

fn move_in(at: usize, code: KeyCode, last: usize) -> (result: Option<usize>)
    ensures
        result == moved(at, code, last),
{
    match code {
        KeyCode::Up => Some(
            if at >= 1 {
                at - 1
            } else {
                0
            },
        ),
        KeyCode::Down => Some(
            if at <= usize::MAX - 1 {
                at + 1
            } else {
                usize::MAX
            },
        ),
        KeyCode::PageUp => Some(
            if at >= 10 {
                at - 10
            } else {
                0
            },
        ),
        KeyCode::PageDown => Some(
            if at <= usize::MAX - 10 {
                at + 10
            } else {
                usize::MAX
            },
        ),
        KeyCode::Home => Some(0),
        KeyCode::End => Some(last),
        _ => None,
    }
}

/// The filter after or before another, by its place.
pub open spec fn filter_at(place: int) -> JournalFilter {
    if place == 0 {
        JournalFilter::All
    } else if place == 1 {
        JournalFilter::Llm
    } else if place == 2 {
        JournalFilter::Pressure
    } else if place == 3 {
        JournalFilter::Paging
    } else if place == 4 {
        JournalFilter::Gpu
    } else if place == 5 {
        JournalFilter::Thermal
    } else {
        JournalFilter::System
    }
}

/// The column at a place.
pub open spec fn column_at(place: int) -> TopSort {
    if place == 0 {
        TopSort::Rss
    } else if place == 1 {
        TopSort::Cpu
    } else if place == 2 {
        TopSort::Pid
    } else {
        TopSort::Name
    }
}

/// What a key does wherever one is.
pub open spec fn global_key(c: Controls, code: KeyCode) -> (Controls, Option<SamplerCommand>) {
    match code {
        KeyCode::Char('q') | KeyCode::Esc => (Controls { quit: true, ..c }, None),
        KeyCode::Char('a') => (Controls { alert: None, ..c }, None),
        KeyCode::Char('p') | KeyCode::Char(' ') => (
            Controls { paused: !c.paused, ..c },
            Some(SamplerCommand::SetPaused(!c.paused)),
        ),
        KeyCode::Char('r') => (
            Controls {
                journal_scroll: 0,
                request_scroll: 0,
                journal_filter: JournalFilter::All,
                alert: None,
                ..c
            },
            Some(SamplerCommand::Reset),
        ),
        KeyCode::Char('t') | KeyCode::Char('2') => (
            Controls { tab: 1, top_selected: 0, ..c },
            None,
        ),
        KeyCode::Char('j') | KeyCode::Char('3') => (
            Controls { tab: 2, journal_scroll: 0, ..c },
            None,
        ),
        KeyCode::Char('o') | KeyCode::Char('1') => (Controls { tab: 0, ..c }, None),
        KeyCode::Tab | KeyCode::Right => (Controls { tab: ((c.tab + 1) % 3) as usize, ..c }, None),
        KeyCode::BackTab | KeyCode::Left => (
            Controls { tab: ((c.tab + 2) % 3) as usize, ..c },
            None,
        ),
        KeyCode::Char('?') | KeyCode::Char('h') => (Controls { help: true, ..c }, None),
        KeyCode::Char('+') | KeyCode::Char('=') => {
            let interval = if c.interval < INTERVAL_MAX {
                (c.interval + 1) as u64
            } else {
                INTERVAL_MAX
            };
            (Controls { interval, ..c }, Some(SamplerCommand::SetInterval(interval)))
        },
        KeyCode::Char('-') => {
            let interval = if c.interval > INTERVAL_MIN {
                (c.interval - 1) as u64
            } else {
                INTERVAL_MIN
            };
            (Controls { interval, ..c }, Some(SamplerCommand::SetInterval(interval)))
        },
        _ => (c, None),
    }
}

/// What a key does while a filter is typed.
pub open spec fn filter_key(c: Controls, key: KeyPress) -> Controls {
    match key.code {
        KeyCode::Esc | KeyCode::Enter => Controls { top_filtering: false, ..c },
        KeyCode::Backspace => Controls {
            top_filter: if c.top_filter.len() > 0 {
                c.top_filter.drop_last()
            } else {
                c.top_filter
            },
            ..c
        },
        KeyCode::Char(value) => if key.control || key.alt {
            c
        } else {
            Controls { top_filter: c.top_filter.push(value), ..c }
        },
        _ => c,
    }
}

/// What a key does in the list of processes.
pub open spec fn top_key(c: Controls, code: KeyCode, last: usize) -> (
    Controls,
    Option<SamplerCommand>,
) {
    match moved(c.top_selected, code, last) {
        Some(top_selected) => (Controls { top_selected, ..c }, None),
        None => match code {
            KeyCode::Char('s') => (
                Controls {
                    top_sort: column_at((c.top_sort.place() + 1) % 4),
                    top_selected: 0,
                    ..c
                },
                None,
            ),
            KeyCode::Char('f') | KeyCode::Char('/') => (
                Controls { top_filtering: true, ..c },
                None,
            ),
            KeyCode::Char('c') => (
                Controls { top_filter: Seq::empty(), top_selected: 0, ..c },
                None,
            ),
            _ => global_key(c, code),
        },
    }
}

/// What a key does in the journal, which shows the newest events first.
pub open spec fn journal_key(c: Controls, code: KeyCode, last: usize) -> (
    Controls,
    Option<SamplerCommand>,
) {
    match moved(c.journal_scroll, code, last) {
        Some(journal_scroll) => (Controls { journal_scroll, ..c }, None),
        None => match code {
            KeyCode::Char('f') | KeyCode::Char(']') => (
                Controls {
                    journal_filter: filter_at((c.journal_filter.place() + 1) % 7),
                    journal_scroll: 0,
                    ..c
                },
                None,
            ),
            KeyCode::Char('[') => (
                Controls {
                    journal_filter: filter_at((c.journal_filter.place() + 6) % 7),
                    journal_scroll: 0,
                    ..c
                },
                None,
            ),
            _ => global_key(c, code),
        },
    }
}

/// What a key does in the overview.
pub open spec fn overview_key(c: Controls, code: KeyCode, last: usize) -> (
    Controls,
    Option<SamplerCommand>,
) {
    match moved_within(c.request_scroll, code, last) {
        Some(request_scroll) => (Controls { request_scroll, ..c }, None),
        None => global_key(c, code),
    }
}

/// The place of the last entry.
pub open spec fn last_of(count: nat) -> usize {
    if count == 0 {
        0
    } else {
        (count - 1) as usize
    }
}

/// What a key does: the controls that follow, and what the sampling thread is
/// told. The counts are those of the processes, the events and the requests
/// that are listed.
pub open spec fn key_spec(
    c: Controls,
    key: KeyPress,
    processes: nat,
    events: nat,
    requests: nat,
) -> (Controls, Option<SamplerCommand>) {
    if !key.pressed {
        (c, None)
    } else if c.help {
        if key.code == KeyCode::Char('?') || key.code == KeyCode::Esc || key.code == KeyCode::Char(
            'h',
        ) {
            (Controls { help: false, ..c }, None)
        } else {
            (c, None)
        }
    } else if key.control && key.code == KeyCode::Char('c') {
        (Controls { quit: true, ..c }, None)
    } else if c.top_filtering {
        (filter_key(c, key), None)
    } else if c.tab == 1 {
        top_key(c, key.code, last_of(processes))
    } else if c.tab == 0 {
        overview_key(c, key.code, last_of(requests))
    } else if c.tab == 2 {
        journal_key(c, key.code, last_of(events))
    } else {
        global_key(c, key.code)
    }
}

/// The events that a filter lets through, in order.
pub open spec fn matching_events(
    events: Seq<SignalEvent>,
    filter: JournalFilter,
) -> Seq<SignalEvent>
    decreases events.len(),
{
    if events.len() == 0 {
        Seq::empty()
    } else if filter.matches_spec(events.last().kind) {
        matching_events(events.drop_last(), filter).push(events.last())
    } else {
        matching_events(events.drop_last(), filter)
    }
}

/// The events that a filter lets through, in order.
pub fn filtered_journal_events(
    events: &VecDeque<SignalEvent>,
    filter: JournalFilter,
) -> (result: Vec<
    SignalEvent,
>)
    ensures
        result@ == matching_events(events@, filter),
{
    let mut result: Vec<SignalEvent> = Vec::new();
    for i in 0..events.len()
        invariant
            result@ == matching_events(events@.take(i as int), filter),
    {
        assert(events@.take(i + 1).drop_last() =~= events@.take(i as int));
        if filter.matches(events[i].kind) {
            result.push(events[i].clone());
        }
    }
    assert(events@.take(events@.len() as int) =~= events@);
    result
}

/// Whether everything but the controls is as it was.
pub open spec fn same_but_controls(before: App, after: App) -> bool {
    &&& after.collector == before.collector
    &&& after.request_count == before.request_count
    &&& after.sampler_disconnected == before.sampler_disconnected
    &&& after.alert_bells == before.alert_bells
    &&& after.thresholds == before.thresholds
}

impl App {
    /// The screen before the first sample.
    pub fn new(interval: u64, thresholds: Thresholds) -> (result: App)
        ensures
            result.collector.current.blank(),
            result.collector.generation_history@.len() == 0,
            result.collector.prefill_history@.len() == 0,
            result.collector.cache_history@.len() == 0,
            result.collector.load_history@.len() == 0,
            result.collector.swap_history@.len() == 0,
            result.collector.gpu_history@.len() == 0,
            result.collector.signals@.len() == 0,
            result.interval == interval,
            result.tab == 0,
            !result.paused,
            result.top_sort == TopSort::Rss,
            result.top_filter@.len() == 0,
            !result.top_filtering,
            result.top_selected == 0,
            result.journal_filter == JournalFilter::All,
            result.journal_scroll == 0,
            result.request_scroll == 0,
            result.request_count == 0,
            !result.help,
            !result.quit,
            !result.sampler_disconnected,
            result.alert is None,
            result.alert_bells == 0,
            result.thresholds == thresholds,
    {
        App {
            collector: CollectorView {
                current: Sample::default(),
                generation_history: VecDeque::new(),
                prefill_history: VecDeque::new(),
                cache_history: VecDeque::new(),
                load_history: VecDeque::new(),
                swap_history: VecDeque::new(),
                gpu_history: VecDeque::new(),
                signals: VecDeque::new(),
            },
            interval,
            paused: false,
            tab: 0,
            top_sort: TopSort::Rss,
            top_filter: String::new(),
            top_filtering: false,
            top_selected: 0,
            journal_filter: JournalFilter::All,
            journal_scroll: 0,
            request_scroll: 0,
            request_count: 0,
            help: false,
            quit: false,
            sampler_disconnected: false,
            alert: None,
            alert_bells: 0,
            thresholds,
        }
    }

    /// What a key does wherever one is.
    pub fn handle_global_key(&mut self, code: KeyCode) -> (command: Option<SamplerCommand>)
        requires
            old(self).tab < 3,
        ensures
            (final(self).controls(), command) == global_key(old(self).controls(), code),
            same_but_controls(*old(self), *final(self)),
    {
        match code {
            KeyCode::Char('q') | KeyCode::Esc => {
                self.quit = true;
                None
            },
            KeyCode::Char('a') => {
                self.alert = None;
                None
            },
            KeyCode::Char('p') | KeyCode::Char(' ') => {
                self.paused = !self.paused;
                Some(SamplerCommand::SetPaused(self.paused))
            },
            KeyCode::Char('r') => {
                self.journal_scroll = 0;
                self.request_scroll = 0;
                self.journal_filter = JournalFilter::All;
                self.alert = None;
                Some(SamplerCommand::Reset)
            },
            KeyCode::Char('t') | KeyCode::Char('2') => {
                self.tab = 1;
                self.top_selected = 0;
                None
            },
            KeyCode::Char('j') | KeyCode::Char('3') => {
                self.tab = 2;
                self.journal_scroll = 0;
                None
            },
            KeyCode::Char('o') | KeyCode::Char('1') => {
                self.tab = 0;
                None
            },
            KeyCode::Tab | KeyCode::Right => {
                self.tab = (self.tab + 1) % 3;
                None
            },
            KeyCode::BackTab | KeyCode::Left => {
                self.tab = (self.tab + 2) % 3;
                None
            },
            KeyCode::Char('?') | KeyCode::Char('h') => {
                self.help = true;
                None
            },
            KeyCode::Char('+') | KeyCode::Char('=') => {
                self.interval = if self.interval < INTERVAL_MAX {
                    self.interval + 1
                } else {
                    INTERVAL_MAX
                };
                Some(SamplerCommand::SetInterval(self.interval))
            },
            KeyCode::Char('-') => {
                self.interval = if self.interval > INTERVAL_MIN {
                    self.interval - 1
                } else {
                    INTERVAL_MIN
                };
                Some(SamplerCommand::SetInterval(self.interval))
            },
            _ => None,
        }
    }

    fn handle_filter_key(&mut self, key: KeyPress)
        ensures
            final(self).controls() == filter_key(old(self).controls(), key),
            same_but_controls(*old(self), *final(self)),
    {
        match key.code {
            KeyCode::Esc | KeyCode::Enter => {
                self.top_filtering = false;
            },
            KeyCode::Backspace => {
                let list = chars(self.top_filter.as_str());
                if list.len() > 0 {
                    self.top_filter = text(&list, 0, list.len() - 1);
                    assert(self.top_filter@ =~= old(self).top_filter@.drop_last());
                }
            },
            KeyCode::Char(value) => {
                if !key.control && !key.alt {
                    self.top_filter.push(value);
                }
            },
            _ => {},
        }
    }

    fn handle_top_key(&mut self, code: KeyCode) -> (command: Option<SamplerCommand>)
        requires
            old(self).tab < 3,
        ensures
            (final(self).controls(), command) == top_key(
                old(self).controls(),
                code,
                last_of(
                    matching(
                        old(self).collector.current.llm_processes@,
                        old(self).top_filter@,
                    ).len(),
                ),
            ),
            same_but_controls(*old(self), *final(self)),
    {
        let listed: usize = filtered_llm_processes(
            &self.collector.current.llm_processes,
            self.top_filter.as_str(),
            self.top_sort,
        ).len();
        let last: usize = if listed == 0 {
            0
        } else {
            listed - 1
        };
        if let Some(at) = move_in(self.top_selected, code, last) {
            self.top_selected = at;
            return None;
        }
        match code {
            KeyCode::Char('s') => {
                self.top_sort = self.top_sort.next();
                self.top_selected = 0;
                None
            },
            KeyCode::Char('f') | KeyCode::Char('/') => {
                self.top_filtering = true;
                None
            },
            KeyCode::Char('c') => {
                self.top_filter = String::new();
                self.top_selected = 0;
                None
            },
            _ => self.handle_global_key(code),
        }
    }

    fn handle_journal_key(&mut self, code: KeyCode) -> (command: Option<SamplerCommand>)
        requires
            old(self).tab < 3,
        ensures
            (final(self).controls(), command) == journal_key(
                old(self).controls(),
                code,
                last_of(
                    matching_events(
                        old(self).collector.signals@,
                        old(self).journal_filter,
                    ).len(),
                ),
            ),
            same_but_controls(*old(self), *final(self)),
    {
        let listed: usize = filtered_journal_events(
            &self.collector.signals,
            self.journal_filter,
        ).len();
        let last: usize = if listed == 0 {
            0
        } else {
            listed - 1
        };
        if let Some(at) = move_in(self.journal_scroll, code, last) {
            self.journal_scroll = at;
            return None;
        }
        match code {
            KeyCode::Char('f') | KeyCode::Char(']') => {
                self.journal_filter = self.journal_filter.next();
                self.journal_scroll = 0;
                None
            },
            KeyCode::Char('[') => {
                self.journal_filter = self.journal_filter.previous();
                self.journal_scroll = 0;
                None
            },
            _ => self.handle_global_key(code),
        }
    }

    fn handle_overview_key(&mut self, code: KeyCode) -> (command: Option<SamplerCommand>)
        requires
            old(self).tab < 3,
        ensures
            (final(self).controls(), command) == overview_key(
                old(self).controls(),
                code,
                last_of(old(self).request_count as nat),
            ),
            same_but_controls(*old(self), *final(self)),
    {
        let last: usize = if self.request_count == 0 {
            0
        } else {
            self.request_count - 1
        };
        if let Some(at) = move_in(self.request_scroll, code, last) {
            let bounded = code == KeyCode::Down || code == KeyCode::PageDown;
            self.request_scroll = if bounded && at > last {
                last
            } else {
                at
            };
            return None;
        }
        self.handle_global_key(code)
    }

    /// Acts on a key, and returns what the sampling thread is to be told.
    pub fn handle_key(&mut self, key: KeyPress) -> (command: Option<SamplerCommand>)
        requires
            old(self).tab < 3,
        ensures
            (final(self).controls(), command) == key_spec(
                old(self).controls(),
                key,
                matching(
                    old(self).collector.current.llm_processes@,
                    old(self).top_filter@,
                ).len(),
                matching_events(old(self).collector.signals@, old(self).journal_filter).len(),
                old(self).request_count as nat,
            ),
            same_but_controls(*old(self), *final(self)),
            final(self).tab < 3,
    {
        if !key.pressed {
            return None;
        }
        if self.help {
            if key.code == KeyCode::Char('?') || key.code == KeyCode::Esc || key.code
                == KeyCode::Char('h') {
                self.help = false;
            }
            return None;
        }
        if key.control && key.code == KeyCode::Char('c') {
            self.quit = true;
            return None;
        }
        if self.top_filtering {
            self.handle_filter_key(key);
            return None;
        }
        if self.tab == 1 {
            self.handle_top_key(key.code)
        } else if self.tab == 0 {
            self.handle_overview_key(key.code)
        } else {
            self.handle_journal_key(key.code)
        }
    }
}

/// Whether an alert tells of a sample.
pub open spec fn tells_of(alert: ActiveAlert, sample: Sample) -> bool {
    &&& alert.state@ == sample.impact@
    &&& alert.summary@ == signal_summary_spec(sample)
    &&& alert.time@ == sample.updated@
}

/// Whether the bell rings for a new sample: no alert stands, and paging has
/// become aggressive.
pub open spec fn rings(alert: Option<ActiveAlert>, before: Sample, now: Sample) -> bool {
    alert is None && is_aggressive_paging_spec(now.impact@) && !is_aggressive_paging_spec(
        before.impact@,
    )
}

/// Whether the alert that follows a new sample is the right one: one that
/// stands is retired once paging calms down, is told anew where the state has
/// changed, and else stays; a new one is raised where the bell rings.
pub open spec fn alert_follows(
    before: Option<ActiveAlert>,
    after: Option<ActiveAlert>,
    known: Sample,
    sample: Sample,
) -> bool {
    match before {
        Some(alert) => if !is_aggressive_paging_spec(sample.impact@) {
            after is None
        } else if alert.state@ != sample.impact@ {
            after is Some && tells_of(after.unwrap(), sample)
        } else {
            after == before
        },
        None => if rings(before, known, sample) {
            after is Some && tells_of(after.unwrap(), sample)
        } else {
            after is None
        },
    }
}

impl App {
    fn alert_for(sample: &Sample) -> (alert: ActiveAlert)
        ensures
            tells_of(alert, *sample),
    {
        ActiveAlert {
            state: sample.impact.clone(),
            summary: signal_summary(sample),
            time: sample.updated.clone(),
        }
    }

    /// Follows the paging alert over a new sample, and says whether the bell
    /// rings.
    pub fn track_paging_alert(&mut self, sample: &Sample) -> (ring: bool)
        ensures
            ring == rings(old(self).alert, old(self).collector.current, *sample),
            alert_follows(
                old(self).alert,
                final(self).alert,
                old(self).collector.current,
                *sample,
            ),
            final(self).alert_bells == if ring && old(self).alert_bells < usize::MAX {
                old(self).alert_bells + 1
            } else {
                old(self).alert_bells as int
            },
            *final(self) == (App {
                alert: final(self).alert,
                alert_bells: final(self).alert_bells,
                ..*old(self)
            }),
    {
        let aggressive = is_aggressive_paging(sample.impact.as_str());
        let changed = match &self.alert {
            Some(alert) => !same(alert.state.as_str(), sample.impact.as_str()),
            None => false,
        };
        if self.alert.is_some() {
            if !aggressive {
                self.alert = None;
            } else if changed {
                self.alert = Some(App::alert_for(sample));
            }
            return false;
        }
        if aggressive && !is_aggressive_paging(self.collector.current.impact.as_str()) {
            if self.alert_bells < usize::MAX {
                self.alert_bells = self.alert_bells + 1;
            }
            self.alert = Some(App::alert_for(sample));
            true
        } else {
            false
        }
    }

    /// Takes a new view of the collector in, and says whether the bell rings.
    pub fn receive(&mut self, view: CollectorView) -> (ring: bool)
        ensures
            ring == rings(old(self).alert, old(self).collector.current, view.current),
            alert_follows(
                old(self).alert,
                final(self).alert,
                old(self).collector.current,
                view.current,
            ),
            final(self).alert_bells == if ring && old(self).alert_bells < usize::MAX {
                old(self).alert_bells + 1
            } else {
                old(self).alert_bells as int
            },
            *final(self) == (App {
                collector: view,
                sampler_disconnected: false,
                alert: final(self).alert,
                alert_bells: final(self).alert_bells,
                ..*old(self)
            }),
    {
        let ring = self.track_paging_alert(&view.current);
        self.collector = view;
        self.sampler_disconnected = false;
        ring
    }
}

impl App {
    /// Notes that no more samples come, and says whether that is news.
    pub fn note_disconnected(&mut self) -> (news: bool)
        ensures
            news == !old(self).sampler_disconnected,
            *final(self) == (App { sampler_disconnected: true, ..*old(self) }),
    {
        let news = !self.sampler_disconnected;
        self.sampler_disconnected = true;
        news
    }
}

/// An alert stands only while paging is aggressive.
pub open spec fn alert_is_current(alert: Option<ActiveAlert>, sample: Sample) -> bool {
    alert is Some ==> is_aggressive_paging_spec(sample.impact@)
}

/// The bell rings exactly where paging becomes aggressive, so once for each
/// episode, and the alert stands only while the episode lasts. Whether the
/// alert was acknowledged in between does not matter.
pub proof fn the_bell_rings_once_per_episode(
    before: Option<ActiveAlert>,
    after: Option<ActiveAlert>,
    known: Sample,
    sample: Sample,
)
    requires
        alert_is_current(before, known),
        alert_follows(before, after, known, sample),
    ensures
        rings(before, known, sample) <==> (is_aggressive_paging_spec(sample.impact@)
            && !is_aggressive_paging_spec(known.impact@)),
        alert_is_current(after, sample),
        rings(before, known, sample) ==> after is Some,
        alert_is_current(None, sample),
{
}

/// No key raises an alert, leaves the three tabs or takes the interval out of
/// its range.
pub proof fn keys_keep_the_controls_in_range(
    c: Controls,
    key: KeyPress,
    processes: nat,
    events: nat,
    requests: nat,
)
    requires
        c.tab < 3,
        INTERVAL_MIN <= c.interval <= INTERVAL_MAX,
    ensures
        ({
            let (after, command) = key_spec(c, key, processes, events, requests);
            &&& after.tab < 3
            &&& INTERVAL_MIN <= after.interval <= INTERVAL_MAX
            &&& after.alert is None || after.alert == c.alert
            &&& match command {
                Some(SamplerCommand::SetInterval(interval)) => interval == after.interval,
                Some(SamplerCommand::SetPaused(paused)) => paused == after.paused,
                Some(SamplerCommand::Stop) => false,
                _ => true,
            }
            &&& after.interval != c.interval ==> command == Some(
                SamplerCommand::SetInterval(after.interval),
            )
            &&& after.paused != c.paused ==> command == Some(
                SamplerCommand::SetPaused(after.paused),
            )
        }),
{
}

/// Pausing twice resumes, and going on and back by a tab returns.
pub proof fn switches_undo_each_other(c: Controls)
    requires
        c.tab < 3,
    ensures
        global_key(global_key(c, KeyCode::Char('p')).0, KeyCode::Char('p')).0 == c,
        global_key(global_key(c, KeyCode::Tab).0, KeyCode::BackTab).0 == c,
        global_key(global_key(c, KeyCode::Left).0, KeyCode::Right).0 == c,
{
}

/// Whether a key is heard by the views: nothing lies over them and no filter is
/// typed.
pub open spec fn is_heard(c: Controls, key: KeyPress) -> bool {
    key.pressed && !c.help && !c.top_filtering && !key.control && !key.alt
}

/// The keys that work everywhere do what the help says of them.
pub proof fn keys_do_what_the_help_says(
    c: Controls,
    key: KeyPress,
    processes: nat,
    events: nat,
    requests: nat,
)
    requires
        c.tab < 3,
        is_heard(c, key),
    ensures
        ({
            let (after, command) = key_spec(c, key, processes, events, requests);
            &&& key.code == KeyCode::Char('q') || key.code == KeyCode::Esc ==> after.quit
            &&& after.quit && !c.quit ==> key.code == KeyCode::Char('q') || key.code == KeyCode::Esc
            &&& key.code == KeyCode::Char('p') || key.code == KeyCode::Char(' ') ==> command == Some(
                SamplerCommand::SetPaused(!c.paused),
            ) && after.paused != c.paused
            &&& key.code == KeyCode::Char('r') ==> command == Some(SamplerCommand::Reset)
                && after.alert is None && after.journal_scroll == 0 && after.request_scroll == 0
            &&& key.code == KeyCode::Char('a') ==> after.alert is None && command is None
            &&& key.code == KeyCode::Char('1') || key.code == KeyCode::Char('o') ==> after.tab == 0
            &&& key.code == KeyCode::Char('2') || key.code == KeyCode::Char('t') ==> after.tab == 1
            &&& key.code == KeyCode::Char('3') || key.code == KeyCode::Char('j') ==> after.tab == 2
            &&& key.code == KeyCode::Tab || key.code == KeyCode::Right ==> (after.tab - c.tab - 1)
                % 3 == 0
            &&& key.code == KeyCode::BackTab || key.code == KeyCode::Left ==> (after.tab - c.tab
                + 1) % 3 == 0
            &&& key.code == KeyCode::Char('?') || key.code == KeyCode::Char('h') ==> after.help
            &&& key.code == KeyCode::Char('+') && c.interval < 60 ==> after.interval == c.interval
                + 1 && command == Some(SamplerCommand::SetInterval(after.interval))
            &&& key.code == KeyCode::Char('-') && 1 < c.interval ==> after.interval == c.interval
                - 1 && command == Some(SamplerCommand::SetInterval(after.interval))
        }),
{
}

/// The keys of each list move in that list alone: by one, by ten, to its start and
/// to its end. In the list of requests one cannot go past the end.
pub proof fn keys_move_in_their_own_list(
    c: Controls,
    key: KeyPress,
    processes: nat,
    events: nat,
    requests: nat,
)
    requires
        c.tab < 3,
        is_heard(c, key),
        c.top_selected < 1_000_000,
        c.journal_scroll < 1_000_000,
        c.request_scroll < 1_000_000,
        processes < 1_000_000,
        events < 1_000_000,
        requests < 1_000_000,
    ensures
        ({
            let after = key_spec(c, key, processes, events, requests).0;
            &&& c.tab == 1 && key.code == KeyCode::Down ==> after.top_selected == c.top_selected + 1
            &&& c.tab == 1 && key.code == KeyCode::Up && c.top_selected > 0 ==> after.top_selected
                == c.top_selected - 1
            &&& c.tab == 1 && key.code == KeyCode::PageDown ==> after.top_selected == c.top_selected
                + 10
            &&& c.tab == 1 && key.code == KeyCode::PageUp && c.top_selected >= 10
                ==> after.top_selected == c.top_selected - 10
            &&& c.tab == 1 && key.code == KeyCode::Home ==> after.top_selected == 0
            &&& c.tab == 1 && key.code == KeyCode::End && processes > 0 ==> after.top_selected
                == processes - 1
            &&& c.tab == 2 && key.code == KeyCode::Down ==> after.journal_scroll == c.journal_scroll
                + 1
            &&& c.tab == 2 && key.code == KeyCode::Up && c.journal_scroll > 0
                ==> after.journal_scroll == c.journal_scroll - 1
            &&& c.tab == 2 && key.code == KeyCode::PageDown ==> after.journal_scroll
                == c.journal_scroll + 10
            &&& c.tab == 2 && key.code == KeyCode::Home ==> after.journal_scroll == 0
            &&& c.tab == 2 && key.code == KeyCode::End && events > 0 ==> after.journal_scroll
                == events - 1
            &&& c.tab == 0 && key.code == KeyCode::Down && c.request_scroll + 1 < requests
                ==> after.request_scroll == c.request_scroll + 1
            &&& c.tab == 0 && key.code == KeyCode::Down && requests > 0 ==> after.request_scroll
                < requests
            &&& c.tab == 0 && key.code == KeyCode::End && requests > 0 ==> after.request_scroll
                == requests - 1
            &&& c.tab == 0 && key.code == KeyCode::Home ==> after.request_scroll == 0
            &&& c.tab != 1 && key.code == KeyCode::Down ==> after.top_selected == c.top_selected
            &&& c.tab != 2 && key.code == KeyCode::Down ==> after.journal_scroll == c.journal_scroll
            &&& c.tab != 0 && key.code == KeyCode::Down ==> after.request_scroll == c.request_scroll
        }),
{
}

/// What is typed into a filter is what the filter holds, and typing it does
/// nothing else; while the help is open nothing but closing it does anything.
pub proof fn typing_goes_into_the_filter(
    c: Controls,
    key: KeyPress,
    letter: char,
    processes: nat,
    events: nat,
    requests: nat,
)
    requires
        c.tab < 3,
        key.pressed,
        !key.control,
        !key.alt,
    ensures
        ({
            let (after, command) = key_spec(c, key, processes, events, requests);
            &&& c.help && key.code != KeyCode::Esc && key.code != KeyCode::Char('?') && key.code
                != KeyCode::Char('h') ==> after == c && command is None
            &&& c.help && key.code == KeyCode::Esc ==> !after.help && !(after.quit && !c.quit)
            &&& !c.help && c.top_filtering && key.code == KeyCode::Char(letter) ==> after.top_filter
                == c.top_filter.push(letter) && command is None && after.quit == c.quit
            &&& !c.help && c.top_filtering && key.code == KeyCode::Backspace && c.top_filter.len()
                > 0 ==> after.top_filter == c.top_filter.drop_last()
            &&& !c.help && c.top_filtering && (key.code == KeyCode::Enter || key.code
                == KeyCode::Esc) ==> !after.top_filtering && after.top_filter == c.top_filter
                && after.quit == c.quit
            &&& !c.help && !c.top_filtering && c.tab == 1 && (key.code == KeyCode::Char('f')
                || key.code == KeyCode::Char('/')) ==> after.top_filtering
            &&& !c.help && !c.top_filtering && c.tab == 1 && key.code == KeyCode::Char('c')
                ==> after.top_filter.len() == 0
        }),
{
}

/// A filter shows exactly the events that it lets through, in order: each new
/// event is added where it passes, and nowhere else.
pub proof fn filters_show_what_they_let_through(
    events: Seq<SignalEvent>,
    event: SignalEvent,
    filter: JournalFilter,
)
    ensures
        filter.matches_spec(event.kind) ==> matching_events(events.push(event), filter)
            == matching_events(events, filter).push(event),
        !filter.matches_spec(event.kind) ==> matching_events(events.push(event), filter)
            == matching_events(events, filter),
        matching_events(Seq::empty(), filter).len() == 0,
{
    assert(events.push(event).drop_last() =~= events);
}

/// An alert tells what the sample says that raised it, or changed it last.
pub proof fn alerts_tell_of_the_sample(
    before: Option<ActiveAlert>,
    after: Option<ActiveAlert>,
    known: Sample,
    sample: Sample,
)
    requires
        alert_follows(before, after, known, sample),
    ensures
        before is None && after is Some ==> after.unwrap().state@ == sample.impact@
            && after.unwrap().time@ == sample.updated@ && after.unwrap().summary@
            == signal_summary_spec(sample),
        before is Some && after is Some ==> after.unwrap().state@ == sample.impact@,
        sample.impact@ != "SWAP THRASHING"@ && sample.impact@ != "HEAVY PAGING"@ && sample.impact@
            != "PAGE-IN RECOVERY"@ ==> after is None,
        before is Some && (sample.impact@ == "SWAP THRASHING"@ || sample.impact@ == "HEAVY PAGING"@
            || sample.impact@ == "PAGE-IN RECOVERY"@) ==> after is Some,
{
}

} // verus!
