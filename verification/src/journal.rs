//! The journal: what changed from one sample to the next.

use crate::labels::{
    llm_generation_rate_label, llm_generation_rate_label_spec, llm_model_label,
    llm_model_label_spec, llm_prefill_rate_label, llm_prefill_rate_label_spec,
    pressure_state_label, pressure_state_label_spec, rates_measured, rates_measured_spec,
    signal_summary, signal_summary_spec,
};
use crate::model::{Sample, TelemetrySource, ThroughputDirection};
use crate::order::newest;
use crate::text::{decimal, decimal_text, same, views};
use crate::thresholds::Tone;
use crate::units::{percent_u8, percent_u8_spec, rate, rate_spec, total, total_spec};
use std::collections::VecDeque;
use vstd::prelude::*;

verus! {

/// What an event is about.
#[derive(Clone, Copy, Debug, PartialEq, Eq, Structural)]
pub enum EventKind {
    System,
    Llm,
    Queue,
    Pressure,
    Paging,
    Gpu,
    Thermal,
}

impl EventKind {
    pub open spec fn from_state_spec(state: Seq<char>) -> EventKind {
        if state == "LLM"@ || state == "PROMPT"@ {
            EventKind::Llm
        } else if state == "QUEUE"@ {
            EventKind::Queue
        } else if state == "PRESSURE"@ || state == "MEMORY BOTTLENECK"@ || state
            == "MEMORY STRESS"@ {
            EventKind::Pressure
        } else if state == "PAGING"@ || state == "SWAP THRASHING"@ || state == "HEAVY PAGING"@
            || state == "PAGE-IN RECOVERY"@ || state == "PAGING ACTIVE"@ || state
            == "WATCH PAGING"@ {
            EventKind::Paging
        } else if state == "GPU"@ {
            EventKind::Gpu
        } else if state == "THERMAL"@ {
            EventKind::Thermal
        } else {
            EventKind::System
        }
    }

    /// What an event with a state is about.
    pub fn from_state(state: &str) -> (result: EventKind)
        ensures
            result == EventKind::from_state_spec(state@),
    {
        if same(state, "LLM") || same(state, "PROMPT") {
            EventKind::Llm
        } else if same(state, "QUEUE") {
            EventKind::Queue
        } else if same(state, "PRESSURE") || same(state, "MEMORY BOTTLENECK") || same(
            state,
            "MEMORY STRESS",
        ) {
            EventKind::Pressure
        } else if same(state, "PAGING") || same(state, "SWAP THRASHING") || same(
            state,
            "HEAVY PAGING",
        ) || same(state, "PAGE-IN RECOVERY") || same(state, "PAGING ACTIVE") || same(
            state,
            "WATCH PAGING",
        ) {
            EventKind::Paging
        } else if same(state, "GPU") {
            EventKind::Gpu
        } else if same(state, "THERMAL") {
            EventKind::Thermal
        } else {
            EventKind::System
        }
    }
}

/// Which events are shown.
#[derive(Clone, Copy, Debug, PartialEq, Eq, Structural)]
pub enum JournalFilter {
    All,
    Llm,
    Pressure,
    Paging,
    Gpu,
    Thermal,
    System,
}

impl JournalFilter {
    pub open spec fn label_spec(self) -> Seq<char> {
        match self {
            JournalFilter::All => "ALL"@,
            JournalFilter::Llm => "LLM"@,
            JournalFilter::Pressure => "PRESSURE"@,
            JournalFilter::Paging => "PAGING"@,
            JournalFilter::Gpu => "GPU"@,
            JournalFilter::Thermal => "THERMAL"@,
            JournalFilter::System => "SYSTEM"@,
        }
    }

    /// The name of the filter.
    pub fn label(self) -> (result: &'static str)
        ensures
            result@ == self.label_spec(),
    {
        match self {
            JournalFilter::All => "ALL",
            JournalFilter::Llm => "LLM",
            JournalFilter::Pressure => "PRESSURE",
            JournalFilter::Paging => "PAGING",
            JournalFilter::Gpu => "GPU",
            JournalFilter::Thermal => "THERMAL",
            JournalFilter::System => "SYSTEM",
        }
    }

    /// The place of the filter in the row of filters.
    pub open spec fn place(self) -> int {
        match self {
            JournalFilter::All => 0,
            JournalFilter::Llm => 1,
            JournalFilter::Pressure => 2,
            JournalFilter::Paging => 3,
            JournalFilter::Gpu => 4,
            JournalFilter::Thermal => 5,
            JournalFilter::System => 6,
        }
    }

    /// The next filter; the first one follows the last.
    pub fn next(self) -> (result: JournalFilter)
        ensures
            result.place() == (self.place() + 1) % 7,
    {
        match self {
            JournalFilter::All => JournalFilter::Llm,
            JournalFilter::Llm => JournalFilter::Pressure,
            JournalFilter::Pressure => JournalFilter::Paging,
            JournalFilter::Paging => JournalFilter::Gpu,
            JournalFilter::Gpu => JournalFilter::Thermal,
            JournalFilter::Thermal => JournalFilter::System,
            JournalFilter::System => JournalFilter::All,
        }
    }

    /// The filter before; the last one precedes the first.
    pub fn previous(self) -> (result: JournalFilter)
        ensures
            result.place() == (self.place() + 6) % 7,
    {
        match self {
            JournalFilter::All => JournalFilter::System,
            JournalFilter::Llm => JournalFilter::All,
            JournalFilter::Pressure => JournalFilter::Llm,
            JournalFilter::Paging => JournalFilter::Pressure,
            JournalFilter::Gpu => JournalFilter::Paging,
            JournalFilter::Thermal => JournalFilter::Gpu,
            JournalFilter::System => JournalFilter::Thermal,
        }
    }

    pub open spec fn matches_spec(self, kind: EventKind) -> bool {
        match self {
            JournalFilter::All => true,
            JournalFilter::Llm => kind == EventKind::Llm || kind == EventKind::Queue,
            JournalFilter::Pressure => kind == EventKind::Pressure,
            JournalFilter::Paging => kind == EventKind::Paging,
            JournalFilter::Gpu => kind == EventKind::Gpu,
            JournalFilter::Thermal => kind == EventKind::Thermal,
            JournalFilter::System => kind == EventKind::System,
        }
    }

    /// Whether the filter lets events of a kind through.
    pub fn matches(self, kind: EventKind) -> (result: bool)
        ensures
            result == self.matches_spec(kind),
    {
        match self {
            JournalFilter::All => true,
            JournalFilter::Llm => kind == EventKind::Llm || kind == EventKind::Queue,
            JournalFilter::Pressure => kind == EventKind::Pressure,
            JournalFilter::Paging => kind == EventKind::Paging,
            JournalFilter::Gpu => kind == EventKind::Gpu,
            JournalFilter::Thermal => kind == EventKind::Thermal,
            JournalFilter::System => kind == EventKind::System,
        }
    }
}

/// Going on and going back undo each other, and a place determines its filter.
pub proof fn filters_form_a_ring(filter: JournalFilter, next: JournalFilter, back: JournalFilter)
    requires
        next.place() == (filter.place() + 1) % 7,
        back.place() == (next.place() + 6) % 7,
    ensures
        back == filter,
        next != filter,
{
}

/// Every event passes the filter for all and exactly one other.
pub proof fn every_event_has_one_filter(kind: EventKind, a: JournalFilter, b: JournalFilter)
    ensures
        JournalFilter::All.matches_spec(kind),
        a != JournalFilter::All && b != JournalFilter::All && a.matches_spec(kind)
            && b.matches_spec(kind) ==> a == b,
        JournalFilter::Llm.matches_spec(kind) || JournalFilter::Pressure.matches_spec(kind)
            || JournalFilter::Paging.matches_spec(kind) || JournalFilter::Gpu.matches_spec(kind)
            || JournalFilter::Thermal.matches_spec(kind) || JournalFilter::System.matches_spec(
            kind,
        ),
{
}

/// An event in the journal.
#[derive(Debug)]
pub struct SignalEvent {
    pub time: String,
    pub recorded_at: u64,
    pub kind: EventKind,
    pub state: String,
    pub summary: String,
    pub tone: Tone,
}

impl Clone for SignalEvent {
    fn clone(&self) -> (result: Self)
        ensures
            result == *self,
    {
        SignalEvent {
            time: self.time.clone(),
            recorded_at: self.recorded_at,
            kind: self.kind,
            state: self.state.clone(),
            summary: self.summary.clone(),
            tone: self.tone,
        }
    }
}

/// What is to be written into the journal.
#[derive(Debug)]
pub struct JournalEntry {
    pub state: String,
    pub summary: String,
    pub tone: Tone,
}

/// The contents of an entry.
pub struct Entry {
    pub state: Seq<char>,
    pub summary: Seq<char>,
    pub tone: Tone,
}

pub open spec fn entries_of(list: Seq<JournalEntry>) -> Seq<Entry> {
    list.map_values(
        |e: JournalEntry| Entry { state: e.state@, summary: e.summary@, tone: e.tone },
    )
}

/// A list of one entry.
pub open spec fn entry(state: Seq<char>, summary: Seq<char>, tone: Tone) -> Seq<Entry> {
    seq![Entry { state, summary, tone }]
}

fn note(entries: &mut Vec<JournalEntry>, state: String, summary: String, tone: Tone)
    ensures
        entries_of(final(entries)@) == entries_of(old(entries)@) + entry(state@, summary@, tone),
{
    entries.push(JournalEntry { state, summary, tone });
    assert(entries_of(entries@) =~= entries_of(old(entries)@) + entry(state@, summary@, tone));
}

pub open spec fn or_zero_spec(value: Option<u64>) -> u64 {
    match value {
        Some(value) => value,
        None => 0,
    }
}

fn or_zero(value: Option<u64>) -> (result: u64)
    ensures
        result == or_zero_spec(value),
{
    match value {
        Some(value) => value,
        None => 0,
    }
}

pub open spec fn or_zero_u8_spec(value: Option<u8>) -> u8 {
    match value {
        Some(value) => value,
        None => 0,
    }
}

fn or_zero_u8(value: Option<u8>) -> (result: u8)
    ensures
        result == or_zero_u8_spec(value),
{
    match value {
        Some(value) => value,
        None => 0,
    }
}

pub open spec fn names_a_model_spec(sample: Sample) -> bool {
    sample.llm_provider@ != "none"@ && sample.llm_model@ != "not detected"@
}

fn names_a_model(sample: &Sample) -> (result: bool)
    ensures
        result == names_a_model_spec(*sample),
{
    !same(sample.llm_provider.as_str(), "none") && !same(
        sample.llm_model.as_str(),
        "not detected",
    )
}

/// The state has changed.
pub open spec fn impact_entry(previous: Sample, sample: Sample) -> Seq<Entry> {
    if previous.impact@ != sample.impact@ && sample.impact@ != "SAMPLING"@ {
        entry(sample.impact@, signal_summary_spec(sample), sample.impact_tone)
    } else {
        Seq::empty()
    }
}

fn push_impact(entries: &mut Vec<JournalEntry>, previous: &Sample, sample: &Sample)
    ensures
        entries_of(final(entries)@) == entries_of(old(entries)@) + impact_entry(*previous, *sample),
{
    if !same(previous.impact.as_str(), sample.impact.as_str())
        && !same(sample.impact.as_str(), "SAMPLING") {
        note(entries, sample.impact.clone(), signal_summary(sample), sample.impact_tone);
    } else {
        assert(
            entries_of(entries@) =~= entries_of(old(entries)@) + impact_entry(*previous, *sample)
        );
    }
}

/// Another model is served.
pub open spec fn model_entry(previous: Sample, sample: Sample) -> Seq<Entry> {
    if (previous.llm_provider@ != sample.llm_provider@ || previous.llm_model@ != sample.llm_model@)
        && names_a_model_spec(sample) {
        entry(
            "LLM"@,
            "detected "@ + sample.llm_provider@ + " · "@ + llm_model_label_spec(sample, 42usize),
            Tone::Cyan,
        )
    } else {
        Seq::empty()
    }
}

fn push_model(entries: &mut Vec<JournalEntry>, previous: &Sample, sample: &Sample)
    ensures
        entries_of(final(entries)@) == entries_of(old(entries)@) + model_entry(*previous, *sample),
{
    if (
        !same(previous.llm_provider.as_str(), sample.llm_provider.as_str())
            || !same(previous.llm_model.as_str(), sample.llm_model.as_str())
    )
        && names_a_model(sample) {
        note(
            entries,
            "LLM".to_string(),
            "detected ".to_string()
                .concat(sample.llm_provider.as_str())
                .concat(" · ")
                .concat(llm_model_label(sample, 42).as_str()),
            Tone::Cyan,
        );
    } else {
        assert(
            entries_of(entries@) =~= entries_of(old(entries)@) + model_entry(*previous, *sample)
        );
    }
}

/// The server says something else of itself.
pub open spec fn status_entry(previous: Sample, sample: Sample) -> Seq<Entry> {
    if previous.llm_status@ != sample.llm_status@ {
        entry(
            "LLM"@,
            "status "@ + previous.llm_status@ + " → "@ + sample.llm_status@ + " · "@
                + sample.llm_provider@,
            Tone::Cyan,
        )
    } else {
        Seq::empty()
    }
}

fn push_status(entries: &mut Vec<JournalEntry>, previous: &Sample, sample: &Sample)
    ensures
        entries_of(final(entries)@) == entries_of(old(entries)@) + status_entry(*previous, *sample),
{
    if !same(previous.llm_status.as_str(), sample.llm_status.as_str()) {
        note(
            entries,
            "LLM".to_string(),
            "status ".to_string()
                .concat(previous.llm_status.as_str())
                .concat(" → ")
                .concat(sample.llm_status.as_str())
                .concat(" · ")
                .concat(sample.llm_provider.as_str()),
            Tone::Cyan,
        );
    } else {
        assert(
            entries_of(entries@) =~= entries_of(old(entries)@) + status_entry(*previous, *sample)
        );
    }
}

/// The figures come from elsewhere.
pub open spec fn source_entry(previous: Sample, sample: Sample) -> Seq<Entry> {
    if previous.llm_source != sample.llm_source {
        entry(
            "LLM"@,
            "telemetry source · "@ + previous.llm_source.label_spec() + " → "@
                + sample.llm_source.label_spec(),
            if sample.llm_source == TelemetrySource::Live { Tone::Green } else { Tone::Yellow },
        )
    } else {
        Seq::empty()
    }
}

fn push_source(entries: &mut Vec<JournalEntry>, previous: &Sample, sample: &Sample)
    ensures
        entries_of(final(entries)@) == entries_of(old(entries)@) + source_entry(*previous, *sample),
{
    if previous.llm_source != sample.llm_source {
        note(
            entries,
            "LLM".to_string(),
            "telemetry source · ".to_string()
                .concat(previous.llm_source.label())
                .concat(" → ")
                .concat(sample.llm_source.label()),
            if sample.llm_source == TelemetrySource::Live { Tone::Green } else { Tone::Yellow },
        );
    } else {
        assert(
            entries_of(entries@) =~= entries_of(old(entries)@) + source_entry(*previous, *sample)
        );
    }
}

/// A request has started, or the last one has ended. Where the count is missing
/// nothing is written; where it was missing before, it counts as none.
pub open spec fn activity_entry(previous: Sample, sample: Sample) -> Seq<Entry> {
    if or_zero_spec(previous.llm_active_requests) != 0 && sample.llm_active_requests == Some(0u64) {
        entry("LLM"@, "request completed · serving is idle"@, Tone::Cyan)
    } else if or_zero_spec(previous.llm_active_requests) == 0
        && or_zero_spec(sample.llm_active_requests) != 0 {
        entry(
            "LLM"@,
            "request started · "@ + decimal(or_zero_spec(sample.llm_active_requests) as nat)
                + " active"@,
            Tone::Cyan,
        )
    } else {
        Seq::empty()
    }
}

fn push_activity(entries: &mut Vec<JournalEntry>, previous: &Sample, sample: &Sample)
    ensures
        entries_of(final(entries)@) == entries_of(old(entries)@)
            + activity_entry(*previous, *sample),
{
    if or_zero(previous.llm_active_requests) != 0 && sample.llm_active_requests.is_some()
        && or_zero(sample.llm_active_requests) == 0 {
        note(
            entries,
            "LLM".to_string(),
            "request completed · serving is idle".to_string(),
            Tone::Cyan,
        );
    } else if or_zero(previous.llm_active_requests) == 0
        && or_zero(sample.llm_active_requests) != 0 {
        note(
            entries,
            "LLM".to_string(),
            "request started · ".to_string()
                .concat(decimal_text(or_zero(sample.llm_active_requests) as u64).as_str())
                .concat(" active"),
            Tone::Cyan,
        );
    } else {
        assert(
            entries_of(entries@) =~= entries_of(old(entries)@) + activity_entry(*previous, *sample)
        );
    }
}

/// Requests have begun to wait, or none waits any more. Where the count is
/// missing nothing is written; where it was missing before, it counts as none.
pub open spec fn queue_entry(previous: Sample, sample: Sample) -> Seq<Entry> {
    if or_zero_spec(previous.llm_waiting_requests) != 0
        && sample.llm_waiting_requests == Some(0u64) {
        entry("QUEUE"@, "queue cleared"@, Tone::Green)
    } else if or_zero_spec(previous.llm_waiting_requests) == 0
        && or_zero_spec(sample.llm_waiting_requests) != 0 {
        entry(
            "QUEUE"@,
            decimal(or_zero_spec(sample.llm_waiting_requests) as nat) + " request(s) waiting"@,
            Tone::Yellow,
        )
    } else {
        Seq::empty()
    }
}

fn push_queue(entries: &mut Vec<JournalEntry>, previous: &Sample, sample: &Sample)
    ensures
        entries_of(final(entries)@) == entries_of(old(entries)@) + queue_entry(*previous, *sample),
{
    if or_zero(previous.llm_waiting_requests) != 0 && sample.llm_waiting_requests.is_some()
        && or_zero(sample.llm_waiting_requests) == 0 {
        note(entries, "QUEUE".to_string(), "queue cleared".to_string(), Tone::Green);
    } else if or_zero(previous.llm_waiting_requests) == 0
        && or_zero(sample.llm_waiting_requests) != 0 {
        note(
            entries,
            "QUEUE".to_string(),
            decimal_text(or_zero(sample.llm_waiting_requests) as u64).concat(" request(s) waiting"),
            Tone::Yellow,
        );
    } else {
        assert(
            entries_of(entries@) =~= entries_of(old(entries)@) + queue_entry(*previous, *sample)
        );
    }
}

/// A token rate is known for the first time.
pub open spec fn online_entry(previous: Sample, sample: Sample) -> Seq<Entry> {
    if previous.llm_generation_tps is None && sample.llm_generation_tps is Some {
        entry(
            "LLM"@,
            sample.llm_source.label_spec() + " telemetry online · "@
                + llm_generation_rate_label_spec(sample) + " · "@
                + llm_prefill_rate_label_spec(sample),
            Tone::Green,
        )
    } else {
        Seq::empty()
    }
}

fn push_online(entries: &mut Vec<JournalEntry>, previous: &Sample, sample: &Sample)
    ensures
        entries_of(final(entries)@) == entries_of(old(entries)@) + online_entry(*previous, *sample),
{
    if previous.llm_generation_tps.is_none() && sample.llm_generation_tps.is_some() {
        note(
            entries,
            "LLM".to_string(),
            sample.llm_source.label().to_string()
                .concat(" telemetry online · ")
                .concat(llm_generation_rate_label(sample).as_str())
                .concat(" · ")
                .concat(llm_prefill_rate_label(sample).as_str()),
            Tone::Green,
        );
    } else {
        assert(
            entries_of(entries@) =~= entries_of(old(entries)@) + online_entry(*previous, *sample)
        );
    }
}

/// A drop of the token rate, with a cause that is new.
pub open spec fn diagnosis_entry(previous: Sample, sample: Sample) -> Seq<Entry> {
    if sample.correlation.direction == ThroughputDirection::Down
        && previous.correlation.event_key != sample.correlation.event_key {
        entry(
            "LLM"@,
            "throughput diagnosis · "@ + sample.correlation.summary@ + " · "@
                + sample.correlation.confidence_label_spec() + " confidence"@,
            sample.correlation.tone_spec(),
        )
    } else {
        Seq::empty()
    }
}

fn push_diagnosis(entries: &mut Vec<JournalEntry>, previous: &Sample, sample: &Sample)
    ensures
        entries_of(final(entries)@) == entries_of(old(entries)@)
            + diagnosis_entry(*previous, *sample),
{
    if sample.correlation.is_material_drop()
        && previous.correlation.event_key != sample.correlation.event_key {
        note(
            entries,
            "LLM".to_string(),
            "throughput diagnosis · ".to_string()
                .concat(sample.correlation.summary.as_str())
                .concat(" · ")
                .concat(sample.correlation.confidence_label())
                .concat(" confidence"),
            sample.correlation.tone(),
        );
    } else {
        assert(
            entries_of(entries@) =~= entries_of(old(entries)@) + diagnosis_entry(*previous, *sample)
        );
    }
}

/// The memory pressure has changed.
pub open spec fn pressure_entry(previous: Sample, sample: Sample) -> Seq<Entry> {
    if previous.pressure@ != sample.pressure@ && sample.pressure@.len() > 0 {
        entry(
            "PRESSURE"@,
            "memory state "@ + pressure_state_label_spec(sample),
            sample.pressure_tone,
        )
    } else {
        Seq::empty()
    }
}

fn push_pressure(entries: &mut Vec<JournalEntry>, previous: &Sample, sample: &Sample)
    ensures
        entries_of(final(entries)@) == entries_of(old(entries)@)
            + pressure_entry(*previous, *sample),
{
    if !same(previous.pressure.as_str(), sample.pressure.as_str())
        && !sample.pressure.as_str().is_empty() {
        note(
            entries,
            "PRESSURE".to_string(),
            "memory state ".to_string().concat(pressure_state_label(sample)),
            sample.pressure_tone,
        );
    } else {
        assert(
            entries_of(entries@) =~= entries_of(old(entries)@) + pressure_entry(*previous, *sample)
        );
    }
}

/// Paging has begun, or is measured to have ended.
pub open spec fn paging_entry(previous: Sample, sample: Sample) -> Seq<Entry> {
    if total_spec(previous.swap_in, previous.swap_out) == 0
        && total_spec(sample.swap_in, sample.swap_out) > 0 {
        entry(
            "PAGING"@,
            "active · in "@ + rate_spec(sample.swap_in) + " · out "@ + rate_spec(sample.swap_out),
            Tone::Yellow,
        )
    } else if total_spec(previous.swap_in, previous.swap_out) > 0
        && total_spec(sample.swap_in, sample.swap_out) == 0 && rates_measured_spec(sample) {
        entry("PAGING"@, "cleared · no current paging traffic"@, Tone::Green)
    } else {
        Seq::empty()
    }
}

fn push_paging(entries: &mut Vec<JournalEntry>, previous: &Sample, sample: &Sample)
    ensures
        entries_of(final(entries)@) == entries_of(old(entries)@) + paging_entry(*previous, *sample),
{
    if total(previous.swap_in, previous.swap_out) == 0
        && total(sample.swap_in, sample.swap_out) > 0 {
        note(
            entries,
            "PAGING".to_string(),
            "active · in ".to_string()
                .concat(rate(sample.swap_in).as_str())
                .concat(" · out ")
                .concat(rate(sample.swap_out).as_str()),
            Tone::Yellow,
        );
    } else if total(previous.swap_in, previous.swap_out) > 0
        && total(sample.swap_in, sample.swap_out) == 0 && rates_measured(sample) {
        note(
            entries,
            "PAGING".to_string(),
            "cleared · no current paging traffic".to_string(),
            Tone::Green,
        );
    } else {
        assert(
            entries_of(entries@) =~= entries_of(old(entries)@) + paging_entry(*previous, *sample)
        );
    }
}

/// The GPU has become busy or critical, or is so no longer. Smaller moves are
/// left to the chart. Where the load is missing nothing is written; where it was
/// missing before, it counts as none.
pub open spec fn gpu_entry(previous: Sample, sample: Sample) -> Seq<Entry> {
    if or_zero_u8_spec(previous.gpu_util) < 90 && or_zero_u8_spec(sample.gpu_util) >= 90 {
        entry(
            "GPU"@,
            "critical GPU load · "@ + decimal(or_zero_u8_spec(sample.gpu_util) as nat) + "% busy"@,
            Tone::Red,
        )
    } else if or_zero_u8_spec(previous.gpu_util) >= 90 && or_zero_u8_spec(sample.gpu_util) < 90
        && sample.gpu_util is Some {
        entry(
            "GPU"@,
            "critical cleared GPU load · "@ + decimal(or_zero_u8_spec(sample.gpu_util) as nat)
                + "% busy"@,
            Tone::Yellow,
        )
    } else if or_zero_u8_spec(previous.gpu_util) < 80 && or_zero_u8_spec(sample.gpu_util) >= 80 {
        entry(
            "GPU"@,
            "busy burst started · "@ + decimal(or_zero_u8_spec(sample.gpu_util) as nat) + "% busy"@,
            Tone::Yellow,
        )
    } else if or_zero_u8_spec(previous.gpu_util) >= 80 && or_zero_u8_spec(sample.gpu_util) < 80
        && sample.gpu_util is Some {
        entry(
            "GPU"@,
            "busy burst cleared · "@ + decimal(or_zero_u8_spec(sample.gpu_util) as nat) + "% busy"@,
            Tone::Green,
        )
    } else {
        Seq::empty()
    }
}

fn push_gpu(entries: &mut Vec<JournalEntry>, previous: &Sample, sample: &Sample)
    ensures
        entries_of(final(entries)@) == entries_of(old(entries)@) + gpu_entry(*previous, *sample),
{
    if or_zero_u8(previous.gpu_util) < 90 && or_zero_u8(sample.gpu_util) >= 90 {
        note(
            entries,
            "GPU".to_string(),
            "critical GPU load · ".to_string()
                .concat(decimal_text(or_zero_u8(sample.gpu_util) as u64).as_str())
                .concat("% busy"),
            Tone::Red,
        );
    } else if or_zero_u8(previous.gpu_util) >= 90 && or_zero_u8(sample.gpu_util) < 90
        && sample.gpu_util.is_some() {
        note(
            entries,
            "GPU".to_string(),
            "critical cleared GPU load · ".to_string()
                .concat(decimal_text(or_zero_u8(sample.gpu_util) as u64).as_str())
                .concat("% busy"),
            Tone::Yellow,
        );
    } else if or_zero_u8(previous.gpu_util) < 80 && or_zero_u8(sample.gpu_util) >= 80 {
        note(
            entries,
            "GPU".to_string(),
            "busy burst started · ".to_string()
                .concat(decimal_text(or_zero_u8(sample.gpu_util) as u64).as_str())
                .concat("% busy"),
            Tone::Yellow,
        );
    } else if or_zero_u8(previous.gpu_util) >= 80 && or_zero_u8(sample.gpu_util) < 80
        && sample.gpu_util.is_some() {
        note(
            entries,
            "GPU".to_string(),
            "busy burst cleared · ".to_string()
                .concat(decimal_text(or_zero_u8(sample.gpu_util) as u64).as_str())
                .concat("% busy"),
            Tone::Green,
        );
    } else {
        assert(entries_of(entries@) =~= entries_of(old(entries)@) + gpu_entry(*previous, *sample));
    }
}

/// The thermal state has changed.
pub open spec fn thermal_entry(previous: Sample, sample: Sample) -> Seq<Entry> {
    if previous.thermal@ != sample.thermal@ && sample.thermal@ != "unavailable"@ {
        entry(
            "THERMAL"@,
            sample.thermal@,
            if sample.thermal@ == "no warning"@ { Tone::Green } else { Tone::Yellow },
        )
    } else {
        Seq::empty()
    }
}

fn push_thermal(entries: &mut Vec<JournalEntry>, previous: &Sample, sample: &Sample)
    ensures
        entries_of(final(entries)@) == entries_of(old(entries)@)
            + thermal_entry(*previous, *sample),
{
    if !same(previous.thermal.as_str(), sample.thermal.as_str())
        && !same(sample.thermal.as_str(), "unavailable") {
        note(
            entries,
            "THERMAL".to_string(),
            sample.thermal.clone(),
            if same(sample.thermal.as_str(), "no warning") { Tone::Green } else { Tone::Yellow },
        );
    } else {
        assert(
            entries_of(entries@) =~= entries_of(old(entries)@) + thermal_entry(*previous, *sample)
        );
    }
}

/// The journal begins.
pub open spec fn start_entry(sample: Sample) -> Seq<Entry> {
    entry(
        "SYSTEM"@,
        "journal started · "@ + percent_u8_spec(sample.availability) + " free · pressure "@
            + pressure_state_label_spec(sample),
        Tone::Cyan,
    )
}

fn push_start(entries: &mut Vec<JournalEntry>, sample: &Sample)
    ensures
        entries_of(final(entries)@) == entries_of(old(entries)@) + start_entry(*sample),
{
    note(
        entries,
        "SYSTEM".to_string(),
        "journal started · ".to_string()
            .concat(percent_u8(sample.availability).as_str())
            .concat(" free · pressure ")
            .concat(pressure_state_label(sample)),
        Tone::Cyan,
    );
}

/// A model is served from the beginning.
pub open spec fn first_model_entry(sample: Sample) -> Seq<Entry> {
    if names_a_model_spec(sample) {
        entry(
            "LLM"@,
            "detected "@ + sample.llm_provider@ + " · "@ + llm_model_label_spec(sample, 42usize),
            Tone::Cyan,
        )
    } else {
        Seq::empty()
    }
}

fn push_first_model(entries: &mut Vec<JournalEntry>, sample: &Sample)
    ensures
        entries_of(final(entries)@) == entries_of(old(entries)@) + first_model_entry(*sample),
{
    if names_a_model(sample) {
        note(
            entries,
            "LLM".to_string(),
            "detected ".to_string()
                .concat(sample.llm_provider.as_str())
                .concat(" · ")
                .concat(llm_model_label(sample, 42).as_str()),
            Tone::Cyan,
        );
    } else {
        assert(entries_of(entries@) =~= entries_of(old(entries)@) + first_model_entry(*sample));
    }
}

/// One entry for each request that is new.
pub open spec fn request_entries(summaries: Seq<Seq<char>>) -> Seq<Entry> {
    summaries.map_values(
        |summary: Seq<char>| Entry { state: "PROMPT"@, summary, tone: Tone::Cyan },
    )
}

/// What changed from one sample to the next.
pub open spec fn change_entries(previous: Sample, sample: Sample) -> Seq<Entry> {
    impact_entry(previous, sample) + model_entry(previous, sample) + status_entry(previous, sample)
        + source_entry(previous, sample) + activity_entry(previous, sample)
        + queue_entry(previous, sample) + online_entry(previous, sample)
        + diagnosis_entry(previous, sample) + pressure_entry(previous, sample)
        + paging_entry(previous, sample) + gpu_entry(previous, sample)
        + thermal_entry(previous, sample)
}

/// What is to be written into the journal for a sample.
pub open spec fn journal_entries_spec(
    previous: Option<Sample>,
    sample: Sample,
    new_requests: Seq<Seq<char>>,
) -> Seq<Entry> {
    request_entries(new_requests) + match previous {
        Some(previous) => change_entries(previous, sample),
        None => start_entry(sample) + first_model_entry(sample),
    }
}

fn list_changes(previous: &Sample, sample: &Sample) -> (entries: Vec<JournalEntry>)
    ensures
        entries_of(entries@) == change_entries(*previous, *sample),
{
    let mut entries: Vec<JournalEntry> = Vec::new();
    assert(entries_of(entries@) + impact_entry(*previous, *sample) =~= impact_entry(
        *previous,
        *sample,
    ));
    push_impact(&mut entries, previous, sample);
    push_model(&mut entries, previous, sample);
    push_status(&mut entries, previous, sample);
    push_source(&mut entries, previous, sample);
    push_activity(&mut entries, previous, sample);
    push_queue(&mut entries, previous, sample);
    push_online(&mut entries, previous, sample);
    push_diagnosis(&mut entries, previous, sample);
    push_pressure(&mut entries, previous, sample);
    push_paging(&mut entries, previous, sample);
    push_gpu(&mut entries, previous, sample);
    push_thermal(&mut entries, previous, sample);
    entries
}

fn list_beginning(sample: &Sample) -> (entries: Vec<JournalEntry>)
    ensures
        entries_of(entries@) == start_entry(*sample) + first_model_entry(*sample),
{
    let mut entries: Vec<JournalEntry> = Vec::new();
    assert(entries_of(entries@) + start_entry(*sample) =~= start_entry(*sample));
    push_start(&mut entries, sample);
    push_first_model(&mut entries, sample);
    entries
}

/// The sample that a reference leads to, where there is one.
pub open spec fn sampled(previous: Option<&Sample>) -> Option<Sample> {
    match previous {
        Some(previous) => Some(*previous),
        None => None,
    }
}

/// What is to be written into the journal for a sample.
pub fn journal_entries(
    previous: Option<&Sample>,
    sample: &Sample,
    new_requests: &Vec<String>,
) -> (entries: Vec<JournalEntry>)
    ensures
        entries_of(entries@) == journal_entries_spec(
            sampled(previous),
            *sample,
            views(new_requests@),
        ),
{
    let mut entries: Vec<JournalEntry> = Vec::new();
    let ghost asked_for = request_entries(views(new_requests@));
    assert(entries_of(entries@) =~= asked_for.take(0));
    for i in 0..new_requests.len()
        invariant
            asked_for == request_entries(views(new_requests@)),
            entries_of(entries@) == asked_for.take(i as int),
    {
        note(&mut entries, "PROMPT".to_string(), new_requests[i].clone(), Tone::Cyan);
        assert(entries_of(entries@) =~= asked_for.take(i + 1));
    }
    assert(entries_of(entries@) =~= asked_for);
    let ghost asked = entries@;
    let mut changes = match previous {
        Some(previous) => list_changes(previous, sample),
        None => list_beginning(sample),
    };
    let ghost changed = changes@;
    entries.append(&mut changes);
    assert(entries_of(entries@) =~= entries_of(asked) + entries_of(changed));
    entries
}

/// Whether an event is an entry as it was written at a moment.
pub open spec fn records(event: SignalEvent, entry: Entry, time: Seq<char>, now: u64) -> bool {
    &&& event.time@ == time
    &&& event.recorded_at == now
    &&& event.kind == EventKind::from_state_spec(entry.state)
    &&& event.state@ == entry.state
    &&& event.summary@ == entry.summary
    &&& event.tone == entry.tone
}

/// How many events the journal keeps for a length of the history.
pub open spec fn journal_limit_spec(history_limit: usize) -> nat {
    if history_limit < 40 {
        40
    } else if history_limit > 240 {
        240
    } else {
        history_limit as nat
    }
}

/// Writes entries into a journal, in order. The newest events are kept.
pub fn write_journal(
    signals: &mut VecDeque<SignalEvent>,
    entries: Vec<JournalEntry>,
    time: &str,
    now: u64,
    history_limit: usize,
)
    ensures
        exists|written: Seq<SignalEvent>|
            {
                &&& written.len() == entries@.len()
                &&& forall|i: int|
                    0 <= i < written.len() ==> records(
                        #[trigger] written[i],
                        entries_of(entries@)[i],
                        time@,
                        now,
                    )
                &&& final(signals)@ == #[trigger] newest(
                    old(signals)@ + written,
                    journal_limit_spec(history_limit),
                )
            },
{
    let ghost before = signals@;
    let ghost mut written: Seq<SignalEvent> = Seq::empty();
    assert(before + written =~= before);
    for i in 0..entries.len()
        invariant
            written.len() == i,
            signals@ == before + written,
            forall|j: int|
                0 <= j < i ==> records(
                    #[trigger] written[j],
                    entries_of(entries@)[j],
                    time@,
                    now,
                ),
    {
        let event = SignalEvent {
            time: time.to_string(),
            recorded_at: now,
            kind: EventKind::from_state(entries[i].state.as_str()),
            state: entries[i].state.clone(),
            summary: entries[i].summary.clone(),
            tone: entries[i].tone,
        };
        proof {
            assert((before + written).push(event) =~= before + written.push(event));
            written = written.push(event);
        }
        signals.push_back(event);
    }
    let limit: usize = if history_limit < 40 {
        40
    } else if history_limit > 240 {
        240
    } else {
        history_limit
    };
    let ghost all = signals@;
    let ghost mut dropped: int = 0;
    assert(all.skip(0) =~= all);
    while signals.len() > limit
        invariant
            0 <= dropped <= all.len(),
            dropped > 0 ==> all.len() - dropped >= limit,
            signals@ == all.skip(dropped),
        decreases signals@.len(),
    {
        let _ = signals.pop_front();
        proof {
            assert(signals@ =~= all.skip(dropped + 1));
            dropped = dropped + 1;
        }
    }
    assert(signals@ =~= newest(before + written, journal_limit_spec(history_limit)));
}

/// The journal never grows beyond 240 events, nor is it cut below 40.
pub proof fn journal_is_bounded(events: Seq<SignalEvent>, history_limit: usize)
    ensures
        newest(events, journal_limit_spec(history_limit)).len() <= 240,
        events.len() >= 40 ==> newest(events, journal_limit_spec(history_limit)).len() >= 40,
{
}

/// A diagnosis is written once: while its direction and cause stay, the next
/// sample adds none.
pub proof fn a_diagnosis_is_written_once(previous: Sample, sample: Sample)
    ensures
        previous.correlation.event_key == sample.correlation.event_key ==> diagnosis_entry(
            previous,
            sample,
        ).len() == 0,
        sample.correlation.direction != ThroughputDirection::Down ==> diagnosis_entry(
            previous,
            sample,
        ).len() == 0,
        sample.correlation.direction == ThroughputDirection::Down && previous.correlation.event_key
            != sample.correlation.event_key ==> diagnosis_entry(previous, sample).len() == 1,
{
}

/// A sample that lacks a reading writes nothing of it, whatever the one before
/// said.
pub proof fn missing_readings_write_nothing(previous: Sample, sample: Sample)
    ensures
        sample.gpu_util is None ==> gpu_entry(previous, sample).len() == 0,
        sample.llm_active_requests is None ==> activity_entry(previous, sample).len() == 0,
        sample.llm_waiting_requests is None ==> queue_entry(previous, sample).len() == 0,
        !rates_measured_spec(sample) && total_spec(sample.swap_in, sample.swap_out) == 0
            ==> paging_entry(previous, sample).len() == 0,
        sample.thermal@ == "unavailable"@ ==> thermal_entry(previous, sample).len() == 0,
{
}

/// A sample that is like the one before in everything that the journal follows
/// adds nothing.
pub proof fn nothing_is_written_without_a_change(sample: Sample)
    ensures
        change_entries(sample, sample).len() == 0,
{
}

/// What the entries with one state say, in order, and in which tone.
pub open spec fn notes(entries: Seq<Entry>, state: Seq<char>) -> Seq<(Seq<char>, Tone)>
    decreases entries.len(),
{
    if entries.len() == 0 {
        Seq::empty()
    } else if entries.last().state == state {
        notes(entries.drop_last(), state).push((entries.last().summary, entries.last().tone))
    } else {
        notes(entries.drop_last(), state)
    }
}

proof fn lemma_notes_add(a: Seq<Entry>, b: Seq<Entry>, state: Seq<char>)
    ensures
        notes(a + b, state) == notes(a, state) + notes(b, state),
    decreases b.len(),
{
    if b.len() == 0 {
        assert(a + b =~= a);
        assert(notes(a, state) + notes(b, state) =~= notes(a, state));
    } else {
        lemma_notes_add(a, b.drop_last(), state);
        assert((a + b).drop_last() =~= a + b.drop_last());
        assert(notes(a + b, state) =~= notes(a, state) + notes(b, state));
    }
}

proof fn lemma_one_note(list: Seq<Entry>, state: Seq<char>)
    requires
        list.len() <= 1,
    ensures
        list.len() == 0 || list[0].state != state ==> notes(list, state) =~= Seq::empty(),
        list.len() == 1 && list[0].state == state ==> notes(list, state) =~= seq![
            (list[0].summary, list[0].tone),
        ],
{
    if list.len() == 1 {
        assert(list.drop_last() =~= Seq::<Entry>::empty());
        assert(notes(list.drop_last(), state) =~= Seq::empty());
    }
}

proof fn lemma_states_differ()
    ensures
        "LLM"@ != "QUEUE"@,
        "LLM"@ != "PRESSURE"@,
        "LLM"@ != "PAGING"@,
        "LLM"@ != "GPU"@,
        "LLM"@ != "THERMAL"@,
        "LLM"@ != "PROMPT"@,
        "LLM"@ != "SYSTEM"@,
        "QUEUE"@ != "PRESSURE"@,
        "QUEUE"@ != "PAGING"@,
        "QUEUE"@ != "GPU"@,
        "QUEUE"@ != "THERMAL"@,
        "QUEUE"@ != "PROMPT"@,
        "QUEUE"@ != "SYSTEM"@,
        "PRESSURE"@ != "PAGING"@,
        "PRESSURE"@ != "GPU"@,
        "PRESSURE"@ != "THERMAL"@,
        "PRESSURE"@ != "PROMPT"@,
        "PRESSURE"@ != "SYSTEM"@,
        "PAGING"@ != "GPU"@,
        "PAGING"@ != "THERMAL"@,
        "PAGING"@ != "PROMPT"@,
        "PAGING"@ != "SYSTEM"@,
        "GPU"@ != "THERMAL"@,
        "GPU"@ != "PROMPT"@,
        "GPU"@ != "SYSTEM"@,
        "THERMAL"@ != "PROMPT"@,
        "THERMAL"@ != "SYSTEM"@,
        "PROMPT"@ != "SYSTEM"@,
{
    reveal_strlit("LLM");
    reveal_strlit("QUEUE");
    reveal_strlit("PRESSURE");
    reveal_strlit("PAGING");
    reveal_strlit("GPU");
    reveal_strlit("THERMAL");
    reveal_strlit("PROMPT");
    reveal_strlit("SYSTEM");
    assert("LLM"@.len() != "QUEUE"@.len());
    assert("LLM"@.len() != "PRESSURE"@.len());
    assert("LLM"@.len() != "PAGING"@.len());
    assert("LLM"@[0] != "GPU"@[0]);
    assert("LLM"@.len() != "THERMAL"@.len());
    assert("LLM"@.len() != "PROMPT"@.len());
    assert("LLM"@.len() != "SYSTEM"@.len());
    assert("QUEUE"@.len() != "PRESSURE"@.len());
    assert("QUEUE"@.len() != "PAGING"@.len());
    assert("QUEUE"@.len() != "GPU"@.len());
    assert("QUEUE"@.len() != "THERMAL"@.len());
    assert("QUEUE"@.len() != "PROMPT"@.len());
    assert("QUEUE"@.len() != "SYSTEM"@.len());
    assert("PRESSURE"@.len() != "PAGING"@.len());
    assert("PRESSURE"@.len() != "GPU"@.len());
    assert("PRESSURE"@.len() != "THERMAL"@.len());
    assert("PRESSURE"@.len() != "PROMPT"@.len());
    assert("PRESSURE"@.len() != "SYSTEM"@.len());
    assert("PAGING"@.len() != "GPU"@.len());
    assert("PAGING"@.len() != "THERMAL"@.len());
    assert("PAGING"@[1] != "PROMPT"@[1]);
    assert("PAGING"@[0] != "SYSTEM"@[0]);
    assert("GPU"@.len() != "THERMAL"@.len());
    assert("GPU"@.len() != "PROMPT"@.len());
    assert("GPU"@.len() != "SYSTEM"@.len());
    assert("THERMAL"@.len() != "PROMPT"@.len());
    assert("THERMAL"@.len() != "SYSTEM"@.len());
    assert("PROMPT"@[0] != "SYSTEM"@[0]);
}

/// What the journal says of a change, state by state: the parts in which it
/// looks for changes, one after the other.
proof fn lemma_notes_of_changes(previous: Sample, sample: Sample, state: Seq<char>)
    ensures
        notes(journal_entries_spec(Some(previous), sample, Seq::empty()), state) == notes(impact_entry(previous, sample), state)
            + notes(model_entry(previous, sample), state)
            + notes(status_entry(previous, sample), state)
            + notes(source_entry(previous, sample), state)
            + notes(activity_entry(previous, sample), state)
            + notes(queue_entry(previous, sample), state)
            + notes(online_entry(previous, sample), state)
            + notes(diagnosis_entry(previous, sample), state)
            + notes(pressure_entry(previous, sample), state)
            + notes(paging_entry(previous, sample), state)
            + notes(gpu_entry(previous, sample), state)
            + notes(thermal_entry(previous, sample), state),
{
    let impact = impact_entry(previous, sample);
    let model = model_entry(previous, sample);
    let status = status_entry(previous, sample);
    let source = source_entry(previous, sample);
    let activity = activity_entry(previous, sample);
    let queue = queue_entry(previous, sample);
    let online = online_entry(previous, sample);
    let diagnosis = diagnosis_entry(previous, sample);
    let pressure = pressure_entry(previous, sample);
    let paging = paging_entry(previous, sample);
    let gpu = gpu_entry(previous, sample);
    let thermal = thermal_entry(previous, sample);
    let none = request_entries(Seq::empty());
    assert(none =~= Seq::empty());
    assert(none + change_entries(previous, sample) =~= change_entries(previous, sample));
    lemma_notes_add(impact, model, state);
    let to_model = impact + model;
    lemma_notes_add(to_model, status, state);
    let to_status = to_model + status;
    lemma_notes_add(to_status, source, state);
    let to_source = to_status + source;
    lemma_notes_add(to_source, activity, state);
    let to_activity = to_source + activity;
    lemma_notes_add(to_activity, queue, state);
    let to_queue = to_activity + queue;
    lemma_notes_add(to_queue, online, state);
    let to_online = to_queue + online;
    lemma_notes_add(to_online, diagnosis, state);
    let to_diagnosis = to_online + diagnosis;
    lemma_notes_add(to_diagnosis, pressure, state);
    let to_pressure = to_diagnosis + pressure;
    lemma_notes_add(to_pressure, paging, state);
    let to_paging = to_pressure + paging;
    lemma_notes_add(to_paging, gpu, state);
    let to_gpu = to_paging + gpu;
    lemma_notes_add(to_gpu, thermal, state);
    let to_thermal = to_gpu + thermal;
}

proof fn lemma_no_impact(previous: Sample, sample: Sample, state: Seq<char>)
    requires
        state != sample.impact@,
    ensures
        notes(impact_entry(previous, sample), state) == Seq::<(Seq<char>, Tone)>::empty(),
{
    lemma_one_note(impact_entry(previous, sample), state);
}

proof fn lemma_no_model(previous: Sample, sample: Sample, state: Seq<char>)
    requires
        state != "LLM"@,
    ensures
        notes(model_entry(previous, sample), state) == Seq::<(Seq<char>, Tone)>::empty(),
{
    lemma_one_note(model_entry(previous, sample), state);
}

proof fn lemma_no_status(previous: Sample, sample: Sample, state: Seq<char>)
    requires
        state != "LLM"@,
    ensures
        notes(status_entry(previous, sample), state) == Seq::<(Seq<char>, Tone)>::empty(),
{
    lemma_one_note(status_entry(previous, sample), state);
}

proof fn lemma_no_source(previous: Sample, sample: Sample, state: Seq<char>)
    requires
        state != "LLM"@,
    ensures
        notes(source_entry(previous, sample), state) == Seq::<(Seq<char>, Tone)>::empty(),
{
    lemma_one_note(source_entry(previous, sample), state);
}

proof fn lemma_no_activity(previous: Sample, sample: Sample, state: Seq<char>)
    requires
        state != "LLM"@,
    ensures
        notes(activity_entry(previous, sample), state) == Seq::<(Seq<char>, Tone)>::empty(),
{
    lemma_one_note(activity_entry(previous, sample), state);
}

proof fn lemma_no_queue(previous: Sample, sample: Sample, state: Seq<char>)
    requires
        state != "QUEUE"@,
    ensures
        notes(queue_entry(previous, sample), state) == Seq::<(Seq<char>, Tone)>::empty(),
{
    lemma_one_note(queue_entry(previous, sample), state);
}

proof fn lemma_no_online(previous: Sample, sample: Sample, state: Seq<char>)
    requires
        state != "LLM"@,
    ensures
        notes(online_entry(previous, sample), state) == Seq::<(Seq<char>, Tone)>::empty(),
{
    lemma_one_note(online_entry(previous, sample), state);
}

proof fn lemma_no_diagnosis(previous: Sample, sample: Sample, state: Seq<char>)
    requires
        state != "LLM"@,
    ensures
        notes(diagnosis_entry(previous, sample), state) == Seq::<(Seq<char>, Tone)>::empty(),
{
    lemma_one_note(diagnosis_entry(previous, sample), state);
}

proof fn lemma_no_pressure(previous: Sample, sample: Sample, state: Seq<char>)
    requires
        state != "PRESSURE"@,
    ensures
        notes(pressure_entry(previous, sample), state) == Seq::<(Seq<char>, Tone)>::empty(),
{
    lemma_one_note(pressure_entry(previous, sample), state);
}

proof fn lemma_no_paging(previous: Sample, sample: Sample, state: Seq<char>)
    requires
        state != "PAGING"@,
    ensures
        notes(paging_entry(previous, sample), state) == Seq::<(Seq<char>, Tone)>::empty(),
{
    lemma_one_note(paging_entry(previous, sample), state);
}

proof fn lemma_no_gpu(previous: Sample, sample: Sample, state: Seq<char>)
    requires
        state != "GPU"@,
    ensures
        notes(gpu_entry(previous, sample), state) == Seq::<(Seq<char>, Tone)>::empty(),
{
    lemma_one_note(gpu_entry(previous, sample), state);
}

proof fn lemma_no_thermal(previous: Sample, sample: Sample, state: Seq<char>)
    requires
        state != "THERMAL"@,
    ensures
        notes(thermal_entry(previous, sample), state) == Seq::<(Seq<char>, Tone)>::empty(),
{
    lemma_one_note(thermal_entry(previous, sample), state);
}

/// What the journal writes under a state when one sample follows another.
pub open spec fn written_of(previous: Sample, sample: Sample, state: Seq<char>) -> Seq<
    (Seq<char>, Tone),
> {
    notes(journal_entries_spec(Some(previous), sample, Seq::empty()), state)
}

proof fn lemma_nothing_adds(list: Seq<(Seq<char>, Tone)>)
    ensures
        list + Seq::<(Seq<char>, Tone)>::empty() == list,
        Seq::<(Seq<char>, Tone)>::empty() + list == list,
{
    assert(list + Seq::<(Seq<char>, Tone)>::empty() =~= list);
    assert(Seq::<(Seq<char>, Tone)>::empty() + list =~= list);
}

proof fn lemma_only_queue(previous: Sample, sample: Sample)
    requires
        sample.impact@ != "QUEUE"@,
    ensures
        written_of(previous, sample, "QUEUE"@) == notes(queue_entry(previous, sample), "QUEUE"@),
{
    lemma_states_differ();
    lemma_notes_of_changes(previous, sample, "QUEUE"@);
    lemma_no_impact(previous, sample, "QUEUE"@);
    lemma_no_model(previous, sample, "QUEUE"@);
    lemma_no_status(previous, sample, "QUEUE"@);
    lemma_no_source(previous, sample, "QUEUE"@);
    lemma_no_activity(previous, sample, "QUEUE"@);
    lemma_no_online(previous, sample, "QUEUE"@);
    lemma_no_diagnosis(previous, sample, "QUEUE"@);
    lemma_no_pressure(previous, sample, "QUEUE"@);
    lemma_no_paging(previous, sample, "QUEUE"@);
    lemma_no_gpu(previous, sample, "QUEUE"@);
    lemma_no_thermal(previous, sample, "QUEUE"@);
    lemma_nothing_adds(Seq::empty());
    lemma_nothing_adds(notes(queue_entry(previous, sample), "QUEUE"@));
}

proof fn lemma_only_pressure(previous: Sample, sample: Sample)
    requires
        sample.impact@ != "PRESSURE"@,
    ensures
        written_of(previous, sample, "PRESSURE"@) == notes(pressure_entry(previous, sample), "PRESSURE"@),
{
    lemma_states_differ();
    lemma_notes_of_changes(previous, sample, "PRESSURE"@);
    lemma_no_impact(previous, sample, "PRESSURE"@);
    lemma_no_model(previous, sample, "PRESSURE"@);
    lemma_no_status(previous, sample, "PRESSURE"@);
    lemma_no_source(previous, sample, "PRESSURE"@);
    lemma_no_activity(previous, sample, "PRESSURE"@);
    lemma_no_queue(previous, sample, "PRESSURE"@);
    lemma_no_online(previous, sample, "PRESSURE"@);
    lemma_no_diagnosis(previous, sample, "PRESSURE"@);
    lemma_no_paging(previous, sample, "PRESSURE"@);
    lemma_no_gpu(previous, sample, "PRESSURE"@);
    lemma_no_thermal(previous, sample, "PRESSURE"@);
    lemma_nothing_adds(Seq::empty());
    lemma_nothing_adds(notes(pressure_entry(previous, sample), "PRESSURE"@));
}

proof fn lemma_only_paging(previous: Sample, sample: Sample)
    requires
        sample.impact@ != "PAGING"@,
    ensures
        written_of(previous, sample, "PAGING"@) == notes(paging_entry(previous, sample), "PAGING"@),
{
    lemma_states_differ();
    lemma_notes_of_changes(previous, sample, "PAGING"@);
    lemma_no_impact(previous, sample, "PAGING"@);
    lemma_no_model(previous, sample, "PAGING"@);
    lemma_no_status(previous, sample, "PAGING"@);
    lemma_no_source(previous, sample, "PAGING"@);
    lemma_no_activity(previous, sample, "PAGING"@);
    lemma_no_queue(previous, sample, "PAGING"@);
    lemma_no_online(previous, sample, "PAGING"@);
    lemma_no_diagnosis(previous, sample, "PAGING"@);
    lemma_no_pressure(previous, sample, "PAGING"@);
    lemma_no_gpu(previous, sample, "PAGING"@);
    lemma_no_thermal(previous, sample, "PAGING"@);
    lemma_nothing_adds(Seq::empty());
    lemma_nothing_adds(notes(paging_entry(previous, sample), "PAGING"@));
}

proof fn lemma_only_gpu(previous: Sample, sample: Sample)
    requires
        sample.impact@ != "GPU"@,
    ensures
        written_of(previous, sample, "GPU"@) == notes(gpu_entry(previous, sample), "GPU"@),
{
    lemma_states_differ();
    lemma_notes_of_changes(previous, sample, "GPU"@);
    lemma_no_impact(previous, sample, "GPU"@);
    lemma_no_model(previous, sample, "GPU"@);
    lemma_no_status(previous, sample, "GPU"@);
    lemma_no_source(previous, sample, "GPU"@);
    lemma_no_activity(previous, sample, "GPU"@);
    lemma_no_queue(previous, sample, "GPU"@);
    lemma_no_online(previous, sample, "GPU"@);
    lemma_no_diagnosis(previous, sample, "GPU"@);
    lemma_no_pressure(previous, sample, "GPU"@);
    lemma_no_paging(previous, sample, "GPU"@);
    lemma_no_thermal(previous, sample, "GPU"@);
    lemma_nothing_adds(Seq::empty());
    lemma_nothing_adds(notes(gpu_entry(previous, sample), "GPU"@));
}

proof fn lemma_only_thermal(previous: Sample, sample: Sample)
    requires
        sample.impact@ != "THERMAL"@,
    ensures
        written_of(previous, sample, "THERMAL"@) == notes(thermal_entry(previous, sample), "THERMAL"@),
{
    lemma_states_differ();
    lemma_notes_of_changes(previous, sample, "THERMAL"@);
    lemma_no_impact(previous, sample, "THERMAL"@);
    lemma_no_model(previous, sample, "THERMAL"@);
    lemma_no_status(previous, sample, "THERMAL"@);
    lemma_no_source(previous, sample, "THERMAL"@);
    lemma_no_activity(previous, sample, "THERMAL"@);
    lemma_no_queue(previous, sample, "THERMAL"@);
    lemma_no_online(previous, sample, "THERMAL"@);
    lemma_no_diagnosis(previous, sample, "THERMAL"@);
    lemma_no_pressure(previous, sample, "THERMAL"@);
    lemma_no_paging(previous, sample, "THERMAL"@);
    lemma_no_gpu(previous, sample, "THERMAL"@);
    lemma_nothing_adds(Seq::empty());
    lemma_nothing_adds(notes(thermal_entry(previous, sample), "THERMAL"@));
}

proof fn lemma_only_serving(previous: Sample, sample: Sample)
    requires
        sample.impact@ != "LLM"@,
    ensures
        written_of(previous, sample, "LLM"@) == notes(model_entry(previous, sample), "LLM"@)
            + notes(status_entry(previous, sample), "LLM"@)
            + notes(source_entry(previous, sample), "LLM"@)
            + notes(activity_entry(previous, sample), "LLM"@)
            + notes(online_entry(previous, sample), "LLM"@)
            + notes(diagnosis_entry(previous, sample), "LLM"@),
{
    lemma_states_differ();
    lemma_notes_of_changes(previous, sample, "LLM"@);
    lemma_no_impact(previous, sample, "LLM"@);
    lemma_no_queue(previous, sample, "LLM"@);
    lemma_no_pressure(previous, sample, "LLM"@);
    lemma_no_paging(previous, sample, "LLM"@);
    lemma_no_gpu(previous, sample, "LLM"@);
    lemma_no_thermal(previous, sample, "LLM"@);
    let model = notes(model_entry(previous, sample), "LLM"@);
    let status = notes(status_entry(previous, sample), "LLM"@);
    let source = notes(source_entry(previous, sample), "LLM"@);
    let activity = notes(activity_entry(previous, sample), "LLM"@);
    let online = notes(online_entry(previous, sample), "LLM"@);
    let diagnosis = notes(diagnosis_entry(previous, sample), "LLM"@);
    lemma_nothing_adds(model);
    lemma_nothing_adds(model + status + source + activity);
    lemma_nothing_adds(model + status + source + activity + online + diagnosis);
}

proof fn lemma_only_impact(previous: Sample, sample: Sample)
    requires
        sample.impact@ != "LLM"@,
        sample.impact@ != "QUEUE"@,
        sample.impact@ != "PRESSURE"@,
        sample.impact@ != "PAGING"@,
        sample.impact@ != "GPU"@,
        sample.impact@ != "THERMAL"@,
    ensures
        written_of(previous, sample, sample.impact@) == notes(
            impact_entry(previous, sample),
            sample.impact@,
        ),
{
    lemma_notes_of_changes(previous, sample, sample.impact@);
    lemma_no_model(previous, sample, sample.impact@);
    lemma_no_status(previous, sample, sample.impact@);
    lemma_no_source(previous, sample, sample.impact@);
    lemma_no_activity(previous, sample, sample.impact@);
    lemma_no_queue(previous, sample, sample.impact@);
    lemma_no_online(previous, sample, sample.impact@);
    lemma_no_diagnosis(previous, sample, sample.impact@);
    lemma_no_pressure(previous, sample, sample.impact@);
    lemma_no_paging(previous, sample, sample.impact@);
    lemma_no_gpu(previous, sample, sample.impact@);
    lemma_no_thermal(previous, sample, sample.impact@);
    lemma_nothing_adds(notes(impact_entry(previous, sample), sample.impact@));
}

proof fn lemma_pressure_words(sample: Sample)
    ensures
        sample.pressure@ == "GREEN"@ ==> sample.pressure@.len() > 0 && "memory state "@
            + pressure_state_label_spec(sample) == "memory state normal"@,
        sample.pressure@ == "YELLOW"@ ==> sample.pressure@.len() > 0 && "memory state "@
            + pressure_state_label_spec(sample) == "memory state watch"@,
        sample.pressure@ == "RED"@ ==> sample.pressure@.len() > 0 && "memory state "@
            + pressure_state_label_spec(sample) == "memory state critical"@,
{
    reveal_strlit("GREEN");
    reveal_strlit("YELLOW");
    reveal_strlit("RED");
    reveal_strlit("memory state ");
    reveal_strlit("normal");
    reveal_strlit("watch");
    reveal_strlit("critical");
    reveal_strlit("memory state normal");
    reveal_strlit("memory state watch");
    reveal_strlit("memory state critical");
    assert("memory state "@ + "normal"@ =~= "memory state normal"@);
    assert("memory state "@ + "watch"@ =~= "memory state watch"@);
    assert("memory state "@ + "critical"@ =~= "memory state critical"@);
}

/// A change of the pressure is written once, in the word for what it is now,
/// whatever it was before; as long as it stays nothing is written.
pub proof fn pressure_is_journaled_as_it_is_now(previous: Sample, sample: Sample)
    requires
        sample.impact@ != "PRESSURE"@,
    ensures
        previous.pressure@ != sample.pressure@ && sample.pressure@ == "GREEN"@ ==> written_of(
            previous,
            sample,
            "PRESSURE"@,
        ) =~= seq![("memory state normal"@, sample.pressure_tone)],
        previous.pressure@ != sample.pressure@ && sample.pressure@ == "YELLOW"@ ==> written_of(
            previous,
            sample,
            "PRESSURE"@,
        ) =~= seq![("memory state watch"@, sample.pressure_tone)],
        previous.pressure@ != sample.pressure@ && sample.pressure@ == "RED"@ ==> written_of(
            previous,
            sample,
            "PRESSURE"@,
        ) =~= seq![("memory state critical"@, sample.pressure_tone)],
        previous.pressure@ == sample.pressure@ ==> written_of(previous, sample, "PRESSURE"@).len() == 0,
{
    lemma_only_pressure(previous, sample);
    lemma_one_note(pressure_entry(previous, sample), "PRESSURE"@);
    lemma_pressure_words(sample);
}

/// Paging is written when it comes, with the rates that it comes with, and when
/// it is measured to have gone; as long as it goes on, or does not, nothing is.
pub proof fn paging_is_journaled_as_it_comes_and_goes(previous: Sample, sample: Sample)
    requires
        sample.impact@ != "PAGING"@,
    ensures
        previous.swap_in == 0 && previous.swap_out == 0 && sample.swap_in + sample.swap_out > 0
            ==> written_of(previous, sample, "PAGING"@) =~= seq![
            (
                "active · in "@ + rate_spec(sample.swap_in) + " · out "@ + rate_spec(sample.swap_out),
                Tone::Yellow,
            ),
        ],
        previous.swap_in + previous.swap_out > 0 && sample.swap_in == 0 && sample.swap_out == 0
            && sample.vm_available && sample.rate_ready ==> written_of(previous, sample, "PAGING"@)
            =~= seq![("cleared · no current paging traffic"@, Tone::Green)],
        previous.swap_in + previous.swap_out > 0 && sample.swap_in + sample.swap_out > 0
            ==> written_of(
            previous,
            sample,
            "PAGING"@,
        ).len() == 0,
        sample.swap_in + sample.swap_out == 0 && (previous.swap_in + previous.swap_out == 0
            || !sample.vm_available || !sample.rate_ready) ==> written_of(previous, sample, "PAGING"@).len()
            == 0,
{
    lemma_only_paging(previous, sample);
    lemma_one_note(paging_entry(previous, sample), "PAGING"@);
}

/// The load of the GPU is written as it reaches or leaves eighty and ninety per
/// cent, with what it is now; between the levels nothing is.
pub proof fn gpu_load_is_journaled_at_its_levels(previous: Sample, sample: Sample)
    requires
        sample.impact@ != "GPU"@,
    ensures
        previous.gpu_util is Some && sample.gpu_util is Some ==> {
            let (was, is) = (previous.gpu_util.unwrap(), sample.gpu_util.unwrap());
            let said = written_of(previous, sample, "GPU"@);
            &&& was < 90 && is >= 90 ==> said =~= seq![
                ("critical GPU load · "@ + decimal(is as nat) + "% busy"@, Tone::Red),
            ]
            &&& was >= 90 && is < 90 ==> said =~= seq![
                ("critical cleared GPU load · "@ + decimal(is as nat) + "% busy"@, Tone::Yellow),
            ]
            &&& was < 80 && 80 <= is < 90 ==> said =~= seq![
                ("busy burst started · "@ + decimal(is as nat) + "% busy"@, Tone::Yellow),
            ]
            &&& 80 <= was < 90 && is < 80 ==> said =~= seq![
                ("busy burst cleared · "@ + decimal(is as nat) + "% busy"@, Tone::Green),
            ]
            &&& (was < 80 && is < 80) || (80 <= was < 90 && 80 <= is < 90) || (was >= 90 && is >= 90)
                ==> said.len() == 0
        },
        sample.gpu_util is None ==> written_of(previous, sample, "GPU"@).len() == 0,
{
    lemma_only_gpu(previous, sample);
    lemma_one_note(gpu_entry(previous, sample), "GPU"@);
}

/// A change of the thermal state is written as it is now, unless it is not known.
pub proof fn heat_is_journaled_as_it_changes(previous: Sample, sample: Sample)
    requires
        sample.impact@ != "THERMAL"@,
    ensures
        previous.thermal@ != sample.thermal@ && sample.thermal@ != "unavailable"@ ==> written_of(
            previous,
            sample,
            "THERMAL"@,
        ) =~= seq![
            (
                sample.thermal@,
                if sample.thermal@ == "no warning"@ {
                    Tone::Green
                } else {
                    Tone::Yellow
                },
            ),
        ],
        previous.thermal@ == sample.thermal@ || sample.thermal@ == "unavailable"@ ==> written_of(
            previous,
            sample,
            "THERMAL"@,
        ).len() == 0,
{
    lemma_only_thermal(previous, sample);
    lemma_one_note(thermal_entry(previous, sample), "THERMAL"@);
}

/// A queue is written when it comes, with its length, and when it has gone.
pub proof fn queues_are_journaled_as_they_come_and_go(previous: Sample, sample: Sample)
    requires
        sample.impact@ != "QUEUE"@,
    ensures
        previous.llm_waiting_requests is Some && sample.llm_waiting_requests is Some ==> {
            let (was, is) = (
                previous.llm_waiting_requests.unwrap(),
                sample.llm_waiting_requests.unwrap(),
            );
            let said = written_of(previous, sample, "QUEUE"@);
            &&& was == 0 && is > 0 ==> said =~= seq![
                (decimal(is as nat) + " request(s) waiting"@, Tone::Yellow),
            ]
            &&& was > 0 && is == 0 ==> said =~= seq![("queue cleared"@, Tone::Green)]
            &&& (was > 0) == (is > 0) ==> said.len() == 0
        },
{
    lemma_only_queue(previous, sample);
    lemma_one_note(queue_entry(previous, sample), "QUEUE"@);
}

/// What changes in the serving is written, each change in its own words and in
/// order: another model, another status from which to which, another source, a
/// request begun or the last one ended, a rate known for the first time, and the
/// diagnosis of a drop.
#[verifier::rlimit(100)]
pub proof fn serving_is_journaled_change_by_change(previous: Sample, sample: Sample)
    requires
        sample.impact@ != "LLM"@,
    ensures
        ({
            let said = written_of(previous, sample, "LLM"@);
            let other_model = (previous.llm_provider@ != sample.llm_provider@ || previous.llm_model@
                != sample.llm_model@) && sample.llm_provider@ != "none"@ && sample.llm_model@
                != "not detected"@;
            let other_status = previous.llm_status@ != sample.llm_status@;
            let other_source = previous.llm_source != sample.llm_source;
            let had = previous.llm_active_requests is Some && previous.llm_active_requests.unwrap()
                > 0;
            let begun = !had && sample.llm_active_requests is Some
                && sample.llm_active_requests.unwrap() > 0;
            let ended = had && sample.llm_active_requests == Some(0u64);
            let online = previous.llm_generation_tps is None && sample.llm_generation_tps is Some;
            let dropped = sample.correlation.direction == ThroughputDirection::Down
                && previous.correlation.event_key != sample.correlation.event_key;
            let first = if other_model {
                1int
            } else {
                0
            };
            let second = first + if other_status {
                1int
            } else {
                0
            };
            let third = second + if other_source {
                1int
            } else {
                0
            };
            let fourth = third + if begun || ended {
                1int
            } else {
                0
            };
            let fifth = fourth + if online {
                1int
            } else {
                0
            };
            &&& said.len() == fifth + if dropped {
                1int
            } else {
                0
            }
            &&& other_model ==> said[0] == (
                "detected "@ + sample.llm_provider@ + " · "@ + llm_model_label_spec(sample, 42),
                Tone::Cyan,
            )
            &&& other_status ==> said[first] == (
                "status "@ + previous.llm_status@ + " → "@ + sample.llm_status@ + " · "@
                    + sample.llm_provider@,
                Tone::Cyan,
            )
            &&& other_source && sample.llm_source == TelemetrySource::Live ==> said[second].1
                == Tone::Green
            &&& other_source && sample.llm_source != TelemetrySource::Live ==> said[second].1
                == Tone::Yellow
            &&& begun ==> said[third] == (
                "request started · "@ + decimal(sample.llm_active_requests.unwrap() as nat)
                    + " active"@,
                Tone::Cyan,
            )
            &&& ended ==> said[third] == ("request completed · serving is idle"@, Tone::Cyan)
            &&& online ==> said[fourth].1 == Tone::Green
            &&& dropped ==> said[fifth] == (
                "throughput diagnosis · "@ + sample.correlation.summary@ + " · "@
                    + sample.correlation.confidence_label_spec() + " confidence"@,
                sample.correlation.tone_spec(),
            )
        }),
{
    lemma_only_serving(previous, sample);
    lemma_one_note(model_entry(previous, sample), "LLM"@);
    lemma_one_note(status_entry(previous, sample), "LLM"@);
    lemma_one_note(source_entry(previous, sample), "LLM"@);
    lemma_one_note(activity_entry(previous, sample), "LLM"@);
    lemma_one_note(online_entry(previous, sample), "LLM"@);
    lemma_one_note(diagnosis_entry(previous, sample), "LLM"@);
    let model = notes(model_entry(previous, sample), "LLM"@);
    let status = notes(status_entry(previous, sample), "LLM"@);
    let source = notes(source_entry(previous, sample), "LLM"@);
    let activity = notes(activity_entry(previous, sample), "LLM"@);
    let online = notes(online_entry(previous, sample), "LLM"@);
    let diagnosis = notes(diagnosis_entry(previous, sample), "LLM"@);
    assert(model.len() <= 1 && status.len() <= 1 && source.len() <= 1);
    assert(activity.len() <= 1 && online.len() <= 1 && diagnosis.len() <= 1);
}

/// A state that is entered is written under its own name, with what bears it out
/// and in its tone; the state of a sample that is still gathered is not.
pub proof fn states_are_journaled_when_entered(previous: Sample, sample: Sample)
    requires
        sample.impact@ != "LLM"@,
        sample.impact@ != "QUEUE"@,
        sample.impact@ != "PRESSURE"@,
        sample.impact@ != "PAGING"@,
        sample.impact@ != "GPU"@,
        sample.impact@ != "THERMAL"@,
    ensures
        previous.impact@ != sample.impact@ && sample.impact@ != "SAMPLING"@ ==> written_of(
            previous,
            sample,
            sample.impact@,
        ) =~= seq![(signal_summary_spec(sample), sample.impact_tone)],
        previous.impact@ == sample.impact@ || sample.impact@ == "SAMPLING"@ ==> written_of(
            previous,
            sample,
            sample.impact@,
        ).len() == 0,
{
    lemma_only_impact(previous, sample);
    lemma_one_note(impact_entry(previous, sample), sample.impact@);
}

/// Each filter shows what its name says: the events of serving and queues, of
/// pressure, of paging, of the GPU, of heat, and the rest.
pub proof fn filters_show_what_their_names_say()
    ensures
        JournalFilter::Llm.matches_spec(EventKind::from_state_spec("LLM"@)),
        JournalFilter::Llm.matches_spec(EventKind::from_state_spec("PROMPT"@)),
        JournalFilter::Llm.matches_spec(EventKind::from_state_spec("QUEUE"@)),
        JournalFilter::Pressure.matches_spec(EventKind::from_state_spec("PRESSURE"@)),
        JournalFilter::Paging.matches_spec(EventKind::from_state_spec("PAGING"@)),
        JournalFilter::Gpu.matches_spec(EventKind::from_state_spec("GPU"@)),
        JournalFilter::Thermal.matches_spec(EventKind::from_state_spec("THERMAL"@)),
        JournalFilter::System.matches_spec(EventKind::from_state_spec("SYSTEM"@)),
        forall|kind: EventKind| #[trigger] JournalFilter::All.matches_spec(kind),
{
    lemma_states_differ();
    reveal_strlit("LLM");
    reveal_strlit("QUEUE");
    reveal_strlit("PRESSURE");
    reveal_strlit("PAGING");
    reveal_strlit("GPU");
    reveal_strlit("THERMAL");
    reveal_strlit("SYSTEM");
    reveal_strlit("MEMORY BOTTLENECK");
    reveal_strlit("MEMORY STRESS");
    reveal_strlit("SWAP THRASHING");
    reveal_strlit("HEAVY PAGING");
    reveal_strlit("PAGE-IN RECOVERY");
    reveal_strlit("PAGING ACTIVE");
    reveal_strlit("WATCH PAGING");
    assert("MEMORY BOTTLENECK"@.len() == 17);
    assert("MEMORY STRESS"@.len() == 13);
    assert("SWAP THRASHING"@.len() == 14);
    assert("HEAVY PAGING"@.len() == 12);
    assert("PAGE-IN RECOVERY"@.len() == 16);
    assert("PAGING ACTIVE"@.len() == 13);
    assert("WATCH PAGING"@.len() == 12);
}

/// Every new request is written once, in its own words, before anything else.
pub proof fn new_requests_are_journaled_first(
    previous: Option<Sample>,
    sample: Sample,
    summaries: Seq<Seq<char>>,
)
    ensures
        ({
            let entries = journal_entries_spec(previous, sample, summaries);
            &&& entries.len() >= summaries.len()
            &&& forall|i: int|
                0 <= i < summaries.len() ==> (#[trigger] entries[i]).state == "PROMPT"@
                    && entries[i].summary == summaries[i]
        }),
{
}

} // verus!
