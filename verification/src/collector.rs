//! The collector: it turns readings into samples and keeps their history.

use crate::chart::{push_history, recorded_point, ChartMetric, ChartPoint};
use crate::chart_panel::{chart_rate_value, chart_rate_value_spec};
use crate::classify::{classifies, classify};
use crate::correlation::{
    comparable_previous, correlates, median, rates_of, CorrelationEngine, CORRELATION_HISTORY_LIMIT,
};
use crate::journal::{
    journal_entries, journal_entries_spec, journal_limit_spec, records, sampled, write_journal,
    Entry, SignalEvent,
};
use crate::labels::{paging_measured, paging_measured_spec};
use crate::model::{LlmTelemetry, MetalTelemetry, ProcessMemory, Sample, ThroughputDirection};
use crate::order::newest;
use crate::processes::ProcessSnapshot;
use crate::requests::{
    new_requests, news, remembered_requests, remembered_requests_are_bounded, seen_after,
    summaries, summaries_of, usages, RequestUsage, REQUEST_MEMORY,
};
use crate::sampling::{
    cache_counters, elapsed_between, elapsed_spec, gpu_of, linux_gpu_read, linux_memory_read,
    mac_gpu_read, mac_memory_read, process_memory_growth, process_memory_growth_spec,
    processes_read, rated, read_text, remembered, sample_linux_gpu_thermal, sample_linux_memory,
    sample_macos_gpu_thermal, sample_macos_memory, sample_processes, sample_rates, sample_telemetry,
    stale_spec, telemetry_read, text_of, CacheCounters, LinuxReadings, LlmLogStats, MacReadings,
    PreviousCounters,
};
use crate::system::{
    command_u64, command_word, keyed_number, linux_counters_for_rates, linux_metal_init,
    linux_nvidia_info, linux_page_size, linux_total_memory, macos_counters_for_rates, metal_of,
    parse_gpu_spec, parse_linux_meminfo_spec, parse_metal_hardware, parse_swap_usage_spec,
    parse_vm_stat_spec, printed_number, printed_word, seen, stated_numbers_are_read, states,
    LinuxGpuInfo, VmCounters,
};
use crate::text::{decimal, same, trimmed, views, written_numbers_read_back};
use crate::thresholds::{Config, Thresholds, Tone};
use crate::units::{product, product_spec, total, total_spec, Elapsed, KIB, MIB};
use std::collections::VecDeque;
use vstd::prelude::*;

verus! {

/// What was read of the machine.
#[derive(Debug)]
pub enum SystemReadings {
    Mac(MacReadings),
    Linux(LinuxReadings),
}

/// Everything that one sample is made of. `at` is a moment of a clock that
/// does not go back, `now` the time of day; both are in nanoseconds.
#[derive(Debug)]
pub struct Readings {
    pub system: SystemReadings,
    pub processes: ProcessSnapshot,
    pub process_memory: Option<ProcessMemory>,
    pub live: Option<LlmTelemetry>,
    pub log: LlmLogStats,
    pub requests: Vec<RequestUsage>,
    pub clock: String,
    pub at: u64,
    pub now: u64,
}

/// What does not change while the monitor runs.
#[derive(Debug)]
pub struct Machine {
    pub page_size: u64,
    pub total_memory: u64,
    pub metal: MetalTelemetry,
}

/// Keeps the current sample and the history of those before it.
#[derive(Debug)]
pub struct Collector {
    pub page_size: u64,
    pub total_memory: u64,
    pub metal: MetalTelemetry,
    pub correlation: CorrelationEngine,
    pub previous: Option<PreviousCounters>,
    pub previous_llm_cache: Option<CacheCounters>,
    pub seen_requests: VecDeque<(String, u64)>,
    pub current: Sample,
    pub generation_history: VecDeque<ChartPoint>,
    pub prefill_history: VecDeque<ChartPoint>,
    pub cache_history: VecDeque<ChartPoint>,
    pub load_history: VecDeque<ChartPoint>,
    pub swap_history: VecDeque<ChartPoint>,
    pub gpu_history: VecDeque<ChartPoint>,
    pub signals: VecDeque<SignalEvent>,
    pub history_limit: usize,
    pub thresholds: Thresholds,
}

/// A sample before anything but the machine is known.
pub open spec fn starts(sample: Sample, total_memory: u64, metal: MetalTelemetry) -> bool {
    &&& (Sample { total_memory: 0, metal: MetalTelemetry::nothing_spec(), ..sample }).blank()
    &&& sample.total_memory == total_memory
    &&& sample.metal == metal
}

pub open spec fn memory_read(
    before: Sample,
    after: Sample,
    system: SystemReadings,
    page_size: u64,
    total_memory: u64,
) -> bool {
    match system {
        SystemReadings::Mac(mac) => mac_memory_read(before, after, mac, page_size),
        SystemReadings::Linux(linux) => linux_memory_read(before, after, linux, total_memory),
    }
}

pub open spec fn gpu_read(before: Sample, after: Sample, system: SystemReadings) -> bool {
    match system {
        SystemReadings::Mac(mac) => mac_gpu_read(before, after, mac),
        SystemReadings::Linux(linux) => linux_gpu_read(before, after, linux),
    }
}

/// The counters that rates are taken of.
pub open spec fn counters_read(system: SystemReadings, page_size: u64) -> VmCounters {
    match system {
        SystemReadings::Mac(mac) => parse_vm_stat_spec(read_text(mac.rate_counters), page_size),
        SystemReadings::Linux(linux) => match linux.vmstat {
            Some(vmstat) => VmCounters {
                swapins: keyed_number(vmstat@, "pswpin"@),
                swapouts: keyed_number(vmstat@, "pswpout"@),
                ..VmCounters::zero_spec()
            },
            None => VmCounters::zero_spec(),
        },
    }
}

/// The time since the last sample.
pub open spec fn since(previous: Option<PreviousCounters>, at: u64) -> Option<Elapsed> {
    match previous {
        Some(previous) => Some(elapsed_spec(previous.at, at)),
        None => None,
    }
}

/// A sample with the memory of the serving process filled in.
pub open spec fn with_process_memory(
    sample: Sample,
    readings: Readings,
    known: Option<ProcessMemory>,
) -> Sample {
    Sample {
        process_memory: readings.process_memory,
        process_memory_growth: process_memory_growth_spec(readings.process_memory, known),
        ..sample
    }
}

/// Whether `sample` is what a collector gathers from some readings: memory,
/// rates, GPU, processes and the serving process, one after the other.
pub open spec fn gathers(collector: Collector, readings: Readings, sample: Sample) -> bool {
    exists|a: Sample, b: Sample, d: Sample, e: Sample|
        #![
            trigger memory_read(a, b, readings.system, collector.page_size, collector.total_memory),
            gpu_read(e, d, readings.system),
        ]
        {
            let counters = counters_read(readings.system, collector.page_size);
            &&& starts(a, collector.total_memory, collector.metal)
            &&& memory_read(a, b, readings.system, collector.page_size, collector.total_memory)
            &&& e == rated(b, counters, collector.previous, collector.page_size, readings.at)
            &&& gpu_read(e, d, readings.system)
            &&& served(collector, readings, d, sample)
        }
}

/// Whether `sample` is `before` with the processes and the serving process
/// filled in.
pub open spec fn served(
    collector: Collector,
    readings: Readings,
    before: Sample,
    sample: Sample,
) -> bool {
    exists|e: Sample, f: Sample|
        #![
            trigger processes_read(
                before,
                e,
                readings.processes,
                collector.current.llm_processes@,
                since(collector.previous, readings.at),
            ),
            with_clock(f, sample, readings),
        ]
        {
            &&& processes_read(
                before,
                e,
                readings.processes,
                collector.current.llm_processes@,
                since(collector.previous, readings.at),
            )
            &&& telemetry_read(
                with_process_memory(e, readings, collector.current.process_memory),
                f,
                readings.live,
                readings.log,
                text_of(readings.processes.provider),
                collector.previous_llm_cache,
                readings.now,
            )
            &&& with_clock(f, sample, readings)
        }
}

/// Whether `after` is `before` with the requests and the time filled in.
pub open spec fn with_clock(before: Sample, after: Sample, readings: Readings) -> bool {
    &&& after.updated@ == readings.clock@
    &&& views(after.llm_requests@) == summaries(usages(readings.requests@))
    &&& after == (Sample { updated: after.updated, llm_requests: after.llm_requests, ..before })
}

/// The sample before, where there is one.
pub open spec fn known_sample(current: Sample) -> Option<Sample> {
    if current.updated@ == "waiting"@ {
        None
    } else {
        Some(current)
    }
}

pub open spec fn state_of(sample: Option<Sample>) -> Option<Seq<char>> {
    match sample {
        Some(sample) => Some(sample.impact@),
        None => None,
    }
}

/// The point that the generation chart records: a drop is shown in the tone of
/// its diagnosis.
pub open spec fn generation_point(sample: Sample) -> ChartPoint {
    let value = chart_rate_value_spec(sample, ChartMetric::Generation);
    ChartPoint {
        value,
        tone: if value is None {
            Tone::Muted
        } else if sample.correlation.direction == ThroughputDirection::Down {
            sample.correlation.tone_spec()
        } else {
            Tone::Cyan
        },
    }
}

/// The share of cached tokens as a whole percentage.
pub open spec fn cache_value(sample: Sample) -> Option<u64> {
    match sample.llm_cache_interval_efficiency {
        Some(value) => if value.measurable() {
            Some(value.rounded_part() as u64)
        } else {
            None
        },
        None => None,
    }
}

/// The load of the memory in percent.
pub open spec fn load_value(sample: Sample) -> Option<u64> {
    match sample.availability {
        Some(free) => Some(
            if free <= 100 {
                (100 - free) as u64
            } else {
                0
            },
        ),
        None => None,
    }
}

/// The paging rate, where it is measured.
pub open spec fn swap_value(sample: Sample) -> Option<u64> {
    if paging_measured_spec(sample) {
        Some(total_spec(sample.swap_in, sample.swap_out))
    } else {
        None
    }
}

pub open spec fn gpu_value(sample: Sample) -> Option<u64> {
    match sample.gpu_util {
        Some(value) => Some(value as u64),
        None => None,
    }
}

/// Whether the histories of `after` are those of `before` with the points of a
/// sample recorded.
pub open spec fn charted(before: Collector, after: Collector, sample: Sample) -> bool {
    let limit = before.history_limit as nat;
    let bands = before.thresholds;
    &&& after.generation_history@ == newest(
        before.generation_history@.push(generation_point(sample)),
        limit,
    )
    &&& after.prefill_history@ == newest(
        before.prefill_history@.push(
            recorded_point(
                chart_rate_value_spec(sample, ChartMetric::Prefill),
                ChartMetric::Prefill,
                bands,
            ),
        ),
        limit,
    )
    &&& after.cache_history@ == newest(
        before.cache_history@.push(recorded_point(cache_value(sample), ChartMetric::Cache, bands)),
        limit,
    )
    &&& after.load_history@ == newest(
        before.load_history@.push(recorded_point(load_value(sample), ChartMetric::Memory, bands)),
        limit,
    )
    &&& after.swap_history@ == newest(
        before.swap_history@.push(recorded_point(swap_value(sample), ChartMetric::Swap, bands)),
        limit,
    )
    &&& after.gpu_history@ == newest(
        before.gpu_history@.push(recorded_point(gpu_value(sample), ChartMetric::Gpu, bands)),
        limit,
    )
}

/// Whether the events of a sample were written into the journal.
pub open spec fn journaled(
    before: Seq<SignalEvent>,
    after: Seq<SignalEvent>,
    entries: Seq<Entry>,
    time: Seq<char>,
    now: u64,
    history_limit: usize,
) -> bool {
    exists|written: Seq<SignalEvent>|
        {
            &&& written.len() == entries.len()
            &&& forall|i: int|
                0 <= i < written.len() ==> records(#[trigger] written[i], entries[i], time, now)
            &&& after == #[trigger] newest(before + written, journal_limit_spec(history_limit))
        }
}

/// Whether `sample` is what a collector makes of what it gathered: the rate is
/// diagnosed, and the state is judged against that of the sample before.
pub open spec fn judges(
    before: Collector,
    after: Collector,
    gathered: Sample,
    diagnosed: Sample,
    sample: Sample,
) -> bool {
    let seen = before.correlation.observations@;
    let observation = after.correlation.observations@.last();
    &&& diagnosed == (Sample { correlation: diagnosed.correlation, ..gathered })
    &&& observation.observes(gathered)
    &&& after.correlation.observations@ == newest(
        seen.push(observation),
        CORRELATION_HISTORY_LIMIT as nat,
    )
    &&& correlates(
        diagnosed.correlation,
        observation,
        comparable_previous(seen, observation),
        median(rates_of(seen, observation.provider@, observation.model@)),
        before.thresholds,
    )
    &&& classifies(
        diagnosed,
        sample,
        state_of(known_sample(before.current)),
        before.thresholds,
    )
}

/// Whether `after` is `before` once a sample was taken from some readings.
pub open spec fn samples(before: Collector, after: Collector, readings: Readings) -> bool {
    let current = after.current;
    &&& exists|gathered: Sample, diagnosed: Sample|
        #![trigger judges(before, after, gathered, diagnosed, current)]
        gathers(before, readings, gathered) && judges(
            before,
            after,
            gathered,
            diagnosed,
            current,
        )
    &&& charted(before, after, current)
    &&& journaled(
        before.signals@,
        after.signals@,
        journal_entries_spec(
            known_sample(before.current),
            current,
            news(remembered_requests(before.seen_requests@), usages(readings.requests@)),
        ),
        current.updated@,
        readings.now,
        before.history_limit,
    )
    &&& after.previous == Some(
        remembered(
            counters_read(readings.system, before.page_size),
            current.swap_used,
            readings.at,
        ),
    )
    &&& after.previous_llm_cache == if stale_spec(readings.live, readings.now) {
        before.previous_llm_cache
    } else {
        cache_counters(readings.live)
    }
    &&& remembered_requests(after.seen_requests@) == seen_after(
        remembered_requests(before.seen_requests@),
        usages(readings.requests@),
    )
    &&& after.page_size == before.page_size
    &&& after.total_memory == before.total_memory
    &&& after.metal == before.metal
    &&& after.history_limit == before.history_limit
    &&& after.thresholds == before.thresholds
}

fn record_generation(history: &mut VecDeque<ChartPoint>, sample: &Sample, limit: usize, thresholds:
    Thresholds)
    ensures
        final(history)@ == newest(old(history)@.push(generation_point(*sample)), limit as nat),
{
    let value = chart_rate_value(sample, ChartMetric::Generation);
    push_history(history, value, ChartMetric::Generation, limit, thresholds);
    let tone = if value.is_none() {
        Tone::Muted
    } else if sample.correlation.is_material_drop() {
        sample.correlation.tone()
    } else {
        Tone::Cyan
    };
    if history.pop_back().is_some() {
        history.push_back(ChartPoint { value, tone });
    }
    assert(history@ =~= newest(old(history)@.push(generation_point(*sample)), limit as nat));
}

impl Collector {
    /// A collector that has seen nothing, with the levels that the settings
    /// name.
    pub fn new(history_limit: usize, config: &Config, machine: Machine) -> (result: Collector)
        ensures
            result.cleared(),
            result.page_size == machine.page_size,
            result.total_memory == machine.total_memory,
            result.metal == machine.metal,
            result.history_limit == history_limit,
            result.thresholds == Thresholds::configured(*config).normalized_spec(),
    {
        Collector {
            page_size: machine.page_size,
            total_memory: machine.total_memory,
            metal: machine.metal,
            correlation: CorrelationEngine::new(),
            previous: None,
            previous_llm_cache: None,
            seen_requests: VecDeque::new(),
            current: Sample::default(),
            generation_history: VecDeque::new(),
            prefill_history: VecDeque::new(),
            cache_history: VecDeque::new(),
            load_history: VecDeque::new(),
            swap_history: VecDeque::new(),
            gpu_history: VecDeque::new(),
            signals: VecDeque::new(),
            history_limit,
            thresholds: Thresholds::from_config(config),
        }
    }

    /// Whether nothing that was sampled is kept.
    pub open spec fn cleared(self) -> bool {
        &&& self.correlation.observations@.len() == 0
        &&& self.previous is None
        &&& self.previous_llm_cache is None
        &&& self.seen_requests@.len() == 0
        &&& self.current.blank()
        &&& self.generation_history@.len() == 0
        &&& self.prefill_history@.len() == 0
        &&& self.cache_history@.len() == 0
        &&& self.load_history@.len() == 0
        &&& self.swap_history@.len() == 0
        &&& self.gpu_history@.len() == 0
        &&& self.signals@.len() == 0
    }

    /// Forgets what was sampled. The machine and the settings stay.
    pub fn reset(&mut self)
        ensures
            final(self).cleared(),
            final(self).page_size == old(self).page_size,
            final(self).total_memory == old(self).total_memory,
            final(self).metal == old(self).metal,
            final(self).history_limit == old(self).history_limit,
            final(self).thresholds == old(self).thresholds,
    {
        self.previous = None;
        self.previous_llm_cache = None;
        self.seen_requests.clear();
        self.correlation.reset();
        self.generation_history.clear();
        self.prefill_history.clear();
        self.cache_history.clear();
        self.load_history.clear();
        self.swap_history.clear();
        self.gpu_history.clear();
        self.signals.clear();
        self.current = Sample::default();
    }

    fn gather(&mut self, readings: &Readings) -> (sample: Sample)
        ensures
            gathers(*old(self), *readings, sample),
            final(self).previous == Some(
                remembered(
                    counters_read(readings.system, old(self).page_size),
                    sample.swap_used,
                    readings.at,
                ),
            ),
            final(self).previous_llm_cache == if stale_spec(readings.live, readings.now) {
                old(self).previous_llm_cache
            } else {
                cache_counters(readings.live)
            },
            *final(self) == (Collector {
                previous: final(self).previous,
                previous_llm_cache: final(self).previous_llm_cache,
                ..*old(self)
            }),
    {
        let ghost collector = *self;
        let mut sample = Sample::default();
        sample.total_memory = self.total_memory;
        sample.metal = self.metal.clone();
        let ghost a = sample;
        assert(starts(a, collector.total_memory, collector.metal)) by {
            assert(
                (Sample { total_memory: 0, metal: MetalTelemetry::nothing_spec(), ..a }).blank()
            );
        }
        match &readings.system {
            SystemReadings::Mac(mac) => sample_macos_memory(&mut sample, mac, self.page_size),
            SystemReadings::Linux(linux) => sample_linux_memory(
                &mut sample,
                linux,
                self.total_memory,
            ),
        }
        let ghost b = sample;
        assert(memory_read(a, b, readings.system, collector.page_size, collector.total_memory));
        let counters = match &readings.system {
            SystemReadings::Mac(mac) => match &mac.rate_counters {
                Some(text) => macos_counters_for_rates(Some(text.as_str()), self.page_size),
                None => macos_counters_for_rates(None, self.page_size),
            },
            SystemReadings::Linux(linux) => match &linux.vmstat {
                Some(text) => linux_counters_for_rates(Some(text.as_str())),
                None => linux_counters_for_rates(None),
            },
        };
        assert(counters == counters_read(readings.system, collector.page_size));
        let elapsed: Option<Elapsed> = match self.previous {
            Some(previous) => Some(elapsed_between(previous.at, readings.at)),
            None => None,
        };
        sample_rates(&mut sample, counters, &mut self.previous, self.page_size, readings.at);
        let ghost c = sample;
        match &readings.system {
            SystemReadings::Mac(mac) => sample_macos_gpu_thermal(&mut sample, mac),
            SystemReadings::Linux(linux) => sample_linux_gpu_thermal(&mut sample, linux),
        }
        let ghost d = sample;
        assert(gpu_read(c, d, readings.system));
        sample_processes(&mut sample, &readings.processes, &self.current.llm_processes, elapsed);
        let ghost e = sample;
        assert(processes_read(
            d,
            e,
            readings.processes,
            collector.current.llm_processes@,
            since(collector.previous, readings.at),
        ));
        sample.process_memory = readings.process_memory;
        sample.process_memory_growth = process_memory_growth(
            readings.process_memory,
            self.current.process_memory,
        );
        assert(sample == with_process_memory(e, *readings, collector.current.process_memory));
        sample_telemetry(
            &mut sample,
            &readings.live,
            &readings.log,
            &readings.processes.provider,
            &mut self.previous_llm_cache,
            readings.now,
        );
        let ghost f = sample;
        sample.updated = readings.clock.clone();
        sample.llm_requests = summaries_of(&readings.requests);
        assert(with_clock(f, sample, *readings));
        assert(served(collector, *readings, d, sample));
        sample
    }

    fn chart(&mut self, sample: &Sample)
        ensures
            charted(*old(self), *final(self), *sample),
            *final(self) == (Collector {
                generation_history: final(self).generation_history,
                prefill_history: final(self).prefill_history,
                cache_history: final(self).cache_history,
                load_history: final(self).load_history,
                swap_history: final(self).swap_history,
                gpu_history: final(self).gpu_history,
                ..*old(self)
            }),
    {
        let limit: usize = self.history_limit;
        let bands = self.thresholds;
        record_generation(&mut self.generation_history, sample, limit, bands);
        push_history(
            &mut self.prefill_history,
            chart_rate_value(sample, ChartMetric::Prefill),
            ChartMetric::Prefill,
            limit,
            bands,
        );
        let cached: Option<u64> = match sample.llm_cache_interval_efficiency {
            Some(value) => if value.is_measurable() {
                Some(value.rounded())
            } else {
                None
            },
            None => None,
        };
        push_history(&mut self.cache_history, cached, ChartMetric::Cache, limit, bands);
        let load: Option<u64> = match sample.availability {
            Some(free) => Some(
                if free <= 100 {
                    (100 - free) as u64
                } else {
                    0
                },
            ),
            None => None,
        };
        push_history(&mut self.load_history, load, ChartMetric::Memory, limit, bands);
        let paging: Option<u64> = if paging_measured(sample) {
            Some(total(sample.swap_in, sample.swap_out))
        } else {
            None
        };
        push_history(&mut self.swap_history, paging, ChartMetric::Swap, limit, bands);
        let gpu: Option<u64> = match sample.gpu_util {
            Some(value) => Some(value as u64),
            None => None,
        };
        push_history(&mut self.gpu_history, gpu, ChartMetric::Gpu, limit, bands);
    }

    /// Writes the requests that are new and what changed from one sample to the
    /// next into the journal.
    pub fn record_journal_events(
        &mut self,
        previous: Option<&Sample>,
        sample: &Sample,
        requests: &Vec<RequestUsage>,
        now: u64,
    )
        ensures
            journaled(
                old(self).signals@,
                final(self).signals@,
                journal_entries_spec(
                    sampled(previous),
                    *sample,
                    news(remembered_requests(old(self).seen_requests@), usages(requests@)),
                ),
                sample.updated@,
                now,
                old(self).history_limit,
            ),
            remembered_requests(final(self).seen_requests@) == seen_after(
                remembered_requests(old(self).seen_requests@),
                usages(requests@),
            ),
            *final(self) == (Collector {
                signals: final(self).signals,
                seen_requests: final(self).seen_requests,
                ..*old(self)
            }),
    {
        let fresh = new_requests(&mut self.seen_requests, requests);
        let entries = journal_entries(previous, sample, &fresh);
        let limit: usize = self.history_limit;
        write_journal(&mut self.signals, entries, sample.updated.as_str(), now, limit);
    }

    /// Takes a sample from some readings: it is judged against the one before,
    /// recorded in the histories and in the journal, and becomes the current
    /// one.
    pub fn sample(&mut self, readings: &Readings)
        ensures
            samples(*old(self), *final(self), *readings),
    {
        let ghost before = *self;
        let mut sample = self.gather(readings);
        let ghost gathered = sample;
        let thresholds = self.thresholds;
        let insight = self.correlation.observe(&sample, thresholds);
        sample.correlation = insight;
        let ghost diagnosed = sample;
        let mut known = Sample::default();
        std::mem::swap(&mut known, &mut self.current);
        let fresh = same(known.updated.as_str(), "waiting");
        if fresh {
            classify(&mut sample, None, thresholds);
        } else {
            classify(&mut sample, Some(&known), thresholds);
        }
        self.chart(&sample);
        if fresh {
            self.record_journal_events(None, &sample, &readings.requests, readings.now);
        } else {
            self.record_journal_events(Some(&known), &sample, &readings.requests, readings.now);
        }
        self.current = sample;
        proof {
            assert(judges(before, *self, gathered, diagnosed, self.current));
        }
    }
}

/// What a Mac's `sysctl` and `ioreg` printed at the start.
#[derive(Debug)]
pub struct MacFacts {
    pub memory_size: Option<String>,
    pub page_size: Option<String>,
    pub architecture: Option<String>,
    pub wired_limit: Option<String>,
    pub accelerator: Option<String>,
}

/// The text that a reference leads to, where there is one.
fn borrowed(value: &Option<String>) -> (result: Option<&str>)
    ensures
        seen(result) == text_of(*value),
{
    match value {
        Some(text) => Some(text.as_str()),
        None => None,
    }
}

/// Whether a machine is the Mac that some facts describe. The limit of the GPU's
/// memory is given in MiB, and none means that there is no limit.
pub open spec fn mac_described(machine: Machine, facts: MacFacts) -> bool {
    &&& machine.total_memory == match printed_number(text_of(facts.memory_size)) {
        Some(size) => size,
        None => 0,
    }
    &&& machine.page_size == match printed_number(text_of(facts.page_size)) {
        Some(size) => size,
        None => 16_384,
    }
    &&& text_of(machine.metal.architecture) == printed_word(text_of(facts.architecture))
    &&& machine.metal.resource_limit == match printed_number(text_of(facts.wired_limit)) {
        Some(limit) => if limit > 0 {
            Some(product_spec(limit, MIB))
        } else {
            None
        },
        None => None,
    }
    &&& metal_of(
        MetalTelemetry { architecture: None, resource_limit: None, ..machine.metal },
        read_text(facts.accelerator),
    )
}

/// A Mac as its tools describe it.
pub fn mac_machine(facts: &MacFacts) -> (machine: Machine)
    ensures
        mac_described(machine, *facts),
{
    let total_memory: u64 = match command_u64(borrowed(&facts.memory_size)) {
        Some(size) => size,
        None => 0,
    };
    let page_size: u64 = match command_u64(borrowed(&facts.page_size)) {
        Some(size) => size,
        None => 16_384,
    };
    let dump: String = match &facts.accelerator {
        Some(dump) => dump.clone(),
        None => String::new(),
    };
    let mut metal = parse_metal_hardware(dump.as_str());
    let ghost bare = metal;
    metal.architecture = command_word(borrowed(&facts.architecture));
    metal.resource_limit = match command_u64(borrowed(&facts.wired_limit)) {
        Some(limit) => if limit > 0 {
            Some(product(limit, MIB))
        } else {
            None
        },
        None => None,
    };
    assert((MetalTelemetry { architecture: None, resource_limit: None, ..metal }) == bare);
    Machine { page_size, total_memory, metal }
}

/// A Linux machine as its files and tools describe it.
pub fn linux_machine(
    meminfo: &Option<String>,
    getconf: &Option<String>,
    uname: &Option<String>,
    gpu: &Option<String>,
) -> (machine: Machine)
    ensures
        machine.total_memory == match *meminfo {
            Some(meminfo) => product_spec(parse_linux_meminfo_spec(meminfo@).total_kb, KIB),
            None => 0,
        },
        machine.page_size == match printed_number(text_of(*getconf)) {
            Some(size) => size,
            None => 4096,
        },
        text_of(machine.metal.architecture) == printed_word(text_of(*uname)),
        exists|found: Option<LinuxGpuInfo>| #[trigger]
            gpu_of(found, *gpu) && machine.metal == (MetalTelemetry {
                architecture: machine.metal.architecture,
                device_name: match found {
                    Some(found) => found.name,
                    None => None,
                },
                resource_limit: match found {
                    Some(found) => found.total_bytes,
                    None => None,
                },
                ..MetalTelemetry::nothing_spec()
            }),
{
    let found = linux_nvidia_info(borrowed(gpu));
    assert(gpu_of(found, *gpu));
    Machine {
        page_size: linux_page_size(borrowed(getconf)),
        total_memory: linux_total_memory(borrowed(meminfo)),
        metal: linux_metal_init(borrowed(uname), found),
    }
}

/// What the monitor shows: the current sample and the history.
#[derive(Debug)]
pub struct CollectorView {
    pub current: Sample,
    pub generation_history: VecDeque<ChartPoint>,
    pub prefill_history: VecDeque<ChartPoint>,
    pub cache_history: VecDeque<ChartPoint>,
    pub load_history: VecDeque<ChartPoint>,
    pub swap_history: VecDeque<ChartPoint>,
    pub gpu_history: VecDeque<ChartPoint>,
    pub signals: VecDeque<SignalEvent>,
}

fn copy_points(history: &VecDeque<ChartPoint>) -> (result: VecDeque<ChartPoint>)
    ensures
        result@ == history@,
{
    let mut result: VecDeque<ChartPoint> = VecDeque::new();
    for i in 0..history.len()
        invariant
            result@ == history@.take(i as int),
    {
        assert(history@.take(i + 1) =~= history@.take(i as int).push(history@[i as int]));
        result.push_back(history[i]);
    }
    assert(history@.take(history@.len() as int) =~= history@);
    result
}

fn copy_events(events: &VecDeque<SignalEvent>) -> (result: VecDeque<SignalEvent>)
    ensures
        result@ == events@,
{
    let mut result: VecDeque<SignalEvent> = VecDeque::new();
    for i in 0..events.len()
        invariant
            result@ == events@.take(i as int),
    {
        assert(events@.take(i + 1) =~= events@.take(i as int).push(events@[i as int]));
        result.push_back(events[i].clone());
    }
    assert(events@.take(events@.len() as int) =~= events@);
    result
}

impl Collector {
    /// A copy of what the monitor shows.
    pub fn view(&self) -> (result: CollectorView)
        ensures
            result.current.llm_processes@ == self.current.llm_processes@,
            result.current.llm_requests@ == self.current.llm_requests@,
            result.current == (Sample {
                llm_processes: result.current.llm_processes,
                llm_requests: result.current.llm_requests,
                ..self.current
            }),
            result.generation_history@ == self.generation_history@,
            result.prefill_history@ == self.prefill_history@,
            result.cache_history@ == self.cache_history@,
            result.load_history@ == self.load_history@,
            result.swap_history@ == self.swap_history@,
            result.gpu_history@ == self.gpu_history@,
            result.signals@ == self.signals@,
    {
        CollectorView {
            current: self.current.clone(),
            generation_history: copy_points(&self.generation_history),
            prefill_history: copy_points(&self.prefill_history),
            cache_history: copy_points(&self.cache_history),
            load_history: copy_points(&self.load_history),
            swap_history: copy_points(&self.swap_history),
            gpu_history: copy_points(&self.gpu_history),
            signals: copy_events(&self.signals),
        }
    }
}

/// Whether every history and the journal keep within their limits.
pub open spec fn bounded(collector: Collector) -> bool {
    &&& collector.generation_history@.len() <= collector.history_limit
    &&& collector.prefill_history@.len() <= collector.history_limit
    &&& collector.cache_history@.len() <= collector.history_limit
    &&& collector.load_history@.len() <= collector.history_limit
    &&& collector.swap_history@.len() <= collector.history_limit
    &&& collector.gpu_history@.len() <= collector.history_limit
    &&& collector.signals@.len() <= 240
    &&& collector.correlation.observations@.len() <= CORRELATION_HISTORY_LIMIT
}

/// However often a collector samples, what it keeps stays bounded.
pub proof fn sampling_keeps_memory_bounded(before: Collector, after: Collector, readings: Readings)
    requires
        samples(before, after, readings),
    ensures
        bounded(after),
        before.seen_requests@.len() <= REQUEST_MEMORY ==> after.seen_requests@.len()
            <= REQUEST_MEMORY,
{
    if before.seen_requests@.len() <= REQUEST_MEMORY {
        remembered_requests_are_bounded(
            remembered_requests(before.seen_requests@),
            usages(readings.requests@),
        );
        assert(remembered_requests(after.seen_requests@).len() == after.seen_requests@.len());
    }
}

/// What is not measured is not charted: a column without a source stays a gap.
pub proof fn unavailable_counters_stay_unavailable(
    before: Collector,
    after: Collector,
    readings: Readings,
)
    requires
        samples(before, after, readings),
        before.history_limit > 0,
    ensures
        after.current.gpu_util is None ==> after.gpu_history@.last().value is None,
        after.current.availability is None ==> after.load_history@.last().value is None,
        !paging_measured_spec(after.current) ==> after.swap_history@.last().value is None,
        !after.current.llm_generation_tps_live ==> after.generation_history@.last().value is None,
        !after.current.llm_prefill_tps_live ==> after.prefill_history@.last().value is None,
        after.current.llm_cache_interval_efficiency is None
            ==> after.cache_history@.last().value is None,
{
}

/// Every history records its own figure of the sample: the load of the GPU, the
/// memory that is not free, and the pages that come and go together.
pub proof fn histories_record_their_own_figures(
    before: Collector,
    after: Collector,
    readings: Readings,
)
    requires
        samples(before, after, readings),
        before.history_limit > 0,
    ensures
        ({
            let sample = after.current;
            &&& sample.gpu_util is Some ==> after.gpu_history@.last().value == Some(
                sample.gpu_util.unwrap() as u64,
            )
            &&& sample.availability is Some && sample.availability.unwrap() <= 100
                ==> after.load_history@.last().value == Some(
                (100 - sample.availability.unwrap()) as u64,
            )
            &&& sample.swap_available && sample.vm_available && sample.rate_ready && sample.swap_in
                + sample.swap_out <= u64::MAX ==> after.swap_history@.last().value == Some(
                (sample.swap_in + sample.swap_out) as u64,
            )
            &&& after.generation_history@.last().value == chart_rate_value_spec(
                sample,
                ChartMetric::Generation,
            )
            &&& after.prefill_history@.last().value == chart_rate_value_spec(
                sample,
                ChartMetric::Prefill,
            )
            &&& sample.correlation.direction != ThroughputDirection::Down
                && after.generation_history@.last().value is Some
                ==> after.generation_history@.last().tone == Tone::Cyan
        }),
{
}

/// The counters of a Linux machine's paging are those that its kernel counts
/// under their names: pages swapped in, and pages swapped out.
pub proof fn linux_paging_is_counted_each_way(linux: LinuxReadings, page_size: u64, at: int, n: u64)
    requires
        linux.vmstat is Some,
    ensures
        ({
            let c = counters_read(SystemReadings::Linux(linux), page_size);
            &&& states(linux.vmstat.unwrap()@, "pswpin"@, at, n) ==> c.swapins == n
            &&& states(linux.vmstat.unwrap()@, "pswpout"@, at, n) ==> c.swapouts == n
            &&& c.compressions == 0 && c.decompressions == 0 && c.reactivations == 0
        }),
{
    stated_numbers_are_read(linux.vmstat.unwrap()@, "pswpin"@, at, n);
    stated_numbers_are_read(linux.vmstat.unwrap()@, "pswpout"@, at, n);
}


/// What is printed of a Mac describes it: the size of its memory and of its pages
/// in bytes, and the memory that its GPU may wire in MiB, each from its own
/// answer. Where there is no answer the memory is none, a page is 16 KiB, and
/// nothing is known of the limit.
pub proof fn macs_are_described_by_what_is_printed(machine: Machine, facts: MacFacts, n: u64)
    requires
        mac_described(machine, facts),
    ensures
        facts.memory_size matches Some(s) ==> trimmed(s@) == decimal(n as nat)
            ==> machine.total_memory == n,
        facts.memory_size is None ==> machine.total_memory == 0,
        facts.page_size matches Some(s) ==> trimmed(s@) == decimal(n as nat) ==> machine.page_size
            == n,
        facts.page_size is None ==> machine.page_size == 16_384,
        facts.wired_limit matches Some(s) ==> trimmed(s@) == decimal(n as nat) ==> 0 < n && n
            * 1_048_576 <= u64::MAX ==> machine.metal.resource_limit == Some((n * 1_048_576) as u64),
        facts.wired_limit matches Some(s) ==> trimmed(s@) == decimal(0)
            ==> machine.metal.resource_limit is None,
        facts.wired_limit is None ==> machine.metal.resource_limit is None,
        facts.architecture matches Some(s) ==> trimmed(s@).len() > 0
            ==> machine.metal.architecture is Some && machine.metal.architecture.unwrap()@
            == trimmed(s@),
        facts.architecture is None ==> machine.metal.architecture is None,
{
    written_numbers_read_back(n as nat, u64::MAX as nat);
    written_numbers_read_back(0, u64::MAX as nat);
}

/// A sample holds what was read for it: the processes that were counted, the
/// memory of the one that was looked at, the counters of the machine, each in its
/// own place, and the time.
pub proof fn samples_hold_what_was_read(collector: Collector, readings: Readings, sample: Sample)
    requires
        gathers(collector, readings, sample),
    ensures
        sample.llm_count == readings.processes.llm_count,
        sample.llm_rss == readings.processes.llm_rss,
        sample.llm_cpu == readings.processes.llm_cpu,
        sample.largest_consumer == readings.processes.largest_consumer,
        readings.processes.top_llm matches Some(process) ==> sample.llm_top@ == process.name@
            && sample.llm_pid == process.pid,
        sample.process_memory == readings.process_memory,
        sample.updated@ == readings.clock@,
        sample.rate_ready <==> collector.previous is Some,
        readings.system matches SystemReadings::Mac(mac) ==> {
            let counters = parse_vm_stat_spec(read_text(mac.vm_stat), collector.page_size);
            let swap = parse_swap_usage_spec(read_text(mac.swap_usage));
            let device = parse_gpu_spec(read_text(mac.accelerator));
            &&& sample.wired == counters.wired
            &&& sample.compressor == counters.compressor
            &&& sample.compressed_logical == counters.compressed_logical
            &&& sample.anonymous == counters.anonymous
            &&& sample.file_backed == counters.file_backed
            &&& sample.swap_total == swap.0
            &&& sample.swap_used == swap.1
            &&& sample.gpu_util == device.0
            &&& sample.gpu_alloc == device.1
            &&& sample.gpu_in_use == device.2
            &&& sample.total_memory == collector.total_memory
        },
        collector.previous is None ==> sample.swap_in == 0 && sample.swap_out == 0
            && sample.compress == 0 && sample.decompress == 0 && sample.swap_growth == 0,
{
    let (a, b, d, e) = choose|a: Sample, b: Sample, d: Sample, e: Sample|
        #![
            trigger memory_read(a, b, readings.system, collector.page_size, collector.total_memory),
            gpu_read(e, d, readings.system),
        ]
        {
            let counters = counters_read(readings.system, collector.page_size);
            &&& starts(a, collector.total_memory, collector.metal)
            &&& memory_read(a, b, readings.system, collector.page_size, collector.total_memory)
            &&& e == rated(b, counters, collector.previous, collector.page_size, readings.at)
            &&& gpu_read(e, d, readings.system)
            &&& served(collector, readings, d, sample)
        };
    lemma_served(collector, readings, d, sample);
}

proof fn lemma_served(collector: Collector, readings: Readings, before: Sample, sample: Sample)
    requires
        served(collector, readings, before, sample),
    ensures
        sample.llm_count == readings.processes.llm_count,
        sample.llm_rss == readings.processes.llm_rss,
        sample.llm_cpu == readings.processes.llm_cpu,
        sample.largest_consumer == readings.processes.largest_consumer,
        readings.processes.top_llm matches Some(process) ==> sample.llm_top@ == process.name@
            && sample.llm_pid == process.pid,
        sample.process_memory == readings.process_memory,
        sample.updated@ == readings.clock@,
        sample.rate_ready == before.rate_ready,
        sample.wired == before.wired,
        sample.compressor == before.compressor,
        sample.compressed_logical == before.compressed_logical,
        sample.anonymous == before.anonymous,
        sample.file_backed == before.file_backed,
        sample.swap_total == before.swap_total,
        sample.swap_used == before.swap_used,
        sample.swap_in == before.swap_in,
        sample.swap_out == before.swap_out,
        sample.compress == before.compress,
        sample.decompress == before.decompress,
        sample.swap_growth == before.swap_growth,
        sample.gpu_util == before.gpu_util,
        sample.gpu_alloc == before.gpu_alloc,
        sample.gpu_in_use == before.gpu_in_use,
        sample.total_memory == before.total_memory,
{
    let (e, f) = choose|e: Sample, f: Sample|
        #![
            trigger processes_read(
                before,
                e,
                readings.processes,
                collector.current.llm_processes@,
                since(collector.previous, readings.at),
            ),
            with_clock(f, sample, readings),
        ]
        {
            &&& processes_read(
                before,
                e,
                readings.processes,
                collector.current.llm_processes@,
                since(collector.previous, readings.at),
            )
            &&& telemetry_read(
                with_process_memory(e, readings, collector.current.process_memory),
                f,
                readings.live,
                readings.log,
                text_of(readings.processes.provider),
                collector.previous_llm_cache,
                readings.now,
            )
            &&& with_clock(f, sample, readings)
        };
    let g = with_process_memory(e, readings, collector.current.process_memory);
    assert(f.llm_count == g.llm_count);
    assert(f.llm_top == g.llm_top);
}
} // verus!
