//! The judgement on a sample: what limits the machine and what to do about it.

use crate::model::{Sample, TelemetrySource};
use crate::text::{same, starts_with};
use crate::thresholds::{
    held, threshold_with_hysteresis, Thresholds, Tone, GPU_BUSY_ENTER_LOAD,
    PAGING_ACTIVE_ENTER_RATE,
};
use crate::units::{product, product_spec, rate, rate_spec, total, total_spec};
use vstd::prelude::*;

verus! {

/// What limits the machine, the gravest finding first.
#[derive(Clone, Copy, Debug, PartialEq, Eq, Structural)]
pub enum Impact {
    /// The rates have no baseline yet.
    Sampling,
    /// A counter of the system is missing.
    DataLimited,
    /// The system reports critical pressure.
    MemoryBottleneck,
    /// Pages go out and come in at the critical rate.
    SwapThrashing,
    /// Pages go out at twice the critical rate.
    HeavyPaging,
    /// Pages come back in at twice the critical rate.
    PageInRecovery,
    /// The system reports tight memory.
    MemoryStress,
    /// The clock is limited by heat.
    ThermalLimit,
    /// Paging goes on.
    PagingActive,
    /// Memory is compressed and restored.
    CompressionActive,
    /// A little paging goes on.
    WatchPaging,
    /// The GPU carries the load.
    GpuBusy,
    /// A model is served without a bottleneck.
    LlmReady,
    /// Nothing goes on.
    Idle,
}

impl Impact {
    pub open spec fn label_spec(self) -> Seq<char> {
        match self {
            Impact::Sampling => "SAMPLING"@,
            Impact::DataLimited => "DATA LIMITED"@,
            Impact::MemoryBottleneck => "MEMORY BOTTLENECK"@,
            Impact::SwapThrashing => "SWAP THRASHING"@,
            Impact::HeavyPaging => "HEAVY PAGING"@,
            Impact::PageInRecovery => "PAGE-IN RECOVERY"@,
            Impact::MemoryStress => "MEMORY STRESS"@,
            Impact::ThermalLimit => "THERMAL LIMIT"@,
            Impact::PagingActive => "PAGING ACTIVE"@,
            Impact::CompressionActive => "COMPRESSION ACTIVE"@,
            Impact::WatchPaging => "WATCH PAGING"@,
            Impact::GpuBusy => "GPU BUSY"@,
            Impact::LlmReady => "LLM READY"@,
            Impact::Idle => "IDLE"@,
        }
    }

    /// The name of the state.
    pub fn label(self) -> (result: &'static str)
        ensures
            result@ == self.label_spec(),
    {
        match self {
            Impact::Sampling => "SAMPLING",
            Impact::DataLimited => "DATA LIMITED",
            Impact::MemoryBottleneck => "MEMORY BOTTLENECK",
            Impact::SwapThrashing => "SWAP THRASHING",
            Impact::HeavyPaging => "HEAVY PAGING",
            Impact::PageInRecovery => "PAGE-IN RECOVERY",
            Impact::MemoryStress => "MEMORY STRESS",
            Impact::ThermalLimit => "THERMAL LIMIT",
            Impact::PagingActive => "PAGING ACTIVE",
            Impact::CompressionActive => "COMPRESSION ACTIVE",
            Impact::WatchPaging => "WATCH PAGING",
            Impact::GpuBusy => "GPU BUSY",
            Impact::LlmReady => "LLM READY",
            Impact::Idle => "IDLE",
        }
    }

    pub open spec fn tone_spec(self) -> Tone {
        match self {
            Impact::Sampling => Tone::Cyan,
            Impact::DataLimited => Tone::Muted,
            Impact::MemoryBottleneck => Tone::Red,
            Impact::SwapThrashing => Tone::Red,
            Impact::HeavyPaging => Tone::Red,
            Impact::PageInRecovery => Tone::Red,
            Impact::MemoryStress => Tone::Yellow,
            Impact::ThermalLimit => Tone::Yellow,
            Impact::PagingActive => Tone::Yellow,
            Impact::CompressionActive => Tone::Yellow,
            Impact::WatchPaging => Tone::Yellow,
            Impact::GpuBusy => Tone::Cyan,
            Impact::LlmReady => Tone::Green,
            Impact::Idle => Tone::Green,
        }
    }

    /// The tone that the state is shown in.
    pub fn tone(self) -> (result: Tone)
        ensures
            result == self.tone_spec(),
    {
        match self {
            Impact::Sampling => Tone::Cyan,
            Impact::DataLimited => Tone::Muted,
            Impact::MemoryBottleneck => Tone::Red,
            Impact::SwapThrashing => Tone::Red,
            Impact::HeavyPaging => Tone::Red,
            Impact::PageInRecovery => Tone::Red,
            Impact::MemoryStress => Tone::Yellow,
            Impact::ThermalLimit => Tone::Yellow,
            Impact::PagingActive => Tone::Yellow,
            Impact::CompressionActive => Tone::Yellow,
            Impact::WatchPaging => Tone::Yellow,
            Impact::GpuBusy => Tone::Cyan,
            Impact::LlmReady => Tone::Green,
            Impact::Idle => Tone::Green,
        }
    }

    pub open spec fn health_spec(self) -> Option<u16> {
        match self {
            Impact::Sampling => None,
            Impact::DataLimited => None,
            Impact::MemoryBottleneck => Some(10),
            Impact::SwapThrashing => Some(20),
            Impact::HeavyPaging => Some(30),
            Impact::PageInRecovery => Some(45),
            Impact::MemoryStress => Some(55),
            Impact::ThermalLimit => Some(60),
            Impact::PagingActive => Some(65),
            Impact::CompressionActive => Some(70),
            Impact::WatchPaging => Some(85),
            Impact::GpuBusy => Some(90),
            Impact::LlmReady => Some(100),
            Impact::Idle => Some(100),
        }
    }

    /// How well the machine is doing, out of a hundred.
    pub fn health(self) -> (result: Option<u16>)
        ensures
            result == self.health_spec(),
    {
        match self {
            Impact::Sampling => None,
            Impact::DataLimited => None,
            Impact::MemoryBottleneck => Some(10),
            Impact::SwapThrashing => Some(20),
            Impact::HeavyPaging => Some(30),
            Impact::PageInRecovery => Some(45),
            Impact::MemoryStress => Some(55),
            Impact::ThermalLimit => Some(60),
            Impact::PagingActive => Some(65),
            Impact::CompressionActive => Some(70),
            Impact::WatchPaging => Some(85),
            Impact::GpuBusy => Some(90),
            Impact::LlmReady => Some(100),
            Impact::Idle => Some(100),
        }
    }

    pub open spec fn grade_spec(self) -> Seq<char> {
        match self {
            Impact::Sampling => "SAMPLING"@,
            Impact::DataLimited => "UNKNOWN"@,
            Impact::MemoryBottleneck => "CRITICAL"@,
            Impact::SwapThrashing => "POOR"@,
            Impact::HeavyPaging => "POOR"@,
            Impact::PageInRecovery => "RECOVERING"@,
            Impact::MemoryStress => "DEGRADED"@,
            Impact::ThermalLimit => "DEGRADED"@,
            Impact::PagingActive => "CONSTRAINED"@,
            Impact::CompressionActive => "CONSTRAINED"@,
            Impact::WatchPaging => "GOOD"@,
            Impact::GpuBusy => "GOOD"@,
            Impact::LlmReady => "HEALTHY"@,
            Impact::Idle => "HEALTHY"@,
        }
    }

    /// The health in a word.
    pub fn grade(self) -> (result: &'static str)
        ensures
            result@ == self.grade_spec(),
    {
        match self {
            Impact::Sampling => "SAMPLING",
            Impact::DataLimited => "UNKNOWN",
            Impact::MemoryBottleneck => "CRITICAL",
            Impact::SwapThrashing => "POOR",
            Impact::HeavyPaging => "POOR",
            Impact::PageInRecovery => "RECOVERING",
            Impact::MemoryStress => "DEGRADED",
            Impact::ThermalLimit => "DEGRADED",
            Impact::PagingActive => "CONSTRAINED",
            Impact::CompressionActive => "CONSTRAINED",
            Impact::WatchPaging => "GOOD",
            Impact::GpuBusy => "GOOD",
            Impact::LlmReady => "HEALTHY",
            Impact::Idle => "HEALTHY",
        }
    }

    pub open spec fn limiter_spec(self) -> Seq<char> {
        match self {
            Impact::Sampling => "collecting baseline"@,
            Impact::DataLimited => "native counter unavailable"@,
            Impact::MemoryBottleneck => "memory pressure"@,
            Impact::SwapThrashing => "swap thrash"@,
            Impact::HeavyPaging => "disk paging"@,
            Impact::PageInRecovery => "page-in recovery"@,
            Impact::MemoryStress => "tight memory"@,
            Impact::ThermalLimit => "thermal limit"@,
            Impact::PagingActive => "active paging"@,
            Impact::CompressionActive => "compression churn"@,
            Impact::WatchPaging => "light paging"@,
            Impact::GpuBusy => "GPU compute"@,
            Impact::LlmReady => "none"@,
            Impact::Idle => "none"@,
        }
    }

    /// What holds the machine back.
    pub fn limiter(self) -> (result: &'static str)
        ensures
            result@ == self.limiter_spec(),
    {
        match self {
            Impact::Sampling => "collecting baseline",
            Impact::DataLimited => "native counter unavailable",
            Impact::MemoryBottleneck => "memory pressure",
            Impact::SwapThrashing => "swap thrash",
            Impact::HeavyPaging => "disk paging",
            Impact::PageInRecovery => "page-in recovery",
            Impact::MemoryStress => "tight memory",
            Impact::ThermalLimit => "thermal limit",
            Impact::PagingActive => "active paging",
            Impact::CompressionActive => "compression churn",
            Impact::WatchPaging => "light paging",
            Impact::GpuBusy => "GPU compute",
            Impact::LlmReady => "none",
            Impact::Idle => "none",
        }
    }
}

/// The states that mean that the disk is in the way.
pub open spec fn is_aggressive_paging_spec(state: Seq<char>) -> bool {
    state == "SWAP THRASHING"@ || state == "HEAVY PAGING"@ || state == "PAGE-IN RECOVERY"@
}

/// Whether a state means that the disk is in the way. Entering one of them
/// from a quieter state raises the paging alert.
pub fn is_aggressive_paging(state: &str) -> (result: bool)
    ensures
        result == is_aggressive_paging_spec(state@),
{
    same(state, "SWAP THRASHING") || same(state, "HEAVY PAGING") || same(state, "PAGE-IN RECOVERY")
}

/// Whether there is a sign of a model being served.
pub open spec fn llm_is_observed_spec(sample: Sample) -> bool {
    sample.llm_count > 0 || sample.llm_source == TelemetrySource::Live
        || sample.llm_generation_tps is Some || sample.llm_model@ != "not detected"@
}

/// Whether there is a sign of a model being served.
pub fn llm_is_observed(sample: &Sample) -> (result: bool)
    ensures
        result == llm_is_observed_spec(*sample),
{
    sample.llm_count > 0 || sample.llm_source == TelemetrySource::Live
        || sample.llm_generation_tps.is_some() || !same(sample.llm_model.as_str(), "not detected")
}

/// Whether heat limits the clock.
pub open spec fn thermally_limited(sample: Sample) -> bool {
    "limited"@.is_prefix_of(sample.thermal@) || sample.thermal@ == "warning reported"@
}

/// Whether heat limits the clock.
pub fn is_thermally_limited(sample: &Sample) -> (result: bool)
    ensures
        result == thermally_limited(*sample),
{
    starts_with(sample.thermal.as_str(), "limited") || same(
        sample.thermal.as_str(),
        "warning reported",
    )
}

fn reaches(growth: i64, value: u64) -> (result: bool)
    ensures
        result == (growth >= value),
{
    growth >= 0 && growth as u64 >= value
}

/// The findings on a sample, given the state of the one before.
pub struct Findings {
    pub llm: bool,
    pub counters: bool,
    pub thermal: bool,
    pub churn: u64,
    pub paging: bool,
    pub compression: bool,
    pub watch: bool,
    pub thrashing: bool,
    pub heavy: bool,
    pub recovery: bool,
    pub overflow: bool,
    pub gpu: bool,
}

pub open spec fn in_state(previous: Option<Seq<char>>, state: Seq<char>) -> bool {
    previous == Some(state)
}

/// Whether the sample before showed paging.
pub open spec fn was_paging(previous: Option<Seq<char>>) -> bool {
    in_state(previous, "PAGING ACTIVE"@) || in_state(previous, "WATCH PAGING"@) || in_state(
        previous,
        "HEAVY PAGING"@,
    ) || in_state(previous, "SWAP THRASHING"@)
}

/// What a sample shows, given the state of the one before.
pub open spec fn findings_spec(
    sample: Sample,
    previous: Option<Seq<char>>,
    thresholds: Thresholds,
) -> Findings {
    let critical = thresholds.swap_critical_rate;
    let twice = product_spec(2, critical);
    let churn = total_spec(sample.swap_in, sample.swap_out);
    let load = match sample.gpu_util {
        Some(value) => value as u64,
        None => 0,
    };
    Findings {
        llm: llm_is_observed_spec(sample),
        counters: sample.total_memory > 0 && sample.availability is Some && sample.pressure@
            != "UNKNOWN"@ && sample.vm_available && sample.swap_available,
        thermal: thermally_limited(sample),
        churn,
        paging: held(
            churn,
            was_paging(previous),
            PAGING_ACTIVE_ENTER_RATE,
            thresholds.swap_warn_exit,
        ),
        compression: held(
            total_spec(sample.compress, sample.decompress),
            in_state(previous, "COMPRESSION ACTIVE"@),
            thresholds.compression_warn_rate,
            thresholds.compression_warn_exit,
        ),
        watch: churn >= thresholds.swap_warn_rate,
        thrashing: sample.swap_in >= critical && sample.swap_out >= critical,
        heavy: sample.swap_out >= twice || sample.swap_growth >= twice,
        recovery: sample.swap_in >= twice && sample.swap_growth <= 0,
        overflow: sample.swap_out >= critical || sample.swap_growth >= critical,
        gpu: held(
            load,
            in_state(previous, "GPU BUSY"@),
            GPU_BUSY_ENTER_LOAD,
            thresholds.gpu_warn_exit,
        ) && llm_is_observed_spec(sample),
    }
}

/// The gravest finding that holds.
pub open spec fn impact_spec(sample: Sample, found: Findings) -> Impact {
    if !sample.rate_ready {
        Impact::Sampling
    } else if !found.counters {
        Impact::DataLimited
    } else if sample.pressure@ == "RED"@ {
        Impact::MemoryBottleneck
    } else if found.thrashing {
        Impact::SwapThrashing
    } else if found.heavy {
        Impact::HeavyPaging
    } else if found.recovery {
        Impact::PageInRecovery
    } else if sample.pressure@ == "YELLOW"@ {
        Impact::MemoryStress
    } else if found.thermal {
        Impact::ThermalLimit
    } else if found.paging {
        Impact::PagingActive
    } else if found.compression {
        Impact::CompressionActive
    } else if found.watch {
        Impact::WatchPaging
    } else if found.gpu {
        Impact::GpuBusy
    } else if found.llm {
        Impact::LlmReady
    } else {
        Impact::Idle
    }
}

/// A badge, a cause and an action, in words.
pub struct Guidance {
    pub badge: Seq<char>,
    pub cause: Seq<char>,
    pub action: Seq<char>,
}

/// The advice on a sample.
pub open spec fn guidance_spec(sample: Sample, found: Findings) -> Guidance {
    let largest = match sample.largest_consumer {
        Some(name) => name@,
        None => "largest app"@,
    };
    if !sample.rate_ready {
        Guidance {
            badge: "WAIT"@,
            cause: "Collecting the live-rate baseline."@,
            action: "Wait one refresh before acting."@,
        }
    } else if !found.counters {
        Guidance {
            badge: "CHECK"@,
            cause: "One or more native counters are unavailable."@,
            action: "Run on supported macOS hardware and verify system command access."@,
        }
    } else if sample.pressure@ == "RED"@ {
        Guidance {
            badge: "ACT NOW"@,
            cause: "Critical pressure — macOS cannot reclaim RAM fast enough."@,
            action: if found.llm { "Stop unused models/requests; reduce context or concurrency."@ } else {
                "Pause or quit the largest app first; wait for critical pressure to clear."@
            },
        }
    } else if found.thrashing {
        Guidance {
            badge: "ACT NOW"@,
            cause: "Swap thrash — "@ + rate_spec(sample.swap_in) + " in + "@
                + rate_spec(sample.swap_out) + " out."@,
            action: "Reduce model/context/KV cache or parallel requests."@,
        }
    } else if found.overflow {
        Guidance {
            badge: "ACT NOW"@,
            cause: "RAM overflow — evicting "@ + rate_spec(sample.swap_out) + " to disk."@,
            action: if found.llm { "Stop unused models or reduce model/context/cache."@ } else {
                "Pause or quit "@ + largest + "; wait for swap-out to approach zero."@
            },
        }
    } else if found.paging {
        Guidance {
            badge: "WATCH"@,
            cause: "Paging active — in "@ + rate_spec(sample.swap_in) + " + out "@
                + rate_spec(sample.swap_out) + "."@,
            action: "Reduce model/context/cache if paging persists during inference."@,
        }
    } else if found.compression {
        Guidance {
            badge: "WATCH"@,
            cause: "Compression active — "@ + rate_spec(sample.compress) + " compressed + "@
                + rate_spec(sample.decompress) + " decompressed."@,
            action: "Watch for rising paging or pressure; compression alone is not a bottleneck."@,
        }
    } else if found.watch {
        Guidance {
            badge: "WATCH"@,
            cause: "Light paging — "@ + rate_spec(found.churn) + " total."@,
            action: "No immediate action; investigate if the rate persists or rises."@,
        }
    } else if sample.pressure@ == "YELLOW"@ {
        Guidance {
            badge: "REDUCE"@,
            cause: "Resident memory is tight; paging may follow."@,
            action: if found.llm {
                "Reduce model/context/cache or concurrency before adding requests."@
            } else { "Close an unneeded large app (start with "@ + largest + ")."@ },
        }
    } else if found.thermal {
        Guidance {
            badge: "COOL"@,
            cause: "Thermal limiting — memory is not the bottleneck."@,
            action: "Reduce batch/concurrency or pause until the warning clears."@,
        }
    } else if found.gpu {
        Guidance {
            badge: "GPU"@,
            cause: "GPU saturated — inference is compute-bound."@,
            action: "For lower latency, reduce work or use a smaller/faster model."@,
        }
    } else {
        Guidance {
            badge: "OK"@,
            cause: "No active memory, paging, compression, or thermal bottleneck."@,
            action: "Nothing to fix; used swap can remain high after pressure passes."@,
        }
    }
}

fn is_state(previous: Option<&str>, state: &str) -> (result: bool)
    ensures
        result == in_state(
            match previous {
                Some(text) => Some(text@),
                None => None,
            },
            state@,
        ),
{
    match previous {
        Some(text) => same(text, state),
        None => false,
    }
}

/// What a sample shows, given the state of the one before.
pub fn findings(sample: &Sample, previous: Option<&str>, thresholds: Thresholds) -> (result:
    Findings)
    ensures
        result == findings_spec(
            *sample,
            match previous {
                Some(text) => Some(text@),
                None => None,
            },
            thresholds,
        ),
{
    let critical: u64 = thresholds.swap_critical_rate;
    let twice: u64 = product(2, critical);
    let churn: u64 = total(sample.swap_in, sample.swap_out);
    let load: u64 = match sample.gpu_util {
        Some(value) => value as u64,
        None => 0,
    };
    let llm = llm_is_observed(sample);
    let paged = is_state(previous, "PAGING ACTIVE") || is_state(previous, "WATCH PAGING")
        || is_state(previous, "HEAVY PAGING") || is_state(previous, "SWAP THRASHING");
    Findings {
        llm,
        counters: sample.total_memory > 0 && sample.availability.is_some() && !same(
            sample.pressure.as_str(),
            "UNKNOWN",
        ) && sample.vm_available && sample.swap_available,
        thermal: is_thermally_limited(sample),
        churn,
        paging: threshold_with_hysteresis(
            churn,
            paged,
            PAGING_ACTIVE_ENTER_RATE,
            thresholds.swap_warn_exit,
        ),
        compression: threshold_with_hysteresis(
            total(sample.compress, sample.decompress),
            is_state(previous, "COMPRESSION ACTIVE"),
            thresholds.compression_warn_rate,
            thresholds.compression_warn_exit,
        ),
        watch: churn >= thresholds.swap_warn_rate,
        thrashing: sample.swap_in >= critical && sample.swap_out >= critical,
        heavy: sample.swap_out >= twice || reaches(sample.swap_growth, twice),
        recovery: sample.swap_in >= twice && sample.swap_growth <= 0,
        overflow: sample.swap_out >= critical || reaches(sample.swap_growth, critical),
        gpu: threshold_with_hysteresis(
            load,
            is_state(previous, "GPU BUSY"),
            GPU_BUSY_ENTER_LOAD,
            thresholds.gpu_warn_exit,
        ) && llm,
    }
}

/// The gravest finding that holds.
pub fn impact_of(sample: &Sample, found: &Findings) -> (result: Impact)
    ensures
        result == impact_spec(*sample, *found),
{
    if !sample.rate_ready {
        Impact::Sampling
    } else if !found.counters {
        Impact::DataLimited
    } else if same(sample.pressure.as_str(), "RED") {
        Impact::MemoryBottleneck
    } else if found.thrashing {
        Impact::SwapThrashing
    } else if found.heavy {
        Impact::HeavyPaging
    } else if found.recovery {
        Impact::PageInRecovery
    } else if same(sample.pressure.as_str(), "YELLOW") {
        Impact::MemoryStress
    } else if found.thermal {
        Impact::ThermalLimit
    } else if found.paging {
        Impact::PagingActive
    } else if found.compression {
        Impact::CompressionActive
    } else if found.watch {
        Impact::WatchPaging
    } else if found.gpu {
        Impact::GpuBusy
    } else if found.llm {
        Impact::LlmReady
    } else {
        Impact::Idle
    }
}

/// The badge, the cause and the action for a sample.
pub fn guidance(sample: &Sample, found: &Findings) -> (result: (String, String, String))
    ensures
        result.0@ == guidance_spec(*sample, *found).badge,
        result.1@ == guidance_spec(*sample, *found).cause,
        result.2@ == guidance_spec(*sample, *found).action,
{
    let largest: &str = match &sample.largest_consumer {
        Some(name) => name.as_str(),
        None => "largest app",
    };
    if !sample.rate_ready {
        (
            "WAIT".to_string(),
            "Collecting the live-rate baseline.".to_string(),
            "Wait one refresh before acting.".to_string(),
        )
    } else if !found.counters {
        (
            "CHECK".to_string(),
            "One or more native counters are unavailable.".to_string(),
            "Run on supported macOS hardware and verify system command access.".to_string(),
        )
    } else if same(sample.pressure.as_str(), "RED") {
        (
            "ACT NOW".to_string(),
            "Critical pressure — macOS cannot reclaim RAM fast enough.".to_string(),
            if found.llm { "Stop unused models/requests; reduce context or concurrency.".to_string() } else {
                "Pause or quit the largest app first; wait for critical pressure to clear.".to_string()
            },
        )
    } else if found.thrashing {
        (
            "ACT NOW".to_string(),
            "Swap thrash — ".to_string()
                .concat(rate(sample.swap_in).as_str())
                .concat(" in + ")
                .concat(rate(sample.swap_out).as_str())
                .concat(" out."),
            "Reduce model/context/KV cache or parallel requests.".to_string(),
        )
    } else if found.overflow {
        (
            "ACT NOW".to_string(),
            "RAM overflow — evicting ".to_string()
                .concat(rate(sample.swap_out).as_str())
                .concat(" to disk."),
            if found.llm { "Stop unused models or reduce model/context/cache.".to_string() } else {
                "Pause or quit ".to_string()
                    .concat(largest)
                    .concat("; wait for swap-out to approach zero.")
            },
        )
    } else if found.paging {
        (
            "WATCH".to_string(),
            "Paging active — in ".to_string()
                .concat(rate(sample.swap_in).as_str())
                .concat(" + out ")
                .concat(rate(sample.swap_out).as_str())
                .concat("."),
            "Reduce model/context/cache if paging persists during inference.".to_string(),
        )
    } else if found.compression {
        (
            "WATCH".to_string(),
            "Compression active — ".to_string()
                .concat(rate(sample.compress).as_str())
                .concat(" compressed + ")
                .concat(rate(sample.decompress).as_str())
                .concat(" decompressed."),
            "Watch for rising paging or pressure; compression alone is not a bottleneck.".to_string(),
        )
    } else if found.watch {
        (
            "WATCH".to_string(),
            "Light paging — ".to_string().concat(rate(found.churn).as_str()).concat(" total."),
            "No immediate action; investigate if the rate persists or rises.".to_string(),
        )
    } else if same(sample.pressure.as_str(), "YELLOW") {
        (
            "REDUCE".to_string(),
            "Resident memory is tight; paging may follow.".to_string(),
            if found.llm { "Reduce model/context/cache or concurrency before adding requests.".to_string() } else {
                "Close an unneeded large app (start with ".to_string().concat(largest).concat(").")
            },
        )
    } else if found.thermal {
        (
            "COOL".to_string(),
            "Thermal limiting — memory is not the bottleneck.".to_string(),
            "Reduce batch/concurrency or pause until the warning clears.".to_string(),
        )
    } else if found.gpu {
        (
            "GPU".to_string(),
            "GPU saturated — inference is compute-bound.".to_string(),
            "For lower latency, reduce work or use a smaller/faster model.".to_string(),
        )
    } else {
        (
            "OK".to_string(),
            "No active memory, paging, compression, or thermal bottleneck.".to_string(),
            "Nothing to fix; used swap can remain high after pressure passes.".to_string(),
        )
    }
}

/// What the state of the sample before says, where there is one.
pub open spec fn previous_state(previous: Option<&Sample>) -> Option<Seq<char>> {
    match previous {
        Some(sample) => Some(sample.impact@),
        None => None,
    }
}

/// Whether `after` is `before` with its judgement filled in.
pub open spec fn judged(before: Sample, after: Sample, impact: Impact, advice: Guidance) -> bool {
    &&& after.impact@ == impact.label_spec()
    &&& after.impact_tone == impact.tone_spec()
    &&& after.health == impact.health_spec()
    &&& after.grade@ == impact.grade_spec()
    &&& after.limiter@ == impact.limiter_spec()
    &&& after.guidance_badge@ == advice.badge
    &&& after.guidance_cause@ == advice.cause
    &&& after.guidance_action@ == advice.action
    &&& after == (Sample {
        impact: after.impact,
        impact_tone: after.impact_tone,
        health: after.health,
        grade: after.grade,
        limiter: after.limiter,
        guidance_badge: after.guidance_badge,
        guidance_cause: after.guidance_cause,
        guidance_action: after.guidance_action,
        ..before
    })
}

/// Whether `after` is `before` once it was judged, given the state of the sample
/// before it.
pub open spec fn classifies(
    before: Sample,
    after: Sample,
    previous: Option<Seq<char>>,
    thresholds: Thresholds,
) -> bool {
    let found = findings_spec(before, previous, thresholds);
    judged(before, after, impact_spec(before, found), guidance_spec(before, found))
}

/// Judges a sample: the gravest finding, and the advice that goes with it.
pub fn classify(sample: &mut Sample, previous: Option<&Sample>, thresholds: Thresholds)
    ensures
        classifies(*old(sample), *final(sample), previous_state(previous), thresholds),
{
    let state: Option<&str> = match previous {
        Some(sample) => Some(sample.impact.as_str()),
        None => None,
    };
    let found = findings(sample, state, thresholds);
    let impact = impact_of(sample, &found);
    let (badge, cause, action) = guidance(sample, &found);
    sample.impact = impact.label().to_string();
    sample.impact_tone = impact.tone();
    sample.health = impact.health();
    sample.grade = impact.grade().to_string();
    sample.limiter = impact.limiter().to_string();
    sample.guidance_badge = badge;
    sample.guidance_cause = cause;
    sample.guidance_action = action;
}

/// The states that raise the paging alert are exactly the three in which the
/// disk is in the way.
pub proof fn alert_states_are_the_disk_bound_ones(impact: Impact)
    ensures
        is_aggressive_paging_spec(impact.label_spec()) <==> (impact == Impact::SwapThrashing
            || impact == Impact::HeavyPaging || impact == Impact::PageInRecovery),
{
    reveal_strlit("SAMPLING");
    reveal_strlit("DATA LIMITED");
    reveal_strlit("MEMORY BOTTLENECK");
    reveal_strlit("SWAP THRASHING");
    reveal_strlit("HEAVY PAGING");
    reveal_strlit("PAGE-IN RECOVERY");
    reveal_strlit("MEMORY STRESS");
    reveal_strlit("THERMAL LIMIT");
    reveal_strlit("PAGING ACTIVE");
    reveal_strlit("COMPRESSION ACTIVE");
    reveal_strlit("WATCH PAGING");
    reveal_strlit("GPU BUSY");
    reveal_strlit("LLM READY");
    reveal_strlit("IDLE");
    let label = impact.label_spec();
    let (a, b, c) = ("SWAP THRASHING"@, "HEAVY PAGING"@, "PAGE-IN RECOVERY"@);
    assert(a.len() == 14 && b.len() == 12 && c.len() == 16);
    if label.len() == 12 && impact != Impact::HeavyPaging {
        assert(label[0] != b[0]);
    }
}

/// A score is given exactly where there is something to judge, and a state is
/// red exactly where its score is below fifty.
pub proof fn scores_and_tones_agree(impact: Impact)
    ensures
        impact.health_spec() is None <==> (impact == Impact::Sampling || impact
            == Impact::DataLimited),
        impact.tone_spec() == Tone::Red <==> (impact.health_spec() is Some
            && impact.health_spec().unwrap() < 50),
        impact.health_spec() is Some ==> impact.health_spec().unwrap() <= 100,
{
}

/// Critical pressure goes before all paging, and without a full set of counters
/// nothing is judged.
pub proof fn grave_findings_come_first(sample: Sample, found: Findings)
    ensures
        !sample.rate_ready ==> impact_spec(sample, found) == Impact::Sampling,
        sample.rate_ready && !found.counters ==> impact_spec(sample, found) == Impact::DataLimited,
        sample.rate_ready && found.counters && sample.pressure@ == "RED"@ ==> impact_spec(
            sample,
            found,
        ) == Impact::MemoryBottleneck,
{
}

/// Paging that was active stays active until it falls below the level at which
/// it is left, so a rate between the two levels does not make the state flap.
pub proof fn paging_does_not_flap(sample: Sample, thresholds: Thresholds)
    requires
        thresholds.usable(),
        thresholds.swap_warn_exit <= total_spec(sample.swap_in, sample.swap_out)
            < PAGING_ACTIVE_ENTER_RATE,
    ensures
        findings_spec(sample, Some("PAGING ACTIVE"@), thresholds).paging,
        !findings_spec(sample, None, thresholds).paging,
{
}

/// Whether everything was read that a judgement rests on.
pub open spec fn is_complete(sample: Sample) -> bool {
    sample.total_memory > 0 && sample.availability is Some && sample.pressure@ != "UNKNOWN"@
        && sample.vm_available && sample.swap_available
}

/// Nothing is judged before the rates are measured, nor while a counter is
/// missing; everything else is.
pub proof fn nothing_is_judged_too_early(
    before: Sample,
    after: Sample,
    previous: Option<Seq<char>>,
    thresholds: Thresholds,
)
    requires
        classifies(before, after, previous, thresholds),
    ensures
        after.health is Some <==> before.rate_ready && is_complete(before),
        !before.rate_ready ==> after.impact@ == "SAMPLING"@ && after.guidance_badge@ == "WAIT"@,
        before.rate_ready && !is_complete(before) ==> after.impact@ == "DATA LIMITED"@
            && after.guidance_badge@ == "CHECK"@,
{
}

/// Critical pressure and disk paging cost health, each by itself and whatever
/// else a sample shows: pages that go out at twice the critical rate, swap space
/// that grows so fast, pages that come back in so fast, and both ways at the
/// critical rate.
pub proof fn disk_paging_costs_health(
    before: Sample,
    after: Sample,
    previous: Option<Seq<char>>,
    thresholds: Thresholds,
)
    requires
        classifies(before, after, previous, thresholds),
        before.rate_ready,
        is_complete(before),
    ensures
        before.pressure@ == "RED"@ <==> after.health == Some(10u16),
        before.pressure@ == "RED"@ ==> after.impact@ == "MEMORY BOTTLENECK"@,
        before.pressure@ != "RED"@ && before.swap_in >= thresholds.swap_critical_rate
            && before.swap_out >= thresholds.swap_critical_rate ==> after.impact@
            == "SWAP THRASHING"@ && after.health == Some(20u16),
        before.pressure@ != "RED"@ && before.swap_out >= 2 * thresholds.swap_critical_rate ==> (
        after.impact@ == "SWAP THRASHING"@ || after.impact@ == "HEAVY PAGING"@)
            && after.health.unwrap() <= 30,
        before.pressure@ != "RED"@ && before.swap_growth >= 2 * thresholds.swap_critical_rate ==> (
        after.impact@ == "SWAP THRASHING"@ || after.impact@ == "HEAVY PAGING"@)
            && after.health.unwrap() <= 30,
        before.pressure@ != "RED"@ && before.swap_in >= 2 * thresholds.swap_critical_rate
            && before.swap_growth <= 0 ==> (after.impact@ == "SWAP THRASHING"@ || after.impact@
            == "HEAVY PAGING"@ || after.impact@ == "PAGE-IN RECOVERY"@)
            && after.health.unwrap() <= 45,
        after.health == Some(20u16) ==> before.swap_in >= thresholds.swap_critical_rate
            && before.swap_out >= thresholds.swap_critical_rate,
        after.health == Some(30u16) && 2 * thresholds.swap_critical_rate <= u64::MAX
            ==> before.swap_out >= 2 * thresholds.swap_critical_rate || before.swap_growth >= 2
            * thresholds.swap_critical_rate,
        after.health == Some(45u16) && 2 * thresholds.swap_critical_rate <= u64::MAX
            ==> before.swap_in >= 2 * thresholds.swap_critical_rate && before.swap_growth <= 0,
{
}

/// Whether heat holds the machine back.
pub open spec fn is_hot(sample: Sample) -> bool {
    sample.thermal@ == "warning reported"@ || (sample.thermal@.len() >= 7 && sample.thermal@.take(7)
        == "limited"@)
}

/// What is less grave costs less health, and each sign by itself: tight memory,
/// heat, paging, compression, a little paging, and a busy GPU. A state that was
/// entered is kept down to the level at which it is left.
pub proof fn lesser_signs_cost_health(
    before: Sample,
    after: Sample,
    previous: Option<Seq<char>>,
    thresholds: Thresholds,
)
    requires
        classifies(before, after, previous, thresholds),
        before.rate_ready,
        is_complete(before),
    ensures
        before.pressure@ == "YELLOW"@ ==> after.health.unwrap() <= 55,
        is_hot(before) ==> after.health.unwrap() <= 60,
        before.swap_in + before.swap_out >= 4 * 1024 * 1024 && !was_paging(previous)
            ==> after.health.unwrap() <= 65,
        before.swap_in + before.swap_out >= thresholds.swap_warn_exit && previous == Some(
            "PAGING ACTIVE"@,
        ) ==> after.health.unwrap() <= 65,
        before.swap_in + before.swap_out >= thresholds.swap_warn_exit && previous == Some(
            "HEAVY PAGING"@,
        ) ==> after.health.unwrap() <= 65,
        before.swap_in + before.swap_out >= thresholds.swap_warn_exit && previous == Some(
            "SWAP THRASHING"@,
        ) ==> after.health.unwrap() <= 65,
        before.swap_in + before.swap_out >= thresholds.swap_warn_exit && previous == Some(
            "WATCH PAGING"@,
        ) ==> after.health.unwrap() <= 65,
        before.compress + before.decompress >= thresholds.compression_warn_rate && previous is None
            ==> after.health.unwrap() <= 70,
        before.compress + before.decompress >= thresholds.compression_warn_exit && previous == Some(
            "COMPRESSION ACTIVE"@,
        ) ==> after.health.unwrap() <= 70,
        before.swap_in + before.swap_out >= thresholds.swap_warn_rate ==> after.health.unwrap()
            <= 85,
        before.gpu_util is Some && before.gpu_util.unwrap() >= 80 && before.llm_count > 0
            && previous is None ==> after.health.unwrap() <= 90,
        before.gpu_util is Some && before.gpu_util.unwrap() >= thresholds.gpu_warn_exit
            && before.llm_count > 0 && previous == Some("GPU BUSY"@) ==> after.health.unwrap()
            <= 90,
{
    reveal_strlit("PAGING ACTIVE");
    reveal_strlit("HEAVY PAGING");
    reveal_strlit("SWAP THRASHING");
    reveal_strlit("WATCH PAGING");
    reveal_strlit("limited");
    if before.thermal@.len() >= 7 && before.thermal@.take(7) == "limited"@ {
        assert("limited"@.is_prefix_of(before.thermal@));
    }
}

/// What a score above the grave ones stands for was there to be seen, and a full
/// score stands for its absence.
pub proof fn scores_have_their_reasons(
    before: Sample,
    after: Sample,
    previous: Option<Seq<char>>,
    thresholds: Thresholds,
)
    requires
        classifies(before, after, previous, thresholds),
    ensures
        after.health == Some(55u16) ==> before.pressure@ == "YELLOW"@ && after.impact@
            == "MEMORY STRESS"@,
        after.health == Some(60u16) ==> thermally_limited(before) && after.impact@
            == "THERMAL LIMIT"@,
        after.health == Some(65u16) ==> after.impact@ == "PAGING ACTIVE"@ && before.swap_in
            + before.swap_out >= if thresholds.swap_warn_exit <= PAGING_ACTIVE_ENTER_RATE {
            thresholds.swap_warn_exit
        } else {
            PAGING_ACTIVE_ENTER_RATE
        },
        after.health == Some(70u16) ==> after.impact@ == "COMPRESSION ACTIVE"@ && (before.compress
            + before.decompress >= thresholds.compression_warn_rate || before.compress
            + before.decompress >= thresholds.compression_warn_exit),
        after.health == Some(85u16) ==> after.impact@ == "WATCH PAGING"@ && before.swap_in
            + before.swap_out >= thresholds.swap_warn_rate,
        after.health == Some(90u16) ==> after.impact@ == "GPU BUSY"@ && before.gpu_util is Some
            || thresholds.gpu_warn_exit == 0,
        after.health == Some(100u16) ==> before.pressure@ != "YELLOW"@ && !thermally_limited(before)
            && before.swap_in + before.swap_out < thresholds.swap_warn_rate,
        after.health == Some(100u16) && (before.llm_count > 0 || before.llm_source
            == TelemetrySource::Live || before.llm_generation_tps is Some || before.llm_model@
            != "not detected"@) ==> after.impact@ == "LLM READY"@,
        after.health == Some(100u16) && before.llm_count == 0 && before.llm_source
            != TelemetrySource::Live && before.llm_generation_tps is None && before.llm_model@
            == "not detected"@ ==> after.impact@ == "IDLE"@,
{
}

/// The tone, the grade and what is named as the limit go with the score.
pub proof fn words_go_with_the_score(
    before: Sample,
    after: Sample,
    previous: Option<Seq<char>>,
    thresholds: Thresholds,
)
    requires
        classifies(before, after, previous, thresholds),
        after.health is Some,
    ensures
        ({
            let health = after.health.unwrap();
            &&& (after.impact_tone == Tone::Red) == (health < 50)
            &&& (after.impact_tone == Tone::Yellow) == (50 < health < 90)
            &&& (after.impact_tone == Tone::Cyan) == (health == 90)
            &&& (after.impact_tone == Tone::Green) == (health == 100)
            &&& health == 10 ==> after.grade@ == "CRITICAL"@ && after.limiter@ == "memory pressure"@
            &&& health == 20 ==> after.grade@ == "POOR"@ && after.limiter@ == "swap thrash"@
            &&& health == 30 ==> after.grade@ == "POOR"@ && after.limiter@ == "disk paging"@
            &&& health == 45 ==> after.grade@ == "RECOVERING"@ && after.limiter@
                == "page-in recovery"@
            &&& health == 55 ==> after.grade@ == "DEGRADED"@ && after.limiter@ == "tight memory"@
            &&& health == 60 ==> after.grade@ == "DEGRADED"@ && after.limiter@ == "thermal limit"@
            &&& health == 65 ==> after.grade@ == "CONSTRAINED"@ && after.limiter@
                == "active paging"@
            &&& health == 70 ==> after.grade@ == "CONSTRAINED"@ && after.limiter@
                == "compression churn"@
            &&& health == 85 ==> after.grade@ == "GOOD"@ && after.limiter@ == "light paging"@
            &&& health == 90 ==> after.grade@ == "GOOD"@ && after.limiter@ == "GPU compute"@
            &&& health == 100 ==> after.grade@ == "HEALTHY"@ && after.limiter@ == "none"@
        }),
{
}

/// Advice to act now comes with critical pressure and with pages that leave at
/// the critical rate, and with nothing else. What it says of the rates is what
/// was measured.
pub proof fn advice_goes_with_the_signs(
    before: Sample,
    after: Sample,
    previous: Option<Seq<char>>,
    thresholds: Thresholds,
)
    requires
        classifies(before, after, previous, thresholds),
        before.rate_ready,
        is_complete(before),
    ensures
        before.pressure@ == "RED"@ || before.swap_out >= thresholds.swap_critical_rate
            || before.swap_growth >= thresholds.swap_critical_rate ==> after.guidance_badge@
            == "ACT NOW"@,
        before.pressure@ != "RED"@ && before.swap_out < thresholds.swap_critical_rate
            && before.swap_growth < thresholds.swap_critical_rate ==> after.guidance_badge@
            != "ACT NOW"@,
        before.pressure@ != "RED"@ && before.swap_in >= thresholds.swap_critical_rate
            && before.swap_out >= thresholds.swap_critical_rate ==> after.guidance_cause@
            == "Swap thrash — "@ + rate_spec(before.swap_in) + " in + "@ + rate_spec(
            before.swap_out,
        ) + " out."@,
        before.pressure@ != "RED"@ && before.swap_in < thresholds.swap_critical_rate
            && before.swap_out >= thresholds.swap_critical_rate ==> after.guidance_cause@
            == "RAM overflow — evicting "@ + rate_spec(before.swap_out) + " to disk."@,
        after.health == Some(60u16) && before.swap_in + before.swap_out
            < thresholds.swap_warn_rate && before.swap_in + before.swap_out < 4 * 1024 * 1024
            && previous is None && before.compress + before.decompress
            < thresholds.compression_warn_rate && before.swap_growth < thresholds.swap_critical_rate
            && before.swap_out < thresholds.swap_critical_rate ==> after.guidance_badge@
            == "COOL"@,
        after.health == Some(65u16) && before.swap_out < thresholds.swap_critical_rate
            && before.swap_growth < thresholds.swap_critical_rate ==> after.guidance_badge@
            == "WATCH"@,
        after.health == Some(90u16) && before.swap_growth < thresholds.swap_critical_rate
            && before.swap_out < thresholds.swap_critical_rate ==> after.guidance_badge@ == "GPU"@,
        after.health == Some(100u16) && before.swap_growth < thresholds.swap_critical_rate
            && before.swap_out < thresholds.swap_critical_rate ==> after.guidance_badge@ == "OK"@,
{
    reveal_strlit("ACT NOW");
    reveal_strlit("WATCH");
    reveal_strlit("REDUCE");
    reveal_strlit("COOL");
    reveal_strlit("GPU");
    reveal_strlit("OK");
    assert(after.guidance_badge@ != "ACT NOW"@ || after.guidance_badge@.len() == 7);
}

} // verus!
