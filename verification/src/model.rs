//! The data that the monitor gathers, judges and shows.

use crate::binary64::Binary64;
use crate::thresholds::Tone;
use vstd::prelude::*;

verus! {

/// Where the figures on the serving process come from.
#[derive(Clone, Copy, Debug, PartialEq, Eq, Structural)]
pub enum TelemetrySource {
    Unavailable,
    Live,
    Log,
    Report,
}

impl TelemetrySource {
    pub open spec fn label_spec(self) -> Seq<char> {
        match self {
            TelemetrySource::Unavailable => "unavailable"@,
            TelemetrySource::Live => "live API"@,
            TelemetrySource::Log => "completion log"@,
            TelemetrySource::Report => "reported usage"@,
        }
    }

    /// The source in words.
    pub fn label(self) -> (result: &'static str)
        ensures
            result@ == self.label_spec(),
    {
        match self {
            TelemetrySource::Unavailable => "unavailable",
            TelemetrySource::Live => "live API",
            TelemetrySource::Log => "completion log",
            TelemetrySource::Report => "reported usage",
        }
    }
}

/// Allocator and device counters that the serving runtime reports of itself.
/// 
/// They come from an endpoint that can observe the serving process; none is
/// derived from resident memory or from the load of the GPU.
#[derive(Debug, Default, PartialEq, Eq)]
pub struct MlxTelemetry {
    pub version: Option<String>,
    pub active_memory: Option<u64>,
    pub cache_memory: Option<u64>,
    pub peak_memory: Option<u64>,
    pub device_name: Option<String>,
    pub architecture: Option<String>,
    pub memory_size: Option<u64>,
    pub recommended_working_set: Option<u64>,
    pub max_buffer_size: Option<u64>,
    pub resource_limit: Option<u64>,
    pub process_footprint: Option<u64>,
}

impl Clone for MlxTelemetry {
    fn clone(&self) -> (result: Self)
        ensures
            result == *self,
    {
        MlxTelemetry {
            version: self.version.clone(),
            active_memory: self.active_memory,
            cache_memory: self.cache_memory,
            peak_memory: self.peak_memory,
            device_name: self.device_name.clone(),
            architecture: self.architecture.clone(),
            memory_size: self.memory_size,
            recommended_working_set: self.recommended_working_set,
            max_buffer_size: self.max_buffer_size,
            resource_limit: self.resource_limit,
            process_footprint: self.process_footprint,
        }
    }
}

/// What the system reports of the GPU.
#[derive(Debug, Default, PartialEq, Eq)]
pub struct MetalTelemetry {
    pub device_name: Option<String>,
    pub architecture: Option<String>,
    pub gpu_cores: Option<u16>,
    pub renderer_util: Option<u8>,
    pub tiler_util: Option<u8>,
    pub resource_limit: Option<u64>,
}

impl Clone for MetalTelemetry {
    fn clone(&self) -> (result: Self)
        ensures
            result == *self,
    {
        MetalTelemetry {
            device_name: self.device_name.clone(),
            architecture: self.architecture.clone(),
            gpu_cores: self.gpu_cores,
            renderer_util: self.renderer_util,
            tiler_util: self.tiler_util,
            resource_limit: self.resource_limit,
        }
    }
}

/// A process that serves a model.
#[derive(Debug)]
pub struct LlmProcess {
    pub pid: u32,
    pub name: String,
    pub command: String,
    pub rss: u64,
    pub cpu: Binary64,
    pub memory_percent: Option<Binary64>,
    pub state: String,
    pub pageins: Option<u64>,
    pub pagein_rate: Option<Binary64>,
}

impl Clone for LlmProcess {
    fn clone(&self) -> (result: Self)
        ensures
            result == *self,
    {
        LlmProcess {
            pid: self.pid,
            name: self.name.clone(),
            command: self.command.clone(),
            rss: self.rss,
            cpu: self.cpu,
            memory_percent: self.memory_percent,
            state: self.state.clone(),
            pageins: self.pageins,
            pagein_rate: self.pagein_rate,
        }
    }
}

/// A list of texts, entry by entry the same.
pub fn clone_texts(list: &Vec<String>) -> (result: Vec<String>)
    ensures
        result@ == list@,
{
    let mut result: Vec<String> = Vec::new();
    for i in 0..list.len()
        invariant
            result@ == list@.take(i as int),
    {
        assert(list@.take(i + 1) =~= list@.take(i as int).push(list@[i as int]));
        result.push(list[i].clone());
    }
    assert(list@.take(list@.len() as int) =~= list@);
    result
}

/// A list of processes, entry by entry the same.
pub fn clone_processes(list: &Vec<LlmProcess>) -> (result: Vec<LlmProcess>)
    ensures
        result@ == list@,
{
    let mut result: Vec<LlmProcess> = Vec::new();
    for i in 0..list.len()
        invariant
            result@ == list@.take(i as int),
    {
        assert(list@.take(i + 1) =~= list@.take(i as int).push(list@[i as int]));
        result.push(list[i].clone());
    }
    assert(list@.take(list@.len() as int) =~= list@);
    result
}

/// The system's own account of the memory of one process. A process that was
/// started again is another one, under whatever number; `at` is when it was
/// read, in nanoseconds of a clock that does not go back.
#[derive(Clone, Copy, Debug, PartialEq, Eq, Structural)]
pub struct ProcessMemory {
    pub pid: u32,
    pub started: u64,
    pub resident: u64,
    pub footprint: u64,
    pub peak: u64,
    pub at: u64,
}

/// Where the token rate is heading.
#[derive(Clone, Copy, Debug, PartialEq, Eq, Structural)]
pub enum ThroughputDirection {
    Unknown,
    Down,
    Up,
    Flat,
}

/// What a change of the token rate coincides with.
#[derive(Clone, Copy, Debug, PartialEq, Eq, Structural)]
pub enum CorrelationCause {
    Uncorrelated,
    Paging,
    Compression,
    MemoryPressure,
    Thermal,
    MetalMemory,
    GpuSaturation,
    Queueing,
    ContextGrowth,
    ModelMemory,
    Runtime,
}

impl CorrelationCause {
    pub open spec fn label_spec(self) -> Seq<char> {
        match self {
            CorrelationCause::Uncorrelated => "no correlated cause"@,
            CorrelationCause::Paging => "paging"@,
            CorrelationCause::Compression => "compression churn"@,
            CorrelationCause::MemoryPressure => "memory pressure"@,
            CorrelationCause::Thermal => "thermal limiting"@,
            CorrelationCause::MetalMemory => "Metal memory pressure"@,
            CorrelationCause::GpuSaturation => "GPU saturation"@,
            CorrelationCause::Queueing => "queueing"@,
            CorrelationCause::ContextGrowth => "context/KV growth"@,
            CorrelationCause::ModelMemory => "model memory growth"@,
            CorrelationCause::Runtime => "workload/runtime change"@,
        }
    }

    /// The cause in words.
    pub fn label(self) -> (result: &'static str)
        ensures
            result@ == self.label_spec(),
    {
        match self {
            CorrelationCause::Uncorrelated => "no correlated cause",
            CorrelationCause::Paging => "paging",
            CorrelationCause::Compression => "compression churn",
            CorrelationCause::MemoryPressure => "memory pressure",
            CorrelationCause::Thermal => "thermal limiting",
            CorrelationCause::MetalMemory => "Metal memory pressure",
            CorrelationCause::GpuSaturation => "GPU saturation",
            CorrelationCause::Queueing => "queueing",
            CorrelationCause::ContextGrowth => "context/KV growth",
            CorrelationCause::ModelMemory => "model memory growth",
            CorrelationCause::Runtime => "workload/runtime change",
        }
    }

    /// Whether the cause takes the machine's memory or clock away.
    pub open spec fn severe(self) -> bool {
        self == CorrelationCause::Paging || self == CorrelationCause::MemoryPressure || self
            == CorrelationCause::Thermal
    }

    pub open spec fn tone_spec(self) -> Tone {
        if self.severe() {
            Tone::Red
        } else if self == CorrelationCause::Uncorrelated {
            Tone::Muted
        } else {
            Tone::Yellow
        }
    }

    /// The tone that the cause is shown in.
    pub fn tone(self) -> (result: Tone)
        ensures
            result == self.tone_spec(),
    {
        match self {
            CorrelationCause::Paging | CorrelationCause::MemoryPressure
            | CorrelationCause::Thermal => Tone::Red,
            CorrelationCause::Uncorrelated => Tone::Muted,
            _ => Tone::Yellow,
        }
    }
}

/// What tells one diagnosis from the next.
#[derive(Clone, Copy, Debug, PartialEq, Eq, Structural)]
pub struct CorrelationKey {
    pub direction: ThroughputDirection,
    pub cause: CorrelationCause,
}

/// A diagnosis of the token rate.
#[derive(Debug)]
pub struct CorrelationInsight {
    pub direction: ThroughputDirection,
    pub cause: CorrelationCause,
    pub confidence: u8,
    pub summary: String,
    pub details: String,
    pub event_key: Option<CorrelationKey>,
}

impl Clone for CorrelationInsight {
    fn clone(&self) -> (result: Self)
        ensures
            result == *self,
    {
        CorrelationInsight {
            direction: self.direction,
            cause: self.cause,
            confidence: self.confidence,
            summary: self.summary.clone(),
            details: self.details.clone(),
            event_key: self.event_key,
        }
    }
}

impl Default for CorrelationInsight {
    fn default() -> (result: Self)
        ensures
            result.direction == ThroughputDirection::Unknown,
            result.cause == CorrelationCause::Uncorrelated,
            result.confidence == 0,
            result.summary@ == Seq::<char>::empty(),
            result.details@ == Seq::<char>::empty(),
            result.event_key is None,
    {
        CorrelationInsight {
            direction: ThroughputDirection::Unknown,
            cause: CorrelationCause::Uncorrelated,
            confidence: 0,
            summary: String::new(),
            details: String::new(),
            event_key: None,
        }
    }
}

impl CorrelationInsight {
    /// Whether the token rate fell by enough to matter.
    pub fn is_material_drop(&self) -> (result: bool)
        ensures
            result == (self.direction == ThroughputDirection::Down),
    {
        self.direction == ThroughputDirection::Down
    }

    pub open spec fn tone_spec(self) -> Tone {
        match self.direction {
            ThroughputDirection::Down => if self.cause.severe() {
                Tone::Red
            } else {
                Tone::Yellow
            },
            ThroughputDirection::Up => Tone::Green,
            _ => self.cause.tone_spec(),
        }
    }

    /// The tone that the diagnosis is shown in.
    pub fn tone(&self) -> (result: Tone)
        ensures
            result == self.tone_spec(),
    {
        match self.direction {
            ThroughputDirection::Down => match self.cause {
                CorrelationCause::Paging | CorrelationCause::MemoryPressure
                | CorrelationCause::Thermal => Tone::Red,
                _ => Tone::Yellow,
            },
            ThroughputDirection::Up => Tone::Green,
            _ => self.cause.tone(),
        }
    }

    pub open spec fn confidence_label_spec(self) -> Seq<char> {
        if self.confidence >= 80 {
            "high"@
        } else if self.confidence >= 55 {
            "medium"@
        } else if self.confidence >= 1 {
            "low"@
        } else {
            "unavailable"@
        }
    }

    /// The confidence in words.
    pub fn confidence_label(&self) -> (result: &'static str)
        ensures
            result@ == self.confidence_label_spec(),
    {
        if self.confidence >= 80 {
            "high"
        } else if self.confidence >= 55 {
            "medium"
        } else if self.confidence >= 1 {
            "low"
        } else {
            "unavailable"
        }
    }
}

/// What one poll learned of the serving process.
#[derive(Debug)]
pub struct LlmTelemetry {
    pub source: TelemetrySource,
    pub observed_at: Option<u64>,
    pub provider: Option<String>,
    pub status: Option<String>,
    pub model: Option<String>,
    pub generation_tps: Option<Binary64>,
    pub generation_tps_live: bool,
    pub prefill_tps: Option<Binary64>,
    pub prefill_tps_live: bool,
    pub output_tokens: Option<u64>,
    pub prompt_tokens: Option<u64>,
    pub cache_efficiency: Option<Binary64>,
    pub prefix_hit_rate: Option<Binary64>,
    pub total_prompt_tokens: Option<u64>,
    pub total_cached_tokens: Option<u64>,
    pub active_requests: Option<u64>,
    pub waiting_requests: Option<u64>,
    pub model_memory: Option<u64>,
    pub model_memory_max: Option<u64>,
    pub mlx: MlxTelemetry,
}

impl Clone for LlmTelemetry {
    fn clone(&self) -> (result: Self)
        ensures
            result == *self,
    {
        LlmTelemetry {
            source: self.source,
            observed_at: self.observed_at,
            provider: self.provider.clone(),
            status: self.status.clone(),
            model: self.model.clone(),
            generation_tps: self.generation_tps,
            generation_tps_live: self.generation_tps_live,
            prefill_tps: self.prefill_tps,
            prefill_tps_live: self.prefill_tps_live,
            output_tokens: self.output_tokens,
            prompt_tokens: self.prompt_tokens,
            cache_efficiency: self.cache_efficiency,
            prefix_hit_rate: self.prefix_hit_rate,
            total_prompt_tokens: self.total_prompt_tokens,
            total_cached_tokens: self.total_cached_tokens,
            active_requests: self.active_requests,
            waiting_requests: self.waiting_requests,
            model_memory: self.model_memory,
            model_memory_max: self.model_memory_max,
            mlx: self.mlx.clone(),
        }
    }
}

impl MlxTelemetry {
    pub open spec fn nothing_spec() -> MlxTelemetry {
        MlxTelemetry {
            version: None,
            active_memory: None,
            cache_memory: None,
            peak_memory: None,
            device_name: None,
            architecture: None,
            memory_size: None,
            recommended_working_set: None,
            max_buffer_size: None,
            resource_limit: None,
            process_footprint: None,
        }
    }

    /// No counter at all.
    pub fn nothing() -> (result: MlxTelemetry)
        ensures
            result == MlxTelemetry::nothing_spec(),
    {
        MlxTelemetry {
            version: None,
            active_memory: None,
            cache_memory: None,
            peak_memory: None,
            device_name: None,
            architecture: None,
            memory_size: None,
            recommended_working_set: None,
            max_buffer_size: None,
            resource_limit: None,
            process_footprint: None,
        }
    }
}

impl MetalTelemetry {
    pub open spec fn nothing_spec() -> MetalTelemetry {
        MetalTelemetry {
            device_name: None,
            architecture: None,
            gpu_cores: None,
            renderer_util: None,
            tiler_util: None,
            resource_limit: None,
        }
    }

    /// No figure at all.
    pub fn nothing() -> (result: MetalTelemetry)
        ensures
            result == MetalTelemetry::nothing_spec(),
    {
        MetalTelemetry {
            device_name: None,
            architecture: None,
            gpu_cores: None,
            renderer_util: None,
            tiler_util: None,
            resource_limit: None,
        }
    }
}

impl LlmTelemetry {
    pub open spec fn nothing_spec() -> LlmTelemetry {
        LlmTelemetry {
            source: TelemetrySource::Unavailable,
            observed_at: None,
            provider: None,
            status: None,
            model: None,
            generation_tps: None,
            generation_tps_live: false,
            prefill_tps: None,
            prefill_tps_live: false,
            output_tokens: None,
            prompt_tokens: None,
            cache_efficiency: None,
            prefix_hit_rate: None,
            total_prompt_tokens: None,
            total_cached_tokens: None,
            active_requests: None,
            waiting_requests: None,
            model_memory: None,
            model_memory_max: None,
            mlx: MlxTelemetry::nothing_spec(),
        }
    }

    /// Telemetry that holds nothing yet.
    pub fn nothing() -> (result: LlmTelemetry)
        ensures
            result == LlmTelemetry::nothing_spec(),
    {
        LlmTelemetry {
            source: TelemetrySource::Unavailable,
            observed_at: None,
            provider: None,
            status: None,
            model: None,
            generation_tps: None,
            generation_tps_live: false,
            prefill_tps: None,
            prefill_tps_live: false,
            output_tokens: None,
            prompt_tokens: None,
            cache_efficiency: None,
            prefix_hit_rate: None,
            total_prompt_tokens: None,
            total_cached_tokens: None,
            active_requests: None,
            waiting_requests: None,
            model_memory: None,
            model_memory_max: None,
            mlx: MlxTelemetry::nothing(),
        }
    }
}

/// One reading of the whole machine, with its judgement.
#[derive(Debug)]
pub struct Sample {
    pub updated: String,
    pub pressure: String,
    pub pressure_meaning: String,
    pub pressure_tone: Tone,
    pub availability: Option<u8>,
    pub total_memory: u64,
    pub wired: u64,
    pub compressor: u64,
    pub compressed_logical: u64,
    pub anonymous: u64,
    pub file_backed: u64,
    pub swap_total: u64,
    pub swap_used: u64,
    pub swap_available: bool,
    pub swap_in: u64,
    pub swap_out: u64,
    pub swap_growth: i64,
    pub compress: u64,
    pub decompress: u64,
    pub reactivated: u64,
    pub vm_available: bool,
    pub gpu_util: Option<u8>,
    pub gpu_alloc: Option<u64>,
    pub gpu_in_use: Option<u64>,
    pub metal: MetalTelemetry,
    pub mlx: MlxTelemetry,
    pub thermal: String,
    pub llm_count: u32,
    pub llm_rss: u64,
    pub process_memory: Option<ProcessMemory>,
    pub process_memory_growth: Option<i64>,
    pub llm_cpu: Binary64,
    pub llm_processes: Vec<LlmProcess>,
    pub largest_consumer: Option<String>,
    pub llm_model: String,
    pub llm_provider: String,
    pub llm_status: String,
    pub llm_source: TelemetrySource,
    pub llm_observed_at: Option<u64>,
    pub llm_generation_tps: Option<Binary64>,
    pub llm_generation_tps_live: bool,
    pub llm_prefill_tps: Option<Binary64>,
    pub llm_prefill_tps_live: bool,
    pub llm_output_tokens: Option<u64>,
    pub llm_prompt_tokens: Option<u64>,
    pub llm_requests: Vec<String>,
    pub llm_cache_efficiency: Option<Binary64>,
    pub llm_cache_interval_efficiency: Option<Binary64>,
    pub llm_prefix_hit_rate: Option<Binary64>,
    pub llm_active_requests: Option<u64>,
    pub llm_waiting_requests: Option<u64>,
    pub llm_model_memory: Option<u64>,
    pub llm_model_memory_max: Option<u64>,
    pub correlation: CorrelationInsight,
    pub llm_top: String,
    pub llm_pid: u32,
    pub impact: String,
    pub impact_tone: Tone,
    pub health: Option<u16>,
    pub grade: String,
    pub limiter: String,
    pub guidance_badge: String,
    pub guidance_cause: String,
    pub guidance_action: String,
    pub rate_ready: bool,
}

impl Sample {
    /// A sample before anything was read.
    pub open spec fn blank(self) -> bool {
        &&& self.updated@ == "waiting"@
        &&& self.pressure@ == "UNKNOWN"@
        &&& self.pressure_meaning@ == "unavailable"@
        &&& self.pressure_tone == Tone::Muted
        &&& self.availability is None
        &&& self.total_memory == 0
        &&& self.wired == 0
        &&& self.compressor == 0
        &&& self.compressed_logical == 0
        &&& self.anonymous == 0
        &&& self.file_backed == 0
        &&& self.swap_total == 0
        &&& self.swap_used == 0
        &&& !self.swap_available
        &&& self.swap_in == 0
        &&& self.swap_out == 0
        &&& self.swap_growth == 0
        &&& self.compress == 0
        &&& self.decompress == 0
        &&& self.reactivated == 0
        &&& !self.vm_available
        &&& self.gpu_util is None
        &&& self.gpu_alloc is None
        &&& self.gpu_in_use is None
        &&& self.metal == MetalTelemetry::nothing_spec()
        &&& self.mlx == MlxTelemetry::nothing_spec()
        &&& self.thermal@ == "unavailable"@
        &&& self.llm_count == 0
        &&& self.llm_rss == 0
        &&& self.process_memory is None
        &&& self.process_memory_growth is None
        &&& self.llm_cpu == (Binary64 { bits: 0 })
        &&& self.llm_processes@.len() == 0
        &&& self.largest_consumer is None
        &&& self.llm_model@ == "not detected"@
        &&& self.llm_provider@ == "not detected"@
        &&& self.llm_status@ == "offline"@
        &&& self.llm_source == TelemetrySource::Unavailable
        &&& self.llm_observed_at is None
        &&& self.llm_generation_tps is None
        &&& !self.llm_generation_tps_live
        &&& self.llm_prefill_tps is None
        &&& !self.llm_prefill_tps_live
        &&& self.llm_output_tokens is None
        &&& self.llm_prompt_tokens is None
        &&& self.llm_requests@.len() == 0
        &&& self.llm_cache_efficiency is None
        &&& self.llm_cache_interval_efficiency is None
        &&& self.llm_prefix_hit_rate is None
        &&& self.llm_active_requests is None
        &&& self.llm_waiting_requests is None
        &&& self.llm_model_memory is None
        &&& self.llm_model_memory_max is None
        &&& self.correlation.direction == ThroughputDirection::Unknown
        &&& self.correlation.cause == CorrelationCause::Uncorrelated
        &&& self.correlation.confidence == 0
        &&& self.correlation.summary@ == Seq::<char>::empty()
        &&& self.correlation.details@ == Seq::<char>::empty()
        &&& self.correlation.event_key is None
        &&& self.llm_top@ == "none"@
        &&& self.llm_pid == 0
        &&& self.impact@ == "SAMPLING"@
        &&& self.impact_tone == Tone::Cyan
        &&& self.health is None
        &&& self.grade@ == "SAMPLING"@
        &&& self.limiter@ == "collecting baseline"@
        &&& self.guidance_badge@ == "WAIT"@
        &&& self.guidance_cause@ == "Collecting the live-rate baseline."@
        &&& self.guidance_action@ == "Wait one refresh before acting."@
        &&& !self.rate_ready
    }
}

impl Default for Sample {
    fn default() -> (result: Self)
        ensures
            result.blank(),
    {
        Sample {
            updated: "waiting".to_string(),
            pressure: "UNKNOWN".to_string(),
            pressure_meaning: "unavailable".to_string(),
            pressure_tone: Tone::Muted,
            availability: None,
            total_memory: 0,
            wired: 0,
            compressor: 0,
            compressed_logical: 0,
            anonymous: 0,
            file_backed: 0,
            swap_total: 0,
            swap_used: 0,
            swap_available: false,
            swap_in: 0,
            swap_out: 0,
            swap_growth: 0,
            compress: 0,
            decompress: 0,
            reactivated: 0,
            vm_available: false,
            gpu_util: None,
            gpu_alloc: None,
            gpu_in_use: None,
            metal: MetalTelemetry::nothing(),
            mlx: MlxTelemetry::nothing(),
            thermal: "unavailable".to_string(),
            llm_count: 0,
            llm_rss: 0,
            process_memory: None,
            process_memory_growth: None,
            llm_cpu: Binary64 { bits: 0 },
            llm_processes: Vec::new(),
            largest_consumer: None,
            llm_model: "not detected".to_string(),
            llm_provider: "not detected".to_string(),
            llm_status: "offline".to_string(),
            llm_source: TelemetrySource::Unavailable,
            llm_observed_at: None,
            llm_generation_tps: None,
            llm_generation_tps_live: false,
            llm_prefill_tps: None,
            llm_prefill_tps_live: false,
            llm_output_tokens: None,
            llm_prompt_tokens: None,
            llm_requests: Vec::new(),
            llm_cache_efficiency: None,
            llm_cache_interval_efficiency: None,
            llm_prefix_hit_rate: None,
            llm_active_requests: None,
            llm_waiting_requests: None,
            llm_model_memory: None,
            llm_model_memory_max: None,
            correlation: CorrelationInsight::default(),
            llm_top: "none".to_string(),
            llm_pid: 0,
            impact: "SAMPLING".to_string(),
            impact_tone: Tone::Cyan,
            health: None,
            grade: "SAMPLING".to_string(),
            limiter: "collecting baseline".to_string(),
            guidance_badge: "WAIT".to_string(),
            guidance_cause: "Collecting the live-rate baseline.".to_string(),
            guidance_action: "Wait one refresh before acting.".to_string(),
            rate_ready: false,
        }
    }
}

impl Clone for Sample {
    fn clone(&self) -> (result: Self)
        ensures
            result.llm_processes@ == self.llm_processes@,
            result.llm_requests@ == self.llm_requests@,
            result == (Sample {
                llm_processes: result.llm_processes,
                llm_requests: result.llm_requests,
                ..*self
            }),
    {
        Sample {
            updated: self.updated.clone(),
            pressure: self.pressure.clone(),
            pressure_meaning: self.pressure_meaning.clone(),
            pressure_tone: self.pressure_tone,
            availability: self.availability,
            total_memory: self.total_memory,
            wired: self.wired,
            compressor: self.compressor,
            compressed_logical: self.compressed_logical,
            anonymous: self.anonymous,
            file_backed: self.file_backed,
            swap_total: self.swap_total,
            swap_used: self.swap_used,
            swap_available: self.swap_available,
            swap_in: self.swap_in,
            swap_out: self.swap_out,
            swap_growth: self.swap_growth,
            compress: self.compress,
            decompress: self.decompress,
            reactivated: self.reactivated,
            vm_available: self.vm_available,
            gpu_util: self.gpu_util,
            gpu_alloc: self.gpu_alloc,
            gpu_in_use: self.gpu_in_use,
            metal: self.metal.clone(),
            mlx: self.mlx.clone(),
            thermal: self.thermal.clone(),
            llm_count: self.llm_count,
            llm_rss: self.llm_rss,
            process_memory: self.process_memory,
            process_memory_growth: self.process_memory_growth,
            llm_cpu: self.llm_cpu,
            llm_processes: clone_processes(&self.llm_processes),
            largest_consumer: self.largest_consumer.clone(),
            llm_model: self.llm_model.clone(),
            llm_provider: self.llm_provider.clone(),
            llm_status: self.llm_status.clone(),
            llm_source: self.llm_source,
            llm_observed_at: self.llm_observed_at,
            llm_generation_tps: self.llm_generation_tps,
            llm_generation_tps_live: self.llm_generation_tps_live,
            llm_prefill_tps: self.llm_prefill_tps,
            llm_prefill_tps_live: self.llm_prefill_tps_live,
            llm_output_tokens: self.llm_output_tokens,
            llm_prompt_tokens: self.llm_prompt_tokens,
            llm_requests: clone_texts(&self.llm_requests),
            llm_cache_efficiency: self.llm_cache_efficiency,
            llm_cache_interval_efficiency: self.llm_cache_interval_efficiency,
            llm_prefix_hit_rate: self.llm_prefix_hit_rate,
            llm_active_requests: self.llm_active_requests,
            llm_waiting_requests: self.llm_waiting_requests,
            llm_model_memory: self.llm_model_memory,
            llm_model_memory_max: self.llm_model_memory_max,
            correlation: self.correlation.clone(),
            llm_top: self.llm_top.clone(),
            llm_pid: self.llm_pid,
            impact: self.impact.clone(),
            impact_tone: self.impact_tone,
            health: self.health,
            grade: self.grade.clone(),
            limiter: self.limiter.clone(),
            guidance_badge: self.guidance_badge.clone(),
            guidance_cause: self.guidance_cause.clone(),
            guidance_action: self.guidance_action.clone(),
            rate_ready: self.rate_ready,
        }
    }
}

} // verus!
