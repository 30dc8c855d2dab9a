//! How a sample is put into words.

use crate::binary64::Binary64;
use crate::classify::{llm_is_observed, llm_is_observed_spec};
use crate::model::{CorrelationCause, MlxTelemetry, Sample, TelemetrySource};
use crate::text::{
    before, before_first, carries, decimal, decimal_text, join, joined, lower,
    rows_carry_their_texts, same, texts_carry_their_parts, texts_carry_their_start, to_lower, views,
};
use crate::thresholds::{Thresholds, Tone};
use crate::units::{
    bytes, bytes_spec, compact_label, compact_label_spec, compact_tokens, compact_tokens_spec,
    percent, percent_spec, rate, rate_spec, signed_rate, signed_rate_spec, tenths, tenths_text,
    tokens_per_second, tokens_per_second_spec, total, total_spec, GIB,
};
use vstd::prelude::*;

verus! {

pub open spec fn llm_rate_label_spec(
    sample: Sample,
    metric: Seq<char>,
    value: Option<Binary64>,
    live: bool,
) -> Seq<char> {
    if !live && value is Some && sample.llm_source == TelemetrySource::Live {
        "AVG "@ + metric + " "@ + tokens_per_second_spec(value)
    } else if !live && value is Some && sample.llm_source != TelemetrySource::Unavailable {
        "LAST "@ + metric + " "@ + tokens_per_second_spec(value)
    } else {
        metric + " "@ + tokens_per_second_spec(value)
    }
}

/// A token rate with its name. One that is not live says what it is instead.
pub fn llm_rate_label(
    sample: &Sample,
    metric: &str,
    value: Option<Binary64>,
    live: bool,
) -> (out: String)
    ensures
        out@ == llm_rate_label_spec(*sample, metric@, value, live),
{
    if !live && value.is_some() && sample.llm_source == TelemetrySource::Live {
        "AVG ".to_string().concat(metric).concat(" ").concat(tokens_per_second(value).as_str())
    } else if !live && value.is_some() && sample.llm_source != TelemetrySource::Unavailable {
        "LAST ".to_string().concat(metric).concat(" ").concat(tokens_per_second(value).as_str())
    } else {
        metric.to_string().concat(" ").concat(tokens_per_second(value).as_str())
    }
}

pub open spec fn llm_generation_rate_label_spec(sample: Sample) -> Seq<char> {
    llm_rate_label_spec(sample, "GEN"@, sample.llm_generation_tps, sample.llm_generation_tps_live)
}

/// The rate at which tokens are generated.
pub fn llm_generation_rate_label(sample: &Sample) -> (out: String)
    ensures
        out@ == llm_generation_rate_label_spec(*sample),
{
    llm_rate_label(sample, "GEN", sample.llm_generation_tps, sample.llm_generation_tps_live)
}

pub open spec fn llm_prefill_rate_label_spec(sample: Sample) -> Seq<char> {
    llm_rate_label_spec(sample, "PREFILL"@, sample.llm_prefill_tps, sample.llm_prefill_tps_live)
}

/// The rate at which prompts are read.
pub fn llm_prefill_rate_label(sample: &Sample) -> (out: String)
    ensures
        out@ == llm_prefill_rate_label_spec(*sample),
{
    llm_rate_label(sample, "PREFILL", sample.llm_prefill_tps, sample.llm_prefill_tps_live)
}

pub open spec fn pressure_state_label_spec(sample: Sample) -> Seq<char> {
    if sample.pressure@ == "GREEN"@ {
        "normal"@
    } else if sample.pressure@ == "YELLOW"@ {
        "watch"@
    } else if sample.pressure@ == "RED"@ {
        "critical"@
    } else if sample.pressure_meaning@ == "normal"@ {
        "normal"@
    } else if sample.pressure_meaning@ == "warning"@ {
        "watch"@
    } else if sample.pressure_meaning@ == "critical"@ {
        "critical"@
    } else {
        "unavailable"@
    }
}

/// The pressure as an operating condition.
pub fn pressure_state_label(sample: &Sample) -> (result: &'static str)
    ensures
        result@ == pressure_state_label_spec(*sample),
{
    if same(sample.pressure.as_str(), "GREEN") {
        "normal"
    } else if same(sample.pressure.as_str(), "YELLOW") {
        "watch"
    } else if same(sample.pressure.as_str(), "RED") {
        "critical"
    } else if same(sample.pressure_meaning.as_str(), "normal") {
        "normal"
    } else if same(sample.pressure_meaning.as_str(), "warning") {
        "watch"
    } else if same(sample.pressure_meaning.as_str(), "critical") {
        "critical"
    } else {
        "unavailable"
    }
}

pub open spec fn gpu_load_label_spec(value: Option<u8>, thresholds: Thresholds) -> Seq<char> {
    match value {
        Some(value) => if value as u64 >= thresholds.gpu_critical_load {
            "saturated"@
        } else if value as u64 >= thresholds.gpu_warn_load {
            "loaded"@
        } else {
            "within target"@
        },
        None => "unavailable"@,
    }
}

/// The load of the GPU in words.
pub fn gpu_load_label(value: Option<u8>, thresholds: Thresholds) -> (result: &'static str)
    ensures
        result@ == gpu_load_label_spec(value, thresholds),
{
    match value {
        Some(value) => if value as u64 >= thresholds.gpu_critical_load {
            "saturated"
        } else if value as u64 >= thresholds.gpu_warn_load {
            "loaded"
        } else {
            "within target"
        },
        None => "unavailable",
    }
}

pub open spec fn fraction_spec(
    numerator: Option<u64>,
    denominator: Option<u64>,
) -> Option<Binary64> {
    match (numerator, denominator) {
        (Some(n), Some(d)) => if d > 0 {
            Some(Binary64::of_nat(n as nat).quotient(Binary64::of_nat(d as nat)))
        } else {
            None
        },
        _ => None,
    }
}

/// The share that one count has in another.
pub fn fraction(numerator: Option<u64>, denominator: Option<u64>) -> (result: Option<Binary64>)
    ensures
        result == fraction_spec(numerator, denominator),
{
    match (numerator, denominator) {
        (Some(n), Some(d)) => if d > 0 {
            Some(Binary64::from_u64(n).over(Binary64::from_u64(d)))
        } else {
            None
        },
        _ => None,
    }
}

pub open spec fn percentage_spec(ratio: Binary64) -> Seq<char> {
    ratio.product(Binary64::of_nat(100)).fixed_spec(0)
}

/// A share as a whole percentage.
pub fn percentage(ratio: Binary64) -> (out: String)
    ensures
        out@ == percentage_spec(ratio),
{
    ratio.times(Binary64::from_u64(100)).fixed(0)
}

pub open spec fn highest_spec(a: Option<u8>, b: Option<u8>) -> Option<u8> {
    match (a, b) {
        (Some(x), Some(y)) => if x >= y {
            Some(x)
        } else {
            Some(y)
        },
        (Some(x), None) => Some(x),
        (None, other) => other,
    }
}

/// The larger of two loads, where either is known.
pub fn highest(a: Option<u8>, b: Option<u8>) -> (result: Option<u8>)
    ensures
        result == highest_spec(a, b),
{
    match (a, b) {
        (Some(x), Some(y)) => if x >= y {
            Some(x)
        } else {
            Some(y)
        },
        (Some(x), None) => Some(x),
        (None, other) => other,
    }
}

pub open spec fn llm_context_tokens_spec(sample: Sample) -> Option<u64> {
    match (sample.llm_prompt_tokens, sample.llm_output_tokens) {
        (Some(prompt), Some(output)) => Some(total_spec(prompt, output)),
        (Some(prompt), None) => Some(prompt),
        (None, _) => None,
    }
}

/// The tokens in the context. Output alone is no context.
pub fn llm_context_tokens(sample: &Sample) -> (result: Option<u64>)
    ensures
        result == llm_context_tokens_spec(*sample),
{
    match (sample.llm_prompt_tokens, sample.llm_output_tokens) {
        (Some(prompt), Some(output)) => Some(total(prompt, output)),
        (Some(prompt), None) => Some(prompt),
        (None, _) => None,
    }
}

pub open spec fn llm_context_label_spec(sample: Sample) -> Seq<char> {
    match llm_context_tokens_spec(sample) {
        Some(tokens) => compact_tokens_spec(tokens),
        None => "—"@,
    }
}

/// The tokens in the context, or a dash.
pub fn llm_context_label(sample: &Sample) -> (out: String)
    ensures
        out@ == llm_context_label_spec(*sample),
{
    match llm_context_tokens(sample) {
        Some(tokens) => compact_tokens(tokens),
        None => "—".to_string(),
    }
}

pub open spec fn llm_model_label_spec(sample: Sample, max_chars: usize) -> Seq<char> {
    compact_label_spec(sample.llm_model@, max_chars as nat)
}

/// The name of the model, cut to a width.
pub fn llm_model_label(sample: &Sample, max_chars: usize) -> (out: String)
    ensures
        out@ == llm_model_label_spec(*sample, max_chars),
{
    compact_label(sample.llm_model.as_str(), max_chars)
}

pub open spec fn signal_summary_spec(sample: Sample) -> Seq<char> {
    if sample.impact@ == "SWAP THRASHING"@ {
        "in "@ + rate_spec(sample.swap_in) + " / out "@ + rate_spec(sample.swap_out)
    } else if sample.impact@ == "HEAVY PAGING"@ {
        "swap "@ + rate_spec(total_spec(sample.swap_in, sample.swap_out)) + " / growth "@
            + signed_rate_spec(sample.swap_growth)
    } else if sample.impact@ == "MEMORY BOTTLENECK"@ {
        "native pressure critical · LLM RSS "@ + bytes_spec(sample.llm_rss) + " · "@
            + decimal((match sample.availability { Some(value) => value, None => 0 }) as nat)
            + "% free"@
    } else if sample.impact@ == "PAGE-IN RECOVERY"@ {
        "page-in "@ + rate_spec(sample.swap_in) + " · growth "@
            + signed_rate_spec(sample.swap_growth)
    } else if sample.impact@ == "GPU BUSY"@ && sample.correlation.summary@.len() > 0 {
        sample.correlation.summary@
    } else if sample.impact@ == "GPU BUSY"@ {
        "GPU "@ + decimal((match sample.gpu_util { Some(value) => value, None => 0 }) as nat)
            + "% busy · "@ + llm_generation_rate_label_spec(sample)
    } else if sample.impact@ == "LLM READY"@ {
        decimal(sample.llm_count as nat) + " process(es) · "@
            + llm_generation_rate_label_spec(sample) + " · "@ + llm_prefill_rate_label_spec(sample)
            + " · cache "@ + percent_spec(sample.llm_cache_efficiency)
    } else {
        sample.limiter@
    }
}

/// What stands behind the state of a sample.
pub fn signal_summary(sample: &Sample) -> (out: String)
    ensures
        out@ == signal_summary_spec(*sample),
{
    if same(sample.impact.as_str(), "SWAP THRASHING") {
        "in ".to_string()
            .concat(rate(sample.swap_in).as_str())
            .concat(" / out ")
            .concat(rate(sample.swap_out).as_str())
    } else if same(sample.impact.as_str(), "HEAVY PAGING") {
        "swap ".to_string()
            .concat(rate(total(sample.swap_in, sample.swap_out)).as_str())
            .concat(" / growth ")
            .concat(signed_rate(sample.swap_growth).as_str())
    } else if same(sample.impact.as_str(), "MEMORY BOTTLENECK") {
        "native pressure critical · LLM RSS ".to_string()
            .concat(bytes(sample.llm_rss).as_str())
            .concat(" · ")
            .concat(
                decimal_text(
                    (match sample.availability { Some(value) => value, None => 0 }) as u64,
                ).as_str(),
            )
            .concat("% free")
    } else if same(sample.impact.as_str(), "PAGE-IN RECOVERY") {
        "page-in ".to_string()
            .concat(rate(sample.swap_in).as_str())
            .concat(" · growth ")
            .concat(signed_rate(sample.swap_growth).as_str())
    } else if same(sample.impact.as_str(), "GPU BUSY")
        && !sample.correlation.summary.as_str().is_empty() {
        sample.correlation.summary.clone()
    } else if same(sample.impact.as_str(), "GPU BUSY") {
        "GPU ".to_string()
            .concat(
                decimal_text(
                    (match sample.gpu_util { Some(value) => value, None => 0 }) as u64,
                ).as_str(),
            )
            .concat("% busy · ")
            .concat(llm_generation_rate_label(sample).as_str())
    } else if same(sample.impact.as_str(), "LLM READY") {
        decimal_text(sample.llm_count as u64)
            .concat(" process(es) · ")
            .concat(llm_generation_rate_label(sample).as_str())
            .concat(" · ")
            .concat(llm_prefill_rate_label(sample).as_str())
            .concat(" · cache ")
            .concat(percent(sample.llm_cache_efficiency).as_str())
    } else {
        sample.limiter.clone()
    }
}

pub open spec fn hero_impact_spec(sample: Sample) -> Seq<char> {
    if sample.impact@ == "DATA LIMITED"@ {
        "Native counters are incomplete; current LLM impact cannot be classified safely."@
    } else if !llm_is_observed_spec(sample) {
        "No local LLM process detected; this score describes machine capacity."@
    } else if sample.correlation.summary@.len() > 0 {
        sample.correlation.summary@
    } else if sample.pressure@ == "RED"@ {
        "Memory pressure can evict model pages and increase prefill/decode latency."@
    } else if total_spec(sample.swap_in, sample.swap_out) > 0 {
        "Live paging ("@ + rate_spec(total_spec(sample.swap_in, sample.swap_out))
            + ") can stall model prefill or decode."@
    } else if (match sample.gpu_util { Some(value) => value, None => 0 }) >= 80 {
        "GPU is carrying the workload; throughput is compute-bound."@
    } else {
        match sample.availability {
            Some(value) => bytes_spec(sample.llm_rss) + " RSS · "@ + decimal(value as nat)
                + "% system free · no active latency stall."@,
            None => bytes_spec(sample.llm_rss)
                + " RSS · unknown system headroom · no active latency stall."@,
        }
    }
}

/// What a sample means for the model that is served.
pub fn hero_impact(sample: &Sample) -> (out: String)
    ensures
        out@ == hero_impact_spec(*sample),
{
    if same(sample.impact.as_str(), "DATA LIMITED") {
        "Native counters are incomplete; current LLM impact cannot be classified safely.".to_string()
    } else if !llm_is_observed(sample) {
        "No local LLM process detected; this score describes machine capacity.".to_string()
    } else if !sample.correlation.summary.as_str().is_empty() {
        sample.correlation.summary.clone()
    } else if same(sample.pressure.as_str(), "RED") {
        "Memory pressure can evict model pages and increase prefill/decode latency.".to_string()
    } else if total(sample.swap_in, sample.swap_out) > 0 {
        "Live paging (".to_string()
            .concat(rate(total(sample.swap_in, sample.swap_out)).as_str())
            .concat(") can stall model prefill or decode.")
    } else if (match sample.gpu_util { Some(value) => value, None => 0 }) >= 80 {
        "GPU is carrying the workload; throughput is compute-bound.".to_string()
    } else {
        match sample.availability {
            Some(value) => bytes(sample.llm_rss)
                .concat(" RSS · ")
                .concat(decimal_text(value as u64).as_str())
                .concat("% system free · no active latency stall."),
            None => bytes(sample.llm_rss).concat(
                " RSS · unknown system headroom · no active latency stall.",
            ),
        }
    }
}

pub open spec fn correlation_evidence_label_spec(sample: Sample) -> Seq<char> {
    match sample.correlation.cause {
        CorrelationCause::Paging => if total_spec(sample.swap_in, sample.swap_out) > 0 {
            "I/O "@ + rate_spec(total_spec(sample.swap_in, sample.swap_out))
        } else {
            Seq::empty()
        },
        CorrelationCause::Compression => if total_spec(sample.compress, sample.decompress) > 0 {
            "compress "@ + rate_spec(total_spec(sample.compress, sample.decompress))
        } else {
            Seq::empty()
        },
        CorrelationCause::MemoryPressure => "pressure "@ + pressure_state_label_spec(sample),
        CorrelationCause::Thermal => "thermal limit"@,
        CorrelationCause::MetalMemory => match fraction_spec(sample.gpu_in_use, sample.gpu_alloc) {
            Some(ratio) => "Metal mem "@ + percentage_spec(ratio) + "%"@,
            None => "Metal mem"@,
        },
        CorrelationCause::GpuSaturation => match highest_spec(
            highest_spec(sample.gpu_util, sample.metal.renderer_util),
            sample.metal.tiler_util,
        ) {
            Some(value) => "GPU "@ + decimal(value as nat) + "%"@,
            None => "GPU"@,
        },
        CorrelationCause::Queueing => match sample.llm_waiting_requests {
            Some(waiting) => "queue "@ + decimal(waiting as nat) + " waiting"@,
            None => "queueing"@,
        },
        CorrelationCause::ContextGrowth => match llm_context_tokens_spec(sample) {
            Some(tokens) => "context "@ + compact_tokens_spec(tokens),
            None => "context/KV"@,
        },
        CorrelationCause::ModelMemory => match fraction_spec(
            sample.llm_model_memory,
            sample.llm_model_memory_max,
        ) {
            Some(ratio) => "model mem "@ + percentage_spec(ratio) + "%"@,
            None => "model memory"@,
        },
        CorrelationCause::Runtime => "workload/runtime"@,
        CorrelationCause::Uncorrelated => Seq::empty(),
    }
}

/// The one figure that bears a diagnosis out.
pub fn correlation_evidence_label(sample: &Sample) -> (out: String)
    ensures
        out@ == correlation_evidence_label_spec(*sample),
{
    match sample.correlation.cause {
        CorrelationCause::Paging => if total(sample.swap_in, sample.swap_out) > 0 {
            "I/O ".to_string().concat(rate(total(sample.swap_in, sample.swap_out)).as_str())
        } else {
            String::new()
        },
        CorrelationCause::Compression => if total(sample.compress, sample.decompress) > 0 {
            "compress ".to_string().concat(rate(total(sample.compress, sample.decompress)).as_str())
        } else {
            String::new()
        },
        CorrelationCause::MemoryPressure => "pressure ".to_string().concat(
            pressure_state_label(sample),
        ),
        CorrelationCause::Thermal => "thermal limit".to_string(),
        CorrelationCause::MetalMemory => match fraction(sample.gpu_in_use, sample.gpu_alloc) {
            Some(ratio) => "Metal mem ".to_string().concat(percentage(ratio).as_str()).concat("%"),
            None => "Metal mem".to_string(),
        },
        CorrelationCause::GpuSaturation => match highest(
            highest(sample.gpu_util, sample.metal.renderer_util),
            sample.metal.tiler_util,
        ) {
            Some(value) => "GPU ".to_string()
                .concat(decimal_text(value as u64).as_str())
                .concat("%"),
            None => "GPU".to_string(),
        },
        CorrelationCause::Queueing => match sample.llm_waiting_requests {
            Some(waiting) => "queue ".to_string()
                .concat(decimal_text(waiting as u64).as_str())
                .concat(" waiting"),
            None => "queueing".to_string(),
        },
        CorrelationCause::ContextGrowth => match llm_context_tokens(sample) {
            Some(tokens) => "context ".to_string().concat(compact_tokens(tokens).as_str()),
            None => "context/KV".to_string(),
        },
        CorrelationCause::ModelMemory => match fraction(
            sample.llm_model_memory,
            sample.llm_model_memory_max,
        ) {
            Some(ratio) => "model mem ".to_string().concat(percentage(ratio).as_str()).concat("%"),
            None => "model memory".to_string(),
        },
        CorrelationCause::Runtime => "workload/runtime".to_string(),
        CorrelationCause::Uncorrelated => String::new(),
    }
}

/// The change of the token rate that a diagnosis starts with.
pub open spec fn correlation_rate_spec(sample: Sample) -> Seq<char> {
    before_first(
        before_first(
            before_first(sample.correlation.summary@, " · correlated:"@),
            " · no matching system signal"@,
        ),
        " ("@,
    )
}

fn correlation_rate(sample: &Sample) -> (out: String)
    ensures
        out@ == correlation_rate_spec(*sample),
{
    let front = before(sample.correlation.summary.as_str(), " · correlated:");
    let front = before(front.as_str(), " · no matching system signal");
    before(front.as_str(), " (")
}

pub open spec fn correlation_full_spec(sample: Sample) -> Seq<char> {
    if correlation_evidence_label_spec(sample).len() == 0 {
        correlation_rate_spec(sample)
    } else {
        correlation_rate_spec(sample) + " · "@ + correlation_evidence_label_spec(sample)
    }
}

/// The change of the token rate and the evidence, in full.
pub fn correlation_full(sample: &Sample) -> (out: String)
    ensures
        out@ == correlation_full_spec(*sample),
{
    if correlation_evidence_label(sample).as_str().is_empty() {
        correlation_rate(sample)
    } else {
        correlation_rate(sample).concat(" · ").concat(correlation_evidence_label(sample).as_str())
    }
}

/// The diagnosis in at most `max_chars` characters. Where the full one does not
/// fit, the current rate stands in place of the change.
pub open spec fn correlation_display_spec(sample: Sample, max_chars: nat) -> Option<Seq<char>> {
    let evidence = correlation_evidence_label_spec(sample);
    let full = correlation_full_spec(sample);
    let rate = if sample.llm_generation_tps is Some {
        llm_generation_rate_label_spec(sample)
    } else {
        "GEN —"@
    };
    if sample.correlation.summary@.len() == 0 || max_chars == 0 {
        None
    } else if full.len() <= max_chars {
        Some(full)
    } else if evidence.len() == 0 {
        Some(compact_label_spec(rate, max_chars))
    } else {
        Some(compact_label_spec(rate + " · "@ + evidence, max_chars))
    }
}

/// The diagnosis in at most `max_chars` characters.
pub fn correlation_display(sample: &Sample, max_chars: usize) -> (result: Option<String>)
    ensures
        match result {
            Some(out) => correlation_display_spec(*sample, max_chars as nat) == Some(out@),
            None => correlation_display_spec(*sample, max_chars as nat) is None,
        },
{
    if sample.correlation.summary.as_str().is_empty() || max_chars == 0 {
        return None;
    }
    let full = correlation_full(sample);
    if full.as_str().unicode_len() <= max_chars {
        return Some(full);
    }
    let rate = if sample.llm_generation_tps.is_some() {
        llm_generation_rate_label(sample)
    } else {
        "GEN —".to_string()
    };
    let evidence = correlation_evidence_label(sample);
    if evidence.as_str().is_empty() {
        Some(compact_label(rate.as_str(), max_chars))
    } else {
        let label = rate.concat(" · ").concat(evidence.as_str());
        Some(compact_label(label.as_str(), max_chars))
    }
}

/// A shown diagnosis never exceeds the width that it was asked for.
pub proof fn correlation_display_fits(sample: Sample, max_chars: nat)
    ensures
        match correlation_display_spec(sample, max_chars) {
            Some(label) => label.len() <= max_chars,
            None => true,
        },
{
}

/// Whether the counters of the memory have been read twice, so that their rates
/// are measured, be there swap space or not.
pub open spec fn rates_measured_spec(sample: Sample) -> bool {
    sample.vm_available && sample.rate_ready
}

/// Whether the rates of the memory's counters are measured.
pub fn rates_measured(sample: &Sample) -> (result: bool)
    ensures
        result == rates_measured_spec(*sample),
{
    sample.vm_available && sample.rate_ready
}

/// Whether there is swap space and paging rates are measured.
pub open spec fn paging_measured_spec(sample: Sample) -> bool {
    sample.swap_available && rates_measured_spec(sample)
}

/// Whether there is swap space and paging rates are measured.
pub fn paging_measured(sample: &Sample) -> (result: bool)
    ensures
        result == paging_measured_spec(*sample),
{
    sample.swap_available && rates_measured(sample)
}

pub open spec fn diagnostic_signal_line_spec(sample: Sample) -> Seq<char> {
    let gpu = match sample.gpu_util {
        Some(value) => "GPU "@ + decimal(value as nat) + "%"@,
        None => "GPU —"@,
    };
    let paging = if paging_measured_spec(sample) {
        "I/O "@ + rate_spec(total_spec(sample.swap_in, sample.swap_out))
    } else {
        "I/O sampling"@
    };
    let confidence = if sample.correlation.summary@.len() > 0 {
        " · "@ + sample.correlation.confidence_label_spec() + " confidence"@
    } else {
        Seq::empty()
    };
    gpu + " · "@ + paging + " · PRESSURE "@ + pressure_state_label_spec(sample) + confidence
}

/// The load, the paging and the pressure in one line.
pub fn diagnostic_signal_line(sample: &Sample) -> (out: String)
    ensures
        out@ == diagnostic_signal_line_spec(*sample),
{
    let gpu = match sample.gpu_util {
        Some(value) => "GPU ".to_string().concat(decimal_text(value as u64).as_str()).concat("%"),
        None => "GPU —".to_string(),
    };
    let paging = if paging_measured(sample) {
        "I/O ".to_string().concat(rate(total(sample.swap_in, sample.swap_out)).as_str())
    } else {
        "I/O sampling".to_string()
    };
    let confidence = if !sample.correlation.summary.as_str().is_empty() {
        " · ".to_string().concat(sample.correlation.confidence_label()).concat(" confidence")
    } else {
        String::new()
    };
    gpu
        .concat(" · ")
        .concat(paging.as_str())
        .concat(" · PRESSURE ")
        .concat(pressure_state_label(sample))
        .concat(confidence.as_str())
}

pub open spec fn process_count_label_spec(sample: Sample) -> Seq<char> {
    if sample.llm_count == 1 {
        "1 process"@
    } else {
        decimal(sample.llm_count as nat) + " processes"@
    }
}

/// How many processes serve a model.
pub fn process_count_label(sample: &Sample) -> (out: String)
    ensures
        out@ == process_count_label_spec(*sample),
{
    if sample.llm_count == 1 {
        "1 process".to_string()
    } else {
        decimal_text(sample.llm_count as u64).concat(" processes")
    }
}

pub open spec fn compact_model_memory_spec(sample: Sample) -> Seq<char> {
    match (sample.llm_model_memory, sample.llm_model_memory_max) {
        (Some(used), Some(max)) => if max > 0 {
            tenths(used, GIB) + "/"@ + tenths(max, GIB) + "G"@
        } else {
            "—"@
        },
        (Some(used), None) => tenths(used, GIB) + "G"@,
        _ => "—"@,
    }
}

/// The memory of the model against its ceiling.
pub fn compact_model_memory(sample: &Sample) -> (out: String)
    ensures
        out@ == compact_model_memory_spec(*sample),
{
    match (sample.llm_model_memory, sample.llm_model_memory_max) {
        (Some(used), Some(max)) => if max > 0 {
            tenths_text(used, GIB).concat("/").concat(tenths_text(max, GIB).as_str()).concat("G")
        } else {
            "—".to_string()
        },
        (Some(used), None) => tenths_text(used, GIB).concat("G"),
        _ => "—".to_string(),
    }
}

pub open spec fn compressed_memory_label_spec(sample: Sample) -> Seq<char> {
    if !sample.vm_available {
        "—"@
    } else if sample.compressor == 0 || sample.compressed_logical == 0 {
        bytes_spec(sample.compressor)
    } else {
        bytes_spec(sample.compressor) + " · "@
            + tenths(sample.compressed_logical, sample.compressor) + "×"@
    }
}

/// The size of the compressor, and how much it saves.
pub fn compressed_memory_label(sample: &Sample) -> (out: String)
    ensures
        out@ == compressed_memory_label_spec(*sample),
{
    if !sample.vm_available {
        "—".to_string()
    } else if sample.compressor == 0 || sample.compressed_logical == 0 {
        bytes(sample.compressor)
    } else {
        bytes(sample.compressor)
            .concat(" · ")
            .concat(tenths_text(sample.compressed_logical, sample.compressor).as_str())
            .concat("×")
    }
}

/// A label with its size, where the size is known.
pub open spec fn sized(label: Seq<char>, value: Option<u64>) -> Seq<Seq<char>> {
    match value {
        Some(value) => seq![label + bytes_spec(value)],
        None => Seq::empty(),
    }
}

pub open spec fn mlx_runtime_summary_spec(mlx: MlxTelemetry) -> Seq<char> {
    let counters = sized("active "@, mlx.active_memory) + sized("cache "@, mlx.cache_memory)
    + sized("peak "@, mlx.peak_memory);
    if counters.len() == 0 {
        Seq::empty()
    } else {
        "MLX "@ + joined(counters, " · "@)
    }
}

fn push_sized(parts: &mut Vec<String>, label: &str, value: Option<u64>)
    ensures
        views(final(parts)@) == views(old(parts)@) + sized(label@, value),
{
    if let Some(value) = value {
        parts.push(label.to_string().concat(bytes(value).as_str()));
    }
    assert(views(parts@) =~= views(old(parts)@) + sized(label@, value));
}

/// The counters of the runtime that are known, in one line.
pub fn mlx_runtime_summary(mlx: &MlxTelemetry) -> (out: String)
    ensures
        out@ == mlx_runtime_summary_spec(*mlx),
{
    let mut counters: Vec<String> = Vec::new();
    assert(views(counters@) =~= Seq::empty());
    push_sized(&mut counters, "active ", mlx.active_memory);
    push_sized(&mut counters, "cache ", mlx.cache_memory);
    push_sized(&mut counters, "peak ", mlx.peak_memory);
    assert(views(counters@) =~= sized("active "@, mlx.active_memory) + sized(
            "cache "@,
            mlx.cache_memory,
        ) + sized("peak "@, mlx.peak_memory));
    if counters.len() == 0 {
        String::new()
    } else {
        "MLX ".to_string().concat(join(&counters, " · ").as_str())
    }
}

/// A list of one text, or of none.
pub open spec fn one_if(present: bool, label: Seq<char>) -> Seq<Seq<char>> {
    if present {
        seq![label]
    } else {
        Seq::empty()
    }
}

pub open spec fn device_part(sample: Sample) -> Seq<Seq<char>> {
    match sample.metal.device_name {
        Some(name) => seq![compact_label_spec(name@, 14)],
        None => Seq::empty(),
    }
}

pub open spec fn cores_part(sample: Sample) -> Seq<Seq<char>> {
    match sample.metal.gpu_cores {
        Some(cores) => seq![decimal(cores as nat) + " cores"@],
        None => Seq::empty(),
    }
}

pub open spec fn load_part(label: Seq<char>, load: Option<u8>) -> Seq<Seq<char>> {
    match load {
        Some(load) => seq![label + decimal(load as nat) + "%"@],
        None => Seq::empty(),
    }
}

pub open spec fn metal_signal_line_spec(sample: Sample, gpu_memory: Seq<char>) -> Seq<char> {
    joined(
        device_part(sample) + cores_part(sample) + one_if(
            gpu_memory != "not exposed"@,
            "mem "@ + gpu_memory,
        ) + load_part("R "@, sample.metal.renderer_util) + load_part(
            "T "@,
            sample.metal.tiler_util,
        ) + seq!["thermal "@ + sample.thermal@],
        " · "@,
    )
}

/// What is known of the GPU in one line; what is not known is left out.
pub fn metal_signal_line(sample: &Sample, gpu_memory: &str) -> (out: String)
    ensures
        out@ == metal_signal_line_spec(*sample, gpu_memory@),
{
    let mut parts: Vec<String> = Vec::new();
    if let Some(device) = &sample.metal.device_name {
        parts.push(compact_label(device.as_str(), 14));
    }
    let ghost g1 = views(parts@);
    if let Some(cores) = sample.metal.gpu_cores {
        parts.push(decimal_text(cores as u64).concat(" cores"));
    }
    let ghost g2 = views(parts@);
    if !same(gpu_memory, "not exposed") {
        parts.push("mem ".to_string().concat(gpu_memory));
    }
    let ghost g3 = views(parts@);
    if let Some(renderer) = sample.metal.renderer_util {
        parts.push("R ".to_string().concat(decimal_text(renderer as u64).as_str()).concat("%"));
    }
    let ghost g4 = views(parts@);
    if let Some(tiler) = sample.metal.tiler_util {
        parts.push("T ".to_string().concat(decimal_text(tiler as u64).as_str()).concat("%"));
    }
    let ghost g5 = views(parts@);
    parts.push("thermal ".to_string().concat(sample.thermal.as_str()));
    proof {
        let memory = one_if(gpu_memory@ != "not exposed"@, "mem "@ + gpu_memory@);
        assert(g1 =~= device_part(*sample));
        assert(g2 =~= g1 + cores_part(*sample));
        assert(g3 =~= g2 + memory);
        assert(g4 =~= g3 + load_part("R "@, sample.metal.renderer_util));
        assert(g5 =~= g4 + load_part("T "@, sample.metal.tiler_util));
        assert(views(parts@) =~= g5 + seq!["thermal "@ + sample.thermal@]);
    }
    join(&parts, " · ")
}

/// Whole seconds between two moments, given in nanoseconds.
pub open spec fn age_spec(observed_at: u64, now: u64) -> nat {
    if now >= observed_at {
        ((now - observed_at) / 1_000_000_000) as nat
    } else {
        0
    }
}

fn age_of(observed_at: u64, now: u64) -> (result: u64)
    ensures
        result == age_spec(observed_at, now),
{
    if now >= observed_at {
        (now - observed_at) / 1_000_000_000
    } else {
        0
    }
}

pub open spec fn telemetry_age_spec(observed_at: Option<u64>, now: u64) -> Seq<char> {
    match observed_at {
        Some(observed_at) => {
            let seconds = age_spec(observed_at, now);
            if seconds < 60 {
                decimal(seconds) + "s old"@
            } else if seconds < 3600 {
                decimal(seconds / 60) + "m old"@
            } else {
                decimal(seconds / 3600) + "h old"@
            }
        },
        None => "age —"@,
    }
}

/// How long ago something was observed.
pub fn telemetry_age(observed_at: Option<u64>, now: u64) -> (out: String)
    ensures
        out@ == telemetry_age_spec(observed_at, now),
{
    match observed_at {
        Some(observed_at) => {
            let seconds: u64 = age_of(observed_at, now);
            if seconds < 60 {
                decimal_text(seconds).concat("s old")
            } else if seconds < 3600 {
                decimal_text(seconds / 60).concat("m old")
            } else {
                decimal_text(seconds / 3600).concat("h old")
            }
        },
        None => "age —".to_string(),
    }
}

pub open spec fn telemetry_source_spec(sample: Sample, now: u64) -> Seq<char> {
    match sample.llm_source {
        TelemetrySource::Live => {
            let age = match sample.llm_observed_at {
                Some(observed_at) => age_spec(observed_at, now),
                None => 0,
            };
            if age >= 2 {
                "LIVE "@ + decimal(age) + "s old"@
            } else {
                "LIVE"@
            }
        },
        TelemetrySource::Log => "LOG "@ + telemetry_age_spec(sample.llm_observed_at, now),
        TelemetrySource::Report => "REPORTED "@ + telemetry_age_spec(sample.llm_observed_at, now),
        TelemetrySource::Unavailable => "SOURCE —"@,
    }
}

/// Where the figures come from, and how old they are.
pub fn telemetry_source(sample: &Sample, now: u64) -> (out: String)
    ensures
        out@ == telemetry_source_spec(*sample, now),
{
    match sample.llm_source {
        TelemetrySource::Live => {
            let age: u64 = match sample.llm_observed_at {
                Some(observed_at) => age_of(observed_at, now),
                None => 0,
            };
            if age >= 2 {
                "LIVE ".to_string().concat(decimal_text(age).as_str()).concat("s old")
            } else {
                "LIVE".to_string()
            }
        },
        TelemetrySource::Log => "LOG ".to_string().concat(
            telemetry_age(sample.llm_observed_at, now).as_str(),
        ),
        TelemetrySource::Report => "REPORTED ".to_string().concat(
            telemetry_age(sample.llm_observed_at, now).as_str(),
        ),
        TelemetrySource::Unavailable => "SOURCE —".to_string(),
    }
}

pub open spec fn llm_status_tone_spec(status: Seq<char>) -> Tone {
    let name = lower(status);
    if name == "ready"@ || name == "idle"@ {
        Tone::Green
    } else if name == "waiting"@ || name == "busy"@ || name == "generating"@ || name == "stale"@
    || name == "last result"@ {
        Tone::Yellow
    } else if name == "offline"@ || name == "error"@ {
        Tone::Red
    } else {
        Tone::Cyan
    }
}

/// The tone that a status is shown in, whatever its case.
pub fn llm_status_tone(status: &str) -> (result: Tone)
    ensures
        result == llm_status_tone_spec(status@),
{
    let folded = to_lower(status);
    let name = folded.as_str();
    if same(name, "ready") || same(name, "idle") {
        Tone::Green
    } else if same(name, "waiting") || same(name, "busy") || same(name, "generating") || same(
        name,
        "stale",
    ) || same(name, "last result") {
        Tone::Yellow
    } else if same(name, "offline") || same(name, "error") {
        Tone::Red
    } else {
        Tone::Cyan
    }
}

/// A rate is named for what it is: a live one by its name, an average of a live
/// server as such, and one out of a log or a report as the last one. Each rate has
/// its own name and its own figure.
pub proof fn rates_are_named_for_what_they_are(sample: Sample)
    ensures
        sample.llm_generation_tps_live ==> llm_generation_rate_label_spec(sample) == "GEN"@ + " "@
            + tokens_per_second_spec(sample.llm_generation_tps),
        !sample.llm_generation_tps_live && sample.llm_generation_tps is Some && sample.llm_source
            == TelemetrySource::Live ==> llm_generation_rate_label_spec(sample) == "AVG "@ + "GEN"@
            + " "@ + tokens_per_second_spec(sample.llm_generation_tps),
        !sample.llm_generation_tps_live && sample.llm_generation_tps is Some && (sample.llm_source
            == TelemetrySource::Log || sample.llm_source == TelemetrySource::Report)
            ==> llm_generation_rate_label_spec(sample) == "LAST "@ + "GEN"@ + " "@
            + tokens_per_second_spec(sample.llm_generation_tps),
        sample.llm_prefill_tps_live ==> llm_prefill_rate_label_spec(sample) == "PREFILL"@ + " "@
            + tokens_per_second_spec(sample.llm_prefill_tps),
        !sample.llm_prefill_tps_live && sample.llm_prefill_tps is Some && sample.llm_source
            == TelemetrySource::Live ==> llm_prefill_rate_label_spec(sample) == "AVG "@
            + "PREFILL"@ + " "@ + tokens_per_second_spec(sample.llm_prefill_tps),
{
}

/// The context is what went in and what came out, together; without what went in
/// it is not known.
pub proof fn the_context_is_what_went_in_and_out(sample: Sample)
    ensures
        sample.llm_prompt_tokens is Some && sample.llm_output_tokens is Some
            && sample.llm_prompt_tokens.unwrap() + sample.llm_output_tokens.unwrap() <= u64::MAX
            ==> llm_context_tokens_spec(sample) == Some(
            (sample.llm_prompt_tokens.unwrap() + sample.llm_output_tokens.unwrap()) as u64,
        ),
        sample.llm_output_tokens is None ==> llm_context_tokens_spec(sample)
            == sample.llm_prompt_tokens,
        sample.llm_prompt_tokens is None ==> llm_context_tokens_spec(sample) is None,
{
}

/// The busiest part counts: no part is busier than what is taken, and it is one of
/// them.
pub proof fn the_busiest_part_counts(a: Option<u8>, b: Option<u8>)
    ensures
        a is Some ==> highest_spec(a, b) is Some && highest_spec(a, b).unwrap() >= a.unwrap(),
        b is Some ==> highest_spec(a, b) is Some && highest_spec(a, b).unwrap() >= b.unwrap(),
        highest_spec(a, b) == a || highest_spec(a, b) == b,
{
}

/// A state is borne out by the figures that make it: thrashing by what comes in
/// and what goes out, heavy paging by both and by the growth, recovery by what
/// comes in.
pub proof fn states_are_borne_out_by_their_figures(sample: Sample)
    ensures
        sample.impact@ == "SWAP THRASHING"@ ==> signal_summary_spec(sample) == "in "@ + rate_spec(
            sample.swap_in,
        ) + " / out "@ + rate_spec(sample.swap_out),
        sample.impact@ == "HEAVY PAGING"@ && sample.swap_in + sample.swap_out <= u64::MAX
            ==> signal_summary_spec(sample) == "swap "@ + rate_spec(
            (sample.swap_in + sample.swap_out) as u64,
        ) + " / growth "@ + signed_rate_spec(sample.swap_growth),
        sample.impact@ == "PAGE-IN RECOVERY"@ ==> signal_summary_spec(sample) == "page-in "@
            + rate_spec(sample.swap_in) + " · growth "@ + signed_rate_spec(sample.swap_growth),
        sample.impact@ == "MEMORY STRESS"@ ==> signal_summary_spec(sample) == sample.limiter@,
        sample.impact@ == "IDLE"@ ==> signal_summary_spec(sample) == sample.limiter@,
{
    reveal_strlit("SWAP THRASHING");
    reveal_strlit("HEAVY PAGING");
    reveal_strlit("PAGE-IN RECOVERY");
    reveal_strlit("MEMORY BOTTLENECK");
    reveal_strlit("MEMORY STRESS");
    reveal_strlit("GPU BUSY");
    reveal_strlit("LLM READY");
    reveal_strlit("IDLE");
    assert("SWAP THRASHING"@.len() == 14 && "HEAVY PAGING"@.len() == 12 && "PAGE-IN RECOVERY"@.len()
        == 16);
    assert("MEMORY STRESS"@.len() == 13 && "MEMORY BOTTLENECK"@.len() == 17);
    assert("GPU BUSY"@.len() == 8 && "LLM READY"@.len() == 9 && "IDLE"@.len() == 4);
}

/// How old something is, is told in seconds, minutes or hours, and a source with
/// its age: a live one from two seconds on, another one always.
pub proof fn ages_are_told_in_their_unit(sample: Sample, observed_at: u64, now: u64)
    requires
        observed_at <= now,
    ensures
        ({
            let seconds = ((now - observed_at) / 1_000_000_000) as nat;
            &&& seconds < 60 ==> telemetry_age_spec(Some(observed_at), now) == decimal(seconds)
                + "s old"@
            &&& 60 <= seconds < 3600 ==> telemetry_age_spec(Some(observed_at), now) == decimal(
                seconds / 60,
            ) + "m old"@
            &&& 3600 <= seconds ==> telemetry_age_spec(Some(observed_at), now) == decimal(
                seconds / 3600,
            ) + "h old"@
            &&& sample.llm_observed_at == Some(observed_at) && sample.llm_source
                == TelemetrySource::Live && seconds >= 2 ==> telemetry_source_spec(sample, now)
                == "LIVE "@ + decimal(seconds) + "s old"@
            &&& sample.llm_source == TelemetrySource::Log ==> telemetry_source_spec(sample, now)
                == "LOG "@ + telemetry_age_spec(sample.llm_observed_at, now)
            &&& sample.llm_source == TelemetrySource::Unavailable ==> telemetry_source_spec(
                sample,
                now,
            ) == "SOURCE —"@
        }),
{
}

/// The load of the GPU is put into words by its own levels.
pub proof fn gpu_loads_have_their_words(load: u8, thresholds: Thresholds)
    ensures
        load >= thresholds.gpu_critical_load ==> gpu_load_label_spec(Some(load), thresholds)
            == "saturated"@,
        thresholds.gpu_warn_load <= load < thresholds.gpu_critical_load ==> gpu_load_label_spec(
            Some(load),
            thresholds,
        ) == "loaded"@,
        load < thresholds.gpu_warn_load && load < thresholds.gpu_critical_load
            ==> gpu_load_label_spec(Some(load), thresholds) == "within target"@,
{
}


/// The headline on a workload goes by the gravest sign: counters that are
/// missing, no model being served, what was found to be the cause, pressure,
/// paging, a busy GPU, and else what room there is.
pub proof fn headlines_follow_the_gravest_sign(sample: Sample)
    ensures
        sample.impact@ == "DATA LIMITED"@ ==> hero_impact_spec(sample)
            == "Native counters are incomplete; current LLM impact cannot be classified safely."@,
        sample.impact@ != "DATA LIMITED"@ && !llm_is_observed_spec(sample) ==> hero_impact_spec(
            sample,
        ) == "No local LLM process detected; this score describes machine capacity."@,
        sample.impact@ != "DATA LIMITED"@ && llm_is_observed_spec(sample) ==> {
            let caused = sample.correlation.summary@.len() > 0;
            let red = sample.pressure@ == "RED"@;
            let paging = sample.swap_in > 0 || sample.swap_out > 0;
            let busy = sample.gpu_util matches Some(load) && load >= 80;
            let line = hero_impact_spec(sample);
            &&& caused ==> line == sample.correlation.summary@
            &&& !caused && red ==> line
                == "Memory pressure can evict model pages and increase prefill/decode latency."@
            &&& !caused && !red && paging ==> carries(
                line,
                "Live paging ("@ + rate_spec(total_spec(sample.swap_in, sample.swap_out)),
            )
            &&& !caused && !red && !paging && busy ==> line
                == "GPU is carrying the workload; throughput is compute-bound."@
            &&& !caused && !red && !paging && !busy ==> carries(
                line,
                bytes_spec(sample.llm_rss) + " RSS · "@,
            ) || sample.availability is None
            &&& !caused && !red && !paging && !busy ==> (sample.availability matches Some(free)
                ==> carries(line, decimal(free as nat) + "% system free · no active latency stall."@))
        },
{
    let line = hero_impact_spec(sample);
    let rate = rate_spec(total_spec(sample.swap_in, sample.swap_out));
    lemma_opens("Live paging ("@, rate, ") can stall model prefill or decode."@);
    if let Some(free) = sample.availability {
        let size = bytes_spec(sample.llm_rss);
        let share = decimal(free as nat);
        let end = "% system free · no active latency stall."@;
        let s = size + " RSS · "@;
        lemma_opens(size, " RSS · "@, share);
        texts_carry_their_parts(s, share, end);
        texts_carry_their_start(s, share + end);
        assert(s + (share + end) =~= s + share + end);
    }
}

proof fn lemma_opens(a: Seq<char>, b: Seq<char>, c: Seq<char>)
    ensures
        carries(a + b + c, a + b),
{
    texts_carry_their_start(a + b, c);
}

/// The line of signals says how busy the GPU is, how much is paged in both ways
/// together, and the pressure, each under its name.
pub proof fn signal_lines_say_each_sign(sample: Sample)
    ensures
        sample.gpu_util matches Some(load) ==> carries(
            diagnostic_signal_line_spec(sample),
            "GPU "@ + decimal(load as nat) + "%"@,
        ),
        sample.gpu_util is None ==> carries(diagnostic_signal_line_spec(sample), "GPU —"@),
        paging_measured_spec(sample) ==> carries(
            diagnostic_signal_line_spec(sample),
            " · "@ + ("I/O "@ + rate_spec(total_spec(sample.swap_in, sample.swap_out))),
        ),
        !paging_measured_spec(sample) ==> carries(
            diagnostic_signal_line_spec(sample),
            " · "@ + "I/O sampling"@,
        ),
        carries(
            diagnostic_signal_line_spec(sample),
            " · PRESSURE "@ + pressure_state_label_spec(sample),
        ),
{
    let gpu = match sample.gpu_util {
        Some(value) => "GPU "@ + decimal(value as nat) + "%"@,
        None => "GPU —"@,
    };
    let paging = if paging_measured_spec(sample) {
        "I/O "@ + rate_spec(total_spec(sample.swap_in, sample.swap_out))
    } else {
        "I/O sampling"@
    };
    let confidence = if sample.correlation.summary@.len() > 0 {
        " · "@ + sample.correlation.confidence_label_spec() + " confidence"@
    } else {
        Seq::empty()
    };
    texts_carry_their_start(gpu, gpu);
    let s = gpu + " · "@ + paging;
    texts_carry_their_parts(gpu, " · "@, paging);
    let t = s + " · PRESSURE "@ + pressure_state_label_spec(sample);
    texts_carry_their_parts(s, " · PRESSURE "@, pressure_state_label_spec(sample));
    texts_carry_their_parts(t, confidence, Seq::empty());
    assert(t + confidence + Seq::<char>::empty() =~= diagnostic_signal_line_spec(sample));
}

/// The line on the GPU says the load of its renderer and of its tiler under their
/// own letters, its cores, its memory where that is known, and its heat.
pub proof fn device_lines_say_each_part(sample: Sample, memory: Seq<char>)
    ensures
        sample.metal.renderer_util matches Some(load) ==> carries(
            metal_signal_line_spec(sample, memory),
            "R "@ + decimal(load as nat) + "%"@,
        ),
        sample.metal.tiler_util matches Some(load) ==> carries(
            metal_signal_line_spec(sample, memory),
            "T "@ + decimal(load as nat) + "%"@,
        ),
        sample.metal.gpu_cores matches Some(cores) ==> carries(
            metal_signal_line_spec(sample, memory),
            decimal(cores as nat) + " cores"@,
        ),
        memory != "not exposed"@ ==> carries(
            metal_signal_line_spec(sample, memory),
            "mem "@ + memory,
        ),
        carries(metal_signal_line_spec(sample, memory), "thermal "@ + sample.thermal@),
{
    let a = device_part(sample);
    let b = cores_part(sample);
    let c = one_if(memory != "not exposed"@, "mem "@ + memory);
    let d = load_part("R "@, sample.metal.renderer_util);
    let e = load_part("T "@, sample.metal.tiler_util);
    let f = seq!["thermal "@ + sample.thermal@];
    let parts = a + b + c + d + e + f;
    if sample.metal.renderer_util is Some {
        let at = (a + b + c).len() as int;
        assert(parts[at] == d[0]);
        rows_carry_their_texts(parts, " · "@, at);
    }
    if sample.metal.tiler_util is Some {
        let at = (a + b + c + d).len() as int;
        assert(parts[at] == e[0]);
        rows_carry_their_texts(parts, " · "@, at);
    }
    if sample.metal.gpu_cores is Some {
        let at = a.len() as int;
        assert(parts[at] == b[0]);
        rows_carry_their_texts(parts, " · "@, at);
    }
    if memory != "not exposed"@ {
        let at = (a + b).len() as int;
        assert(parts[at] == c[0]);
        rows_carry_their_texts(parts, " · "@, at);
    }
    let at = (a + b + c + d + e).len() as int;
    assert(parts[at] == f[0]);
    rows_carry_their_texts(parts, " · "@, at);
}

/// The line on the runtime says what is active, what is cached and the peak, each
/// under its name, and there is none where nothing is known.
pub proof fn runtime_lines_say_each_counter(mlx: MlxTelemetry)
    ensures
        mlx.active_memory matches Some(n) ==> carries(
            mlx_runtime_summary_spec(mlx),
            "active "@ + bytes_spec(n),
        ),
        mlx.cache_memory matches Some(n) ==> carries(
            mlx_runtime_summary_spec(mlx),
            "cache "@ + bytes_spec(n),
        ),
        mlx.peak_memory matches Some(n) ==> carries(
            mlx_runtime_summary_spec(mlx),
            "peak "@ + bytes_spec(n),
        ),
        mlx.active_memory is None && mlx.cache_memory is None && mlx.peak_memory is None
            ==> mlx_runtime_summary_spec(mlx).len() == 0,
{
    let a = sized("active "@, mlx.active_memory);
    let b = sized("cache "@, mlx.cache_memory);
    let c = sized("peak "@, mlx.peak_memory);
    let parts = a + b + c;
    if mlx.active_memory is Some {
        assert(parts[0] == a[0]);
        lemma_runtime_part(parts, 0);
    }
    if mlx.cache_memory is Some {
        assert(parts[a.len() as int] == b[0]);
        lemma_runtime_part(parts, a.len() as int);
    }
    if mlx.peak_memory is Some {
        let at = (a + b).len() as int;
        assert(parts[at] == c[0]);
        lemma_runtime_part(parts, at);
    }
}

proof fn lemma_runtime_part(parts: Seq<Seq<char>>, at: int)
    requires
        0 <= at < parts.len(),
    ensures
        carries("MLX "@ + joined(parts, " · "@), parts[at]),
{
    rows_carry_their_texts(parts, " · "@, at);
    let row = joined(parts, " · "@);
    let i = choose|i: int|
        0 <= i && i + parts[at].len() <= row.len() && #[trigger] row.subrange(
            i,
            i + parts[at].len(),
        ) == parts[at];
    let j = "MLX "@.len() + i;
    assert(("MLX "@ + row).subrange(j, j + parts[at].len()) =~= row.subrange(
        i,
        i + parts[at].len(),
    ));
}

/// The memory of a model is written before its limit, the size of compressed
/// memory before how far it was compressed, and a single process is one.
pub proof fn small_labels_say_their_figures(sample: Sample)
    ensures
        sample.llm_model_memory matches Some(used) ==> (sample.llm_model_memory_max matches Some(max)
            ==> max > 0 ==> compact_model_memory_spec(sample) == tenths(used, GIB) + "/"@ + tenths(
            max,
            GIB,
        ) + "G"@),
        sample.llm_model_memory is None ==> compact_model_memory_spec(sample) == "—"@,
        sample.vm_available && sample.compressor > 0 && sample.compressed_logical > 0 ==> carries(
            compressed_memory_label_spec(sample),
            bytes_spec(sample.compressor) + " · "@,
        ) && carries(
            compressed_memory_label_spec(sample),
            tenths(sample.compressed_logical, sample.compressor) + "×"@,
        ),
        !sample.vm_available ==> compressed_memory_label_spec(sample) == "—"@,
        sample.llm_count == 1 ==> process_count_label_spec(sample) == "1 process"@,
        sample.llm_count != 1 ==> carries(
            process_count_label_spec(sample),
            decimal(sample.llm_count as nat) + " processes"@,
        ),
{
    let size = bytes_spec(sample.compressor);
    let share = tenths(sample.compressed_logical, sample.compressor);
    let s = size + " · "@;
    texts_carry_their_parts(s, share, "×"@);
    texts_carry_their_start(s, share + "×"@);
    assert(s + (share + "×"@) =~= s + share + "×"@);
    let count = decimal(sample.llm_count as nat) + " processes"@;
    texts_carry_their_start(count, count);
}

/// A server at rest is green, one at work or behind yellow, and one that is gone
/// or failing red, however the word is written.
pub proof fn states_have_their_tones(status: Seq<char>)
    ensures
        lower(status) == "ready"@ || lower(status) == "idle"@ ==> llm_status_tone_spec(status)
            == Tone::Green,
        lower(status) == "offline"@ || lower(status) == "error"@ ==> llm_status_tone_spec(status)
            == Tone::Red,
        lower(status) == "waiting"@ || lower(status) == "busy"@ || lower(status) == "generating"@
            || lower(status) == "stale"@ || lower(status) == "last result"@
            ==> llm_status_tone_spec(status) == Tone::Yellow,
        llm_status_tone_spec(status) == Tone::Red ==> lower(status) == "offline"@ || lower(status)
            == "error"@,
        llm_status_tone_spec(status) == Tone::Green ==> lower(status) == "ready"@ || lower(status)
            == "idle"@,
{
    reveal_strlit("ready");
    reveal_strlit("idle");
    reveal_strlit("waiting");
    reveal_strlit("busy");
    reveal_strlit("generating");
    reveal_strlit("stale");
    reveal_strlit("last result");
    reveal_strlit("offline");
    reveal_strlit("error");
    assert("ready"@[0] == 'r' && "idle"@[0] == 'i' && "waiting"@[0] == 'w' && "busy"@[0] == 'b');
    assert("generating"@[0] == 'g' && "stale"@[0] == 's' && "last result"@[0] == 'l');
    assert("offline"@[0] == 'o' && "error"@[0] == 'e');
}

/// Pressure is told by its colour, and by its meaning where there is no colour:
/// none, something to watch, or critical.
pub proof fn pressure_is_told_by_its_colour(sample: Sample)
    ensures
        sample.pressure@ == "GREEN"@ ==> pressure_state_label_spec(sample) == "normal"@,
        sample.pressure@ == "YELLOW"@ ==> pressure_state_label_spec(sample) == "watch"@,
        sample.pressure@ == "RED"@ ==> pressure_state_label_spec(sample) == "critical"@,
        sample.pressure@ != "GREEN"@ && sample.pressure@ != "YELLOW"@ && sample.pressure@ != "RED"@
            ==> {
            &&& sample.pressure_meaning@ == "normal"@ ==> pressure_state_label_spec(sample)
                == "normal"@
            &&& sample.pressure_meaning@ == "warning"@ ==> pressure_state_label_spec(sample)
                == "watch"@
            &&& sample.pressure_meaning@ == "critical"@ ==> pressure_state_label_spec(sample)
                == "critical"@
        },
{
    reveal_strlit("GREEN");
    reveal_strlit("YELLOW");
    reveal_strlit("RED");
    reveal_strlit("normal");
    reveal_strlit("warning");
    reveal_strlit("critical");
    assert("GREEN"@.len() == 5 && "YELLOW"@.len() == 6 && "RED"@.len() == 3);
    assert("normal"@.len() == 6 && "warning"@.len() == 7 && "critical"@.len() == 8);
}

/// A cause is borne out by its own figure: paging by what is paged both ways,
/// compression by what is compressed both ways, a busy GPU by its busiest part, a
/// queue by what waits, a context by its tokens.
pub proof fn causes_are_borne_out_by_their_own_figures(sample: Sample)
    ensures
        ({
            let evidence = correlation_evidence_label_spec(sample);
            let cause = sample.correlation.cause;
            &&& cause == CorrelationCause::Paging && (sample.swap_in > 0 || sample.swap_out > 0)
                ==> evidence == "I/O "@ + rate_spec(total_spec(sample.swap_in, sample.swap_out))
            &&& cause == CorrelationCause::Paging && sample.swap_in == 0 && sample.swap_out == 0
                ==> evidence.len() == 0
            &&& cause == CorrelationCause::Compression && (sample.compress > 0 || sample.decompress
                > 0) ==> evidence == "compress "@ + rate_spec(
                total_spec(sample.compress, sample.decompress),
            )
            &&& cause == CorrelationCause::MemoryPressure && sample.pressure@ == "RED"@ ==> evidence
                == "pressure "@ + "critical"@
            &&& cause == CorrelationCause::GpuSaturation && sample.metal.renderer_util is None
                && sample.metal.tiler_util is None ==> (sample.gpu_util matches Some(load)
                ==> evidence == "GPU "@ + decimal(load as nat) + "%"@)
            &&& cause == CorrelationCause::Queueing ==> (sample.llm_waiting_requests matches Some(
                waiting,
            ) ==> evidence == "queue "@ + decimal(waiting as nat) + " waiting"@)
            &&& cause == CorrelationCause::ContextGrowth ==> (llm_context_tokens_spec(sample)
                matches Some(tokens) ==> evidence == "context "@ + compact_tokens_spec(tokens))
            &&& cause == CorrelationCause::Thermal ==> evidence == "thermal limit"@
            &&& cause == CorrelationCause::Uncorrelated ==> evidence.len() == 0
        }),
{
    pressure_is_told_by_its_colour(sample);
}
} // verus!
