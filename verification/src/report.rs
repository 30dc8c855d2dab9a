//! The static report.

use crate::labels::{
    llm_generation_rate_label, llm_generation_rate_label_spec, llm_model_label,
    llm_model_label_spec, llm_prefill_rate_label, llm_prefill_rate_label_spec, paging_measured,
    paging_measured_spec, pressure_state_label, pressure_state_label_spec, telemetry_source,
    telemetry_source_spec,
};
use crate::model::Sample;
use crate::text::{carries, decimal, decimal_text, texts_carry_their_parts, views};
use crate::units::{
    bytes, bytes_spec, count, count_spec, optional_bytes, optional_bytes_spec, optional_tokens,
    optional_tokens_spec, percent, percent_spec, percent_u8, percent_u8_spec, product,
    product_spec, rate, rate_spec, signed_rate, signed_rate_spec,
};
use vstd::prelude::*;

verus! {

/// How full the swap space is, in percent.
pub open spec fn swap_share_spec(sample: Sample) -> u64 {
    if sample.swap_total > 0 {
        (product_spec(sample.swap_used, 100) as int / sample.swap_total as int) as u64
    } else {
        0
    }
}

fn swap_share(sample: &Sample) -> (result: u64)
    ensures
        result == swap_share_spec(*sample),
{
    if sample.swap_total > 0 {
        product(sample.swap_used, 100) / sample.swap_total
    } else {
        0
    }
}

pub open spec fn text_or_spec(value: Option<String>, other: Seq<char>) -> Seq<char> {
    match value {
        Some(value) => value@,
        None => other,
    }
}

fn text_or(value: &Option<String>, other: &str) -> (out: String)
    ensures
        out@ == text_or_spec(*value, other@),
{
    match value {
        Some(value) => value.clone(),
        None => other.to_string(),
    }
}

fn write(lines: &mut Vec<String>, line: String)
    ensures
        views(final(lines)@) == views(old(lines)@).push(line@),
{
    lines.push(line);
    assert(views(lines@) =~= views(old(lines)@).push(line@));
}

/// The first line of the report.
pub open spec fn first_line_spec(interval: u64) -> Seq<char> {
    "mlxtop · static report ("@ + decimal(interval as nat) + "s sample)\n"@
}

fn first_line(interval: u64) -> (out: String)
    ensures
        out@ == first_line_spec(interval),
{
    "mlxtop · static report (".to_string()
        .concat(decimal_text(interval as u64).as_str())
        .concat("s sample)\n")
}

/// The state.
pub open spec fn signal_line_spec(sample: Sample) -> Seq<char> {
    "SIGNAL       "@ + sample.impact@ + " · "@ + sample.grade@
}

fn signal_line(sample: &Sample) -> (out: String)
    ensures
        out@ == signal_line_spec(*sample),
{
    "SIGNAL       ".to_string()
        .concat(sample.impact.as_str())
        .concat(" · ")
        .concat(sample.grade.as_str())
}

/// The pressure.
pub open spec fn pressure_line_spec(sample: Sample) -> Seq<char> {
    "PRESSURE     "@ + pressure_state_label_spec(sample)
}

fn pressure_line(sample: &Sample) -> (out: String)
    ensures
        out@ == pressure_line_spec(*sample),
{
    "PRESSURE     ".to_string().concat(pressure_state_label(sample))
}

/// The memory.
pub open spec fn memory_line_spec(sample: Sample) -> Seq<char> {
    "MEMORY       "@ + percent_u8_spec(sample.availability) + " free · "@
        + bytes_spec(sample.total_memory) + " total"@
}

fn memory_line(sample: &Sample) -> (out: String)
    ensures
        out@ == memory_line_spec(*sample),
{
    "MEMORY       ".to_string()
        .concat(percent_u8(sample.availability).as_str())
        .concat(" free · ")
        .concat(bytes(sample.total_memory).as_str())
        .concat(" total")
}

/// A paging rate, where it is measured.
pub open spec fn measured_rate_spec(sample: Sample, value: u64) -> Seq<char> {
    if paging_measured_spec(sample) {
        rate_spec(value)
    } else {
        "—"@
    }
}

fn measured_rate(sample: &Sample, value: u64) -> (out: String)
    ensures
        out@ == measured_rate_spec(*sample, value),
{
    if paging_measured(sample) {
        rate(value)
    } else {
        "—".to_string()
    }
}

/// The paging.
pub open spec fn paging_line_spec(sample: Sample) -> Seq<char> {
    let used = swap_share_spec(sample);
    (
        if sample.swap_available {
            "PAGING       "@ + bytes_spec(sample.swap_used) + " / "@ + bytes_spec(sample.swap_total)
                + " · "@ + decimal(used as nat) + "% used · in "@
                + measured_rate_spec(sample, sample.swap_in) + " · out "@
                + measured_rate_spec(sample, sample.swap_out)
        } else { "PAGING       —"@ }
    )
}

fn paging_line(sample: &Sample) -> (out: String)
    ensures
        out@ == paging_line_spec(*sample),
{
    let used: u64 = swap_share(sample);
    (
        if sample.swap_available {
            "PAGING       ".to_string()
                .concat(bytes(sample.swap_used).as_str())
                .concat(" / ")
                .concat(bytes(sample.swap_total).as_str())
                .concat(" · ")
                .concat(decimal_text(used as u64).as_str())
                .concat("% used · in ")
                .concat(measured_rate(sample, sample.swap_in).as_str())
                .concat(" · out ")
                .concat(measured_rate(sample, sample.swap_out).as_str())
        } else { "PAGING       —".to_string() }
    )
}

/// The GPU.
pub open spec fn metal_line_spec(sample: Sample) -> Seq<char> {
    "METAL        "@ + text_or_spec(sample.metal.device_name, "unavailable"@) + " · "@
        + (match sample.metal.gpu_cores { Some(cores) => decimal(cores as nat), None => "—"@ })
        + " cores · GPU "@ + percent_u8_spec(sample.gpu_util) + " · renderer "@
        + percent_u8_spec(sample.metal.renderer_util) + " · tiler "@
        + percent_u8_spec(sample.metal.tiler_util)
}

fn metal_line(sample: &Sample) -> (out: String)
    ensures
        out@ == metal_line_spec(*sample),
{
    "METAL        ".to_string()
        .concat(text_or(&sample.metal.device_name, "unavailable").as_str())
        .concat(" · ")
        .concat(
            (
                match sample.metal.gpu_cores {
                    Some(cores) => decimal_text(cores as u64),
                    None => "—".to_string(),
                }
            ).as_str(),
        )
        .concat(" cores · GPU ")
        .concat(percent_u8(sample.gpu_util).as_str())
        .concat(" · renderer ")
        .concat(percent_u8(sample.metal.renderer_util).as_str())
        .concat(" · tiler ")
        .concat(percent_u8(sample.metal.tiler_util).as_str())
}

/// The runtime.
pub open spec fn runtime_line_spec(sample: Sample) -> Seq<char> {
    "RUNTIME      thermal "@ + sample.thermal@ + " · LLM "@ + decimal(sample.llm_count as nat)
        + " · footprint "@ + optional_bytes_spec(sample.mlx.process_footprint) + " · Metal limit "@
        + optional_bytes_spec(sample.metal.resource_limit)
}

fn runtime_line(sample: &Sample) -> (out: String)
    ensures
        out@ == runtime_line_spec(*sample),
{
    "RUNTIME      thermal ".to_string()
        .concat(sample.thermal.as_str())
        .concat(" · LLM ")
        .concat(decimal_text(sample.llm_count as u64).as_str())
        .concat(" · footprint ")
        .concat(optional_bytes(sample.mlx.process_footprint).as_str())
        .concat(" · Metal limit ")
        .concat(optional_bytes(sample.metal.resource_limit).as_str())
}

/// The server.
pub open spec fn llm_line_spec(sample: Sample, now: u64) -> Seq<char> {
    "LLM          "@ + sample.llm_provider@ + " · "@ + sample.llm_status@ + " · "@
        + telemetry_source_spec(sample, now) + " · "@ + llm_model_label_spec(sample, 40usize)
}

fn llm_line(sample: &Sample, now: u64) -> (out: String)
    ensures
        out@ == llm_line_spec(*sample, now),
{
    "LLM          ".to_string()
        .concat(sample.llm_provider.as_str())
        .concat(" · ")
        .concat(sample.llm_status.as_str())
        .concat(" · ")
        .concat(telemetry_source(sample, now).as_str())
        .concat(" · ")
        .concat(llm_model_label(sample, 40).as_str())
}

/// The token rates.
pub open spec fn serving_line_spec(sample: Sample) -> Seq<char> {
    "SERVING      "@ + llm_generation_rate_label_spec(sample) + " · "@
        + llm_prefill_rate_label_spec(sample) + " · active "@
        + count_spec(sample.llm_active_requests) + " · cache "@
        + percent_spec(sample.llm_cache_efficiency)
}

fn serving_line(sample: &Sample) -> (out: String)
    ensures
        out@ == serving_line_spec(*sample),
{
    "SERVING      ".to_string()
        .concat(llm_generation_rate_label(sample).as_str())
        .concat(" · ")
        .concat(llm_prefill_rate_label(sample).as_str())
        .concat(" · active ")
        .concat(count(sample.llm_active_requests).as_str())
        .concat(" · cache ")
        .concat(percent(sample.llm_cache_efficiency).as_str())
}

/// The tokens.
pub open spec fn tokens_line_spec(sample: Sample) -> Seq<char> {
    "TOKENS       PROMPT "@ + optional_tokens_spec(sample.llm_prompt_tokens) + " · OUT "@
        + optional_tokens_spec(sample.llm_output_tokens)
}

fn tokens_line(sample: &Sample) -> (out: String)
    ensures
        out@ == tokens_line_spec(*sample),
{
    "TOKENS       PROMPT ".to_string()
        .concat(optional_tokens(sample.llm_prompt_tokens).as_str())
        .concat(" · OUT ")
        .concat(optional_tokens(sample.llm_output_tokens).as_str())
}

/// The counters of the runtime.
pub open spec fn mlx_line_spec(sample: Sample) -> Seq<char> {
    "MLX          version "@ + text_or_spec(sample.mlx.version, "—"@) + " · active "@
        + optional_bytes_spec(sample.mlx.active_memory) + " · cache "@
        + optional_bytes_spec(sample.mlx.cache_memory) + " · peak "@
        + optional_bytes_spec(sample.mlx.peak_memory)
}

fn mlx_line(sample: &Sample) -> (out: String)
    ensures
        out@ == mlx_line_spec(*sample),
{
    "MLX          version ".to_string()
        .concat(text_or(&sample.mlx.version, "—").as_str())
        .concat(" · active ")
        .concat(optional_bytes(sample.mlx.active_memory).as_str())
        .concat(" · cache ")
        .concat(optional_bytes(sample.mlx.cache_memory).as_str())
        .concat(" · peak ")
        .concat(optional_bytes(sample.mlx.peak_memory).as_str())
}

/// The diagnosis of the token rate.
pub open spec fn correlation_line_spec(sample: Sample) -> Seq<char> {
    "CORRELATION   "@ + sample.correlation.summary@
}

fn correlation_line(sample: &Sample) -> (out: String)
    ensures
        out@ == correlation_line_spec(*sample),
{
    "CORRELATION   ".to_string().concat(sample.correlation.summary.as_str())
}

/// What bears the diagnosis out.
pub open spec fn evidence_line_spec(sample: Sample) -> Seq<char> {
    "EVIDENCE      "@ + sample.correlation.details@ + " · "@
        + sample.correlation.confidence_label_spec() + " confidence"@
}

fn evidence_line(sample: &Sample) -> (out: String)
    ensures
        out@ == evidence_line_spec(*sample),
{
    "EVIDENCE      ".to_string()
        .concat(sample.correlation.details.as_str())
        .concat(" · ")
        .concat(sample.correlation.confidence_label())
        .concat(" confidence")
}

/// What to do.
pub open spec fn next_line_spec(sample: Sample) -> Seq<char> {
    "NEXT         "@ + sample.guidance_badge@ + " — "@ + sample.guidance_action@
}

fn next_line(sample: &Sample) -> (out: String)
    ensures
        out@ == next_line_spec(*sample),
{
    "NEXT         ".to_string()
        .concat(sample.guidance_badge.as_str())
        .concat(" — ")
        .concat(sample.guidance_action.as_str())
}

/// The memory of the serving process, where the system accounts for it.
pub open spec fn process_lines(sample: Sample) -> Seq<Seq<char>> {
    match sample.process_memory {
        Some(memory) => seq![
            "PROCESS OS   pid "@ + decimal(memory.pid as nat) + " · footprint "@
                + bytes_spec(memory.footprint) + " · lifetime peak "@ + bytes_spec(memory.peak)
                + " · RSS "@ + bytes_spec(memory.resident) + " · growth "@
                + (
                    match sample.process_memory_growth {
                        Some(growth) => signed_rate_spec(growth),
                        None => "—"@,
                    }
                ),
        ],
        None => Seq::empty(),
    }
}

/// One line for each request.
pub open spec fn request_lines(requests: Seq<String>) -> Seq<Seq<char>> {
    requests.map_values(|r: String| "REQUEST      "@ + r@)
}

/// The diagnosis, where there is one.
pub open spec fn diagnosis_lines(sample: Sample) -> Seq<Seq<char>> {
    if sample.correlation.summary@.len() > 0 {
        Seq::empty().push(correlation_line_spec(sample)).push(evidence_line_spec(sample))
    } else {
        Seq::empty()
    }
}

/// The lines that every report has before those on requests.
pub open spec fn opening_lines(sample: Sample, interval: u64, now: u64) -> Seq<Seq<char>> {
    Seq::empty().push(first_line_spec(interval)).push(signal_line_spec(sample)).push(
        pressure_line_spec(sample),
    ).push(memory_line_spec(sample)).push(paging_line_spec(sample)).push(
        metal_line_spec(sample),
    ).push(runtime_line_spec(sample)).push(llm_line_spec(sample, now)).push(
        serving_line_spec(sample),
    ).push(tokens_line_spec(sample))
}

/// The whole report, line by line.
pub open spec fn static_report_spec(sample: Sample, interval: u64, now: u64) -> Seq<Seq<char>> {
    (opening_lines(sample, interval, now) + request_lines(sample.llm_requests@) + process_lines(
        sample,
    )).push(mlx_line_spec(sample)) + diagnosis_lines(sample).push(next_line_spec(sample))
}

/// A report on a sample, line by line.
pub fn static_report(sample: &Sample, interval: u64, now: u64) -> (lines: Vec<String>)
    ensures
        views(lines@) == static_report_spec(*sample, interval, now),
{
    let mut lines: Vec<String> = Vec::new();
    write(&mut lines, first_line(interval));
    write(&mut lines, signal_line(sample));
    write(&mut lines, pressure_line(sample));
    write(&mut lines, memory_line(sample));
    write(&mut lines, paging_line(sample));
    write(&mut lines, metal_line(sample));
    write(&mut lines, runtime_line(sample));
    write(&mut lines, llm_line(sample, now));
    write(&mut lines, serving_line(sample));
    write(&mut lines, tokens_line(sample));
    let ghost opening = opening_lines(*sample, interval, now);
    assert(views(lines@) =~= opening);
    for i in 0..sample.llm_requests.len()
        invariant
            views(lines@) == opening + request_lines(sample.llm_requests@).take(i as int),
    {
        write(
            &mut lines,
            "REQUEST      ".to_string().concat(sample.llm_requests[i].as_str()),
        );
        assert(views(lines@) =~= opening + request_lines(sample.llm_requests@).take(i + 1));
    }
    let ghost asked = opening + request_lines(sample.llm_requests@);
    assert(views(lines@) =~= asked);
    if let Some(memory) = sample.process_memory {
        write(
            &mut lines,
            "PROCESS OS   pid ".to_string()
                .concat(decimal_text(memory.pid as u64).as_str())
                .concat(" · footprint ")
                .concat(bytes(memory.footprint).as_str())
                .concat(" · lifetime peak ")
                .concat(bytes(memory.peak).as_str())
                .concat(" · RSS ")
                .concat(bytes(memory.resident).as_str())
                .concat(" · growth ")
                .concat(
                    (
                        match sample.process_memory_growth {
                            Some(growth) => signed_rate(growth),
                            None => "—".to_string(),
                        }
                    ).as_str(),
                ),
        );
    }
    let ghost known = asked + process_lines(*sample);
    assert(views(lines@) =~= known);
    write(&mut lines, mlx_line(sample));
    if !sample.correlation.summary.as_str().is_empty() {
        write(&mut lines, correlation_line(sample));
        write(&mut lines, evidence_line(sample));
    }
    assert(views(lines@) =~= known.push(mlx_line_spec(*sample)) + diagnosis_lines(*sample));
    write(&mut lines, next_line(sample));
    assert(views(lines@) =~= static_report_spec(*sample, interval, now));
    lines
}


/// Whether a report says something in a line that starts with a name.
pub open spec fn says(report: Seq<Seq<char>>, name: Seq<char>, part: Seq<char>) -> bool {
    exists|i: int|
        0 <= i < report.len() && name.is_prefix_of(#[trigger] report[i]) && carries(report[i], part)
}

proof fn lemma_names_line(name: Seq<char>, first: Seq<char>)
    ensures
        carries(name + first, name + first),
{
    texts_carry_their_parts(Seq::empty(), name, first);
    assert(Seq::<char>::empty() + name + first =~= name + first);
}

proof fn lemma_leads(name: Seq<char>, line: Seq<char>)
    requires
        line.len() >= name.len(),
        forall|i: int| 0 <= i < name.len() ==> line[i] == name[i],
    ensures
        name.is_prefix_of(line),
{
    assert(line.subrange(0, name.len() as int) =~= name);
}

proof fn lemma_signal_line(sample: Sample)
    ensures
        "SIGNAL       "@.is_prefix_of(signal_line_spec(sample)),
        carries(signal_line_spec(sample), "SIGNAL       "@ + sample.impact@),
        carries(signal_line_spec(sample), " · "@ + sample.grade@),
{
    let s0 = "SIGNAL       "@ + sample.impact@;
    lemma_names_line("SIGNAL       "@, sample.impact@);
    let s1 = s0 + " · "@ + sample.grade@;
    texts_carry_their_parts(s0, " · "@, sample.grade@);
    assert(s1 == signal_line_spec(sample));
    lemma_leads("SIGNAL       "@, signal_line_spec(sample));
}

proof fn lemma_pressure_line(sample: Sample)
    ensures
        "PRESSURE     "@.is_prefix_of(pressure_line_spec(sample)),
        carries(pressure_line_spec(sample), "PRESSURE     "@ + pressure_state_label_spec(sample)),
{
    let s0 = "PRESSURE     "@ + pressure_state_label_spec(sample);
    lemma_names_line("PRESSURE     "@, pressure_state_label_spec(sample));
    assert(s0 == pressure_line_spec(sample));
    lemma_leads("PRESSURE     "@, pressure_line_spec(sample));
}

proof fn lemma_memory_line(sample: Sample)
    ensures
        "MEMORY       "@.is_prefix_of(memory_line_spec(sample)),
        carries(memory_line_spec(sample), "MEMORY       "@ + percent_u8_spec(sample.availability)),
        carries(memory_line_spec(sample), " free · "@ + bytes_spec(sample.total_memory)),
{
    let s0 = "MEMORY       "@ + percent_u8_spec(sample.availability);
    lemma_names_line("MEMORY       "@, percent_u8_spec(sample.availability));
    let s1 = s0 + " free · "@ + bytes_spec(sample.total_memory);
    texts_carry_their_parts(s0, " free · "@, bytes_spec(sample.total_memory));
    let s2 = s1 + " total"@ + Seq::<char>::empty();
    texts_carry_their_parts(s1, " total"@, Seq::<char>::empty());
    assert(s2 =~= memory_line_spec(sample));
    lemma_leads("MEMORY       "@, memory_line_spec(sample));
}

proof fn lemma_paging_line(sample: Sample)
    requires
        sample.swap_available,
    ensures
        "PAGING       "@.is_prefix_of(paging_line_spec(sample)),
        carries(paging_line_spec(sample), "PAGING       "@ + bytes_spec(sample.swap_used)),
        carries(paging_line_spec(sample), " / "@ + bytes_spec(sample.swap_total)),
        carries(paging_line_spec(sample), " · "@ + decimal(swap_share_spec(sample) as nat)),
        carries(
            paging_line_spec(sample),
            "% used · in "@ + measured_rate_spec(sample, sample.swap_in),
        ),
        carries(paging_line_spec(sample), " · out "@ + measured_rate_spec(sample, sample.swap_out)),
{
    let s0 = "PAGING       "@ + bytes_spec(sample.swap_used);
    lemma_names_line("PAGING       "@, bytes_spec(sample.swap_used));
    let s1 = s0 + " / "@ + bytes_spec(sample.swap_total);
    texts_carry_their_parts(s0, " / "@, bytes_spec(sample.swap_total));
    let s2 = s1 + " · "@ + decimal(swap_share_spec(sample) as nat);
    texts_carry_their_parts(s1, " · "@, decimal(swap_share_spec(sample) as nat));
    let s3 = s2 + "% used · in "@ + measured_rate_spec(sample, sample.swap_in);
    texts_carry_their_parts(s2, "% used · in "@, measured_rate_spec(sample, sample.swap_in));
    let s4 = s3 + " · out "@ + measured_rate_spec(sample, sample.swap_out);
    texts_carry_their_parts(s3, " · out "@, measured_rate_spec(sample, sample.swap_out));
    assert(s4 == paging_line_spec(sample));
    lemma_leads("PAGING       "@, paging_line_spec(sample));
}

proof fn lemma_metal_line(sample: Sample)
    ensures
        "METAL        "@.is_prefix_of(metal_line_spec(sample)),
        carries(
            metal_line_spec(sample),
            "METAL        "@ + text_or_spec(sample.metal.device_name, "unavailable"@),
        ),
        carries(
            metal_line_spec(sample),
            " · "@ + (match sample.metal.gpu_cores { Some(cores) => decimal(cores as nat), None => "—"@ }),
        ),
        carries(metal_line_spec(sample), " cores · GPU "@ + percent_u8_spec(sample.gpu_util)),
        carries(
            metal_line_spec(sample),
            " · renderer "@ + percent_u8_spec(sample.metal.renderer_util),
        ),
        carries(metal_line_spec(sample), " · tiler "@ + percent_u8_spec(sample.metal.tiler_util)),
{
    let cores = (match sample.metal.gpu_cores { Some(cores) => decimal(cores as nat), None => "—"@ });
    let s0 = "METAL        "@ + text_or_spec(sample.metal.device_name, "unavailable"@);
    lemma_names_line("METAL        "@, text_or_spec(sample.metal.device_name, "unavailable"@));
    let s1 = s0 + " · "@ + cores;
    texts_carry_their_parts(s0, " · "@, cores);
    let s2 = s1 + " cores · GPU "@ + percent_u8_spec(sample.gpu_util);
    texts_carry_their_parts(s1, " cores · GPU "@, percent_u8_spec(sample.gpu_util));
    let s3 = s2 + " · renderer "@ + percent_u8_spec(sample.metal.renderer_util);
    texts_carry_their_parts(s2, " · renderer "@, percent_u8_spec(sample.metal.renderer_util));
    let s4 = s3 + " · tiler "@ + percent_u8_spec(sample.metal.tiler_util);
    texts_carry_their_parts(s3, " · tiler "@, percent_u8_spec(sample.metal.tiler_util));
    assert(s4 == metal_line_spec(sample));
    lemma_leads("METAL        "@, metal_line_spec(sample));
}

proof fn lemma_runtime_line(sample: Sample)
    ensures
        "RUNTIME      thermal "@.is_prefix_of(runtime_line_spec(sample)),
        carries(runtime_line_spec(sample), "RUNTIME      thermal "@ + sample.thermal@),
        carries(runtime_line_spec(sample), " · LLM "@ + decimal(sample.llm_count as nat)),
        carries(
            runtime_line_spec(sample),
            " · footprint "@ + optional_bytes_spec(sample.mlx.process_footprint),
        ),
        carries(
            runtime_line_spec(sample),
            " · Metal limit "@ + optional_bytes_spec(sample.metal.resource_limit),
        ),
{
    let s0 = "RUNTIME      thermal "@ + sample.thermal@;
    lemma_names_line("RUNTIME      thermal "@, sample.thermal@);
    let s1 = s0 + " · LLM "@ + decimal(sample.llm_count as nat);
    texts_carry_their_parts(s0, " · LLM "@, decimal(sample.llm_count as nat));
    let s2 = s1 + " · footprint "@ + optional_bytes_spec(sample.mlx.process_footprint);
    texts_carry_their_parts(s1, " · footprint "@, optional_bytes_spec(sample.mlx.process_footprint));
    let s3 = s2 + " · Metal limit "@ + optional_bytes_spec(sample.metal.resource_limit);
    texts_carry_their_parts(s2, " · Metal limit "@, optional_bytes_spec(sample.metal.resource_limit));
    assert(s3 == runtime_line_spec(sample));
    lemma_leads("RUNTIME      thermal "@, runtime_line_spec(sample));
}

proof fn lemma_llm_line(sample: Sample, now: u64)
    ensures
        "LLM          "@.is_prefix_of(llm_line_spec(sample, now)),
        carries(llm_line_spec(sample, now), "LLM          "@ + sample.llm_provider@),
        carries(llm_line_spec(sample, now), " · "@ + sample.llm_status@),
        carries(llm_line_spec(sample, now), " · "@ + telemetry_source_spec(sample, now)),
        carries(llm_line_spec(sample, now), " · "@ + llm_model_label_spec(sample, 40usize)),
{
    let s0 = "LLM          "@ + sample.llm_provider@;
    lemma_names_line("LLM          "@, sample.llm_provider@);
    let s1 = s0 + " · "@ + sample.llm_status@;
    texts_carry_their_parts(s0, " · "@, sample.llm_status@);
    let s2 = s1 + " · "@ + telemetry_source_spec(sample, now);
    texts_carry_their_parts(s1, " · "@, telemetry_source_spec(sample, now));
    let s3 = s2 + " · "@ + llm_model_label_spec(sample, 40usize);
    texts_carry_their_parts(s2, " · "@, llm_model_label_spec(sample, 40usize));
    assert(s3 == llm_line_spec(sample, now));
    lemma_leads("LLM          "@, llm_line_spec(sample, now));
}

proof fn lemma_serving_line(sample: Sample)
    ensures
        "SERVING      "@.is_prefix_of(serving_line_spec(sample)),
        carries(
            serving_line_spec(sample),
            "SERVING      "@ + llm_generation_rate_label_spec(sample),
        ),
        carries(serving_line_spec(sample), " · "@ + llm_prefill_rate_label_spec(sample)),
        carries(serving_line_spec(sample), " · active "@ + count_spec(sample.llm_active_requests)),
        carries(
            serving_line_spec(sample),
            " · cache "@ + percent_spec(sample.llm_cache_efficiency),
        ),
{
    let s0 = "SERVING      "@ + llm_generation_rate_label_spec(sample);
    lemma_names_line("SERVING      "@, llm_generation_rate_label_spec(sample));
    let s1 = s0 + " · "@ + llm_prefill_rate_label_spec(sample);
    texts_carry_their_parts(s0, " · "@, llm_prefill_rate_label_spec(sample));
    let s2 = s1 + " · active "@ + count_spec(sample.llm_active_requests);
    texts_carry_their_parts(s1, " · active "@, count_spec(sample.llm_active_requests));
    let s3 = s2 + " · cache "@ + percent_spec(sample.llm_cache_efficiency);
    texts_carry_their_parts(s2, " · cache "@, percent_spec(sample.llm_cache_efficiency));
    assert(s3 == serving_line_spec(sample));
    lemma_leads("SERVING      "@, serving_line_spec(sample));
}

proof fn lemma_tokens_line(sample: Sample)
    ensures
        "TOKENS       PROMPT "@.is_prefix_of(tokens_line_spec(sample)),
        carries(
            tokens_line_spec(sample),
            "TOKENS       PROMPT "@ + optional_tokens_spec(sample.llm_prompt_tokens),
        ),
        carries(
            tokens_line_spec(sample),
            " · OUT "@ + optional_tokens_spec(sample.llm_output_tokens),
        ),
{
    let s0 = "TOKENS       PROMPT "@ + optional_tokens_spec(sample.llm_prompt_tokens);
    lemma_names_line("TOKENS       PROMPT "@, optional_tokens_spec(sample.llm_prompt_tokens));
    let s1 = s0 + " · OUT "@ + optional_tokens_spec(sample.llm_output_tokens);
    texts_carry_their_parts(s0, " · OUT "@, optional_tokens_spec(sample.llm_output_tokens));
    assert(s1 == tokens_line_spec(sample));
    lemma_leads("TOKENS       PROMPT "@, tokens_line_spec(sample));
}

proof fn lemma_mlx_line(sample: Sample)
    ensures
        "MLX          version "@.is_prefix_of(mlx_line_spec(sample)),
        carries(
            mlx_line_spec(sample),
            "MLX          version "@ + text_or_spec(sample.mlx.version, "—"@),
        ),
        carries(
            mlx_line_spec(sample),
            " · active "@ + optional_bytes_spec(sample.mlx.active_memory),
        ),
        carries(mlx_line_spec(sample), " · cache "@ + optional_bytes_spec(sample.mlx.cache_memory)),
        carries(mlx_line_spec(sample), " · peak "@ + optional_bytes_spec(sample.mlx.peak_memory)),
{
    let s0 = "MLX          version "@ + text_or_spec(sample.mlx.version, "—"@);
    lemma_names_line("MLX          version "@, text_or_spec(sample.mlx.version, "—"@));
    let s1 = s0 + " · active "@ + optional_bytes_spec(sample.mlx.active_memory);
    texts_carry_their_parts(s0, " · active "@, optional_bytes_spec(sample.mlx.active_memory));
    let s2 = s1 + " · cache "@ + optional_bytes_spec(sample.mlx.cache_memory);
    texts_carry_their_parts(s1, " · cache "@, optional_bytes_spec(sample.mlx.cache_memory));
    let s3 = s2 + " · peak "@ + optional_bytes_spec(sample.mlx.peak_memory);
    texts_carry_their_parts(s2, " · peak "@, optional_bytes_spec(sample.mlx.peak_memory));
    assert(s3 == mlx_line_spec(sample));
    lemma_leads("MLX          version "@, mlx_line_spec(sample));
}

proof fn lemma_opening_lines(sample: Sample, interval: u64, now: u64)
    ensures
        ({
            let report = static_report_spec(sample, interval, now);
            &&& report.len() >= 12
            &&& report[1] == signal_line_spec(sample)
            &&& report[2] == pressure_line_spec(sample)
            &&& report[3] == memory_line_spec(sample)
            &&& report[4] == paging_line_spec(sample)
            &&& report[5] == metal_line_spec(sample)
            &&& report[6] == runtime_line_spec(sample)
            &&& report[7] == llm_line_spec(sample, now)
            &&& report[8] == serving_line_spec(sample)
            &&& report[9] == tokens_line_spec(sample)
            &&& report[10int + request_lines(sample.llm_requests@).len() + process_lines(
                sample,
            ).len()] == mlx_line_spec(sample)
            &&& report.last() == next_line_spec(sample)
            &&& forall|i: int|
                0 <= i < sample.llm_requests@.len() ==> #[trigger] report[10 + i]
                    == request_lines(sample.llm_requests@)[i]
            &&& sample.process_memory is Some ==> report[10int
                + request_lines(sample.llm_requests@).len()] == process_lines(sample)[0]
        }),
{
    let opening = opening_lines(sample, interval, now);
    let report = static_report_spec(sample, interval, now);
    assert(opening.len() == 10);
    assert(forall|i: int| 0 <= i < 10 ==> report[i] == opening[i]);
    let requests = request_lines(sample.llm_requests@);
    assert forall|i: int| 0 <= i < sample.llm_requests@.len() implies #[trigger] report[10 + i]
        == requests[i] by {}
}

/// A report says each figure of the machine under its own name: what it signals,
/// its memory, what is paged in and what is paged out, and how its GPU fares.
pub proof fn reports_say_how_the_machine_is(sample: Sample, interval: u64, now: u64)
    ensures
        says(
            static_report_spec(sample, interval, now),
            "SIGNAL       "@,
            "SIGNAL       "@ + sample.impact@,
        ),
        says(static_report_spec(sample, interval, now), "SIGNAL       "@, " · "@ + sample.grade@),
        says(
            static_report_spec(sample, interval, now),
            "PRESSURE     "@,
            "PRESSURE     "@ + pressure_state_label_spec(sample),
        ),
        says(
            static_report_spec(sample, interval, now),
            "MEMORY       "@,
            "MEMORY       "@ + percent_u8_spec(sample.availability),
        ),
        says(
            static_report_spec(sample, interval, now),
            "MEMORY       "@,
            " free · "@ + bytes_spec(sample.total_memory),
        ),
        sample.swap_available ==> says(
            static_report_spec(sample, interval, now),
            "PAGING       "@,
            "PAGING       "@ + bytes_spec(sample.swap_used),
        ),
        sample.swap_available ==> says(
            static_report_spec(sample, interval, now),
            "PAGING       "@,
            " / "@ + bytes_spec(sample.swap_total),
        ),
        sample.swap_available ==> says(
            static_report_spec(sample, interval, now),
            "PAGING       "@,
            " · "@ + decimal(swap_share_spec(sample) as nat),
        ),
        sample.swap_available ==> says(
            static_report_spec(sample, interval, now),
            "PAGING       "@,
            "% used · in "@ + measured_rate_spec(sample, sample.swap_in),
        ),
        sample.swap_available ==> says(
            static_report_spec(sample, interval, now),
            "PAGING       "@,
            " · out "@ + measured_rate_spec(sample, sample.swap_out),
        ),
        says(
            static_report_spec(sample, interval, now),
            "METAL        "@,
            "METAL        "@ + text_or_spec(sample.metal.device_name, "unavailable"@),
        ),
        says(
            static_report_spec(sample, interval, now),
            "METAL        "@,
            " · "@ + (match sample.metal.gpu_cores { Some(cores) => decimal(cores as nat), None => "—"@ }),
        ),
        says(
            static_report_spec(sample, interval, now),
            "METAL        "@,
            " cores · GPU "@ + percent_u8_spec(sample.gpu_util),
        ),
        says(
            static_report_spec(sample, interval, now),
            "METAL        "@,
            " · renderer "@ + percent_u8_spec(sample.metal.renderer_util),
        ),
        says(
            static_report_spec(sample, interval, now),
            "METAL        "@,
            " · tiler "@ + percent_u8_spec(sample.metal.tiler_util),
        ),
{
    lemma_opening_lines(sample, interval, now);
    let report = static_report_spec(sample, interval, now);
    lemma_signal_line(sample);
    assert("SIGNAL       "@.is_prefix_of(report[1]));
    lemma_pressure_line(sample);
    assert("PRESSURE     "@.is_prefix_of(report[2]));
    lemma_memory_line(sample);
    assert("MEMORY       "@.is_prefix_of(report[3]));
    if sample.swap_available {
        lemma_paging_line(sample);
        assert("PAGING       "@.is_prefix_of(report[4]));
    }
    lemma_metal_line(sample);
    assert("METAL        "@.is_prefix_of(report[5]));
}

/// A report says each figure of the serving of models under its own name: the
/// runtime and its memory, the server, its rates and its tokens.
pub proof fn reports_say_how_models_are_served(sample: Sample, interval: u64, now: u64)
    ensures
        says(
            static_report_spec(sample, interval, now),
            "RUNTIME      thermal "@,
            "RUNTIME      thermal "@ + sample.thermal@,
        ),
        says(
            static_report_spec(sample, interval, now),
            "RUNTIME      thermal "@,
            " · LLM "@ + decimal(sample.llm_count as nat),
        ),
        says(
            static_report_spec(sample, interval, now),
            "RUNTIME      thermal "@,
            " · footprint "@ + optional_bytes_spec(sample.mlx.process_footprint),
        ),
        says(
            static_report_spec(sample, interval, now),
            "RUNTIME      thermal "@,
            " · Metal limit "@ + optional_bytes_spec(sample.metal.resource_limit),
        ),
        says(
            static_report_spec(sample, interval, now),
            "LLM          "@,
            "LLM          "@ + sample.llm_provider@,
        ),
        says(
            static_report_spec(sample, interval, now),
            "LLM          "@,
            " · "@ + sample.llm_status@,
        ),
        says(
            static_report_spec(sample, interval, now),
            "LLM          "@,
            " · "@ + telemetry_source_spec(sample, now),
        ),
        says(
            static_report_spec(sample, interval, now),
            "LLM          "@,
            " · "@ + llm_model_label_spec(sample, 40usize),
        ),
        says(
            static_report_spec(sample, interval, now),
            "SERVING      "@,
            "SERVING      "@ + llm_generation_rate_label_spec(sample),
        ),
        says(
            static_report_spec(sample, interval, now),
            "SERVING      "@,
            " · "@ + llm_prefill_rate_label_spec(sample),
        ),
        says(
            static_report_spec(sample, interval, now),
            "SERVING      "@,
            " · active "@ + count_spec(sample.llm_active_requests),
        ),
        says(
            static_report_spec(sample, interval, now),
            "SERVING      "@,
            " · cache "@ + percent_spec(sample.llm_cache_efficiency),
        ),
        says(
            static_report_spec(sample, interval, now),
            "TOKENS       PROMPT "@,
            "TOKENS       PROMPT "@ + optional_tokens_spec(sample.llm_prompt_tokens),
        ),
        says(
            static_report_spec(sample, interval, now),
            "TOKENS       PROMPT "@,
            " · OUT "@ + optional_tokens_spec(sample.llm_output_tokens),
        ),
        says(
            static_report_spec(sample, interval, now),
            "MLX          version "@,
            "MLX          version "@ + text_or_spec(sample.mlx.version, "—"@),
        ),
        says(
            static_report_spec(sample, interval, now),
            "MLX          version "@,
            " · active "@ + optional_bytes_spec(sample.mlx.active_memory),
        ),
        says(
            static_report_spec(sample, interval, now),
            "MLX          version "@,
            " · cache "@ + optional_bytes_spec(sample.mlx.cache_memory),
        ),
        says(
            static_report_spec(sample, interval, now),
            "MLX          version "@,
            " · peak "@ + optional_bytes_spec(sample.mlx.peak_memory),
        ),
{
    lemma_opening_lines(sample, interval, now);
    let report = static_report_spec(sample, interval, now);
    lemma_runtime_line(sample);
    assert("RUNTIME      thermal "@.is_prefix_of(report[6]));
    lemma_llm_line(sample, now);
    assert("LLM          "@.is_prefix_of(report[7]));
    lemma_serving_line(sample);
    assert("SERVING      "@.is_prefix_of(report[8]));
    lemma_tokens_line(sample);
    assert("TOKENS       PROMPT "@.is_prefix_of(report[9]));
    let at = 10int + request_lines(sample.llm_requests@).len() + process_lines(sample).len();
    lemma_mlx_line(sample);
    assert("MLX          version "@.is_prefix_of(report[at]));
}

/// A report ends with what to do next. It tells of every request, in their order,
/// and of a process with its own figures where one was looked at.
pub proof fn reports_tell_of_requests_and_processes(sample: Sample, interval: u64, now: u64, at: int)
    ensures
        ({
            let report = static_report_spec(sample, interval, now);
            &&& report.last() == "NEXT         "@ + sample.guidance_badge@ + " — "@
                + sample.guidance_action@
            &&& 0 <= at < sample.llm_requests@.len() ==> report[10 + at] == "REQUEST      "@
                + sample.llm_requests@[at]@
        }),
        sample.process_memory matches Some(memory) ==> says(
            static_report_spec(sample, interval, now),
            "PROCESS OS   pid "@,
            "PROCESS OS   pid "@ + decimal(memory.pid as nat),
        ) && says(
            static_report_spec(sample, interval, now),
            "PROCESS OS   pid "@,
            " · footprint "@ + bytes_spec(memory.footprint),
        ) && says(
            static_report_spec(sample, interval, now),
            "PROCESS OS   pid "@,
            " · lifetime peak "@ + bytes_spec(memory.peak),
        ) && says(
            static_report_spec(sample, interval, now),
            "PROCESS OS   pid "@,
            " · RSS "@ + bytes_spec(memory.resident),
        ),
{
    lemma_opening_lines(sample, interval, now);
    let report = static_report_spec(sample, interval, now);
    if 0 <= at < sample.llm_requests@.len() {
        assert(report[10 + at] == request_lines(sample.llm_requests@)[at]);
    }
    if let Some(memory) = sample.process_memory {
        let growth = match sample.process_memory_growth {
            Some(growth) => signed_rate_spec(growth),
            None => "—"@,
        };
        let s0 = "PROCESS OS   pid "@ + decimal(memory.pid as nat);
        lemma_names_line("PROCESS OS   pid "@, decimal(memory.pid as nat));
        let s1 = s0 + " · footprint "@ + bytes_spec(memory.footprint);
        texts_carry_their_parts(s0, " · footprint "@, bytes_spec(memory.footprint));
        let s2 = s1 + " · lifetime peak "@ + bytes_spec(memory.peak);
        texts_carry_their_parts(s1, " · lifetime peak "@, bytes_spec(memory.peak));
        let s3 = s2 + " · RSS "@ + bytes_spec(memory.resident);
        texts_carry_their_parts(s2, " · RSS "@, bytes_spec(memory.resident));
        let s4 = s3 + " · growth "@ + growth;
        texts_carry_their_parts(s3, " · growth "@, growth);
        let i = 10 + request_lines(sample.llm_requests@).len();
        assert(report[i as int] == s4);
        lemma_leads("PROCESS OS   pid "@, report[i as int]);
    }
}
} // verus!
