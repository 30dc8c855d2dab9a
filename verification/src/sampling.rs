//! How readings of the machine become a sample.

use crate::binary64::{
    even_quotients_are_exact, lemma_nearest_is_a_number, lemma_units_positive,
    nothing_stays_nothing, quotients_mirror, rounding_keeps_the_order, signs_are_kept,
    small_products_are_exact, small_whole_numbers_are_exact, whole_numbers_are_finite,
    whole_numbers_keep_their_order, Binary64, SIGNIFICAND_BOUND, UNIT_SCALE,
};
use crate::model::{
    clone_processes, LlmProcess, LlmTelemetry, MetalTelemetry, ProcessMemory, Sample,
    TelemetrySource,
};
use crate::processes::{annotate_process_pagein_rates, annotated, ProcessSnapshot};
use crate::system::{
    assigns, device_dumps_say_their_own_figures, device_parts_say_their_own_figures,
    gpu_columns_say_what_they_stand_for, gpu_fields, gpu_row, is_number, linux_nvidia_info,
    linux_pressure_state, linux_thermal_celsius, linux_thermal_celsius_spec, linux_thermal_label,
    linux_thermal_label_spec, metal_of, parse_gpu, parse_gpu_spec, parse_linux_meminfo,
    parse_linux_meminfo_spec, parse_memory_pressure_stall, parse_metal_hardware, parse_swap_usage,
    parse_swap_usage_spec, parse_thermal, parse_thermal_spec, parse_vm_stat, parse_vm_stat_spec,
    pressure_level, pressure_name, pressure_tone, quoted, stall_spec, LinuxGpuInfo, VmCounters,
};
use crate::text::{
    contains, decimal, digits_are_found, digits_lead_up_to_the_rest, from_digit, is_digit_spec,
    lemma_decimal_digits, lines, lines_of, occurs, same, trim, trimmed, views, whole_number,
    written_numbers_read_back,
};
use crate::thresholds::Tone;
use crate::units::{
    delta, delta_spec, even_growth_is_exact, even_rates_are_exact,
    growth_and_loss_mirror_each_other, no_events_no_rate, product, product_spec, rate_bytes,
    rate_bytes_spec, signed_rate_bytes, signed_rate_bytes_spec, Elapsed, KIB,
};
use vstd::arithmetic::power2::{lemma_pow2_pos, pow2};
use vstd::prelude::*;

verus! {

/// The text that was read, or nothing.
pub open spec fn read_text(output: Option<String>) -> Seq<char> {
    match output {
        Some(output) => output@,
        None => Seq::empty(),
    }
}

fn text_or_empty(output: &Option<String>) -> (out: String)
    ensures
        out@ == read_text(*output),
{
    match output {
        Some(output) => output.clone(),
        None => String::new(),
    }
}

/// What the tools of a Mac printed; what could not be read is missing.
#[derive(Debug)]
pub struct MacReadings {
    pub pressure_level: Option<String>,
    pub memory_pressure: Option<String>,
    pub vm_stat: Option<String>,
    pub swap_usage: Option<String>,
    pub rate_counters: Option<String>,
    pub accelerator: Option<String>,
    pub thermal: Option<String>,
}

/// What the files and tools of a Linux machine hold; what could not be read is
/// missing.
#[derive(Debug)]
pub struct LinuxReadings {
    pub meminfo: Option<String>,
    pub stalls: Option<String>,
    pub vmstat: Option<String>,
    pub gpu: Option<String>,
    pub thermal_zones: Vec<String>,
}

/// The pressure that a kernel level stands for: a name, a meaning and a tone.
pub open spec fn kernel_pressure(level: Seq<char>) -> Option<(Seq<char>, Seq<char>, Tone)> {
    if trimmed(level) == "1"@ {
        Some(("GREEN"@, "normal"@, Tone::Green))
    } else if trimmed(level) == "2"@ {
        Some(("YELLOW"@, "warning"@, Tone::Yellow))
    } else if trimmed(level) == "4"@ {
        Some(("RED"@, "critical"@, Tone::Red))
    } else {
        None
    }
}

/// The first line that holds a text.
pub open spec fn line_holding(list: Seq<Seq<char>>, text: Seq<char>) -> Option<Seq<char>>
    decreases list.len(),
{
    if list.len() == 0 {
        None
    } else if occurs(list[0], text) {
        Some(list[0])
    } else {
        line_holding(list.drop_first(), text)
    }
}

fn find_line_holding(text: &str, wanted: &str) -> (result: Option<String>)
    ensures
        match result {
            Some(line) => line_holding(lines_of(text@), wanted@) == Some(line@),
            None => line_holding(lines_of(text@), wanted@) is None,
        },
{
    let list = lines(text);
    let ghost all = lines_of(text@);
    let mut i: usize = 0;
    assert(all.skip(0) =~= all);
    while i < list.len()
        invariant
            i <= list@.len(),
            all == lines_of(text@),
            views(list@) == all,
            line_holding(all, wanted@) == line_holding(all.skip(i as int), wanted@),
        decreases list@.len() - i,
    {
        assert(all[i as int] == list@[i as int]@);
        if contains(list[i].as_str(), wanted) {
            return Some(list[i].clone());
        }
        assert(all.skip(i as int).drop_first() =~= all.skip(i + 1));
        i = i + 1;
    }
    None
}

/// The first run of digits in a text, as a number of 8 bits.
pub open spec fn first_percent(s: Seq<char>) -> Option<u8> {
    match whole_number(crate::text::digit_run(from_digit(s)), u8::MAX as nat) {
        Some(value) => Some(value as u8),
        None => None,
    }
}

/// The free share that `memory_pressure` prints. Where it prints none, what was
/// known stays.
pub open spec fn free_percentage(output: Option<String>, known: Option<u8>) -> Option<u8> {
    match output {
        Some(output) => match line_holding(lines_of(output@), "free percentage"@) {
            Some(line) => first_percent(line),
            None => known,
        },
        None => known,
    }
}

fn read_free_percentage(output: &Option<String>, known: Option<u8>) -> (result: Option<u8>)
    ensures
        result == free_percentage(*output, known),
{
    match output {
        Some(output) => match find_line_holding(output.as_str(), "free percentage") {
            Some(line) => crate::text::parse_first_u8(line.as_str()),
            None => known,
        },
        None => known,
    }
}

/// Whether `after` is `before` with the memory of a Mac filled in.
pub open spec fn mac_memory_read(
    before: Sample,
    after: Sample,
    readings: MacReadings,
    page_size: u64,
) -> bool {
    let counters = parse_vm_stat_spec(read_text(readings.vm_stat), page_size);
    let (swap_total, swap_used) = parse_swap_usage_spec(read_text(readings.swap_usage));
    &&& match kernel_pressure(read_text(readings.pressure_level)) {
        Some((name, meaning, tone)) => after.pressure@ == name && after.pressure_meaning@ == meaning
            && after.pressure_tone == tone,
        None => after.pressure == before.pressure && after.pressure_meaning
            == before.pressure_meaning && after.pressure_tone == before.pressure_tone,
    }
    &&& after == (Sample {
        pressure: after.pressure,
        pressure_meaning: after.pressure_meaning,
        pressure_tone: after.pressure_tone,
        availability: free_percentage(readings.memory_pressure, before.availability),
        vm_available: trimmed(read_text(readings.vm_stat)).len() > 0,
        wired: counters.wired,
        compressor: counters.compressor,
        compressed_logical: counters.compressed_logical,
        anonymous: counters.anonymous,
        file_backed: counters.file_backed,
        swap_available: readings.swap_usage is Some,
        swap_total,
        swap_used,
        ..before
    })
}

/// Fills the memory of a Mac in.
pub fn sample_macos_memory(sample: &mut Sample, readings: &MacReadings, page_size: u64)
    ensures
        mac_memory_read(*old(sample), *final(sample), *readings, page_size),
{
    let level = trim(text_or_empty(&readings.pressure_level).as_str());
    if same(level.as_str(), "1") {
        sample.pressure = "GREEN".to_string();
        sample.pressure_meaning = "normal".to_string();
        sample.pressure_tone = Tone::Green;
    } else if same(level.as_str(), "2") {
        sample.pressure = "YELLOW".to_string();
        sample.pressure_meaning = "warning".to_string();
        sample.pressure_tone = Tone::Yellow;
    } else if same(level.as_str(), "4") {
        sample.pressure = "RED".to_string();
        sample.pressure_meaning = "critical".to_string();
        sample.pressure_tone = Tone::Red;
    }
    sample.availability = read_free_percentage(&readings.memory_pressure, sample.availability);
    let vm = text_or_empty(&readings.vm_stat);
    sample.vm_available = !trim(vm.as_str()).as_str().is_empty();
    let counters = parse_vm_stat(vm.as_str(), page_size);
    sample.wired = counters.wired;
    sample.compressor = counters.compressor;
    sample.compressed_logical = counters.compressed_logical;
    sample.anonymous = counters.anonymous;
    sample.file_backed = counters.file_backed;
    sample.swap_available = readings.swap_usage.is_some();
    let (swap_total, swap_used) = parse_swap_usage(text_or_empty(&readings.swap_usage).as_str());
    sample.swap_total = swap_total;
    sample.swap_used = swap_used;
}

pub open spec fn at_most_spec(a: u64, b: u64) -> u64 {
    if a <= b {
        a
    } else {
        b
    }
}

/// The free share of a memory, in percent.
pub open spec fn free_share(available: u64, total: u64) -> u64 {
    let share = product_spec(at_most_spec(available, total), 100) as int / total as int;
    if share <= 100 {
        share as u64
    } else {
        100
    }
}

pub open spec fn meaning_of(level: int) -> Seq<char> {
    if level == 2 {
        "critical"@
    } else if level == 1 {
        "warning"@
    } else {
        "normal"@
    }
}

/// Whether `after` is `before` with the memory of a Linux machine filled in.
/// Without `/proc/meminfo` nothing changes.
pub open spec fn linux_memory_read(
    before: Sample,
    after: Sample,
    readings: LinuxReadings,
    total_memory: u64,
) -> bool {
    match readings.meminfo {
        Some(meminfo) => {
            let info = parse_linux_meminfo_spec(meminfo@);
            let total = if total_memory > 0 {
                total_memory
            } else {
                product_spec(info.total_kb, KIB)
            };
            let free = free_share(product_spec(info.available_kb, KIB), total);
            let stall = match readings.stalls {
                Some(stalls) => stall_spec(stalls@),
                None => None,
            };
            let level = pressure_level((100 - free) as u64, stall);
            &&& if total > 0 {
                after.pressure@ == pressure_name(level) && after.pressure_meaning@ == meaning_of(
                    level,
                ) && after.pressure_tone == pressure_tone(level) && after.availability == Some(
                    free as u8,
                )
            } else {
                after.pressure == before.pressure && after.pressure_meaning
                    == before.pressure_meaning && after.pressure_tone == before.pressure_tone
                    && after.availability == before.availability
            }
            &&& after == (Sample {
                pressure: after.pressure,
                pressure_meaning: after.pressure_meaning,
                pressure_tone: after.pressure_tone,
                availability: after.availability,
                total_memory: total,
                vm_available: true,
                anonymous: product_spec(info.anon_kb, KIB),
                file_backed: product_spec(info.file_kb, KIB),
                wired: 0,
                compressor: 0,
                compressed_logical: 0,
                swap_total: product_spec(info.swap_total_kb, KIB),
                swap_used: product_spec(
                    (
                        info.swap_total_kb - at_most_spec(info.swap_free_kb, info.swap_total_kb)
                    ) as u64,
                    KIB,
                ),
                swap_available: info.swap_total_kb > 0,
                ..before
            })
        },
        None => after == before,
    }
}

fn free_share_of(available: u64, total: u64) -> (result: u64)
    requires
        total > 0,
    ensures
        result == free_share(available, total),
        result <= 100,
{
    let kept: u64 = if available <= total {
        available
    } else {
        total
    };
    let share: u64 = product(kept, 100) / total;
    if share <= 100 {
        share
    } else {
        100
    }
}

/// Fills the memory of a Linux machine in.
pub fn sample_linux_memory(sample: &mut Sample, readings: &LinuxReadings, total_memory: u64)
    ensures
        linux_memory_read(*old(sample), *final(sample), *readings, total_memory),
{
    if let Some(meminfo) = &readings.meminfo {
        let info = parse_linux_meminfo(meminfo.as_str());
        let total: u64 = if total_memory > 0 {
            total_memory
        } else {
            product(info.total_kb, KIB)
        };
        sample.total_memory = total;
        sample.vm_available = true;
        sample.anonymous = product(info.anon_kb, KIB);
        sample.file_backed = product(info.file_kb, KIB);
        sample.wired = 0;
        sample.compressor = 0;
        sample.compressed_logical = 0;
        if total > 0 {
            let free: u64 = free_share_of(product(info.available_kb, KIB), total);
            sample.availability = Some(free as u8);
            let stall: Option<Binary64> = match &readings.stalls {
                Some(stalls) => parse_memory_pressure_stall(stalls.as_str()),
                None => None,
            };
            let (pressure, tone) = linux_pressure_state(100 - free, stall);
            sample.pressure = pressure.to_string();
            sample.pressure_meaning = if tone == Tone::Red {
                "critical".to_string()
            } else if tone == Tone::Yellow {
                "warning".to_string()
            } else {
                "normal".to_string()
            };
            sample.pressure_tone = tone;
        }
        sample.swap_total = product(info.swap_total_kb, KIB);
        let swap_free: u64 = if info.swap_free_kb <= info.swap_total_kb {
            info.swap_free_kb
        } else {
            info.swap_total_kb
        };
        sample.swap_used = product(info.swap_total_kb - swap_free, KIB);
        sample.swap_available = info.swap_total_kb > 0;
    }
}

/// Whether `after` is `before` with the GPU and the thermal state of a Mac
/// filled in. A name and a number of cores that are known stay known.
pub open spec fn mac_gpu_read(before: Sample, after: Sample, readings: MacReadings) -> bool {
    let dump = read_text(readings.accelerator);
    let (load, allocated, in_use) = parse_gpu_spec(dump);
    exists|live: MetalTelemetry| #[trigger]
        metal_of(live, dump) && after.thermal@ == parse_thermal_spec(read_text(readings.thermal))
            && after == (Sample {
            thermal: after.thermal,
            gpu_util: load,
            gpu_alloc: allocated,
            gpu_in_use: in_use,
            metal: MetalTelemetry {
                device_name: if live.device_name is Some {
                    live.device_name
                } else {
                    before.metal.device_name
                },
                gpu_cores: if live.gpu_cores is Some {
                    live.gpu_cores
                } else {
                    before.metal.gpu_cores
                },
                renderer_util: live.renderer_util,
                tiler_util: live.tiler_util,
                ..before.metal
            },
            ..before
        })
}

/// Fills the GPU and the thermal state of a Mac in.
pub fn sample_macos_gpu_thermal(sample: &mut Sample, readings: &MacReadings)
    ensures
        mac_gpu_read(*old(sample), *final(sample), *readings),
{
    let dump = text_or_empty(&readings.accelerator);
    let (load, allocated, in_use) = parse_gpu(dump.as_str());
    sample.gpu_util = load;
    sample.gpu_alloc = allocated;
    sample.gpu_in_use = in_use;
    let live = parse_metal_hardware(dump.as_str());
    assert(metal_of(live, dump@));
    if live.device_name.is_some() {
        sample.metal.device_name = live.device_name.clone();
    }
    if live.gpu_cores.is_some() {
        sample.metal.gpu_cores = live.gpu_cores;
    }
    sample.metal.renderer_util = live.renderer_util;
    sample.metal.tiler_util = live.tiler_util;
    sample.thermal = parse_thermal(text_or_empty(&readings.thermal).as_str());
}

/// Whether a GPU is the one that a tool's output describes.
pub open spec fn gpu_of(gpu: Option<LinuxGpuInfo>, output: Option<String>) -> bool {
    match (gpu, output) {
        (Some(gpu), Some(output)) => match gpu_fields(output@) {
            Some(fields) => gpu_row(gpu, fields),
            None => false,
        },
        (None, Some(output)) => gpu_fields(output@) is None,
        (Some(_), None) => false,
        (None, None) => true,
    }
}

/// Whether `after` is `before` with the GPU and the thermal state of a Linux
/// machine filled in. A name and a limit that are known stay known.
pub open spec fn linux_gpu_read(before: Sample, after: Sample, readings: LinuxReadings) -> bool {
    exists|gpu: Option<LinuxGpuInfo>| #[trigger]
        gpu_of(gpu, readings.gpu) && after.thermal@ == linux_thermal_label_spec(
            linux_thermal_celsius_spec(
                match gpu {
                    Some(gpu) => gpu.temp_celsius,
                    None => None,
                },
                views(readings.thermal_zones@),
            ),
        ) && after == (Sample {
            thermal: after.thermal,
            gpu_util: match gpu {
                Some(gpu) => gpu.util_percent,
                None => None,
            },
            gpu_in_use: match gpu {
                Some(gpu) => gpu.used_bytes,
                None => None,
            },
            gpu_alloc: match gpu {
                Some(gpu) => gpu.total_bytes,
                None => None,
            },
            metal: MetalTelemetry {
                device_name: match gpu {
                    Some(gpu) => if before.metal.device_name is Some {
                        before.metal.device_name
                    } else {
                        gpu.name
                    },
                    None => before.metal.device_name,
                },
                resource_limit: match gpu {
                    Some(gpu) => if before.metal.resource_limit is Some {
                        before.metal.resource_limit
                    } else {
                        gpu.total_bytes
                    },
                    None => before.metal.resource_limit,
                },
                renderer_util: None,
                tiler_util: None,
                ..before.metal
            },
            ..before
        })
}

/// Fills the GPU and the thermal state of a Linux machine in.
pub fn sample_linux_gpu_thermal(sample: &mut Sample, readings: &LinuxReadings)
    ensures
        linux_gpu_read(*old(sample), *final(sample), *readings),
{
    let output: Option<&str> = match &readings.gpu {
        Some(output) => Some(output.as_str()),
        None => None,
    };
    let gpu = linux_nvidia_info(output);
    assert(gpu_of(gpu, readings.gpu));
    let mut temperature: Option<u64> = None;
    match &gpu {
        Some(gpu) => {
            sample.gpu_util = gpu.util_percent;
            sample.gpu_in_use = gpu.used_bytes;
            sample.gpu_alloc = gpu.total_bytes;
            if sample.metal.device_name.is_none() {
                sample.metal.device_name = gpu.name.clone();
            }
            if sample.metal.resource_limit.is_none() {
                sample.metal.resource_limit = gpu.total_bytes;
            }
            temperature = gpu.temp_celsius;
        },
        None => {
            sample.gpu_util = None;
            sample.gpu_alloc = None;
            sample.gpu_in_use = None;
        },
    }
    sample.metal.renderer_util = None;
    sample.metal.tiler_util = None;
    let hottest = linux_thermal_celsius(temperature, &readings.thermal_zones);
    sample.thermal = linux_thermal_label(hottest);
}

/// Counters that the next rates are measured against. The moment is in
/// nanoseconds of a clock that does not go back.
#[derive(Clone, Copy, Debug, PartialEq, Eq, Structural)]
pub struct PreviousCounters {
    pub at: u64,
    pub swapins: u64,
    pub swapouts: u64,
    pub compressions: u64,
    pub decompressions: u64,
    pub reactivations: u64,
    pub swap_used: u64,
}

/// The span from one moment to another, in nanoseconds of the same clock.
pub open spec fn elapsed_spec(from: u64, to: u64) -> Elapsed {
    let span = delta_spec(to, from);
    Elapsed { secs: span / 1_000_000_000, nanos: (span % 1_000_000_000) as u32 }
}

/// The span from one moment to another, in nanoseconds of the same clock.
pub fn elapsed_between(from: u64, to: u64) -> (result: Elapsed)
    ensures
        result == elapsed_spec(from, to),
{
    let span: u64 = delta(to, from);
    Elapsed { secs: span / 1_000_000_000, nanos: (span % 1_000_000_000) as u32 }
}

pub open spec fn counter_rate(
    current: u64,
    previous: u64,
    page_size: u64,
    elapsed: Elapsed,
) -> u64 {
    rate_bytes_spec(delta_spec(current, previous), page_size, elapsed) as u64
}

fn rate_of(current: u64, previous: u64, page_size: u64, elapsed: Elapsed) -> (result: u64)
    ensures
        result == counter_rate(current, previous, page_size, elapsed),
{
    rate_bytes(delta(current, previous), page_size, elapsed)
}

/// A sample with its rates filled in, where there is something to measure
/// them against.
pub open spec fn rated(
    before: Sample,
    counters: VmCounters,
    previous: Option<PreviousCounters>,
    page_size: u64,
    at: u64,
) -> Sample {
    match previous {
        Some(previous) => {
            let elapsed = elapsed_spec(previous.at, at);
            Sample {
                swap_in: counter_rate(counters.swapins, previous.swapins, page_size, elapsed),
                swap_out: counter_rate(counters.swapouts, previous.swapouts, page_size, elapsed),
                compress: counter_rate(
                    counters.compressions,
                    previous.compressions,
                    page_size,
                    elapsed,
                ),
                decompress: counter_rate(
                    counters.decompressions,
                    previous.decompressions,
                    page_size,
                    elapsed,
                ),
                reactivated: counter_rate(
                    counters.reactivations,
                    previous.reactivations,
                    page_size,
                    elapsed,
                ),
                swap_growth: signed_rate_bytes_spec(
                    before.swap_used,
                    previous.swap_used,
                    elapsed,
                ) as i64,
                rate_ready: true,
                ..before
            }
        },
        None => before,
    }
}

/// The counters that the next rates are measured against.
pub open spec fn remembered(counters: VmCounters, swap_used: u64, at: u64) -> PreviousCounters {
    PreviousCounters {
        at,
        swapins: counters.swapins,
        swapouts: counters.swapouts,
        compressions: counters.compressions,
        decompressions: counters.decompressions,
        reactivations: counters.reactivations,
        swap_used,
    }
}

/// How fast a process has grown since the reading before, in bytes per second.
/// It takes two readings of one process: the first one, one after a gap and one
/// of a process that was started again say nothing.
pub open spec fn process_memory_growth_spec(
    current: Option<ProcessMemory>,
    previous: Option<ProcessMemory>,
) -> Option<i64> {
    match (current, previous) {
        (Some(current), Some(previous)) => if current.pid == previous.pid && current.started
            == previous.started {
            Some(
                signed_rate_bytes_spec(
                    current.footprint,
                    previous.footprint,
                    elapsed_spec(previous.at, current.at),
                ) as i64,
            )
        } else {
            None
        },
        _ => None,
    }
}

/// How fast a process has grown since the reading before.
pub fn process_memory_growth(
    current: Option<ProcessMemory>,
    previous: Option<ProcessMemory>,
) -> (result: Option<i64>)
    ensures
        result == process_memory_growth_spec(current, previous),
{
    match (current, previous) {
        (Some(current), Some(previous)) => if current.pid == previous.pid && current.started
            == previous.started {
            let elapsed = elapsed_between(previous.at, current.at);
            Some(signed_rate_bytes(current.footprint, previous.footprint, elapsed))
        } else {
            None
        },
        _ => None,
    }
}

/// Growth starts over with the first reading, after one that is missing and with
/// a process that was started again. Its sign is that of the change.
pub proof fn growth_follows_one_process(
    current: Option<ProcessMemory>,
    previous: Option<ProcessMemory>,
)
    ensures
        current is None || previous is None ==> process_memory_growth_spec(current, previous)
            is None,
        current is Some && previous is Some ==> {
            let (now, then) = (current.unwrap(), previous.unwrap());
            let growth = process_memory_growth_spec(current, previous);
            &&& growth is Some <==> now.pid == then.pid && now.started == then.started
            &&& growth is Some && growth.unwrap() > 0 ==> now.footprint > then.footprint
            &&& growth is Some && growth.unwrap() < 0 ==> now.footprint < then.footprint
            &&& growth is Some && now.footprint == then.footprint ==> growth == Some(0i64)
        },
{
    if let (Some(now), Some(then)) = (current, previous) {
        growth_and_loss_mirror_each_other(
            now.footprint,
            then.footprint,
            elapsed_spec(then.at, now.at),
        );
    }
}

/// Fills the rates in, and remembers the counters for the next time.
pub fn sample_rates(
    sample: &mut Sample,
    counters: VmCounters,
    previous: &mut Option<PreviousCounters>,
    page_size: u64,
    at: u64,
)
    ensures
        *final(sample) == rated(*old(sample), counters, *old(previous), page_size, at),
        *final(previous) == Some(remembered(counters, old(sample).swap_used, at)),
{
    if let Some(known) = *previous {
        let elapsed = elapsed_between(known.at, at);
        sample.swap_in = rate_of(counters.swapins, known.swapins, page_size, elapsed);
        sample.swap_out = rate_of(counters.swapouts, known.swapouts, page_size, elapsed);
        sample.compress = rate_of(counters.compressions, known.compressions, page_size, elapsed);
        sample.decompress = rate_of(
            counters.decompressions,
            known.decompressions,
            page_size,
            elapsed,
        );
        sample.reactivated = rate_of(
            counters.reactivations,
            known.reactivations,
            page_size,
            elapsed,
        );
        sample.swap_growth = signed_rate_bytes(sample.swap_used, known.swap_used, elapsed);
        sample.rate_ready = true;
    }
    *previous = Some(
        PreviousCounters {
            at,
            swapins: counters.swapins,
            swapouts: counters.swapouts,
            compressions: counters.compressions,
            decompressions: counters.decompressions,
            reactivations: counters.reactivations,
            swap_used: sample.swap_used,
        },
    );
}

/// Whether `after` is `before` with the processes filled in.
pub open spec fn processes_read(
    before: Sample,
    after: Sample,
    snapshot: ProcessSnapshot,
    known: Seq<LlmProcess>,
    elapsed: Option<Elapsed>,
) -> bool {
    &&& after.llm_top@ == match snapshot.top_llm {
        Some(process) => process.name@,
        None => "none"@,
    }
    &&& after.llm_processes@ == match elapsed {
        Some(elapsed) => snapshot.llm_processes@.map_values(
            |p: LlmProcess| annotated(p, known, elapsed),
        ),
        None => snapshot.llm_processes@,
    }
    &&& after == (Sample {
        llm_top: after.llm_top,
        llm_processes: after.llm_processes,
        llm_count: snapshot.llm_count,
        llm_rss: snapshot.llm_rss,
        llm_cpu: snapshot.llm_cpu,
        llm_pid: match snapshot.top_llm {
            Some(process) => process.pid,
            None => 0,
        },
        largest_consumer: snapshot.largest_consumer,
        ..before
    })
}

/// Fills the processes in. Where they were seen before, the rates of their
/// page-ins are measured.
pub fn sample_processes(
    sample: &mut Sample,
    snapshot: &ProcessSnapshot,
    known: &Vec<LlmProcess>,
    elapsed: Option<Elapsed>,
)
    ensures
        processes_read(*old(sample), *final(sample), *snapshot, known@, elapsed),
{
    sample.llm_count = snapshot.llm_count;
    sample.llm_rss = snapshot.llm_rss;
    sample.llm_cpu = snapshot.llm_cpu;
    match &snapshot.top_llm {
        Some(process) => {
            sample.llm_pid = process.pid;
            sample.llm_top = process.name.clone();
        },
        None => {
            sample.llm_pid = 0;
            sample.llm_top = "none".to_string();
        },
    }
    sample.largest_consumer = snapshot.largest_consumer.clone();
    let mut processes = clone_processes(&snapshot.llm_processes);
    if let Some(elapsed) = elapsed {
        annotate_process_pagein_rates(&mut processes, known, elapsed);
    }
    sample.llm_processes = processes;
}

/// What a completion log says of the last request.
#[derive(Debug)]
pub struct LlmLogStats {
    pub model: Option<String>,
    pub tokens_per_second: Option<Binary64>,
    pub output_tokens: Option<u64>,
    pub prompt_tokens: Option<u64>,
    pub observed_at: Option<u64>,
}

impl Default for LlmLogStats {
    fn default() -> (result: Self)
        ensures
            result == (LlmLogStats {
                model: None,
                tokens_per_second: None,
                output_tokens: None,
                prompt_tokens: None,
                observed_at: None,
            }),
    {
        LlmLogStats {
            model: None,
            tokens_per_second: None,
            output_tokens: None,
            prompt_tokens: None,
            observed_at: None,
        }
    }
}

pub open spec fn text_of(value: Option<String>) -> Option<Seq<char>> {
    match value {
        Some(value) => Some(value@),
        None => None,
    }
}

/// Whether a server that writes the completion log may be running.
pub open spec fn may_be_omlx(detected: Option<Seq<char>>) -> bool {
    detected is None || detected == Some("oMLX"@)
}

fn is_maybe_omlx(detected: &Option<String>) -> (result: bool)
    ensures
        result == may_be_omlx(text_of(*detected)),
{
    match detected {
        Some(name) => same(name.as_str(), "oMLX"),
        None => true,
    }
}

/// Whether the completion log is worth reading: no server answered, none of
/// another kind is in charge, and one that writes the log may be running.
pub fn should_read_log(
    adapter_selected: bool,
    answered: bool,
    detected: &Option<String>,
) -> (result:
    bool)
    ensures
        result == (!adapter_selected && !answered && may_be_omlx(text_of(*detected))),
{
    !adapter_selected && !answered && is_maybe_omlx(detected)
}

/// Whether a live answer is more than five seconds old. The moments are in
/// nanoseconds.
pub open spec fn stale_spec(live: Option<LlmTelemetry>, now: u64) -> bool {
    match live {
        Some(live) => live.source == TelemetrySource::Live && live.observed_at is Some
            && delta_spec(
            now,
            live.observed_at.unwrap(),
        ) > 5_000_000_000,
        None => false,
    }
}

fn is_stale(live: &Option<LlmTelemetry>, now: u64) -> (result: bool)
    ensures
        result == stale_spec(*live, now),
{
    match live {
        Some(live) => {
            if live.source == TelemetrySource::Live {
                match live.observed_at {
                    Some(observed_at) => delta(now, observed_at) > 5_000_000_000,
                    None => false,
                }
            } else {
                false
            }
        },
        None => false,
    }
}

/// Totals that the share of cached tokens is measured between.
#[derive(Clone, Copy, Debug, PartialEq, Eq, Structural)]
pub struct CacheCounters {
    pub prompt_tokens: u64,
    pub cached_tokens: u64,
}

/// The totals that an answer holds.
pub open spec fn cache_counters(live: Option<LlmTelemetry>) -> Option<CacheCounters> {
    match live {
        Some(live) => match (live.total_prompt_tokens, live.total_cached_tokens) {
            (Some(prompt_tokens), Some(cached_tokens)) => Some(
                CacheCounters { prompt_tokens, cached_tokens },
            ),
            _ => None,
        },
        None => None,
    }
}

/// The share of the prompt tokens between two totals that came out of the
/// cache, in percent. Without new prompt tokens there is none.
pub open spec fn interval_share(
    previous: Option<CacheCounters>,
    current: Option<CacheCounters>,
) -> Option<Binary64> {
    match (previous, current) {
        (Some(previous), Some(current)) => {
            let prompts = delta_spec(current.prompt_tokens, previous.prompt_tokens);
            let cached = delta_spec(current.cached_tokens, previous.cached_tokens);
            let kept = if cached <= prompts {
                cached
            } else {
                prompts
            };
            if prompts == 0 {
                None
            } else {
                Some(
                    Binary64::of_nat(kept as nat).quotient(
                        Binary64::of_nat(prompts as nat),
                    ).product(Binary64::of_nat(100)),
                )
            }
        },
        _ => None,
    }
}

/// The share of cached tokens since the last answer. A stale answer measures
/// nothing and leaves the totals as they were; one without totals starts anew.
pub fn cache_interval_efficiency(
    previous: &mut Option<CacheCounters>,
    live: &Option<LlmTelemetry>,
    stale: bool,
) -> (result: Option<Binary64>)
    ensures
        result == if stale {
            None
        } else {
            interval_share(*old(previous), cache_counters(*live))
        },
        *final(previous) == if stale {
            *old(previous)
        } else {
            cache_counters(*live)
        },
{
    if stale {
        return None;
    }
    let current: Option<CacheCounters> = match live {
        Some(live) => match (live.total_prompt_tokens, live.total_cached_tokens) {
            (Some(prompt_tokens), Some(cached_tokens)) => Some(
                CacheCounters { prompt_tokens, cached_tokens },
            ),
            _ => None,
        },
        None => None,
    };
    let known = *previous;
    *previous = current;
    match (known, current) {
        (Some(known), Some(current)) => {
            let prompts: u64 = delta(current.prompt_tokens, known.prompt_tokens);
            let cached: u64 = delta(current.cached_tokens, known.cached_tokens);
            let kept: u64 = if cached <= prompts {
                cached
            } else {
                prompts
            };
            if prompts == 0 {
                None
            } else {
                Some(
                    Binary64::from_u64(kept).over(Binary64::from_u64(prompts)).times(
                        Binary64::from_u64(100),
                    ),
                )
            }
        },
        _ => None,
    }
}

/// What is shown of the server where the answer says nothing of it.
pub open spec fn provider_spec(
    live: Option<LlmTelemetry>,
    detected: Option<Seq<char>>,
    use_log: bool,
) -> Seq<char> {
    if live is Some && live.unwrap().provider is Some {
        live.unwrap().provider.unwrap()@
    } else if detected is Some {
        detected.unwrap()
    } else if use_log {
        "oMLX"@
    } else {
        "none"@
    }
}

pub open spec fn status_spec(
    live: Option<LlmTelemetry>,
    stale: bool,
    use_log: bool,
    llm_count: u32,
) -> Seq<char> {
    if stale {
        "stale"@
    } else if live is Some && live.unwrap().status is Some {
        live.unwrap().status.unwrap()@
    } else if use_log {
        "last result"@
    } else if llm_count > 0 {
        "running"@
    } else {
        "offline"@
    }
}

pub open spec fn model_spec(
    live: Option<LlmTelemetry>,
    log: LlmLogStats,
    use_log: bool,
    before: Sample,
) -> Seq<char> {
    if live is Some && live.unwrap().model is Some {
        live.unwrap().model.unwrap()@
    } else if use_log {
        log.model.unwrap()@
    } else if before.llm_count > 0 {
        before.llm_top@
    } else {
        "not detected"@
    }
}

/// Whether the log stands in for an answer.
pub open spec fn uses_log(log: LlmLogStats, detected: Option<Seq<char>>) -> bool {
    log.model is Some && may_be_omlx(detected)
}

/// Whether `after` is `before` with the figures on the serving process filled
/// in: those of the answer, and those of the completion log where there is no
/// answer. A rate is live only where a fresh answer says so.
pub open spec fn telemetry_read(
    before: Sample,
    after: Sample,
    live: Option<LlmTelemetry>,
    log: LlmLogStats,
    detected: Option<Seq<char>>,
    cached: Option<CacheCounters>,
    now: u64,
) -> bool {
    let use_log = uses_log(log, detected);
    let stale = stale_spec(live, now);
    let answer = answer_of(live);
    let mlx = answer.mlx;
    let alone = live is None && use_log;
    &&& after.llm_provider@ == provider_spec(live, detected, use_log)
    &&& after.llm_status@ == status_spec(live, stale, use_log, before.llm_count)
    &&& after.llm_model@ == model_spec(live, log, use_log, before)
    &&& after == (Sample {
        llm_provider: after.llm_provider,
        llm_status: after.llm_status,
        llm_model: after.llm_model,
        mlx,
        metal: MetalTelemetry {
            resource_limit: known_or(before.metal.resource_limit, true, mlx.resource_limit),
            ..before.metal
        },
        llm_source: match live {
            Some(live) => live.source,
            None => if use_log {
                TelemetrySource::Log
            } else {
                TelemetrySource::Unavailable
            },
        },
        llm_observed_at: known_or(answer.observed_at, use_log, log.observed_at),
        llm_generation_tps: if answer.generation_tps is Some {
            answer.generation_tps
        } else if alone {
            log.tokens_per_second
        } else {
            None
        },
        llm_generation_tps_live: !stale && answer.generation_tps_live,
        llm_prefill_tps: answer.prefill_tps,
        llm_prefill_tps_live: !stale && answer.prefill_tps_live,
        llm_output_tokens: known_or(answer.output_tokens, alone, log.output_tokens),
        llm_prompt_tokens: known_or(answer.prompt_tokens, alone, log.prompt_tokens),
        llm_cache_efficiency: answer.cache_efficiency,
        llm_cache_interval_efficiency: if stale {
            None
        } else {
            interval_share(cached, cache_counters(live))
        },
        llm_prefix_hit_rate: answer.prefix_hit_rate,
        llm_active_requests: answer.active_requests,
        llm_waiting_requests: answer.waiting_requests,
        llm_model_memory: answer.model_memory,
        llm_model_memory_max: answer.model_memory_max,
        ..before
    })
}

/// The answer, or one that says nothing.
pub open spec fn answer_of(live: Option<LlmTelemetry>) -> LlmTelemetry {
    match live {
        Some(live) => live,
        None => LlmTelemetry::nothing_spec(),
    }
}

fn provider_of(answer: &LlmTelemetry, detected: &Option<String>, use_log: bool) -> (out: String)
    ensures
        out@ == provider_spec(Some(*answer), text_of(*detected), use_log),
{
    match &answer.provider {
        Some(provider) => provider.clone(),
        None => match detected {
            Some(provider) => provider.clone(),
            None => if use_log {
                "oMLX".to_string()
            } else {
                "none".to_string()
            },
        },
    }
}

fn status_of(answer: &LlmTelemetry, stale: bool, use_log: bool, llm_count: u32) -> (out: String)
    ensures
        out@ == status_spec(Some(*answer), stale, use_log, llm_count),
{
    if stale {
        return "stale".to_string();
    }
    match &answer.status {
        Some(status) => status.clone(),
        None => if use_log {
            "last result".to_string()
        } else if llm_count > 0 {
            "running".to_string()
        } else {
            "offline".to_string()
        },
    }
}

fn model_of(
    answer: &LlmTelemetry,
    log: &LlmLogStats,
    use_log: bool,
    sample: &Sample,
) -> (out: String)
    requires
        use_log ==> log.model is Some,
    ensures
        out@ == model_spec(Some(*answer), *log, use_log, *sample),
{
    if let Some(model) = &answer.model {
        return model.clone();
    }
    if use_log {
        if let Some(model) = &log.model {
            return model.clone();
        }
    }
    if sample.llm_count > 0 {
        sample.llm_top.clone()
    } else {
        "not detected".to_string()
    }
}

/// A count, or another one where it is missing and the other may stand in.
pub open spec fn known_or(value: Option<u64>, allowed: bool, other: Option<u64>) -> Option<u64> {
    if value is Some {
        value
    } else if allowed {
        other
    } else {
        None
    }
}

fn first_known(value: Option<u64>, allowed: bool, other: Option<u64>) -> (result: Option<u64>)
    ensures
        result == known_or(value, allowed, other),
{
    if value.is_some() {
        value
    } else if allowed {
        other
    } else {
        None
    }
}

fn rate_known(value: Option<Binary64>, allowed: bool, other: Option<Binary64>) -> (result: Option<
    Binary64,
>)
    ensures
        result == if value is Some {
            value
        } else if allowed {
            other
        } else {
            None
        },
{
    if value.is_some() {
        value
    } else if allowed {
        other
    } else {
        None
    }
}

fn source_of(live: &Option<LlmTelemetry>, use_log: bool) -> (result: TelemetrySource)
    ensures
        result == match *live {
            Some(live) => live.source,
            None => if use_log {
                TelemetrySource::Log
            } else {
                TelemetrySource::Unavailable
            },
        },
{
    match live {
        Some(live) => live.source,
        None => if use_log {
            TelemetrySource::Log
        } else {
            TelemetrySource::Unavailable
        },
    }
}

/// Fills the figures on the serving process in.
pub fn sample_telemetry(
    sample: &mut Sample,
    live: &Option<LlmTelemetry>,
    log: &LlmLogStats,
    detected: &Option<String>,
    cached: &mut Option<CacheCounters>,
    now: u64,
)
    ensures
        telemetry_read(
            *old(sample),
            *final(sample),
            *live,
            *log,
            text_of(*detected),
            *old(cached),
            now,
        ),
        *final(cached) == if stale_spec(*live, now) {
            *old(cached)
        } else {
            cache_counters(*live)
        },
{
    let stale = is_stale(live, now);
    let use_log = log.model.is_some() && is_maybe_omlx(detected);
    let answer: LlmTelemetry = match live {
        Some(live) => live.clone(),
        None => LlmTelemetry::nothing(),
    };
    assert(answer == answer_of(*live));
    let alone = live.is_none() && use_log;
    let share = cache_interval_efficiency(cached, live, stale);
    sample.llm_model = model_of(&answer, log, use_log, sample);
    sample.llm_provider = provider_of(&answer, detected, use_log);
    sample.llm_status = status_of(&answer, stale, use_log, sample.llm_count);
    sample.metal.resource_limit = first_known(
        sample.metal.resource_limit,
        true,
        answer.mlx.resource_limit,
    );
    sample.llm_source = source_of(live, use_log);
    sample.llm_observed_at = first_known(answer.observed_at, use_log, log.observed_at);
    sample.llm_generation_tps = rate_known(answer.generation_tps, alone, log.tokens_per_second);
    sample.llm_generation_tps_live = !stale && answer.generation_tps_live;
    sample.llm_prefill_tps = answer.prefill_tps;
    sample.llm_prefill_tps_live = !stale && answer.prefill_tps_live;
    sample.llm_output_tokens = first_known(answer.output_tokens, alone, log.output_tokens);
    sample.llm_prompt_tokens = first_known(answer.prompt_tokens, alone, log.prompt_tokens);
    sample.llm_cache_efficiency = answer.cache_efficiency;
    sample.llm_cache_interval_efficiency = share;
    sample.llm_prefix_hit_rate = answer.prefix_hit_rate;
    sample.llm_active_requests = answer.active_requests;
    sample.llm_waiting_requests = answer.waiting_requests;
    sample.llm_model_memory = answer.model_memory;
    sample.llm_model_memory_max = answer.model_memory_max;
    sample.mlx = answer.mlx;
}

/// Neither a stale answer nor a log makes a rate live.
pub proof fn only_fresh_answers_are_live(
    before: Sample,
    after: Sample,
    live: Option<LlmTelemetry>,
    log: LlmLogStats,
    detected: Option<Seq<char>>,
    cached: Option<CacheCounters>,
    now: u64,
)
    requires
        telemetry_read(before, after, live, log, detected, cached, now),
        live is None || stale_spec(live, now),
    ensures
        !after.llm_generation_tps_live,
        !after.llm_prefill_tps_live,
        live is Some ==> after.llm_cache_interval_efficiency is None,
{
}

/// Whether a counter has moved by as many pages in each of some seconds.
pub open spec fn moved_evenly(current: u64, previous: u64, per_second: u64, secs: u64) -> bool {
    current == previous + per_second * secs
}

/// Each rate is that of its own counter, whatever the others do. A counter that
/// stands still, or was set back, has no rate; one that moves by as many pages in
/// every second has exactly that rate in bytes.
pub proof fn rates_follow_their_own_counters(
    before: Sample,
    counters: VmCounters,
    previous: PreviousCounters,
    page_size: u64,
    at: u64,
    per_second: u64,
    secs: u64,
)
    requires
        0 < secs,
        0 < page_size,
        per_second * secs * page_size < SIGNIFICAND_BOUND,
        at == previous.at + secs * 1_000_000_000,
    ensures
        ({
            let after = rated(before, counters, Some(previous), page_size, at);
            &&& after.rate_ready
            &&& counters.swapins <= previous.swapins ==> after.swap_in == 0
            &&& counters.swapouts <= previous.swapouts ==> after.swap_out == 0
            &&& counters.compressions <= previous.compressions ==> after.compress == 0
            &&& counters.decompressions <= previous.decompressions ==> after.decompress == 0
            &&& counters.reactivations <= previous.reactivations ==> after.reactivated == 0
            &&& moved_evenly(counters.swapins, previous.swapins, per_second, secs)
                ==> after.swap_in == per_second * page_size
            &&& moved_evenly(counters.swapouts, previous.swapouts, per_second, secs)
                ==> after.swap_out == per_second * page_size
            &&& moved_evenly(counters.compressions, previous.compressions, per_second, secs)
                ==> after.compress == per_second * page_size
            &&& moved_evenly(counters.decompressions, previous.decompressions, per_second, secs)
                ==> after.decompress == per_second * page_size
            &&& moved_evenly(counters.reactivations, previous.reactivations, per_second, secs)
                ==> after.reactivated == per_second * page_size
        }),
{
    let elapsed = Elapsed { secs, nanos: 0 };
    assert(elapsed_spec(previous.at, at) == elapsed) by {
        let span = (at - previous.at) as int;
        assert(span == secs * 1_000_000_000);
        assert(span / 1_000_000_000 == secs && span % 1_000_000_000 == 0);
    }
    no_events_no_rate(page_size, elapsed);
    even_rates_are_exact(per_second, page_size, secs);
    let rate = (per_second * page_size) as nat;
    assert(rate <= per_second * secs * page_size) by (nonlinear_arith)
        requires
            rate == per_second * page_size,
            secs >= 1,
    ;
}

/// The swap space grows by what was added to it in each second, and shrinks by
/// what was given back.
pub proof fn swap_growth_follows_its_use(
    before: Sample,
    counters: VmCounters,
    previous: PreviousCounters,
    page_size: u64,
    at: u64,
    step: u64,
    secs: u64,
)
    requires
        0 < secs,
        at == previous.at + secs * 1_000_000_000,
    ensures
        ({
            let after = rated(before, counters, Some(previous), page_size, at);
            &&& before.swap_used == previous.swap_used ==> after.swap_growth == 0
            &&& after.swap_growth > 0 ==> before.swap_used > previous.swap_used
            &&& after.swap_growth < 0 ==> before.swap_used < previous.swap_used
            &&& before.swap_used == previous.swap_used + step * secs && before.swap_used
                < SIGNIFICAND_BOUND ==> after.swap_growth == step
            &&& previous.swap_used == before.swap_used + step * secs && previous.swap_used
                < SIGNIFICAND_BOUND ==> after.swap_growth == -step
        }),
{
    let elapsed = Elapsed { secs, nanos: 0 };
    assert(elapsed_spec(previous.at, at) == elapsed) by {
        let span = (at - previous.at) as int;
        assert(span == secs * 1_000_000_000);
        assert(span / 1_000_000_000 == secs && span % 1_000_000_000 == 0);
    }
    growth_and_loss_mirror_each_other(before.swap_used, previous.swap_used, elapsed);
    assert(step <= step * secs) by (nonlinear_arith)
        requires
            secs >= 1,
    ;
    if before.swap_used == previous.swap_used + step * secs && before.swap_used < SIGNIFICAND_BOUND {
        even_growth_is_exact(previous.swap_used, step, secs);
    }
    if previous.swap_used == before.swap_used + step * secs && previous.swap_used
        < SIGNIFICAND_BOUND {
        even_growth_is_exact(before.swap_used, step, secs);
    }
}

/// What is measured against next time is what was read this time, counter by
/// counter: two readings that are alike have no rates between them.
pub proof fn remembered_counters_are_those_that_were_read(
    before: Sample,
    counters: VmCounters,
    page_size: u64,
    at: u64,
    later: u64,
)
    ensures
        ({
            let known = remembered(counters, before.swap_used, at);
            let after = rated(before, counters, Some(known), page_size, later);
            &&& known.at == at
            &&& after.swap_in == 0 && after.swap_out == 0 && after.compress == 0
            &&& after.decompress == 0 && after.reactivated == 0 && after.swap_growth == 0
        }),
        rated(before, counters, None, page_size, at) == before,
{
    no_events_no_rate(page_size, elapsed_spec(at, later));
    growth_and_loss_mirror_each_other(before.swap_used, before.swap_used, elapsed_spec(at, later));
}

/// What an answer says is what is shown of it, figure by figure. A rate is shown
/// as live only where it is, and not once the answer is older than five seconds.
pub proof fn answers_are_shown_as_they_are(
    before: Sample,
    after: Sample,
    live: LlmTelemetry,
    log: LlmLogStats,
    detected: Option<Seq<char>>,
    cached: Option<CacheCounters>,
    now: u64,
)
    requires
        telemetry_read(before, after, Some(live), log, detected, cached, now),
    ensures
        after.llm_source == live.source,
        after.llm_generation_tps == live.generation_tps,
        after.llm_prefill_tps == live.prefill_tps,
        after.llm_output_tokens == live.output_tokens,
        after.llm_prompt_tokens == live.prompt_tokens,
        after.llm_cache_efficiency == live.cache_efficiency,
        after.llm_prefix_hit_rate == live.prefix_hit_rate,
        after.llm_active_requests == live.active_requests,
        after.llm_waiting_requests == live.waiting_requests,
        after.llm_model_memory == live.model_memory,
        after.llm_model_memory_max == live.model_memory_max,
        after.mlx == live.mlx,
        live.observed_at is Some ==> after.llm_observed_at == live.observed_at,
        live.provider is Some ==> after.llm_provider@ == live.provider.unwrap()@,
        live.provider is None && detected is Some ==> after.llm_provider@ == detected.unwrap(),
        live.model is Some ==> after.llm_model@ == live.model.unwrap()@,
        live.source == TelemetrySource::Live && live.observed_at is Some && now
            > live.observed_at.unwrap() + 5_000_000_000 ==> after.llm_status@ == "stale"@
            && !after.llm_generation_tps_live && !after.llm_prefill_tps_live
            && after.llm_cache_interval_efficiency is None,
        live.observed_at is Some && now <= live.observed_at.unwrap() + 5_000_000_000
            ==> after.llm_generation_tps_live == live.generation_tps_live
            && after.llm_prefill_tps_live == live.prefill_tps_live && (live.status is Some
            ==> after.llm_status@ == live.status.unwrap()@),
{
}

/// Without an answer the log of an oMLX server stands in, as a last result and
/// never as a live one. Without either, what is known of the processes is shown.
pub proof fn the_log_stands_in_for_an_answer(
    before: Sample,
    after: Sample,
    log: LlmLogStats,
    detected: Option<Seq<char>>,
    cached: Option<CacheCounters>,
    now: u64,
)
    requires
        telemetry_read(before, after, None, log, detected, cached, now),
    ensures
        ({
            let stands_in = log.model is Some && (detected is None || detected == Some("oMLX"@));
            &&& !after.llm_generation_tps_live && !after.llm_prefill_tps_live
            &&& after.llm_prefill_tps is None && after.llm_active_requests is None
                && after.llm_waiting_requests is None && after.llm_cache_efficiency is None
            &&& stands_in ==> after.llm_source == TelemetrySource::Log && after.llm_status@
                == "last result"@ && after.llm_model@ == log.model.unwrap()@
                && after.llm_provider@ == "oMLX"@ && after.llm_generation_tps
                == log.tokens_per_second && after.llm_output_tokens == log.output_tokens
                && after.llm_prompt_tokens == log.prompt_tokens && after.llm_observed_at
                == log.observed_at
            &&& !stands_in ==> after.llm_source == TelemetrySource::Unavailable
                && after.llm_generation_tps is None && after.llm_output_tokens is None
                && after.llm_prompt_tokens is None
            &&& !stands_in && before.llm_count > 0 ==> after.llm_status@ == "running"@
                && after.llm_model@ == before.llm_top@
            &&& !stands_in && before.llm_count == 0 ==> after.llm_status@ == "offline"@
                && after.llm_model@ == "not detected"@
            &&& !stands_in && detected is Some ==> after.llm_provider@ == detected.unwrap()
            &&& !stands_in && detected is None ==> after.llm_provider@ == "none"@
        }),
{
}

/// The share of cached tokens is that of the tokens since the last answer: all of
/// them make a hundred per cent, none of them make none, and without new tokens,
/// or without totals before, there is no share.
pub proof fn cache_shares_are_of_new_tokens(previous: CacheCounters, current: CacheCounters)
    ensures
        interval_share(None, Some(current)) is None,
        interval_share(Some(previous), None) is None,
        current.prompt_tokens <= previous.prompt_tokens ==> interval_share(
            Some(previous),
            Some(current),
        ) is None,
        current.prompt_tokens > previous.prompt_tokens ==> interval_share(
            Some(previous),
            Some(current),
        ) is Some,
        current.prompt_tokens > previous.prompt_tokens && current.cached_tokens
            <= previous.cached_tokens ==> interval_share(
            Some(previous),
            Some(current),
        ).unwrap().zero_spec(),
        previous.prompt_tokens < current.prompt_tokens < previous.prompt_tokens + SIGNIFICAND_BOUND
            && current.cached_tokens - previous.cached_tokens >= current.prompt_tokens
            - previous.prompt_tokens ==> {
            let share = interval_share(Some(previous), Some(current)).unwrap();
            share.finite_spec() && !share.negative_spec() && share.units() == 100 * pow2(
                UNIT_SCALE as nat,
            )
        },
{
    let prompts = delta_spec(current.prompt_tokens, previous.prompt_tokens);
    let hundred = Binary64::of_nat(100);
    lemma_pow2_pos(UNIT_SCALE as nat);
    small_whole_numbers_are_exact(0);
    small_whole_numbers_are_exact(1);
    small_whole_numbers_are_exact(100);
    if prompts > 0 {
        let whole = Binary64::of_nat(prompts as nat);
        let none = Binary64::of_nat(0);
        whole_numbers_are_finite(prompts as nat);
        lemma_units_positive(none);
        quotients_mirror(none, none, whole);
        whole_numbers_keep_their_order(1, prompts as nat);
        lemma_units_positive(whole);
        assert(whole.units() > 0);
        lemma_zero_quotient_is_finite(none, whole);
        nothing_stays_nothing(none.quotient(whole), hundred);
        if prompts < SIGNIFICAND_BOUND {
            small_whole_numbers_are_exact(prompts as nat);
            even_quotients_are_exact(whole, whole, 1, prompts as nat);
            signs_are_kept(whole, whole);
            small_products_are_exact(whole.quotient(whole), hundred, 1, 100);
        }
    }
}

proof fn lemma_zero_quotient_is_finite(none: Binary64, whole: Binary64)
    requires
        none.zero_spec(),
        !none.negative_spec(),
        whole.finite_spec(),
        whole.units() > 0,
    ensures
        none.quotient(whole).zero_spec(),
{
    quotients_mirror(none, none, whole);
    lemma_units_positive(none);
    lemma_units_positive(whole);
    let n = none.units() * pow2(UNIT_SCALE as nat);
    lemma_nearest_is_a_number(false, n, whole.units());
    lemma_nearest_is_a_number(true, n, whole.units());
    assert(n == 0);
    lemma_pow2_pos(UNIT_SCALE as nat);
    rounding_keeps_the_order(0, whole.units(), 0, 1);
    small_whole_numbers_are_exact(0);
    lemma_nearest_is_a_number(false, 0, 1);
}

/// What a Linux machine says of its memory is what is shown of it: what is
/// available as a share of the whole, rounded down, and the swap space that is
/// not free as used.
pub proof fn linux_memory_is_shown_as_it_is(
    before: Sample,
    after: Sample,
    readings: LinuxReadings,
    total_memory: u64,
)
    requires
        linux_memory_read(before, after, readings, total_memory),
        readings.meminfo is Some,
    ensures
        ({
            let info = parse_linux_meminfo_spec(readings.meminfo.unwrap()@);
            let total = if total_memory > 0 {
                total_memory as int
            } else {
                info.total_kb * 1024
            };
            &&& after.vm_available
            &&& total <= u64::MAX ==> after.total_memory == total
            &&& after.swap_available == (info.swap_total_kb > 0)
            &&& info.swap_total_kb * 1024 <= u64::MAX ==> after.swap_total == info.swap_total_kb
                * 1024
            &&& info.swap_free_kb <= info.swap_total_kb && info.swap_total_kb * 1024 <= u64::MAX
                ==> after.swap_used + info.swap_free_kb * 1024 == after.swap_total
            &&& info.swap_free_kb > info.swap_total_kb ==> after.swap_used == 0
            &&& info.anon_kb * 1024 <= u64::MAX ==> after.anonymous == info.anon_kb * 1024
            &&& info.file_kb * 1024 <= u64::MAX ==> after.file_backed == info.file_kb * 1024
            &&& 0 < total <= u64::MAX && info.available_kb * 1024 <= total && info.available_kb
                * 1024 * 100 <= u64::MAX ==> {
                &&& after.availability is Some
                &&& after.availability.unwrap() * total <= info.available_kb * 1024 * 100
                &&& info.available_kb * 1024 * 100 < (after.availability.unwrap() + 1) * total
            }
            &&& 0 < total <= u64::MAX && after.availability is Some
                && after.availability.unwrap() <= 15 ==> after.pressure@ == "RED"@
                && after.pressure_meaning@ == "critical"@
            &&& 0 < total <= u64::MAX && readings.stalls is None && after.availability.unwrap()
                > 30 ==> after.pressure@ == "GREEN"@ && after.pressure_meaning@ == "normal"@
            &&& 0 < total <= u64::MAX && readings.stalls is None && 15
                < after.availability.unwrap() <= 30 ==> after.pressure@ == "YELLOW"@
                && after.pressure_meaning@ == "warning"@
        }),
{
    let info = parse_linux_meminfo_spec(readings.meminfo.unwrap()@);
    let total = if total_memory > 0 {
        total_memory as int
    } else {
        info.total_kb * 1024
    };
    if 0 < total <= u64::MAX {
        let available = product_spec(info.available_kb, KIB);
        lemma_share(available, total as u64);
    }
}

proof fn lemma_share(available: u64, total: u64)
    requires
        total > 0,
    ensures
        free_share(available, total) <= 100,
        available <= total && available * 100 <= u64::MAX ==> {
            &&& free_share(available, total) * total <= available * 100
            &&& available * 100 < (free_share(available, total) + 1) * total
        },
{
    if available <= total && available * 100 <= u64::MAX {
        let all = (available * 100) as int;
        let d = total as int;
        let (q, r) = (all / d, all % d);
        vstd::arithmetic::div_mod::lemma_fundamental_div_mod(all, d);
        vstd::arithmetic::div_mod::lemma_mod_bound(all, d);
        assert(q <= 100) by (nonlinear_arith)
            requires
                all == d * q + r,
                all <= d * 100,
                0 <= r,
                d > 0,
        ;
        assert(q * d <= all && all < (q + 1) * d) by (nonlinear_arith)
            requires
                all == d * q + r,
                0 <= r,
                r < d,
        ;
    }
}

/// The kernel's level of pressure has its name: one is none, two is tight, and
/// four is critical. Any other leaves the pressure as it was.
pub proof fn kernel_levels_have_their_names(
    before: Sample,
    after: Sample,
    readings: MacReadings,
    page_size: u64,
)
    requires
        mac_memory_read(before, after, readings, page_size),
        readings.pressure_level is Some,
    ensures
        ({
            let level = trimmed(readings.pressure_level.unwrap()@);
            &&& level == "1"@ ==> after.pressure@ == "GREEN"@ && after.pressure_tone == Tone::Green
            &&& level == "2"@ ==> after.pressure@ == "YELLOW"@ && after.pressure_tone
                == Tone::Yellow
            &&& level == "4"@ ==> after.pressure@ == "RED"@ && after.pressure_tone == Tone::Red
            &&& level != "1"@ && level != "2"@ && level != "4"@ ==> after.pressure
                == before.pressure
        }),
        after.swap_available == readings.swap_usage is Some,
        readings.memory_pressure is None ==> after.availability == before.availability,
{
    reveal_strlit("1");
    reveal_strlit("2");
    reveal_strlit("4");
    assert("1"@[0] != "2"@[0] && "1"@[0] != "4"@[0] && "2"@[0] != "4"@[0]);
}


/// What a Mac reads of its memory is shown as it is: each counter where it
/// belongs, what is swapped in all and what is used, and the free share from the
/// line that tells of it.
pub proof fn mac_memory_is_shown_as_it_is(
    before: Sample,
    after: Sample,
    readings: MacReadings,
    page_size: u64,
    label: Seq<char>,
    free: u8,
    rest: Seq<char>,
)
    requires
        mac_memory_read(before, after, readings, page_size),
        forall|i: int| 0 <= i < label.len() ==> !is_digit_spec(#[trigger] label[i]),
        rest.len() == 0 || !is_digit_spec(rest[0]),
    ensures
        ({
            let counters = parse_vm_stat_spec(read_text(readings.vm_stat), page_size);
            &&& after.wired == counters.wired
            &&& after.compressor == counters.compressor
            &&& after.compressed_logical == counters.compressed_logical
            &&& after.anonymous == counters.anonymous
            &&& after.file_backed == counters.file_backed
        }),
        ({
            let swap = parse_swap_usage_spec(read_text(readings.swap_usage));
            &&& after.swap_total == swap.0
            &&& after.swap_used == swap.1
            &&& after.swap_available <==> readings.swap_usage is Some
        }),
        readings.memory_pressure matches Some(output) ==> line_holding(
            lines_of(output@),
            "free percentage"@,
        ) == Some(label + (decimal(free as nat) + rest)) ==> after.availability == Some(free),
        readings.memory_pressure is None ==> after.availability == before.availability,
        after.swap_in == before.swap_in && after.swap_out == before.swap_out,
{
    let number = decimal(free as nat) + rest;
    lemma_decimal_digits(free as nat);
    assert(number[0] == decimal(free as nat)[0]);
    assert(is_digit_spec(decimal(free as nat)[0]));
    digits_are_found(label, number);
    digits_lead_up_to_the_rest(decimal(free as nat), rest);
    written_numbers_read_back(free as nat, u8::MAX as nat);
}

/// What a Mac reads of its GPU is shown as it is: the load, what is allocated and
/// what is in use, the load of the renderer and of the tiler, each from what the
/// device reports of it. A name and a count of cores that are known stay known.
pub proof fn mac_devices_are_shown_as_they_are(
    before: Sample,
    after: Sample,
    readings: MacReadings,
    at: nat,
    n: u64,
    rest: Seq<char>,
)
    requires
        mac_gpu_read(before, after, readings),
    ensures
        ({
            let dump = read_text(readings.accelerator);
            let behind = seq!['='] + decimal(n as nat) + rest;
            &&& assigns(dump, "Device Utilization %"@, at, n, rest) && n <= 255 ==> after.gpu_util
                == Some(n as u8)
            &&& assigns(dump, "Alloc system memory"@, at, n, rest) && !occurs(
                behind,
                quoted("Alloc system memory"@),
            ) ==> after.gpu_alloc == Some(n)
            &&& assigns(dump, "In use system memory"@, at, n, rest) && !occurs(
                behind,
                quoted("In use system memory"@),
            ) ==> after.gpu_in_use == Some(n)
            &&& assigns(dump, "Renderer Utilization %"@, at, n, rest) && n <= 255
                ==> after.metal.renderer_util == Some(n as u8)
            &&& assigns(dump, "Tiler Utilization %"@, at, n, rest) && n <= 255
                ==> after.metal.tiler_util == Some(n as u8)
            &&& assigns(dump, "gpu-core-count"@, at, n, rest) && n <= 65_535
                ==> after.metal.gpu_cores == Some(n as u16)
            &&& !occurs(dump, quoted("gpu-core-count"@)) ==> after.metal.gpu_cores
                == before.metal.gpu_cores
        }),
        after.metal.architecture == before.metal.architecture,
        after.metal.resource_limit == before.metal.resource_limit,
        after.availability == before.availability,
{
    let dump = read_text(readings.accelerator);
    device_dumps_say_their_own_figures(dump, at, n, rest);
    let live = choose|live: MetalTelemetry| #[trigger]
        metal_of(live, dump) && after.metal == (MetalTelemetry {
            device_name: if live.device_name is Some {
                live.device_name
            } else {
                before.metal.device_name
            },
            gpu_cores: if live.gpu_cores is Some {
                live.gpu_cores
            } else {
                before.metal.gpu_cores
            },
            renderer_util: live.renderer_util,
            tiler_util: live.tiler_util,
            ..before.metal
        });
    device_parts_say_their_own_figures(live, dump, at, n, rest);
}

/// What a Linux machine reads of its GPU is shown as it is: the load, what is in
/// use and what there is in all, from the columns that tell of them. Where there
/// is no GPU nothing is shown of one, and parts that it does not tell of are not
/// shown.
pub proof fn linux_devices_are_shown_as_they_are(
    before: Sample,
    after: Sample,
    readings: LinuxReadings,
    fields: Seq<Seq<char>>,
    load: u64,
    used: u64,
    all: u64,
    degrees: u64,
)
    requires
        linux_gpu_read(before, after, readings),
    ensures
        readings.gpu matches Some(output) ==> gpu_fields(output@) == Some(fields) && fields.len()
            >= 5 && is_number(fields, 1, load) && is_number(fields, 2, used) && is_number(
            fields,
            3,
            all,
        ) && is_number(fields, 4, degrees) ==> {
            &&& load <= 100 ==> after.gpu_util == Some(load as u8)
            &&& used * 1024 * 1024 <= u64::MAX ==> after.gpu_in_use == Some(
                (used * 1024 * 1024) as u64,
            )
            &&& all * 1024 * 1024 <= u64::MAX ==> after.gpu_alloc == Some(
                (all * 1024 * 1024) as u64,
            )
            &&& all * 1024 * 1024 <= u64::MAX && before.metal.resource_limit is None
                ==> after.metal.resource_limit == Some((all * 1024 * 1024) as u64)
        },
        readings.gpu is None ==> after.gpu_util is None && after.gpu_in_use is None
            && after.gpu_alloc is None && after.metal.resource_limit == before.metal.resource_limit,
        before.metal.resource_limit is Some ==> after.metal.resource_limit
            == before.metal.resource_limit,
        before.metal.device_name is Some ==> after.metal.device_name == before.metal.device_name,
        after.metal.renderer_util is None && after.metal.tiler_util is None,
        after.availability == before.availability,
{
    let gpu = choose|gpu: Option<LinuxGpuInfo>| #[trigger]
        gpu_of(gpu, readings.gpu) && after.gpu_util == match gpu {
            Some(gpu) => gpu.util_percent,
            None => None,
        } && after.gpu_in_use == match gpu {
            Some(gpu) => gpu.used_bytes,
            None => None,
        } && after.gpu_alloc == match gpu {
            Some(gpu) => gpu.total_bytes,
            None => None,
        } && after.metal.resource_limit == match gpu {
            Some(gpu) => if before.metal.resource_limit is Some {
                before.metal.resource_limit
            } else {
                gpu.total_bytes
            },
            None => before.metal.resource_limit,
        };
    if let Some(output) = readings.gpu {
        if gpu_fields(output@) == Some(fields) && fields.len() >= 5 && is_number(fields, 1, load)
            && is_number(fields, 2, used) && is_number(fields, 3, all) && is_number(
            fields,
            4,
            degrees,
        ) {
            gpu_columns_say_what_they_stand_for(gpu.unwrap(), fields, load, used, all, degrees);
        }
    }
}
} // verus!
