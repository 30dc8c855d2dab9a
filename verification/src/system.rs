//! What the operating system's own tools and files say.

use crate::binary64::Binary64;
use crate::model::MetalTelemetry;
use crate::numeral::{parse_real, real_number};
use crate::text::{
    after, after_first, after_prefix, all_digits, chars, contains, decimal, decimal_text,
    digit_core, find_line, find_spec, from_digit, index_of, is_digit_spec, leading_digits,
    leading_number, leading_numbers_read_back, lemma_decimal_digits, lemma_find_bounded, line_with,
    lines, lines_of, marked_texts_part, marks_are_found, occurs, parse_leading, parse_u64,
    parse_whole, parts, parts_of, position, same, starts_with, strip_prefix, text, to_digit, trim,
    trim_left, trim_start, trimmed, unmarked_texts_are_one_part, views, whole_number, words,
    words_of, written_numbers_read_back,
};
use crate::thresholds::{Tone, MEMORY_CRITICAL_LOAD, MEMORY_WARN_LOAD};
use crate::units::{parse_unit, parse_unit_spec, product, product_spec, total, total_spec, KIB, MIB};
use vstd::prelude::*;

verus! {

/// The number in the second word of the first line that starts with a key.
pub open spec fn keyed_number(s: Seq<char>, key: Seq<char>) -> u64 {
    match line_with(lines_of(s), key) {
        Some(line) => {
            let w = words_of(line);
            if w.len() < 2 {
                0
            } else {
                match whole_number(w[1], u64::MAX as nat) {
                    Some(value) => value as u64,
                    None => 0,
                }
            }
        },
        None => 0,
    }
}

/// The number in the second word of the first line that starts with a key.
pub fn parse_meminfo_value_kb(text: &str, key: &str) -> (result: u64)
    ensures
        result == keyed_number(text@, key@),
{
    match find_line(text, key) {
        Some(line) => {
            let w = words(line.as_str());
            assert(words_of(line@).len() == w@.len());
            if w.len() < 2 {
                0
            } else {
                assert(words_of(line@)[1] == w@[1]@);
                match parse_u64(w[1].as_str()) {
                    Some(value) => value,
                    None => 0,
                }
            }
        },
        None => 0,
    }
}

/// What `/proc/meminfo` says, in KiB.
#[derive(Clone, Copy, Debug, PartialEq, Eq, Structural)]
pub struct LinuxMeminfo {
    pub total_kb: u64,
    pub available_kb: u64,
    pub swap_total_kb: u64,
    pub swap_free_kb: u64,
    pub anon_kb: u64,
    pub file_kb: u64,
}

pub open spec fn parse_linux_meminfo_spec(s: Seq<char>) -> LinuxMeminfo {
    let anon = total_spec(keyed_number(s, "Active(anon):"@), keyed_number(s, "Inactive(anon):"@));
    LinuxMeminfo {
        total_kb: keyed_number(s, "MemTotal:"@),
        available_kb: keyed_number(s, "MemAvailable:"@),
        swap_total_kb: keyed_number(s, "SwapTotal:"@),
        swap_free_kb: keyed_number(s, "SwapFree:"@),
        anon_kb: if anon == 0 {
            keyed_number(s, "AnonPages:"@)
        } else {
            anon
        },
        file_kb: total_spec(
            total_spec(
                total_spec(
                    keyed_number(s, "Active(file):"@),
                    keyed_number(s, "Inactive(file):"@),
                ),
                keyed_number(s, "Cached:"@),
            ),
            keyed_number(s, "Buffers:"@),
        ),
    }
}

/// Reads `/proc/meminfo`. Where the anonymous pages are not split by age, their
/// sum stands in.
pub fn parse_linux_meminfo(text: &str) -> (result: LinuxMeminfo)
    ensures
        result == parse_linux_meminfo_spec(text@),
{
    let anon: u64 = total(
        parse_meminfo_value_kb(text, "Active(anon):"),
        parse_meminfo_value_kb(text, "Inactive(anon):"),
    );
    let anon_kb: u64 = if anon == 0 {
        parse_meminfo_value_kb(text, "AnonPages:")
    } else {
        anon
    };
    let file: u64 = total(
        parse_meminfo_value_kb(text, "Active(file):"),
        parse_meminfo_value_kb(text, "Inactive(file):"),
    );
    let file_kb: u64 = total(
        total(file, parse_meminfo_value_kb(text, "Cached:")),
        parse_meminfo_value_kb(text, "Buffers:"),
    );
    LinuxMeminfo {
        total_kb: parse_meminfo_value_kb(text, "MemTotal:"),
        available_kb: parse_meminfo_value_kb(text, "MemAvailable:"),
        swap_total_kb: parse_meminfo_value_kb(text, "SwapTotal:"),
        swap_free_kb: parse_meminfo_value_kb(text, "SwapFree:"),
        anon_kb,
        file_kb,
    }
}

/// A counter out of `/proc/vmstat`.
pub fn parse_linux_vmstat_value(text: &str, key: &str) -> (result: u64)
    ensures
        result == keyed_number(text@, key@),
{
    parse_meminfo_value_kb(text, key)
}

/// The pages that were swapped in and out.
pub fn parse_linux_paging(text: &str) -> (result: (u64, u64))
    ensures
        result == (keyed_number(text@, "pswpin"@), keyed_number(text@, "pswpout"@)),
{
    (parse_linux_vmstat_value(text, "pswpin"), parse_linux_vmstat_value(text, "pswpout"))
}

/// The first word that gives an average over ten seconds.
pub open spec fn average_of(list: Seq<Seq<char>>) -> Option<Binary64>
    decreases list.len(),
{
    if list.len() == 0 {
        None
    } else {
        let value = match after_prefix(list[0], "avg10="@) {
            Some(number) => real_number(number),
            None => None,
        };
        match value {
            Some(value) => Some(value),
            None => average_of(list.drop_first()),
        }
    }
}

pub open spec fn stall_spec(s: Seq<char>) -> Option<Binary64> {
    match line_with(lines_of(s), "full"@) {
        Some(line) => average_of(words_of(line)),
        None => None,
    }
}

/// The ten-second average of the full stalls in `/proc/pressure/memory`, in
/// percent.
pub fn parse_memory_pressure_stall(text: &str) -> (result: Option<Binary64>)
    ensures
        result == stall_spec(text@),
{
    let line = match find_line(text, "full") {
        Some(line) => line,
        None => {
            return None;
        },
    };
    let w = words(line.as_str());
    let ghost all = words_of(line@);
    let mut i: usize = 0;
    assert(all.skip(0) =~= all);
    while i < w.len()
        invariant
            i <= w@.len(),
            views(w@) == all,
            stall_spec(text@) == average_of(all),
            average_of(all) == average_of(all.skip(i as int)),
        decreases w@.len() - i,
    {
        assert(all[i as int] == w@[i as int]@);
        if let Some(number) = strip_prefix(w[i].as_str(), "avg10=") {
            if let Some(value) = parse_real(number.as_str()) {
                return Some(value);
            }
        }
        assert(all.skip(i as int).drop_first() =~= all.skip(i + 1));
        i = i + 1;
    }
    None
}

/// The level of pressure: zero, one or two. The load gives it, and stalls
/// raise it.
pub open spec fn pressure_level(load_percent: u64, stall: Option<Binary64>) -> int {
    let stalled: int = match stall {
        Some(stall) => if Binary64::of_nat(5).at_most(stall) {
            2
        } else if Binary64::of_nat(1).at_most(stall) {
            1
        } else {
            0
        },
        None => 0,
    };
    let loaded: int = if load_percent >= MEMORY_CRITICAL_LOAD {
        2
    } else if load_percent >= MEMORY_WARN_LOAD {
        1
    } else {
        0
    };
    if stalled > loaded {
        stalled
    } else {
        loaded
    }
}

pub open spec fn pressure_name(level: int) -> Seq<char> {
    if level == 2 {
        "RED"@
    } else if level == 1 {
        "YELLOW"@
    } else {
        "GREEN"@
    }
}

pub open spec fn pressure_tone(level: int) -> Tone {
    if level == 2 {
        Tone::Red
    } else if level == 1 {
        Tone::Yellow
    } else {
        Tone::Green
    }
}

/// The pressure on a Linux machine, from the load of its memory and its
/// stalls.
pub fn linux_pressure_state(load_percent: u64, stall_avg10: Option<Binary64>) -> (result: (
    &'static str,
    Tone,
))
    ensures
        result.0@ == pressure_name(pressure_level(load_percent, stall_avg10)),
        result.1 == pressure_tone(pressure_level(load_percent, stall_avg10)),
{
    let mut level: u8 = if load_percent >= MEMORY_CRITICAL_LOAD {
        2
    } else if load_percent >= MEMORY_WARN_LOAD {
        1
    } else {
        0
    };
    if let Some(stall) = stall_avg10 {
        if Binary64::from_u64(5).le(stall) {
            level = 2;
        } else if Binary64::from_u64(1).le(stall) && level == 0 {
            level = 1;
        }
    }
    if level == 2 {
        ("RED", Tone::Red)
    } else if level == 1 {
        ("YELLOW", Tone::Yellow)
    } else {
        ("GREEN", Tone::Green)
    }
}

/// Stalls never lower the pressure, and more load never does.
pub proof fn pressure_only_escalates(load: u64, more: u64, stall: Option<Binary64>)
    requires
        load <= more,
    ensures
        pressure_level(load, stall) <= pressure_level(more, stall),
        pressure_level(load, None) <= pressure_level(load, stall),
{
}

/// A whole number that a command printed.
pub open spec fn printed_number(output: Option<Seq<char>>) -> Option<u64> {
    match output {
        Some(output) => match whole_number(trimmed(output), u64::MAX as nat) {
            Some(value) => Some(value as u64),
            None => None,
        },
        None => None,
    }
}

pub open spec fn seen(output: Option<&str>) -> Option<Seq<char>> {
    match output {
        Some(output) => Some(output@),
        None => None,
    }
}

/// The whole number that a command printed.
pub fn command_u64(output: Option<&str>) -> (result: Option<u64>)
    ensures
        result == printed_number(seen(output)),
{
    match output {
        Some(output) => parse_u64(trim(output).as_str()),
        None => None,
    }
}

/// The memory of a Linux machine in bytes, from `/proc/meminfo`.
pub fn linux_total_memory(meminfo: Option<&str>) -> (result: u64)
    ensures
        result == (match meminfo {
            Some(meminfo) => product_spec(parse_linux_meminfo_spec(meminfo@).total_kb, KIB),
            None => 0,
        }),
{
    match meminfo {
        Some(meminfo) => product(parse_linux_meminfo(meminfo).total_kb, KIB),
        None => 0,
    }
}

/// The size of a page on a Linux machine, as `getconf` prints it.
pub fn linux_page_size(getconf: Option<&str>) -> (result: u64)
    ensures
        result == (match printed_number(seen(getconf)) {
            Some(size) => size,
            None => 4096,
        }),
{
    match command_u64(getconf) {
        Some(size) => size,
        None => 4096,
    }
}

pub open spec fn printed_word(output: Option<Seq<char>>) -> Option<Seq<char>> {
    match output {
        Some(output) => if trimmed(output).len() == 0 {
            None
        } else {
            Some(trimmed(output))
        },
        None => None,
    }
}

/// What a command printed, trimmed, where it printed anything.
pub fn command_word(output: Option<&str>) -> (result: Option<String>)
    ensures
        match result {
            Some(word) => printed_word(seen(output)) == Some(word@),
            None => printed_word(seen(output)) is None,
        },
{
    match output {
        Some(output) => {
            let word = trim(output);
            if word.as_str().is_empty() {
                None
            } else {
                Some(word)
            }
        },
        None => None,
    }
}

/// The architecture of a Linux machine, as `uname` prints it.
pub fn linux_cpu_architecture(uname: Option<&str>) -> (result: Option<String>)
    ensures
        match result {
            Some(word) => printed_word(seen(uname)) == Some(word@),
            None => printed_word(seen(uname)) is None,
        },
{
    command_word(uname)
}

pub open spec fn now_clock_spec(date: Option<Seq<char>>) -> Seq<char> {
    match date {
        Some(date) => trimmed(date),
        None => "??:??:??"@,
    }
}

/// The time of day, as `date` prints it.
pub fn now_clock(date: Option<&str>) -> (out: String)
    ensures
        out@ == now_clock_spec(seen(date)),
{
    match date {
        Some(date) => trim(date),
        None => "??:??:??".to_string(),
    }
}

/// What a driver says of the GPU of a Linux machine.
#[derive(Debug)]
pub struct LinuxGpuInfo {
    pub name: Option<String>,
    pub util_percent: Option<u8>,
    pub used_bytes: Option<u64>,
    pub total_bytes: Option<u64>,
    pub temp_celsius: Option<u64>,
}

/// The first line that is not blank, trimmed.
pub open spec fn first_line(list: Seq<Seq<char>>) -> Option<Seq<char>>
    decreases list.len(),
{
    if list.len() == 0 {
        None
    } else if trimmed(list[0]).len() > 0 {
        Some(trimmed(list[0]))
    } else {
        first_line(list.drop_first())
    }
}

fn find_first_line(text: &str) -> (result: Option<String>)
    ensures
        match result {
            Some(line) => first_line(lines_of(text@)) == Some(line@),
            None => first_line(lines_of(text@)) is None,
        },
{
    let list = lines(text);
    let ghost all = lines_of(text@);
    let mut i: usize = 0;
    assert(all.skip(0) =~= all);
    while i < list.len()
        invariant
            i <= list@.len(),
            all == lines_of(text@),
            views(list@) == all,
            first_line(all) == first_line(all.skip(i as int)),
        decreases list@.len() - i,
    {
        assert(all[i as int] == list@[i as int]@);
        let line = trim(list[i].as_str());
        if !line.as_str().is_empty() {
            return Some(line);
        }
        assert(all.skip(i as int).drop_first() =~= all.skip(i + 1));
        i = i + 1;
    }
    None
}

/// The digits at the start of a trimmed field, as a number.
pub open spec fn field_number(fields: Seq<Seq<char>>, at: int) -> Option<u64> {
    if at < fields.len() {
        match leading_number(trimmed(fields[at])) {
            Some(value) => Some(value as u64),
            None => None,
        }
    } else {
        None
    }
}

pub open spec fn scaled_spec(value: Option<u64>, unit: u64) -> Option<u64> {
    match value {
        Some(value) => Some(product_spec(value, unit)),
        None => None,
    }
}

fn scaled(value: Option<u64>, unit: u64) -> (result: Option<u64>)
    ensures
        result == scaled_spec(value, unit),
{
    match value {
        Some(value) => Some(product(value, unit)),
        None => None,
    }
}

/// Whether the figures are those of a row: name, load in percent, memory used
/// and in all in MiB, and temperature, with commas between them.
pub open spec fn gpu_row(gpu: LinuxGpuInfo, fields: Seq<Seq<char>>) -> bool {
    let name = trimmed(fields[0]);
    &&& match gpu.name {
        Some(text) => name.len() > 0 && text@ == name,
        None => name.len() == 0,
    }
    &&& gpu.util_percent == match field_number(fields, 1) {
        Some(value) => Some(
            if value <= 100 {
                value as u8
            } else {
                100
            },
        ),
        None => None,
    }
    &&& gpu.used_bytes == scaled_spec(field_number(fields, 2), MIB)
    &&& gpu.total_bytes == scaled_spec(field_number(fields, 3), MIB)
    &&& gpu.temp_celsius == field_number(fields, 4)
}

fn number_in(fields: &Vec<String>, at: usize) -> (result: Option<u64>)
    ensures
        result == field_number(views(fields@), at as int),
{
    if at < fields.len() {
        assert(views(fields@)[at as int] == fields@[at as int]@);
        parse_leading(trim(fields[at].as_str()).as_str())
    } else {
        None
    }
}

/// The fields of the first row, where there are four at least.
pub open spec fn gpu_fields(s: Seq<char>) -> Option<Seq<Seq<char>>> {
    match first_line(lines_of(s)) {
        Some(line) => if parts_of(line, ',').len() >= 4 {
            Some(parts_of(line, ','))
        } else {
            None
        },
        None => None,
    }
}

/// Reads a row of `nvidia-smi`. Units behind a number are passed over.
pub fn parse_nvidia_smi_csv(text: &str) -> (result: Option<LinuxGpuInfo>)
    ensures
        match result {
            Some(gpu) => match gpu_fields(text@) {
                Some(fields) => gpu_row(gpu, fields),
                None => false,
            },
            None => gpu_fields(text@) is None,
        },
{
    let line = match find_first_line(text) {
        Some(line) => line,
        None => {
            return None;
        },
    };
    let fields = parts(line.as_str(), ',');
    let ghost all = parts_of(line@, ',');
    assert(all.len() == fields@.len());
    if fields.len() < 4 {
        return None;
    }
    assert(all[0] == fields@[0]@);
    let name = trim(fields[0].as_str());
    let util_percent: Option<u8> = match number_in(&fields, 1) {
        Some(value) => Some(
            if value <= 100 {
                value as u8
            } else {
                100
            },
        ),
        None => None,
    };
    Some(
        LinuxGpuInfo {
            name: if name.as_str().is_empty() {
                None
            } else {
                Some(name)
            },
            util_percent,
            used_bytes: scaled(number_in(&fields, 2), MIB),
            total_bytes: scaled(number_in(&fields, 3), MIB),
            temp_celsius: number_in(&fields, 4),
        },
    )
}

/// The GPU of a Linux machine, as `nvidia-smi` prints it.
pub fn linux_nvidia_info(output: Option<&str>) -> (result: Option<LinuxGpuInfo>)
    ensures
        match (result, output) {
            (Some(gpu), Some(output)) => match gpu_fields(output@) {
                Some(fields) => gpu_row(gpu, fields),
                None => false,
            },
            (None, Some(output)) => gpu_fields(output@) is None,
            (Some(_), None) => false,
            (None, None) => true,
        },
{
    match output {
        Some(output) => parse_nvidia_smi_csv(output),
        None => None,
    }
}

/// What is known of a Linux machine's GPU from the start. The size of its
/// memory stands where a device's limit is shown.
pub fn linux_metal_init(uname: Option<&str>, gpu: Option<LinuxGpuInfo>) -> (metal: MetalTelemetry)
    ensures
        match metal.architecture {
            Some(word) => printed_word(seen(uname)) == Some(word@),
            None => printed_word(seen(uname)) is None,
        },
        metal == (MetalTelemetry {
            architecture: metal.architecture,
            device_name: match gpu {
                Some(gpu) => gpu.name,
                None => None,
            },
            resource_limit: match gpu {
                Some(gpu) => gpu.total_bytes,
                None => None,
            },
            ..MetalTelemetry::nothing_spec()
        }),
{
    let mut metal = MetalTelemetry::nothing();
    metal.architecture = linux_cpu_architecture(uname);
    if let Some(gpu) = gpu {
        metal.device_name = gpu.name;
        metal.resource_limit = gpu.total_bytes;
    }
    metal
}

/// A thermal zone's reading in whole degrees; nothing where it is not above
/// zero.
pub open spec fn zone_degrees(zone: Seq<char>) -> nat {
    match whole_number(trimmed(zone), i64::MAX as nat) {
        Some(millidegrees) => millidegrees / 1000,
        None => 0,
    }
}

/// The hottest of some zones, or a temperature that is known otherwise.
pub open spec fn hottest_of(start: nat, zones: Seq<Seq<char>>) -> nat
    decreases zones.len(),
{
    if zones.len() == 0 {
        start
    } else {
        let rest = hottest_of(start, zones.drop_last());
        let here = zone_degrees(zones.last());
        if here > rest {
            here
        } else {
            rest
        }
    }
}

pub open spec fn linux_thermal_celsius_spec(
    nvidia_temp: Option<u64>,
    zones: Seq<Seq<char>>,
) -> Option<u64> {
    let start: nat = match nvidia_temp {
        Some(value) => value as nat,
        None => 0,
    };
    if hottest_of(start, zones) > 0 {
        Some(hottest_of(start, zones) as u64)
    } else {
        None
    }
}

/// The highest temperature of the GPU and the thermal zones, whose readings
/// are in thousandths of a degree.
pub fn linux_thermal_celsius(nvidia_temp: Option<u64>, zones: &Vec<String>) -> (result: Option<u64>)
    ensures
        result == linux_thermal_celsius_spec(nvidia_temp, views(zones@)),
{
    let ghost all = views(zones@);
    let mut hottest: u64 = match nvidia_temp {
        Some(value) => value,
        None => 0,
    };
    let ghost start = hottest as nat;
    for i in 0..zones.len()
        invariant
            all == views(zones@),
            hottest == hottest_of(start, all.take(i as int)),
    {
        assert(all.take(i + 1).drop_last() =~= all.take(i as int));
        assert(all.take(i + 1).last() == zones@[i as int]@);
        let reading = trim(zones[i].as_str());
        let degrees: u64 = match parse_whole(reading.as_str(), i64::MAX as u64) {
            Some(millidegrees) => millidegrees / 1000,
            None => 0,
        };
        if degrees > hottest {
            hottest = degrees;
        }
    }
    assert(all.take(all.len() as int) =~= all);
    if hottest > 0 {
        Some(hottest)
    } else {
        None
    }
}

pub open spec fn linux_thermal_label_spec(hottest: Option<u64>) -> Seq<char> {
    match hottest {
        Some(value) => if value >= 90 {
            "limited "@ + decimal(value as nat) + "C"@
        } else if value >= 80 {
            "warning reported"@
        } else {
            "no warning"@
        },
        None => "unavailable"@,
    }
}

/// The thermal state for a temperature.
pub fn linux_thermal_label(hottest: Option<u64>) -> (out: String)
    ensures
        out@ == linux_thermal_label_spec(hottest),
{
    match hottest {
        Some(value) => if value >= 90 {
            "limited ".to_string().concat(decimal_text(value).as_str()).concat("C")
        } else if value >= 80 {
            "warning reported".to_string()
        } else {
            "no warning".to_string()
        },
        None => "unavailable".to_string(),
    }
}

/// Counters of the virtual memory; sizes are in bytes, events are counted.
#[derive(Clone, Copy, Debug, PartialEq, Eq, Structural)]
pub struct VmCounters {
    pub wired: u64,
    pub compressor: u64,
    pub compressed_logical: u64,
    pub anonymous: u64,
    pub file_backed: u64,
    pub swapins: u64,
    pub swapouts: u64,
    pub compressions: u64,
    pub decompressions: u64,
    pub reactivations: u64,
}

impl VmCounters {
    pub open spec fn zero_spec() -> VmCounters {
        VmCounters {
            wired: 0,
            compressor: 0,
            compressed_logical: 0,
            anonymous: 0,
            file_backed: 0,
            swapins: 0,
            swapouts: 0,
            compressions: 0,
            decompressions: 0,
            reactivations: 0,
        }
    }

    /// Counters that have counted nothing.
    pub fn zero() -> (result: VmCounters)
        ensures
            result == VmCounters::zero_spec(),
    {
        VmCounters {
            wired: 0,
            compressor: 0,
            compressed_logical: 0,
            anonymous: 0,
            file_backed: 0,
            swapins: 0,
            swapouts: 0,
            compressions: 0,
            decompressions: 0,
            reactivations: 0,
        }
    }
}

/// The counters of a Linux machine that rates are taken of, from
/// `/proc/vmstat`.
pub fn linux_counters_for_rates(vmstat: Option<&str>) -> (result: VmCounters)
    ensures
        result == (match vmstat {
            Some(vmstat) => VmCounters {
                swapins: keyed_number(vmstat@, "pswpin"@),
                swapouts: keyed_number(vmstat@, "pswpout"@),
                ..VmCounters::zero_spec()
            },
            None => VmCounters::zero_spec(),
        }),
{
    let mut counters = VmCounters::zero();
    if let Some(vmstat) = vmstat {
        let (swapins, swapouts) = parse_linux_paging(vmstat);
        counters.swapins = swapins;
        counters.swapouts = swapouts;
    }
    counters
}

/// The number behind the first colon of a line.
pub open spec fn line_number(line: Seq<char>) -> u64 {
    let p = parts_of(line, ':');
    if p.len() < 2 || words_of(p[1]).len() == 0 {
        0
    } else {
        match whole_number(to_digit(from_digit(words_of(p[1])[0])), u64::MAX as nat) {
            Some(value) => value as u64,
            None => 0,
        }
    }
}

fn number_of_line(line: &str) -> (result: u64)
    ensures
        result == line_number(line@),
{
    let p = parts(line, ':');
    assert(parts_of(line@, ':').len() == p@.len());
    if p.len() < 2 {
        return 0;
    }
    assert(parts_of(line@, ':')[1] == p@[1]@);
    let w = words(p[1].as_str());
    assert(words_of(p@[1]@).len() == w@.len());
    if w.len() == 0 {
        return 0;
    }
    assert(words_of(p@[1]@)[0] == w@[0]@);
    match parse_u64(digit_core(w[0].as_str()).as_str()) {
        Some(value) => value,
        None => 0,
    }
}

/// The counters after a line that may name one of them.
pub open spec fn with_line(c: VmCounters, line: Seq<char>, page_size: u64) -> VmCounters {
    let value = line_number(line);
    let bytes = product_spec(value, page_size);
    if "Pages wired"@.is_prefix_of(line) {
        VmCounters { wired: bytes, ..c }
    } else if "Pages occupied by compressor"@.is_prefix_of(line) || "Pages used by compressor"@.is_prefix_of(line) {
        VmCounters { compressor: bytes, ..c }
    } else if "Pages stored in compressor"@.is_prefix_of(line) || "Uncompressed pages"@.is_prefix_of(line) {
        VmCounters { compressed_logical: bytes, ..c }
    } else if "Anonymous pages"@.is_prefix_of(line) {
        VmCounters { anonymous: bytes, ..c }
    } else if "File-backed pages"@.is_prefix_of(line) {
        VmCounters { file_backed: bytes, ..c }
    } else if "Swapins"@.is_prefix_of(line) || occurs(line, "\"Swapins\""@) {
        VmCounters { swapins: value, ..c }
    } else if "Swapouts"@.is_prefix_of(line) || occurs(line, "\"Swapouts\""@) {
        VmCounters { swapouts: value, ..c }
    } else if "Compressions"@.is_prefix_of(line) || "Pages compressed"@.is_prefix_of(line) {
        VmCounters { compressions: value, ..c }
    } else if "Decompressions"@.is_prefix_of(line) || "Pages decompressed"@.is_prefix_of(line) {
        VmCounters { decompressions: value, ..c }
    } else if "Pages reactivated"@.is_prefix_of(line) {
        VmCounters { reactivations: value, ..c }
    } else {
        c
    }
}

pub open spec fn counters_of(list: Seq<Seq<char>>, page_size: u64) -> VmCounters
    decreases list.len(),
{
    if list.len() == 0 {
        VmCounters::zero_spec()
    } else {
        with_line(counters_of(list.drop_last(), page_size), list.last(), page_size)
    }
}

pub open spec fn parse_vm_stat_spec(s: Seq<char>, page_size: u64) -> VmCounters {
    counters_of(lines_of(s), page_size)
}

fn read_line(counters: VmCounters, line: &str, page_size: u64) -> (result: VmCounters)
    ensures
        result == with_line(counters, line@, page_size),
{
    let mut c = counters;
    let value: u64 = number_of_line(line);
    let bytes: u64 = product(value, page_size);
    if starts_with(line, "Pages wired") {
        c.wired = bytes;
    } else if starts_with(line, "Pages occupied by compressor") || starts_with(line, "Pages used by compressor") {
        c.compressor = bytes;
    } else if starts_with(line, "Pages stored in compressor") || starts_with(line, "Uncompressed pages") {
        c.compressed_logical = bytes;
    } else if starts_with(line, "Anonymous pages") {
        c.anonymous = bytes;
    } else if starts_with(line, "File-backed pages") {
        c.file_backed = bytes;
    } else if starts_with(line, "Swapins") || contains(line, "\"Swapins\"") {
        c.swapins = value;
    } else if starts_with(line, "Swapouts") || contains(line, "\"Swapouts\"") {
        c.swapouts = value;
    } else if starts_with(line, "Compressions") || starts_with(line, "Pages compressed") {
        c.compressions = value;
    } else if starts_with(line, "Decompressions") || starts_with(line, "Pages decompressed") {
        c.decompressions = value;
    } else if starts_with(line, "Pages reactivated") {
        c.reactivations = value;
    }
    c
}

/// Reads the counters that `vm_stat` prints: sizes in bytes, events as counts.
pub fn parse_vm_stat(text: &str, page_size: u64) -> (result: VmCounters)
    ensures
        result == parse_vm_stat_spec(text@, page_size),
{
    let list = lines(text);
    let ghost all = lines_of(text@);
    let mut c = VmCounters::zero();
    for i in 0..list.len()
        invariant
            views(list@) == all,
            c == counters_of(all.take(i as int), page_size),
    {
        assert(all.take(i + 1).drop_last() =~= all.take(i as int));
        assert(all.take(i + 1).last() == list@[i as int]@);
        c = read_line(c, list[i].as_str(), page_size);
    }
    assert(all.take(all.len() as int) =~= all);
    c
}

/// The counters of a Mac that rates are taken of.
pub fn macos_counters_for_rates(vm_stat: Option<&str>, page_size: u64) -> (result: VmCounters)
    ensures
        result == parse_vm_stat_spec(
            match vm_stat {
                Some(text) => text@,
                None => Seq::empty(),
            },
            page_size,
        ),
{
    match vm_stat {
        Some(text) => parse_vm_stat(text, page_size),
        None => {
            proof {
                reveal_strlit("");
                assert(""@ =~= Seq::empty());
            }
            parse_vm_stat("", page_size)
        },
    }
}

/// A text with spaces around every equals sign.
pub open spec fn spaced_equals(s: Seq<char>) -> Seq<char>
    decreases s.len(),
{
    if s.len() == 0 {
        s
    } else if s.last() == '=' {
        spaced_equals(s.drop_last()).push(' ').push('=').push(' ')
    } else {
        spaced_equals(s.drop_last()).push(s.last())
    }
}

fn space_equals(s: &str) -> (out: String)
    ensures
        out@ == spaced_equals(s@),
{
    let list = chars(s);
    let mut out = String::new();
    for i in 0..list.len()
        invariant
            list@ == s@,
            out@ == spaced_equals(s@.take(i as int)),
    {
        let c = list[i];
        assert(s@.take(i + 1).drop_last() =~= s@.take(i as int));
        if c == '=' {
            out.push(' ');
            out.push('=');
            out.push(' ');
        } else {
            out.push(c);
        }
    }
    assert(s@.take(s@.len() as int) =~= s@);
    out
}

/// The sizes that the words `total` and `used` are given, with or without an
/// equals sign; a later one wins.
pub open spec fn swap_sizes(t: Seq<Seq<char>>, total: u64, used: u64) -> (u64, u64)
    decreases t.len(),
{
    if t.len() == 0 {
        (total, used)
    } else {
        let k: int = if t.len() > 1 && t[1] == "="@ {
            2
        } else {
            1
        };
        if (t[0] == "total"@ || t[0] == "used"@) && k < t.len() {
            let size = parse_unit_spec(t[k]) as u64;
            if t[0] == "total"@ {
                swap_sizes(t.skip(k + 1), size, used)
            } else {
                swap_sizes(t.skip(k + 1), total, size)
            }
        } else {
            swap_sizes(t.skip(1), total, used)
        }
    }
}

pub open spec fn parse_swap_usage_spec(s: Seq<char>) -> (u64, u64) {
    swap_sizes(words_of(spaced_equals(s)), 0, 0)
}

/// Reads the size of the swap space, in all and used, in bytes.
pub fn parse_swap_usage(text: &str) -> (result: (u64, u64))
    ensures
        result == parse_swap_usage_spec(text@),
{
    let mut total: u64 = 0;
    let mut used: u64 = 0;
    let spaced = space_equals(text);
    let t = words(spaced.as_str());
    let ghost all = words_of(spaced@);
    let count: usize = t.len();
    let mut i: usize = 0;
    assert(all.skip(0) =~= all);
    while i < count
        invariant
            i <= count,
            count == t@.len(),
            views(t@) == all,
            swap_sizes(all, 0, 0) == swap_sizes(all.skip(i as int), total, used),
        decreases count - i,
    {
        let ghost rest = all.skip(i as int);
        proof {
            assert(all.len() == count);
            assert(rest[0] == t@[i as int]@);
            if i + 1 < count {
                assert(rest[1] == t@[i + 1]@);
            }
            if i + 2 < count {
                assert(rest[2] == t@[i + 2]@);
            }
            assert(rest.skip(1) =~= all.skip(i + 1));
            if i + 1 < count {
                assert(rest.skip(2) =~= all.skip(i + 2));
            }
            if i + 2 < count {
                assert(rest.skip(3) =~= all.skip(i + 3));
            }
        }
        let is_total = same(t[i].as_str(), "total");
        let step: usize = if count - i > 1 && same(t[i + 1].as_str(), "=") {
            2
        } else {
            1
        };
        if (is_total || same(t[i].as_str(), "used")) && step < count - i {
            let size: u64 = parse_unit(t[i + step].as_str());
            if is_total {
                total = size;
            } else {
                used = size;
            }
            i = i + step + 1;
        } else {
            i = i + 1;
        }
    }
    (total, used)
}

/// A key in double quotes.
pub open spec fn quoted(key: Seq<char>) -> Seq<char> {
    seq!['"'] + key + seq!['"']
}

fn quote(key: &str) -> (out: String)
    ensures
        out@ == quoted(key@),
{
    let mut out = String::new();
    out.push('"');
    out.append(key);
    out.push('"');
    assert(out@ =~= quoted(key@));
    out
}

/// The number behind an equals sign at the start of a text.
pub open spec fn assigned_number(s: Seq<char>) -> Option<u64> {
    let t = trim_start(s);
    if t.len() > 0 && t[0] == '=' {
        match leading_number(trim_start(t.drop_first())) {
            Some(value) => Some(value as u64),
            None => None,
        }
    } else {
        None
    }
}

fn after_equals(s: &str) -> (result: Option<String>)
    ensures
        ({
            let t = trim_start(s@);
            match result {
                Some(rest) => t.len() > 0 && t[0] == '=' && rest@ == trim_start(t.drop_first()),
                None => !(t.len() > 0 && t[0] == '='),
            }
        }),
{
    let t = trim_left(s);
    let list = chars(t.as_str());
    if list.len() > 0 && list[0] == '=' {
        let rest = text(&list, 1, list.len());
        assert(rest@ =~= t@.drop_first());
        Some(trim_left(rest.as_str()))
    } else {
        None
    }
}

/// The numbers that are assigned to a quoted key, in order.
pub open spec fn numbers_of(s: Seq<char>, needle: Seq<char>) -> Seq<u64>
    decreases s.len(),
{
    match after_first(s, needle) {
        Some(rest) => if rest.len() < s.len() {
            match assigned_number(rest) {
                Some(value) => seq![value] + numbers_of(rest, needle),
                None => numbers_of(rest, needle),
            }
        } else {
            Seq::empty()
        },
        None => Seq::empty(),
    }
}

pub open spec fn find_named_numbers_spec(s: Seq<char>, key: Seq<char>) -> Seq<u64> {
    numbers_of(s, quoted(key))
}

/// The numbers that are assigned to a quoted key, in order.
pub fn find_named_numbers(text: &str, key: &str) -> (result: Vec<u64>)
    ensures
        result@ == find_named_numbers_spec(text@, key@),
{
    let needle = quote(key);
    let mut values: Vec<u64> = Vec::new();
    let mut rest = text.to_string();
    assert(values@ + numbers_of(text@, needle@) =~= numbers_of(text@, needle@));
    loop
        invariant
            needle@ == quoted(key@),
            values@ + numbers_of(rest@, needle@) == find_named_numbers_spec(text@, key@),
        ensures
            values@ == find_named_numbers_spec(text@, key@),
        decreases rest@.len(),
    {
        match after(rest.as_str(), needle.as_str()) {
            Some(behind) => {
                proof {
                    crate::text::lemma_find_bounded(rest@, needle@);
                    assert(behind@.len() < rest@.len());
                }
                if let Some(number) = after_equals(behind.as_str()) {
                    if let Some(value) = parse_leading(number.as_str()) {
                        proof {
                            let more = numbers_of(behind@, needle@);
                            assert(values@ + (seq![value] + more) =~= values@.push(value) + more);
                        }
                        values.push(value);
                    }
                }
                rest = behind;
            },
            None => {
                assert(values@ + Seq::<u64>::empty() =~= values@);
                break ;
            },
        }
    }
    values
}

pub open spec fn find_named_number_spec(s: Seq<char>, key: Seq<char>) -> Option<u64> {
    let found = find_named_numbers_spec(s, key);
    if found.len() == 0 {
        None
    } else {
        Some(found[0])
    }
}

/// The first number that is assigned to a quoted key.
pub fn find_named_number(text: &str, key: &str) -> (result: Option<u64>)
    ensures
        result == find_named_number_spec(text@, key@),
{
    let found = find_named_numbers(text, key);
    if found.len() == 0 {
        None
    } else {
        Some(found[0])
    }
}

fn last_named_number(text: &str, key: &str) -> (result: Option<u64>)
    ensures
        result == last_named_number_spec(text@, key@),
{
    let found = find_named_numbers(text, key);
    if found.len() == 0 {
        None
    } else {
        Some(found[found.len() - 1])
    }
}

pub open spec fn last_named_number_spec(s: Seq<char>, key: Seq<char>) -> Option<u64> {
    let found = find_named_numbers_spec(s, key);
    if found.len() == 0 {
        None
    } else {
        Some(found.last())
    }
}

/// The text in quotes that is assigned to a quoted key.
pub open spec fn find_named_string_spec(s: Seq<char>, key: Seq<char>) -> Option<Seq<char>> {
    match after_first(s, quoted(key)) {
        Some(behind) => {
            let t = trim_start(behind);
            let rest = trim_start(t.drop_first());
            let body = rest.drop_first();
            let end = position(body, '"') as int;
            if t.len() == 0 || t[0] != '=' || rest.len() == 0 || rest[0] != '"' || end
                >= body.len() || trimmed(body.take(end)).len() == 0 {
                None
            } else {
                Some(trimmed(body.take(end)))
            }
        },
        None => None,
    }
}

/// The text in quotes that is assigned to the first occurrence of a quoted
/// key.
pub fn find_named_string(text: &str, key: &str) -> (result: Option<String>)
    ensures
        match result {
            Some(value) => find_named_string_spec(text@, key@) == Some(value@),
            None => find_named_string_spec(text@, key@) is None,
        },
{
    let behind = match after(text, quote(key).as_str()) {
        Some(behind) => behind,
        None => {
            return None;
        },
    };
    let rest = match after_equals(behind.as_str()) {
        Some(rest) => rest,
        None => {
            return None;
        },
    };
    let list = chars(rest.as_str());
    if list.len() == 0 || list[0] != '"' {
        return None;
    }
    let body = chars(crate::text::text(&list, 1, list.len()).as_str());
    assert(body@ =~= rest@.drop_first());
    let end: usize = index_of(&body, '"');
    if end >= body.len() {
        return None;
    }
    let inside = crate::text::text(&body, 0, end);
    assert(inside@ =~= body@.take(end as int));
    let value = trim(inside.as_str());
    if value.as_str().is_empty() {
        None
    } else {
        Some(value)
    }
}

/// The number behind the first equals sign that follows a name.
pub open spec fn find_number_spec(s: Seq<char>, needle: Seq<char>) -> Option<u64> {
    match after_first(s, needle) {
        Some(behind) => {
            let i = position(behind, '=') as int;
            if i < behind.len() {
                match leading_number(trim_start(behind.skip(i + 1))) {
                    Some(value) => Some(value as u64),
                    None => None,
                }
            } else {
                None
            }
        },
        None => None,
    }
}

/// The number behind the first equals sign that follows a name.
pub fn find_number(text: &str, needle: &str) -> (result: Option<u64>)
    ensures
        result == find_number_spec(text@, needle@),
{
    match after(text, needle) {
        Some(behind) => {
            let list = chars(behind.as_str());
            let i: usize = index_of(&list, '=');
            if i < list.len() {
                let rest = crate::text::text(&list, i + 1, list.len());
                assert(rest@ =~= behind@.skip(i + 1));
                parse_leading(trim_left(rest.as_str()).as_str())
            } else {
                None
            }
        },
        None => None,
    }
}

pub open spec fn parse_gpu_spec(s: Seq<char>) -> (Option<u8>, Option<u64>, Option<u64>) {
    let load = match find_named_number_spec(s, "Device Utilization %"@) {
        Some(value) => Some(value),
        None => find_named_number_spec(s, "Renderer Utilization %"@),
    };
    (
        byte_sized(load),
        last_named_number_spec(s, "Alloc system memory"@),
        last_named_number_spec(s, "In use system memory"@),
    )
}

/// Reads the load of the GPU and the memory that it has allocated and uses. A
/// load that no percentage can be is not one.
pub fn parse_gpu(text: &str) -> (result: (Option<u8>, Option<u64>, Option<u64>))
    ensures
        result == parse_gpu_spec(text@),
{
    let load: Option<u64> = match find_named_number(text, "Device Utilization %") {
        Some(value) => Some(value),
        None => find_named_number(text, "Renderer Utilization %"),
    };
    (
        to_byte(load),
        last_named_number(text, "Alloc system memory"),
        last_named_number(text, "In use system memory"),
    )
}

/// A count that fits 8 bits.
pub open spec fn byte_sized(value: Option<u64>) -> Option<u8> {
    match value {
        Some(value) => if value <= u8::MAX {
            Some(value as u8)
        } else {
            None
        },
        None => None,
    }
}

fn to_byte(value: Option<u64>) -> (result: Option<u8>)
    ensures
        result == byte_sized(value),
{
    match value {
        Some(value) => if value <= u8::MAX as u64 {
            Some(value as u8)
        } else {
            None
        },
        None => None,
    }
}

/// Whether the figures are those that a registry dump holds. The amount of
/// memory that the driver has mapped is no memory of the GPU.
pub open spec fn metal_of(metal: MetalTelemetry, s: Seq<char>) -> bool {
    let device = match find_named_string_spec(s, "model"@) {
        Some(name) => Some(name),
        None => find_named_string_spec(s, "MetalPluginName"@),
    };
    &&& match metal.device_name {
        Some(name) => device == Some(name@),
        None => device is None,
    }
    &&& metal.architecture is None
    &&& metal.gpu_cores == match find_named_number_spec(s, "gpu-core-count"@) {
        Some(value) => if value <= u16::MAX {
            Some(value as u16)
        } else {
            None
        },
        None => None,
    }
    &&& metal.renderer_util == byte_sized(find_named_number_spec(s, "Renderer Utilization %"@))
    &&& metal.tiler_util == byte_sized(find_named_number_spec(s, "Tiler Utilization %"@))
    &&& metal.resource_limit is None
}

/// Reads what a registry dump says of the GPU.
pub fn parse_metal_hardware(text: &str) -> (metal: MetalTelemetry)
    ensures
        metal_of(metal, text@),
{
    let device_name: Option<String> = match find_named_string(text, "model") {
        Some(name) => Some(name),
        None => find_named_string(text, "MetalPluginName"),
    };
    let gpu_cores: Option<u16> = match find_named_number(text, "gpu-core-count") {
        Some(value) => if value <= u16::MAX as u64 {
            Some(value as u16)
        } else {
            None
        },
        None => None,
    };
    MetalTelemetry {
        device_name,
        architecture: None,
        gpu_cores,
        renderer_util: to_byte(find_named_number(text, "Renderer Utilization %")),
        tiler_util: to_byte(find_named_number(text, "Tiler Utilization %")),
        resource_limit: None,
    }
}

pub open spec fn parse_thermal_spec(s: Seq<char>) -> Seq<char> {
    match find_number_spec(s, "CPU_Speed_Limit"@) {
        Some(value) => if value < 100 {
            "limited "@ + decimal(value as nat) + "%"@
        } else {
            "no limit"@
        },
        None => if s.len() == 0 {
            "unavailable"@
        } else if occurs(s, "No thermal warning"@) || occurs(s, "No performance warning"@) {
            "no warning"@
        } else {
            "warning reported"@
        },
    }
}

/// Reads the thermal state that `pmset` prints.
pub fn parse_thermal(text: &str) -> (out: String)
    ensures
        out@ == parse_thermal_spec(text@),
{
    match find_number(text, "CPU_Speed_Limit") {
        Some(value) => if value < 100 {
            "limited ".to_string().concat(decimal_text(value).as_str()).concat("%")
        } else {
            "no limit".to_string()
        },
        None => if text.is_empty() {
            "unavailable".to_string()
        } else if contains(text, "No thermal warning") || contains(text, "No performance warning") {
            "no warning".to_string()
        } else {
            "warning reported".to_string()
        },
    }
}

/// Whether the first line of a text that starts with a key gives it a number, as
/// its second word.
pub open spec fn states(s: Seq<char>, key: Seq<char>, at: int, n: u64) -> bool {
    let list = lines_of(s);
    &&& 0 <= at < list.len()
    &&& key.is_prefix_of(list[at])
    &&& forall|j: int| 0 <= j < at ==> !key.is_prefix_of(#[trigger] list[j])
    &&& words_of(list[at]).len() >= 2
    &&& words_of(list[at])[1] == decimal(n as nat)
}

/// Whether no line of a text starts with a key.
pub open spec fn is_silent_on(s: Seq<char>, key: Seq<char>) -> bool {
    forall|j: int| 0 <= j < lines_of(s).len() ==> !key.is_prefix_of(#[trigger] lines_of(s)[j])
}

proof fn lemma_line_at(list: Seq<Seq<char>>, key: Seq<char>, at: int)
    requires
        0 <= at <= list.len(),
        forall|j: int| 0 <= j < at ==> !key.is_prefix_of(#[trigger] list[j]),
        at < list.len() ==> key.is_prefix_of(list[at]),
    ensures
        line_with(list, key) == if at < list.len() {
            Some(list[at])
        } else {
            None
        },
    decreases list.len(),
{
    if list.len() > 0 && at > 0 {
        assert(!key.is_prefix_of(list[0]));
        let rest = list.drop_first();
        assert forall|j: int| 0 <= j < at - 1 implies !key.is_prefix_of(#[trigger] rest[j]) by {
            assert(rest[j] == list[j + 1]);
        }
        lemma_line_at(rest, key, at - 1);
    }
}

/// A number that a text states under a key is what is read of it; a text that
/// does not speak of the key gives none.
pub proof fn stated_numbers_are_read(s: Seq<char>, key: Seq<char>, at: int, n: u64)
    ensures
        states(s, key, at, n) ==> keyed_number(s, key) == n,
        is_silent_on(s, key) ==> keyed_number(s, key) == 0,
{
    if states(s, key, at, n) {
        lemma_line_at(lines_of(s), key, at);
        written_numbers_read_back(n as nat, u64::MAX as nat);
    }
    if is_silent_on(s, key) {
        lemma_line_at(lines_of(s), key, lines_of(s).len() as int);
    }
}

/// Each size of the memory is read from the line that names it, and from no
/// other.
pub proof fn memory_sizes_are_read_from_their_lines(s: Seq<char>, at: int, n: u64)
    ensures
        states(s, "MemTotal:"@, at, n) ==> parse_linux_meminfo_spec(s).total_kb == n,
        is_silent_on(s, "MemTotal:"@) ==> parse_linux_meminfo_spec(s).total_kb == 0,
        states(s, "MemAvailable:"@, at, n) ==> parse_linux_meminfo_spec(s).available_kb == n,
        is_silent_on(s, "MemAvailable:"@) ==> parse_linux_meminfo_spec(s).available_kb == 0,
        states(s, "SwapTotal:"@, at, n) ==> parse_linux_meminfo_spec(s).swap_total_kb == n,
        is_silent_on(s, "SwapTotal:"@) ==> parse_linux_meminfo_spec(s).swap_total_kb == 0,
        states(s, "SwapFree:"@, at, n) ==> parse_linux_meminfo_spec(s).swap_free_kb == n,
        is_silent_on(s, "SwapFree:"@) ==> parse_linux_meminfo_spec(s).swap_free_kb == 0,
        states(s, "Active(anon):"@, at, n) && is_silent_on(s, "Inactive(anon):"@) && n > 0
            ==> parse_linux_meminfo_spec(s).anon_kb == n,
        states(s, "AnonPages:"@, at, n) && is_silent_on(s, "Active(anon):"@) && is_silent_on(
            s,
            "Inactive(anon):"@,
        ) ==> parse_linux_meminfo_spec(s).anon_kb == n,
        states(s, "Cached:"@, at, n) && is_silent_on(s, "Buffers:"@) && is_silent_on(
            s,
            "Active(file):"@,
        ) && is_silent_on(s, "Inactive(file):"@) ==> parse_linux_meminfo_spec(s).file_kb == n,
{
    stated_numbers_are_read(s, "MemTotal:"@, at, n);
    stated_numbers_are_read(s, "MemAvailable:"@, at, n);
    stated_numbers_are_read(s, "SwapTotal:"@, at, n);
    stated_numbers_are_read(s, "SwapFree:"@, at, n);
    stated_numbers_are_read(s, "Active(anon):"@, at, n);
    stated_numbers_are_read(s, "Inactive(anon):"@, at, n);
    stated_numbers_are_read(s, "AnonPages:"@, at, n);
    stated_numbers_are_read(s, "Cached:"@, at, n);
    stated_numbers_are_read(s, "Buffers:"@, at, n);
    stated_numbers_are_read(s, "Active(file):"@, at, n);
    stated_numbers_are_read(s, "Inactive(file):"@, at, n);
}

/// The pressure of a Linux machine follows its load and its stalls: from 85 per
/// cent on, or from five per cent of the time stalled, it is critical; from 70
/// per cent or one it is tight; below both it is none.
pub proof fn load_and_stalls_make_pressure(load: u64, stall: Option<Binary64>)
    ensures
        ({
            let name = pressure_name(pressure_level(load, stall));
            let stalls = |n: nat| stall is Some && Binary64::of_nat(n).at_most(stall.unwrap());
            &&& load >= 85 || stalls(5) ==> name == "RED"@ && pressure_tone(
                pressure_level(load, stall),
            ) == Tone::Red
            &&& load < 85 && !stalls(5) && (load >= 70 || stalls(1)) ==> name == "YELLOW"@
                && pressure_tone(pressure_level(load, stall)) == Tone::Yellow
            &&& load < 70 && !stalls(5) && !stalls(1) ==> name == "GREEN"@ && pressure_tone(
                pressure_level(load, stall),
            ) == Tone::Green
        }),
{
}

/// Whether a line gives a number behind its colon: a name without a colon, the
/// colon, and words of which the first is the number with a full stop.
pub open spec fn counts(line: Seq<char>, name: Seq<char>, rest: Seq<char>, n: u64) -> bool {
    &&& line == name.push(':') + rest
    &&& forall|i: int| 0 <= i < name.len() ==> name[i] != ':'
    &&& forall|i: int| 0 <= i < rest.len() ==> rest[i] != ':'
    &&& words_of(rest).len() > 0
    &&& words_of(rest)[0] == decimal(n as nat).push('.')
}

/// A number behind a colon is what is read of a line.
pub proof fn counted_lines_are_read(line: Seq<char>, name: Seq<char>, rest: Seq<char>, n: u64)
    requires
        counts(line, name, rest, n),
    ensures
        line_number(line) == n,
{
    marked_texts_part(name, rest, ':', Seq::empty());
    unmarked_texts_are_one_part(rest, ':', Seq::empty());
    assert(Seq::<char>::empty() + rest =~= rest);
    assert(parts_of(line, ':')[1] == rest);
    let word = decimal(n as nat).push('.');
    lemma_decimal_digits(n as nat);
    assert(is_digit_spec(word[0])) by {
        assert(word[0] == decimal(n as nat)[0]);
    }
    assert(from_digit(word) == word);
    assert(!is_digit_spec('.'));
    assert(word.last() == '.');
    assert(word.drop_last() =~= decimal(n as nat));
    assert(is_digit_spec(decimal(n as nat).last()));
    assert(to_digit(decimal(n as nat)) == decimal(n as nat));
    assert(to_digit(word) == decimal(n as nat));
    written_numbers_read_back(n as nat, u64::MAX as nat);
}

proof fn lemma_line_of_wired(line: Seq<char>, name: Seq<char>, rest: Seq<char>)
    requires
        name == "Pages wired down"@,
        line == name.push(':') + rest,
        forall|i: int| 0 <= i < rest.len() ==> rest[i] != '"',
    ensures
        "Pages wired"@.is_prefix_of(line),
{
    reveal_strlit("Pages wired down");
    reveal_strlit("Pages wired");
    assert(line.subrange(0, "Pages wired"@.len() as int) =~= "Pages wired"@);
}

proof fn lemma_line_of_compressor(line: Seq<char>, name: Seq<char>, rest: Seq<char>)
    requires
        name == "Pages occupied by compressor"@,
        line == name.push(':') + rest,
        forall|i: int| 0 <= i < rest.len() ==> rest[i] != '"',
    ensures
        "Pages occupied by compressor"@.is_prefix_of(line),
        !"Pages wired"@.is_prefix_of(line),
{
    reveal_strlit("Pages occupied by compressor");
    reveal_strlit("Pages wired");
    assert(line.subrange(0, "Pages occupied by compressor"@.len() as int) =~= "Pages occupied by compressor"@);
    lemma_not_prefix(line, "Pages wired"@, 6);
}

proof fn lemma_line_of_compressed_logical(line: Seq<char>, name: Seq<char>, rest: Seq<char>)
    requires
        name == "Pages stored in compressor"@,
        line == name.push(':') + rest,
        forall|i: int| 0 <= i < rest.len() ==> rest[i] != '"',
    ensures
        "Pages stored in compressor"@.is_prefix_of(line),
        !"Pages wired"@.is_prefix_of(line),
        !"Pages occupied by compressor"@.is_prefix_of(line),
        !"Pages used by compressor"@.is_prefix_of(line),
{
    reveal_strlit("Pages stored in compressor");
    reveal_strlit("Pages wired");
    reveal_strlit("Pages occupied by compressor");
    reveal_strlit("Pages used by compressor");
    assert(line.subrange(0, "Pages stored in compressor"@.len() as int) =~= "Pages stored in compressor"@);
    lemma_not_prefix(line, "Pages wired"@, 6);
    lemma_not_prefix(line, "Pages occupied by compressor"@, 6);
    lemma_not_prefix(line, "Pages used by compressor"@, 6);
}

proof fn lemma_line_of_anonymous(line: Seq<char>, name: Seq<char>, rest: Seq<char>)
    requires
        name == "Anonymous pages"@,
        line == name.push(':') + rest,
        forall|i: int| 0 <= i < rest.len() ==> rest[i] != '"',
    ensures
        "Anonymous pages"@.is_prefix_of(line),
        !"Pages wired"@.is_prefix_of(line),
        !"Pages occupied by compressor"@.is_prefix_of(line),
        !"Pages used by compressor"@.is_prefix_of(line),
        !"Pages stored in compressor"@.is_prefix_of(line),
        !"Uncompressed pages"@.is_prefix_of(line),
{
    reveal_strlit("Anonymous pages");
    reveal_strlit("Pages wired");
    reveal_strlit("Pages occupied by compressor");
    reveal_strlit("Pages used by compressor");
    reveal_strlit("Pages stored in compressor");
    reveal_strlit("Uncompressed pages");
    assert(line.subrange(0, "Anonymous pages"@.len() as int) =~= "Anonymous pages"@);
    lemma_not_prefix(line, "Pages wired"@, 0);
    lemma_not_prefix(line, "Pages occupied by compressor"@, 0);
    lemma_not_prefix(line, "Pages used by compressor"@, 0);
    lemma_not_prefix(line, "Pages stored in compressor"@, 0);
    lemma_not_prefix(line, "Uncompressed pages"@, 0);
}

proof fn lemma_line_of_file_backed(line: Seq<char>, name: Seq<char>, rest: Seq<char>)
    requires
        name == "File-backed pages"@,
        line == name.push(':') + rest,
        forall|i: int| 0 <= i < rest.len() ==> rest[i] != '"',
    ensures
        "File-backed pages"@.is_prefix_of(line),
        !"Pages wired"@.is_prefix_of(line),
        !"Pages occupied by compressor"@.is_prefix_of(line),
        !"Pages used by compressor"@.is_prefix_of(line),
        !"Pages stored in compressor"@.is_prefix_of(line),
        !"Uncompressed pages"@.is_prefix_of(line),
        !"Anonymous pages"@.is_prefix_of(line),
{
    reveal_strlit("File-backed pages");
    reveal_strlit("Pages wired");
    reveal_strlit("Pages occupied by compressor");
    reveal_strlit("Pages used by compressor");
    reveal_strlit("Pages stored in compressor");
    reveal_strlit("Uncompressed pages");
    reveal_strlit("Anonymous pages");
    assert(line.subrange(0, "File-backed pages"@.len() as int) =~= "File-backed pages"@);
    lemma_not_prefix(line, "Pages wired"@, 0);
    lemma_not_prefix(line, "Pages occupied by compressor"@, 0);
    lemma_not_prefix(line, "Pages used by compressor"@, 0);
    lemma_not_prefix(line, "Pages stored in compressor"@, 0);
    lemma_not_prefix(line, "Uncompressed pages"@, 0);
    lemma_not_prefix(line, "Anonymous pages"@, 0);
}

proof fn lemma_line_of_swapins(line: Seq<char>, name: Seq<char>, rest: Seq<char>)
    requires
        name == "Swapins"@,
        line == name.push(':') + rest,
        forall|i: int| 0 <= i < rest.len() ==> rest[i] != '"',
    ensures
        "Swapins"@.is_prefix_of(line),
        !"Pages wired"@.is_prefix_of(line),
        !"Pages occupied by compressor"@.is_prefix_of(line),
        !"Pages used by compressor"@.is_prefix_of(line),
        !"Pages stored in compressor"@.is_prefix_of(line),
        !"Uncompressed pages"@.is_prefix_of(line),
        !"Anonymous pages"@.is_prefix_of(line),
        !"File-backed pages"@.is_prefix_of(line),
{
    reveal_strlit("Swapins");
    reveal_strlit("Pages wired");
    reveal_strlit("Pages occupied by compressor");
    reveal_strlit("Pages used by compressor");
    reveal_strlit("Pages stored in compressor");
    reveal_strlit("Uncompressed pages");
    reveal_strlit("Anonymous pages");
    reveal_strlit("File-backed pages");
    assert(line.subrange(0, "Swapins"@.len() as int) =~= "Swapins"@);
    lemma_not_prefix(line, "Pages wired"@, 0);
    lemma_not_prefix(line, "Pages occupied by compressor"@, 0);
    lemma_not_prefix(line, "Pages used by compressor"@, 0);
    lemma_not_prefix(line, "Pages stored in compressor"@, 0);
    lemma_not_prefix(line, "Uncompressed pages"@, 0);
    lemma_not_prefix(line, "Anonymous pages"@, 0);
    lemma_not_prefix(line, "File-backed pages"@, 0);
}

proof fn lemma_line_of_swapouts(line: Seq<char>, name: Seq<char>, rest: Seq<char>)
    requires
        name == "Swapouts"@,
        line == name.push(':') + rest,
        forall|i: int| 0 <= i < rest.len() ==> rest[i] != '"',
    ensures
        "Swapouts"@.is_prefix_of(line),
        !"Pages wired"@.is_prefix_of(line),
        !"Pages occupied by compressor"@.is_prefix_of(line),
        !"Pages used by compressor"@.is_prefix_of(line),
        !"Pages stored in compressor"@.is_prefix_of(line),
        !"Uncompressed pages"@.is_prefix_of(line),
        !"Anonymous pages"@.is_prefix_of(line),
        !"File-backed pages"@.is_prefix_of(line),
        !"Swapins"@.is_prefix_of(line),
        !occurs(line, "\"Swapins\""@),
{
    reveal_strlit("Swapouts");
    reveal_strlit("Pages wired");
    reveal_strlit("Pages occupied by compressor");
    reveal_strlit("Pages used by compressor");
    reveal_strlit("Pages stored in compressor");
    reveal_strlit("Uncompressed pages");
    reveal_strlit("Anonymous pages");
    reveal_strlit("File-backed pages");
    reveal_strlit("Swapins");
    assert(line.subrange(0, "Swapouts"@.len() as int) =~= "Swapouts"@);
    lemma_not_prefix(line, "Pages wired"@, 0);
    lemma_not_prefix(line, "Pages occupied by compressor"@, 0);
    lemma_not_prefix(line, "Pages used by compressor"@, 0);
    lemma_not_prefix(line, "Pages stored in compressor"@, 0);
    lemma_not_prefix(line, "Uncompressed pages"@, 0);
    lemma_not_prefix(line, "Anonymous pages"@, 0);
    lemma_not_prefix(line, "File-backed pages"@, 0);
    lemma_not_prefix(line, "Swapins"@, 4);
    reveal_strlit("\"Swapins\"");
    reveal_strlit("\"Swapouts\"");
    assert forall|i: int| 0 <= i < line.len() implies line[i] != '"' by {
        if i < name.len() {
            assert(line[i] == name[i]);
        } else if i > name.len() {
            assert(line[i] == rest[i - name.len() - 1]);
        }
    }
    lemma_absent(line, "\"Swapins\""@);
    lemma_absent(line, "\"Swapouts\""@);
}

proof fn lemma_line_of_compressions(line: Seq<char>, name: Seq<char>, rest: Seq<char>)
    requires
        name == "Compressions"@,
        line == name.push(':') + rest,
        forall|i: int| 0 <= i < rest.len() ==> rest[i] != '"',
    ensures
        "Compressions"@.is_prefix_of(line),
        !"Pages wired"@.is_prefix_of(line),
        !"Pages occupied by compressor"@.is_prefix_of(line),
        !"Pages used by compressor"@.is_prefix_of(line),
        !"Pages stored in compressor"@.is_prefix_of(line),
        !"Uncompressed pages"@.is_prefix_of(line),
        !"Anonymous pages"@.is_prefix_of(line),
        !"File-backed pages"@.is_prefix_of(line),
        !"Swapins"@.is_prefix_of(line),
        !"Swapouts"@.is_prefix_of(line),
        !occurs(line, "\"Swapins\""@),
        !occurs(line, "\"Swapouts\""@),
{
    reveal_strlit("Compressions");
    reveal_strlit("Pages wired");
    reveal_strlit("Pages occupied by compressor");
    reveal_strlit("Pages used by compressor");
    reveal_strlit("Pages stored in compressor");
    reveal_strlit("Uncompressed pages");
    reveal_strlit("Anonymous pages");
    reveal_strlit("File-backed pages");
    reveal_strlit("Swapins");
    reveal_strlit("Swapouts");
    assert(line.subrange(0, "Compressions"@.len() as int) =~= "Compressions"@);
    lemma_not_prefix(line, "Pages wired"@, 0);
    lemma_not_prefix(line, "Pages occupied by compressor"@, 0);
    lemma_not_prefix(line, "Pages used by compressor"@, 0);
    lemma_not_prefix(line, "Pages stored in compressor"@, 0);
    lemma_not_prefix(line, "Uncompressed pages"@, 0);
    lemma_not_prefix(line, "Anonymous pages"@, 0);
    lemma_not_prefix(line, "File-backed pages"@, 0);
    lemma_not_prefix(line, "Swapins"@, 0);
    lemma_not_prefix(line, "Swapouts"@, 0);
    reveal_strlit("\"Swapins\"");
    reveal_strlit("\"Swapouts\"");
    assert forall|i: int| 0 <= i < line.len() implies line[i] != '"' by {
        if i < name.len() {
            assert(line[i] == name[i]);
        } else if i > name.len() {
            assert(line[i] == rest[i - name.len() - 1]);
        }
    }
    lemma_absent(line, "\"Swapins\""@);
    lemma_absent(line, "\"Swapouts\""@);
}

proof fn lemma_line_of_decompressions(line: Seq<char>, name: Seq<char>, rest: Seq<char>)
    requires
        name == "Decompressions"@,
        line == name.push(':') + rest,
        forall|i: int| 0 <= i < rest.len() ==> rest[i] != '"',
    ensures
        "Decompressions"@.is_prefix_of(line),
        !"Pages wired"@.is_prefix_of(line),
        !"Pages occupied by compressor"@.is_prefix_of(line),
        !"Pages used by compressor"@.is_prefix_of(line),
        !"Pages stored in compressor"@.is_prefix_of(line),
        !"Uncompressed pages"@.is_prefix_of(line),
        !"Anonymous pages"@.is_prefix_of(line),
        !"File-backed pages"@.is_prefix_of(line),
        !"Swapins"@.is_prefix_of(line),
        !"Swapouts"@.is_prefix_of(line),
        !"Compressions"@.is_prefix_of(line),
        !"Pages compressed"@.is_prefix_of(line),
        !occurs(line, "\"Swapins\""@),
        !occurs(line, "\"Swapouts\""@),
{
    reveal_strlit("Decompressions");
    reveal_strlit("Pages wired");
    reveal_strlit("Pages occupied by compressor");
    reveal_strlit("Pages used by compressor");
    reveal_strlit("Pages stored in compressor");
    reveal_strlit("Uncompressed pages");
    reveal_strlit("Anonymous pages");
    reveal_strlit("File-backed pages");
    reveal_strlit("Swapins");
    reveal_strlit("Swapouts");
    reveal_strlit("Compressions");
    reveal_strlit("Pages compressed");
    assert(line.subrange(0, "Decompressions"@.len() as int) =~= "Decompressions"@);
    lemma_not_prefix(line, "Pages wired"@, 0);
    lemma_not_prefix(line, "Pages occupied by compressor"@, 0);
    lemma_not_prefix(line, "Pages used by compressor"@, 0);
    lemma_not_prefix(line, "Pages stored in compressor"@, 0);
    lemma_not_prefix(line, "Uncompressed pages"@, 0);
    lemma_not_prefix(line, "Anonymous pages"@, 0);
    lemma_not_prefix(line, "File-backed pages"@, 0);
    lemma_not_prefix(line, "Swapins"@, 0);
    lemma_not_prefix(line, "Swapouts"@, 0);
    lemma_not_prefix(line, "Compressions"@, 0);
    lemma_not_prefix(line, "Pages compressed"@, 0);
    reveal_strlit("\"Swapins\"");
    reveal_strlit("\"Swapouts\"");
    assert forall|i: int| 0 <= i < line.len() implies line[i] != '"' by {
        if i < name.len() {
            assert(line[i] == name[i]);
        } else if i > name.len() {
            assert(line[i] == rest[i - name.len() - 1]);
        }
    }
    lemma_absent(line, "\"Swapins\""@);
    lemma_absent(line, "\"Swapouts\""@);
}

proof fn lemma_line_of_reactivations(line: Seq<char>, name: Seq<char>, rest: Seq<char>)
    requires
        name == "Pages reactivated"@,
        line == name.push(':') + rest,
        forall|i: int| 0 <= i < rest.len() ==> rest[i] != '"',
    ensures
        "Pages reactivated"@.is_prefix_of(line),
        !"Pages wired"@.is_prefix_of(line),
        !"Pages occupied by compressor"@.is_prefix_of(line),
        !"Pages used by compressor"@.is_prefix_of(line),
        !"Pages stored in compressor"@.is_prefix_of(line),
        !"Uncompressed pages"@.is_prefix_of(line),
        !"Anonymous pages"@.is_prefix_of(line),
        !"File-backed pages"@.is_prefix_of(line),
        !"Swapins"@.is_prefix_of(line),
        !"Swapouts"@.is_prefix_of(line),
        !"Compressions"@.is_prefix_of(line),
        !"Pages compressed"@.is_prefix_of(line),
        !"Decompressions"@.is_prefix_of(line),
        !"Pages decompressed"@.is_prefix_of(line),
        !occurs(line, "\"Swapins\""@),
        !occurs(line, "\"Swapouts\""@),
{
    reveal_strlit("Pages reactivated");
    reveal_strlit("Pages wired");
    reveal_strlit("Pages occupied by compressor");
    reveal_strlit("Pages used by compressor");
    reveal_strlit("Pages stored in compressor");
    reveal_strlit("Uncompressed pages");
    reveal_strlit("Anonymous pages");
    reveal_strlit("File-backed pages");
    reveal_strlit("Swapins");
    reveal_strlit("Swapouts");
    reveal_strlit("Compressions");
    reveal_strlit("Pages compressed");
    reveal_strlit("Decompressions");
    reveal_strlit("Pages decompressed");
    assert(line.subrange(0, "Pages reactivated"@.len() as int) =~= "Pages reactivated"@);
    lemma_not_prefix(line, "Pages wired"@, 6);
    lemma_not_prefix(line, "Pages occupied by compressor"@, 6);
    lemma_not_prefix(line, "Pages used by compressor"@, 6);
    lemma_not_prefix(line, "Pages stored in compressor"@, 6);
    lemma_not_prefix(line, "Uncompressed pages"@, 0);
    lemma_not_prefix(line, "Anonymous pages"@, 0);
    lemma_not_prefix(line, "File-backed pages"@, 0);
    lemma_not_prefix(line, "Swapins"@, 0);
    lemma_not_prefix(line, "Swapouts"@, 0);
    lemma_not_prefix(line, "Compressions"@, 0);
    lemma_not_prefix(line, "Pages compressed"@, 6);
    lemma_not_prefix(line, "Decompressions"@, 0);
    lemma_not_prefix(line, "Pages decompressed"@, 6);
    reveal_strlit("\"Swapins\"");
    reveal_strlit("\"Swapouts\"");
    assert forall|i: int| 0 <= i < line.len() implies line[i] != '"' by {
        if i < name.len() {
            assert(line[i] == name[i]);
        } else if i > name.len() {
            assert(line[i] == rest[i - name.len() - 1]);
        }
    }
    lemma_absent(line, "\"Swapins\""@);
    lemma_absent(line, "\"Swapouts\""@);
}

/// Each counter of a Mac's memory is read from the line that names it: sizes in
/// bytes, events as they are counted. The last such line holds, and it leaves the
/// other counters as the lines before it made them.
pub proof fn counters_are_read_from_their_lines(
    s: Seq<char>,
    page_size: u64,
    name: Seq<char>,
    rest: Seq<char>,
    n: u64,
)
    requires
        lines_of(s).len() > 0,
        counts(lines_of(s).last(), name, rest, n),
        forall|i: int| 0 <= i < rest.len() ==> rest[i] != '"',
    ensures
        ({
            let c = parse_vm_stat_spec(s, page_size);
            let before = counters_of(lines_of(s).drop_last(), page_size);
            let bytes = product_spec(n, page_size);
            &&& name == "Pages wired down"@ ==> c == (VmCounters { wired: bytes, ..before })
            &&& name == "Pages occupied by compressor"@ ==> c == (VmCounters { compressor: bytes, ..before })
            &&& name == "Pages stored in compressor"@ ==> c == (VmCounters { compressed_logical: bytes, ..before })
            &&& name == "Anonymous pages"@ ==> c == (VmCounters { anonymous: bytes, ..before })
            &&& name == "File-backed pages"@ ==> c == (VmCounters { file_backed: bytes, ..before })
            &&& name == "Swapins"@ ==> c == (VmCounters { swapins: n, ..before })
            &&& name == "Swapouts"@ ==> c == (VmCounters { swapouts: n, ..before })
            &&& name == "Compressions"@ ==> c == (VmCounters { compressions: n, ..before })
            &&& name == "Decompressions"@ ==> c == (VmCounters { decompressions: n, ..before })
            &&& name == "Pages reactivated"@ ==> c == (VmCounters { reactivations: n, ..before })
        }),
{
    let line = lines_of(s).last();
    counted_lines_are_read(line, name, rest, n);
    assert(name.is_prefix_of(line)) by {
        assert(line.subrange(0, name.len() as int) =~= name);
    }
    if name == "Pages wired down"@ {
        lemma_line_of_wired(line, name, rest);
    }
    if name == "Pages occupied by compressor"@ {
        lemma_line_of_compressor(line, name, rest);
    }
    if name == "Pages stored in compressor"@ {
        lemma_line_of_compressed_logical(line, name, rest);
    }
    if name == "Anonymous pages"@ {
        lemma_line_of_anonymous(line, name, rest);
    }
    if name == "File-backed pages"@ {
        lemma_line_of_file_backed(line, name, rest);
    }
    if name == "Swapins"@ {
        lemma_line_of_swapins(line, name, rest);
    }
    if name == "Swapouts"@ {
        lemma_line_of_swapouts(line, name, rest);
    }
    if name == "Compressions"@ {
        lemma_line_of_compressions(line, name, rest);
    }
    if name == "Decompressions"@ {
        lemma_line_of_decompressions(line, name, rest);
    }
    if name == "Pages reactivated"@ {
        lemma_line_of_reactivations(line, name, rest);
    }
}

proof fn lemma_not_prefix(line: Seq<char>, other: Seq<char>, at: int)
    requires
        0 <= at < line.len(),
        0 <= at < other.len(),
        line[at] != other[at],
    ensures
        !other.is_prefix_of(line),
{
    if other.is_prefix_of(line) {
        assert(line.subrange(0, other.len() as int)[at] == other[at]);
    }
}

proof fn lemma_absent(line: Seq<char>, pattern: Seq<char>)
    requires
        pattern.len() > 0,
        forall|i: int| 0 <= i < line.len() ==> line[i] != pattern[0],
    ensures
        find_spec(line, pattern) is None,
    decreases line.len(),
{
    if line.len() > 0 {
        lemma_not_prefix(line, pattern, 0);
        let rest = line.drop_first();
        assert forall|i: int| 0 <= i < rest.len() implies rest[i] != pattern[0] by {
            assert(rest[i] == line[i + 1]);
        }
        lemma_absent(rest, pattern);
    }
}

/// Whether a field is a number, with nothing but white space around it.
pub open spec fn is_number(fields: Seq<Seq<char>>, at: int, n: u64) -> bool {
    0 <= at < fields.len() && trimmed(fields[at]) == decimal(n as nat)
}

proof fn lemma_field_is_read(fields: Seq<Seq<char>>, at: int, n: u64)
    requires
        is_number(fields, at, n),
    ensures
        field_number(fields, at) == Some(n),
{
    let s = decimal(n as nat);
    lemma_decimal_digits(n as nat);
    lemma_all_lead(s);
    assert(s.take(s.len() as int) =~= s);
    written_numbers_read_back(n as nat, u64::MAX as nat);
}

proof fn lemma_all_lead(s: Seq<char>)
    requires
        all_digits(s),
    ensures
        leading_digits(s) == s.len(),
    decreases s.len(),
{
    if s.len() > 0 {
        assert(is_digit_spec(s[0]));
        let rest = s.drop_first();
        assert forall|i: int| 0 <= i < rest.len() implies is_digit_spec(#[trigger] rest[i]) by {
            assert(rest[i] == s[i + 1]);
        }
        lemma_all_lead(rest);
    }
}

/// The columns of a row on a GPU say what they stand for: the load in per cent,
/// the memory in use and in all in MiB, and the temperature.
pub proof fn gpu_columns_say_what_they_stand_for(
    gpu: LinuxGpuInfo,
    fields: Seq<Seq<char>>,
    load: u64,
    used: u64,
    all: u64,
    degrees: u64,
)
    requires
        gpu_row(gpu, fields),
        fields.len() >= 5,
        is_number(fields, 1, load),
        is_number(fields, 2, used),
        is_number(fields, 3, all),
        is_number(fields, 4, degrees),
    ensures
        load <= 100 ==> gpu.util_percent == Some(load as u8),
        load > 100 ==> gpu.util_percent == Some(100u8),
        used * 1024 * 1024 <= u64::MAX ==> gpu.used_bytes == Some((used * 1024 * 1024) as u64),
        all * 1024 * 1024 <= u64::MAX ==> gpu.total_bytes == Some((all * 1024 * 1024) as u64),
        gpu.temp_celsius == Some(degrees),
        trimmed(fields[0]).len() > 0 ==> gpu.name is Some && gpu.name.unwrap()@ == trimmed(
            fields[0],
        ),
{
    lemma_field_is_read(fields, 1, load);
    lemma_field_is_read(fields, 2, used);
    lemma_field_is_read(fields, 3, all);
    lemma_field_is_read(fields, 4, degrees);
}

/// The hottest place counts: no zone is hotter than what is taken, nor is the
/// GPU. From 90 degrees on the machine is limited, from 80 on it is warned of.
pub proof fn the_hottest_place_counts(temp: Option<u64>, zones: Seq<Seq<char>>, at: int, n: u64)
    requires
        0 <= at < zones.len(),
        trimmed(zones[at]) == decimal(n as nat),
        n <= i64::MAX,
    ensures
        n >= 1000 ==> linux_thermal_celsius_spec(temp, zones) is Some
            && linux_thermal_celsius_spec(temp, zones).unwrap() >= n / 1000,
        temp is Some && temp.unwrap() > 0 ==> linux_thermal_celsius_spec(temp, zones) is Some
            && linux_thermal_celsius_spec(temp, zones).unwrap() >= temp.unwrap(),
{
    written_numbers_read_back(n as nat, i64::MAX as nat);
    let start: nat = match temp {
        Some(value) => value as nat,
        None => 0,
    };
    lemma_hottest(start, zones, at);
}

proof fn lemma_hottest(start: nat, zones: Seq<Seq<char>>, at: int)
    requires
        0 <= at < zones.len(),
        start <= u64::MAX,
    ensures
        zone_degrees(zones[at]) <= hottest_of(start, zones) <= u64::MAX,
        start <= hottest_of(start, zones),
    decreases zones.len(),
{
    let shorter = zones.drop_last();
    if at < shorter.len() {
        assert(shorter[at] == zones[at]);
        lemma_hottest(start, shorter, at);
    } else {
        lemma_hottest_bounds(start, shorter);
    }
}

proof fn lemma_hottest_bounds(start: nat, zones: Seq<Seq<char>>)
    requires
        start <= u64::MAX,
    ensures
        start <= hottest_of(start, zones) <= u64::MAX,
    decreases zones.len(),
{
    if zones.len() > 0 {
        lemma_hottest_bounds(start, zones.drop_last());
    }
}

/// Heat is told in the words that the judgement looks for.
pub proof fn heat_is_told_by_degrees(degrees: u64)
    ensures
        degrees >= 90 ==> linux_thermal_label_spec(Some(degrees)) == "limited "@ + decimal(
            degrees as nat,
        ) + "C"@,
        80 <= degrees < 90 ==> linux_thermal_label_spec(Some(degrees)) == "warning reported"@,
        degrees < 80 ==> linux_thermal_label_spec(Some(degrees)) == "no warning"@,
        linux_thermal_label_spec(None) == "unavailable"@,
{
}


/// Whether a name first stands at a place in a dump, with a number assigned to it
/// and something else than a digit behind, or nothing.
pub open spec fn assigns(s: Seq<char>, key: Seq<char>, at: nat, n: u64, rest: Seq<char>) -> bool {
    &&& find_spec(s, quoted(key)) == Some(at)
    &&& s.skip((at + quoted(key).len()) as int) == seq!['='] + decimal(n as nat) + rest
    &&& rest.len() == 0 || !is_digit_spec(rest[0])
}

/// A number is read from where its name stands: the first that is assigned to it,
/// and the last where there is no other behind it. A name that does not occur has
/// no number.
pub proof fn named_numbers_are_read(
    s: Seq<char>,
    key: Seq<char>,
    at: nat,
    n: u64,
    rest: Seq<char>,
)
    ensures
        assigns(s, key, at, n, rest) ==> find_named_number_spec(s, key) == Some(n),
        assigns(s, key, at, n, rest) && !occurs(
            seq!['='] + decimal(n as nat) + rest,
            quoted(key),
        ) ==> last_named_number_spec(s, key) == Some(n),
        !occurs(s, quoted(key)) ==> find_named_number_spec(s, key) is None
            && last_named_number_spec(s, key) is None,
{
    let needle = quoted(key);
    if assigns(s, key, at, n, rest) {
        lemma_find_bounded(s, needle);
        let behind = s.skip((at + needle.len()) as int);
        let number = decimal(n as nat) + rest;
        assert(behind =~= seq!['='] + number);
        assert(trim_start(behind) == behind);
        assert(behind.drop_first() =~= number);
        leading_numbers_read_back(n, rest);
        assert(assigned_number(behind) == Some(n));
        assert(numbers_of(s, needle) == seq![n] + numbers_of(behind, needle));
        if !occurs(behind, needle) {
            assert(numbers_of(behind, needle) =~= Seq::<u64>::empty());
            assert(numbers_of(s, needle) =~= seq![n]);
        }
    }
}

/// A dump of a graphics device says its own figures under their own names: how
/// busy the device is, or else its renderer, the memory that is allocated, and
/// the memory in use.
pub proof fn device_dumps_say_their_own_figures(
    s: Seq<char>,
    at: nat,
    n: u64,
    rest: Seq<char>,
)
    ensures
        assigns(s, "Device Utilization %"@, at, n, rest) && n <= 255 ==> parse_gpu_spec(s).0
            == Some(n as u8),
        !occurs(s, quoted("Device Utilization %"@)) && assigns(
            s,
            "Renderer Utilization %"@,
            at,
            n,
            rest,
        ) && n <= 255 ==> parse_gpu_spec(s).0 == Some(n as u8),
        assigns(s, "Alloc system memory"@, at, n, rest) && !occurs(
            seq!['='] + decimal(n as nat) + rest,
            quoted("Alloc system memory"@),
        ) ==> parse_gpu_spec(s).1 == Some(n),
        assigns(s, "In use system memory"@, at, n, rest) && !occurs(
            seq!['='] + decimal(n as nat) + rest,
            quoted("In use system memory"@),
        ) ==> parse_gpu_spec(s).2 == Some(n),
{
    named_numbers_are_read(s, "Device Utilization %"@, at, n, rest);
    named_numbers_are_read(s, "Renderer Utilization %"@, at, n, rest);
    named_numbers_are_read(s, "Alloc system memory"@, at, n, rest);
    named_numbers_are_read(s, "In use system memory"@, at, n, rest);
}

/// The parts of a graphics device have their own figures: how busy its renderer
/// and its tiler are, and how many cores there are.
pub proof fn device_parts_say_their_own_figures(
    metal: MetalTelemetry,
    s: Seq<char>,
    at: nat,
    n: u64,
    rest: Seq<char>,
)
    requires
        metal_of(metal, s),
    ensures
        assigns(s, "Renderer Utilization %"@, at, n, rest) && n <= 255 ==> metal.renderer_util
            == Some(n as u8),
        assigns(s, "Tiler Utilization %"@, at, n, rest) && n <= 255 ==> metal.tiler_util == Some(
            n as u8,
        ),
        assigns(s, "gpu-core-count"@, at, n, rest) && n <= 65_535 ==> metal.gpu_cores == Some(
            n as u16,
        ),
        !occurs(s, quoted("Renderer Utilization %"@)) ==> metal.renderer_util is None,
        !occurs(s, quoted("Tiler Utilization %"@)) ==> metal.tiler_util is None,
        !occurs(s, quoted("gpu-core-count"@)) ==> metal.gpu_cores is None,
{
    named_numbers_are_read(s, "Renderer Utilization %"@, at, n, rest);
    named_numbers_are_read(s, "Tiler Utilization %"@, at, n, rest);
    named_numbers_are_read(s, "gpu-core-count"@, at, n, rest);
}

proof fn lemma_no_sizes(t: Seq<Seq<char>>, total: u64, used: u64)
    requires
        forall|i: int| 0 <= i < t.len() ==> t[i] != "total"@ && t[i] != "used"@,
    ensures
        swap_sizes(t, total, used) == (total, used),
    decreases t.len(),
{
    if t.len() > 0 {
        assert(t[0] != "total"@ && t[0] != "used"@);
        let fewer = t.skip(1);
        assert forall|i: int| 0 <= i < fewer.len() implies fewer[i] != "total"@ && fewer[i]
            != "used"@ by {
            assert(fewer[i] == t[i + 1]);
        }
        lemma_no_sizes(fewer, total, used);
    }
}

/// The size of the swap area is what stands behind the word for all of it, and
/// the size of what is used what stands behind the word for that, in either
/// order. Nothing else counts.
pub proof fn swap_sizes_are_read_from_their_words(
    s: Seq<char>,
    total: Seq<char>,
    used: Seq<char>,
    rest: Seq<Seq<char>>,
)
    requires
        forall|i: int| 0 <= i < rest.len() ==> rest[i] != "total"@ && rest[i] != "used"@,
    ensures
        words_of(spaced_equals(s)) == seq!["total"@, "="@, total, "used"@, "="@, used] + rest
            ==> parse_swap_usage_spec(s) == (
            parse_unit_spec(total) as u64,
            parse_unit_spec(used) as u64,
        ),
        words_of(spaced_equals(s)) == seq!["used"@, "="@, used, "total"@, "="@, total] + rest
            ==> parse_swap_usage_spec(s) == (
            parse_unit_spec(total) as u64,
            parse_unit_spec(used) as u64,
        ),
        words_of(spaced_equals(s)) == rest ==> parse_swap_usage_spec(s) == (0u64, 0u64),
{
    reveal_strlit("total");
    reveal_strlit("used");
    assert("total"@.len() == 5 && "used"@.len() == 4);
    let all = parse_unit_spec(total) as u64;
    let some = parse_unit_spec(used) as u64;
    lemma_no_sizes(rest, all, some);
    lemma_no_sizes(rest, 0, 0);
    let one = seq!["total"@, "="@, total, "used"@, "="@, used] + rest;
    let behind = seq!["used"@, "="@, used] + rest;
    assert(one.skip(3) =~= behind);
    assert(behind.skip(3) =~= rest);
    assert(swap_sizes(one, 0, 0) == swap_sizes(behind, all, 0));
    assert(swap_sizes(behind, all, 0) == swap_sizes(rest, all, some));
    let other = seq!["used"@, "="@, used, "total"@, "="@, total] + rest;
    let behind = seq!["total"@, "="@, total] + rest;
    assert(other.skip(3) =~= behind);
    assert(behind.skip(3) =~= rest);
    assert(swap_sizes(other, 0, 0) == swap_sizes(behind, 0, some));
    assert(swap_sizes(behind, 0, some) == swap_sizes(rest, all, some));
}

/// A limit on the speed of the processor is told in per cent where there is one.
/// Without a figure, silence is told from a warning and from its absence.
pub proof fn limits_are_told_in_per_cent(
    s: Seq<char>,
    at: nat,
    blank: Seq<char>,
    n: u64,
    rest: Seq<char>,
)
    requires
        forall|i: int| 0 <= i < blank.len() ==> blank[i] != '=',
        rest.len() == 0 || !is_digit_spec(rest[0]),
    ensures
        find_spec(s, "CPU_Speed_Limit"@) == Some(at) && s.skip(
            (at + "CPU_Speed_Limit"@.len()) as int,
        ) == blank.push('=') + (seq![' '] + (decimal(n as nat) + rest)) ==> parse_thermal_spec(s)
            == if n < 100 {
            "limited "@ + decimal(n as nat) + "%"@
        } else {
            "no limit"@
        },
        s.len() == 0 ==> parse_thermal_spec(s) == "unavailable"@,
        s.len() > 0 && find_spec(s, "CPU_Speed_Limit"@) is None ==> parse_thermal_spec(s) == if
            occurs(s, "No thermal warning"@) || occurs(s, "No performance warning"@) {
            "no warning"@
        } else {
            "warning reported"@
        },
{
    let number = decimal(n as nat) + rest;
    let value = seq![' '] + number;
    let behind = blank.push('=') + value;
    marks_are_found(blank, '=', value);
    assert(behind.skip(blank.len() as int + 1) =~= value);
    assert(value.drop_first() =~= number);
    leading_numbers_read_back(n, rest);
    assert(trim_start(value) == number);
    if s.len() == 0 {
        reveal_strlit("CPU_Speed_Limit");
        lemma_find_bounded(s, "CPU_Speed_Limit"@);
        assert("CPU_Speed_Limit"@.len() == 15);
    }
}
} // verus!
