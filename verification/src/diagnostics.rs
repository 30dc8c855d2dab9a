//! The monitor's own log.

use crate::binary64::Binary64;
use crate::model::Sample;
use crate::text::{carries, chars, decimal, decimal_text, texts_carry_their_parts};
use crate::units::{
    log_field, log_field_spec, log_optional_f64, log_optional_u64, log_optional_u64_spec,
    log_optional_u8,
};
use vstd::prelude::*;

verus! {

/// Milliseconds of a time that is given in nanoseconds.
pub fn diagnostics_timestamp_ms(now: u64) -> (result: u64)
    ensures
        result == now / 1_000_000,
{
    now / 1_000_000
}

/// A text in one line: each line end becomes a backslash and an n.
pub open spec fn one_line(s: Seq<char>) -> Seq<char>
    decreases s.len(),
{
    if s.len() == 0 {
        s
    } else if s.last() == '\r' || s.last() == '\n' {
        one_line(s.drop_last()).push('\\').push('n')
    } else {
        one_line(s.drop_last()).push(s.last())
    }
}

/// A text in one line.
pub fn in_one_line(s: &str) -> (out: String)
    ensures
        out@ == one_line(s@),
{
    let list = chars(s);
    let mut out = String::new();
    for i in 0..list.len()
        invariant
            list@ == s@,
            out@ == one_line(s@.take(i as int)),
    {
        let c = list[i];
        assert(s@.take(i + 1).drop_last() =~= s@.take(i as int));
        if c == '\r' || c == '\n' {
            out.push('\\');
            out.push('n');
        } else {
            out.push(c);
        }
    }
    assert(s@.take(s@.len() as int) =~= s@);
    out
}

/// Whatever the details hold, they stay in their line.
pub proof fn details_stay_in_their_line(s: Seq<char>)
    ensures
        forall|i: int|
            0 <= i < one_line(s).len() ==> #[trigger] one_line(s)[i] != '\n' && one_line(s)[i]
                != '\r',
    decreases s.len(),
{
    if s.len() > 0 {
        let rest = one_line(s.drop_last());
        details_stay_in_their_line(s.drop_last());
        assert forall|i: int| 0 <= i < one_line(s).len() implies #[trigger] one_line(s)[i] != '\n'
            && one_line(s)[i] != '\r' by {
            if i < rest.len() {
                assert(one_line(s)[i] == rest[i]);
            }
        }
    }
}

/// A line of the log.
pub fn log_line(timestamp_ms: u64, level: &str, event: &str, details: &str) -> (out: String)
    ensures
        out@ == "ts_ms="@ + decimal(timestamp_ms as nat) + " level="@ + level@ + " event="@ + event@
            + " "@ + one_line(details@),
{
    "ts_ms=".to_string().concat(decimal_text(timestamp_ms).as_str()).concat(" level=").concat(
        level,
    ).concat(" event=").concat(event).concat(" ").concat(in_one_line(details).as_str())
}

/// The message of a panic: a borrowed text, or else an owned one.
pub fn panic_payload(borrowed: Option<&str>, owned: Option<&str>) -> (out: String)
    ensures
        out@ == match (borrowed, owned) {
            (Some(message), _) => message@,
            (None, Some(message)) => message@,
            (None, None) => "non-string panic payload"@,
        },
{
    match (borrowed, owned) {
        (Some(message), _) => message.to_string(),
        (None, Some(message)) => message.to_string(),
        (None, None) => "non-string panic payload".to_string(),
    }
}

/// Where the log is kept.
#[derive(Debug)]
pub enum LogLocation {
    /// At a path.
    At(String),
    /// Under the directory for state that the environment names.
    UnderState(String),
    /// Under the directory for state in the home directory.
    InHomeState,
    /// Under the directory for logs in the home directory.
    InHomeLogs,
    /// In the current directory.
    Here,
}

/// A setting of the environment, where it is more than white space.
pub open spec fn given(value: Option<String>) -> Option<Seq<char>> {
    match value {
        Some(value) => if crate::text::trimmed(value@).len() > 0 {
            Some(crate::text::trimmed(value@))
        } else {
            None
        },
        None => None,
    }
}

fn given_of(value: &Option<String>) -> (result: Option<String>)
    ensures
        match result {
            Some(text) => given(*value) == Some(text@),
            None => given(*value) is None,
        },
{
    match value {
        Some(value) => {
            let text = crate::text::trim(value.as_str());
            if text.as_str().is_empty() {
                None
            } else {
                Some(text)
            }
        },
        None => None,
    }
}

/// Where the log is kept: where the environment says, or else where the system
/// keeps such files.
pub fn diagnostics_location(
    chosen: &Option<String>,
    state_home: &Option<String>,
    linux: bool,
    has_home: bool,
) -> (result: LogLocation)
    ensures
        match result {
            LogLocation::At(path) => given(*chosen) == Some(path@),
            LogLocation::UnderState(directory) => given(*chosen) is None && linux && given(
                *state_home,
            ) == Some(directory@),
            LogLocation::InHomeState => given(*chosen) is None && linux && given(*state_home)
                is None && has_home,
            LogLocation::InHomeLogs => given(*chosen) is None && !linux && has_home,
            LogLocation::Here => given(*chosen) is None && !has_home && (linux ==> given(
                *state_home,
            ) is None),
        },
{
    if let Some(path) = given_of(chosen) {
        return LogLocation::At(path);
    }
    if linux {
        if let Some(directory) = given_of(state_home) {
            return LogLocation::UnderState(directory);
        }
        if has_home {
            return LogLocation::InHomeState;
        }
    } else if has_home {
        return LogLocation::InHomeLogs;
    }
    LogLocation::Here
}

pub open spec fn flag_spec(value: bool) -> Seq<char> {
    if value {
        "true"@
    } else {
        "false"@
    }
}

fn flag(value: bool) -> (result: &'static str)
    ensures
        result@ == flag_spec(value),
{
    if value {
        "true"
    } else {
        "false"
    }
}

pub open spec fn log_measure(value: Option<Binary64>) -> Seq<char> {
    match value {
        Some(value) => if value.finite_spec() {
            value.fixed_spec(3)
        } else {
            "na"@
        },
        None => "na"@,
    }
}

pub open spec fn log_small(value: Option<u8>) -> Seq<char> {
    match value {
        Some(value) => decimal(value as nat),
        None => "na"@,
    }
}

/// The load of the memory, in percent.
pub open spec fn memory_load(free: Option<u8>) -> Option<u8> {
    match free {
        Some(free) => Some(
            if free <= 100 {
                (100 - free) as u8
            } else {
                0
            },
        ),
        None => None,
    }
}

/// The load of the memory, in percent.
pub fn load_of(free: Option<u8>) -> (result: Option<u8>)
    ensures
        result == memory_load(free),
{
    match free {
        Some(free) => Some(
            if free <= 100 {
                100 - free
            } else {
                0
            },
        ),
        None => None,
    }
}

pub open spec fn sample_details_spec(sample: Sample, duration_ms: u64) -> Seq<char> {
    "duration_ms="@ + decimal(duration_ms as nat)
        + " status="@ + log_field_spec(sample.llm_status@)
        + " provider="@ + log_field_spec(sample.llm_provider@)
        + " model="@ + log_field_spec(sample.llm_model@)
        + " source="@ + log_field_spec(sample.llm_source.label_spec())
        + " gen_live="@ + flag_spec(sample.llm_generation_tps_live)
        + " gen_tps="@ + log_measure(sample.llm_generation_tps)
        + " prefill_live="@ + flag_spec(sample.llm_prefill_tps_live)
        + " prefill_tps="@ + log_measure(sample.llm_prefill_tps)
        + " cache="@ + log_measure(sample.llm_cache_efficiency)
        + " active="@ + log_optional_u64_spec(sample.llm_active_requests)
        + " waiting="@ + log_optional_u64_spec(sample.llm_waiting_requests)
        + " gpu="@ + log_small(sample.gpu_util)
        + " renderer="@ + log_small(sample.metal.renderer_util)
        + " tiler="@ + log_small(sample.metal.tiler_util)
        + " memory_load="@ + log_small(memory_load(sample.availability))
        + " free="@ + log_small(sample.availability)
        + " paging_in="@ + decimal(sample.swap_in as nat)
        + " paging_out="@ + decimal(sample.swap_out as nat)
        + " compress="@ + decimal(sample.compress as nat)
        + " decompress="@ + decimal(sample.decompress as nat)
}

/// What the log says of a sample.
pub fn sample_details(sample: &Sample, duration_ms: u64) -> (out: String)
    ensures
        out@ == sample_details_spec(*sample, duration_ms),
{
    let mut out = "duration_ms=".to_string();
    out.append(decimal_text(duration_ms).as_str());
    out.append(" status=");
    out.append(log_field(sample.llm_status.as_str()).as_str());
    out.append(" provider=");
    out.append(log_field(sample.llm_provider.as_str()).as_str());
    out.append(" model=");
    out.append(log_field(sample.llm_model.as_str()).as_str());
    out.append(" source=");
    out.append(log_field(sample.llm_source.label()).as_str());
    out.append(" gen_live=");
    out.append(flag(sample.llm_generation_tps_live));
    out.append(" gen_tps=");
    out.append(log_optional_f64(sample.llm_generation_tps).as_str());
    out.append(" prefill_live=");
    out.append(flag(sample.llm_prefill_tps_live));
    out.append(" prefill_tps=");
    out.append(log_optional_f64(sample.llm_prefill_tps).as_str());
    out.append(" cache=");
    out.append(log_optional_f64(sample.llm_cache_efficiency).as_str());
    out.append(" active=");
    out.append(log_optional_u64(sample.llm_active_requests).as_str());
    out.append(" waiting=");
    out.append(log_optional_u64(sample.llm_waiting_requests).as_str());
    out.append(" gpu=");
    out.append(log_optional_u8(sample.gpu_util).as_str());
    out.append(" renderer=");
    out.append(log_optional_u8(sample.metal.renderer_util).as_str());
    out.append(" tiler=");
    out.append(log_optional_u8(sample.metal.tiler_util).as_str());
    out.append(" memory_load=");
    out.append(log_optional_u8(load_of(sample.availability)).as_str());
    out.append(" free=");
    out.append(log_optional_u8(sample.availability).as_str());
    out.append(" paging_in=");
    out.append(decimal_text(sample.swap_in).as_str());
    out.append(" paging_out=");
    out.append(decimal_text(sample.swap_out).as_str());
    out.append(" compress=");
    out.append(decimal_text(sample.compress).as_str());
    out.append(" decompress=");
    out.append(decimal_text(sample.decompress).as_str());
    out
}

/// The bytes that a log holds before it is set aside.
pub const DIAGNOSTICS_MAX_BYTES: u64 = 8 * 1024 * 1024;

/// Whether a log of some bytes has to be set aside before the next line.
pub fn is_full(length: u64) -> (result: bool)
    ensures
        result == (length >= DIAGNOSTICS_MAX_BYTES),
{
    length >= DIAGNOSTICS_MAX_BYTES
}


/// A line of the log says each figure of a sample under its own name; one that is
/// not known is said not to be.
pub proof fn log_lines_say_each_figure_under_its_name(sample: Sample, duration_ms: u64)
    ensures
        carries(
            sample_details_spec(sample, duration_ms),
            "duration_ms="@ + decimal(duration_ms as nat),
        ),
        carries(
            sample_details_spec(sample, duration_ms),
            " status="@ + log_field_spec(sample.llm_status@),
        ),
        carries(
            sample_details_spec(sample, duration_ms),
            " provider="@ + log_field_spec(sample.llm_provider@),
        ),
        carries(
            sample_details_spec(sample, duration_ms),
            " model="@ + log_field_spec(sample.llm_model@),
        ),
        carries(
            sample_details_spec(sample, duration_ms),
            " source="@ + log_field_spec(sample.llm_source.label_spec()),
        ),
        sample.llm_generation_tps_live ==> carries(
            sample_details_spec(sample, duration_ms),
            " gen_live="@ + "true"@,
        ),
        !sample.llm_generation_tps_live ==> carries(
            sample_details_spec(sample, duration_ms),
            " gen_live="@ + "false"@,
        ),
        sample.llm_generation_tps matches Some(x) ==> x.finite_spec() ==> carries(
            sample_details_spec(sample, duration_ms),
            " gen_tps="@ + x.fixed_spec(3),
        ),
        sample.llm_generation_tps is None ==> carries(
            sample_details_spec(sample, duration_ms),
            " gen_tps="@ + "na"@,
        ),
        sample.llm_prefill_tps_live ==> carries(
            sample_details_spec(sample, duration_ms),
            " prefill_live="@ + "true"@,
        ),
        !sample.llm_prefill_tps_live ==> carries(
            sample_details_spec(sample, duration_ms),
            " prefill_live="@ + "false"@,
        ),
        sample.llm_prefill_tps matches Some(x) ==> x.finite_spec() ==> carries(
            sample_details_spec(sample, duration_ms),
            " prefill_tps="@ + x.fixed_spec(3),
        ),
        sample.llm_prefill_tps is None ==> carries(
            sample_details_spec(sample, duration_ms),
            " prefill_tps="@ + "na"@,
        ),
        sample.llm_cache_efficiency matches Some(x) ==> x.finite_spec() ==> carries(
            sample_details_spec(sample, duration_ms),
            " cache="@ + x.fixed_spec(3),
        ),
        sample.llm_cache_efficiency is None ==> carries(
            sample_details_spec(sample, duration_ms),
            " cache="@ + "na"@,
        ),
        sample.llm_active_requests matches Some(n) ==> carries(
            sample_details_spec(sample, duration_ms),
            " active="@ + decimal(n as nat),
        ),
        sample.llm_active_requests is None ==> carries(
            sample_details_spec(sample, duration_ms),
            " active="@ + "na"@,
        ),
        sample.llm_waiting_requests matches Some(n) ==> carries(
            sample_details_spec(sample, duration_ms),
            " waiting="@ + decimal(n as nat),
        ),
        sample.llm_waiting_requests is None ==> carries(
            sample_details_spec(sample, duration_ms),
            " waiting="@ + "na"@,
        ),
        sample.gpu_util matches Some(n) ==> carries(
            sample_details_spec(sample, duration_ms),
            " gpu="@ + decimal(n as nat),
        ),
        sample.gpu_util is None ==> carries(
            sample_details_spec(sample, duration_ms),
            " gpu="@ + "na"@,
        ),
        sample.metal.renderer_util matches Some(n) ==> carries(
            sample_details_spec(sample, duration_ms),
            " renderer="@ + decimal(n as nat),
        ),
        sample.metal.renderer_util is None ==> carries(
            sample_details_spec(sample, duration_ms),
            " renderer="@ + "na"@,
        ),
        sample.metal.tiler_util matches Some(n) ==> carries(
            sample_details_spec(sample, duration_ms),
            " tiler="@ + decimal(n as nat),
        ),
        sample.metal.tiler_util is None ==> carries(
            sample_details_spec(sample, duration_ms),
            " tiler="@ + "na"@,
        ),
        sample.availability matches Some(n) ==> n <= 100 ==> carries(
            sample_details_spec(sample, duration_ms),
            " memory_load="@ + decimal((100 - n) as nat),
        ),
        sample.availability matches Some(n) ==> carries(
            sample_details_spec(sample, duration_ms),
            " free="@ + decimal(n as nat),
        ),
        sample.availability is None ==> carries(
            sample_details_spec(sample, duration_ms),
            " free="@ + "na"@,
        ),
        carries(
            sample_details_spec(sample, duration_ms),
            " paging_in="@ + decimal(sample.swap_in as nat),
        ),
        carries(
            sample_details_spec(sample, duration_ms),
            " paging_out="@ + decimal(sample.swap_out as nat),
        ),
        carries(
            sample_details_spec(sample, duration_ms),
            " compress="@ + decimal(sample.compress as nat),
        ),
        carries(
            sample_details_spec(sample, duration_ms),
            " decompress="@ + decimal(sample.decompress as nat),
        ),
{
    let s0 = "duration_ms="@ + decimal(duration_ms as nat);
    texts_carry_their_parts(Seq::empty(), "duration_ms="@, decimal(duration_ms as nat));
    assert(Seq::<char>::empty() + "duration_ms="@ + decimal(duration_ms as nat) =~= s0);
    let s1 = s0 + " status="@ + log_field_spec(sample.llm_status@);
    texts_carry_their_parts(s0, " status="@, log_field_spec(sample.llm_status@));
    let s2 = s1 + " provider="@ + log_field_spec(sample.llm_provider@);
    texts_carry_their_parts(s1, " provider="@, log_field_spec(sample.llm_provider@));
    let s3 = s2 + " model="@ + log_field_spec(sample.llm_model@);
    texts_carry_their_parts(s2, " model="@, log_field_spec(sample.llm_model@));
    let s4 = s3 + " source="@ + log_field_spec(sample.llm_source.label_spec());
    texts_carry_their_parts(s3, " source="@, log_field_spec(sample.llm_source.label_spec()));
    let s5 = s4 + " gen_live="@ + flag_spec(sample.llm_generation_tps_live);
    texts_carry_their_parts(s4, " gen_live="@, flag_spec(sample.llm_generation_tps_live));
    let s6 = s5 + " gen_tps="@ + log_measure(sample.llm_generation_tps);
    texts_carry_their_parts(s5, " gen_tps="@, log_measure(sample.llm_generation_tps));
    let s7 = s6 + " prefill_live="@ + flag_spec(sample.llm_prefill_tps_live);
    texts_carry_their_parts(s6, " prefill_live="@, flag_spec(sample.llm_prefill_tps_live));
    let s8 = s7 + " prefill_tps="@ + log_measure(sample.llm_prefill_tps);
    texts_carry_their_parts(s7, " prefill_tps="@, log_measure(sample.llm_prefill_tps));
    let s9 = s8 + " cache="@ + log_measure(sample.llm_cache_efficiency);
    texts_carry_their_parts(s8, " cache="@, log_measure(sample.llm_cache_efficiency));
    let s10 = s9 + " active="@ + log_optional_u64_spec(sample.llm_active_requests);
    texts_carry_their_parts(s9, " active="@, log_optional_u64_spec(sample.llm_active_requests));
    let s11 = s10 + " waiting="@ + log_optional_u64_spec(sample.llm_waiting_requests);
    texts_carry_their_parts(s10, " waiting="@, log_optional_u64_spec(sample.llm_waiting_requests));
    let s12 = s11 + " gpu="@ + log_small(sample.gpu_util);
    texts_carry_their_parts(s11, " gpu="@, log_small(sample.gpu_util));
    let s13 = s12 + " renderer="@ + log_small(sample.metal.renderer_util);
    texts_carry_their_parts(s12, " renderer="@, log_small(sample.metal.renderer_util));
    let s14 = s13 + " tiler="@ + log_small(sample.metal.tiler_util);
    texts_carry_their_parts(s13, " tiler="@, log_small(sample.metal.tiler_util));
    let s15 = s14 + " memory_load="@ + log_small(memory_load(sample.availability));
    texts_carry_their_parts(s14, " memory_load="@, log_small(memory_load(sample.availability)));
    let s16 = s15 + " free="@ + log_small(sample.availability);
    texts_carry_their_parts(s15, " free="@, log_small(sample.availability));
    let s17 = s16 + " paging_in="@ + decimal(sample.swap_in as nat);
    texts_carry_their_parts(s16, " paging_in="@, decimal(sample.swap_in as nat));
    let s18 = s17 + " paging_out="@ + decimal(sample.swap_out as nat);
    texts_carry_their_parts(s17, " paging_out="@, decimal(sample.swap_out as nat));
    let s19 = s18 + " compress="@ + decimal(sample.compress as nat);
    texts_carry_their_parts(s18, " compress="@, decimal(sample.compress as nat));
    let s20 = s19 + " decompress="@ + decimal(sample.decompress as nat);
    texts_carry_their_parts(s19, " decompress="@, decimal(sample.decompress as nat));
    assert(s20 == sample_details_spec(sample, duration_ms));
}
} // verus!
