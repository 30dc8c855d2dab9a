//! What a serving runtime reports of itself, whichever endpoint it comes from.

use crate::binary64::Binary64;
use crate::json::{
    get_spec, held, json_value, json_value_spec, one_key_is_a_path, search, search_spec, suits,
    suits_spec, two_keys_are_a_path, value_as_f64, value_as_f64_spec, value_as_text,
    value_as_text_spec, value_as_u64, value_as_u64_spec, within, Json, Wanted,
};
use crate::model::MlxTelemetry;
use crate::units::GIB;
use vstd::prelude::*;

verus! {

/// The contents of a list of texts.
pub open spec fn strs(list: Seq<&'static str>) -> Seq<Seq<char>> {
    list.map_values(|s: &'static str| s@)
}

/// The first suitable value at the end of one of some paths.
pub open spec fn first_at(value: Json, paths: Seq<Seq<char>>, wanted: Wanted) -> Option<Json>
    decreases paths.len(),
{
    if paths.len() == 0 {
        None
    } else {
        match json_value_spec(value, paths[0]) {
            Some(found) => if suits_spec(found, wanted) {
                Some(found)
            } else {
                first_at(value, paths.drop_first(), wanted)
            },
            None => first_at(value, paths.drop_first(), wanted),
        }
    }
}

/// The first suitable value under one of some keys, wherever it stands.
pub open spec fn first_under(value: Json, keys: Seq<Seq<char>>, wanted: Wanted) -> Option<Json>
    decreases keys.len(),
{
    if keys.len() == 0 {
        None
    } else {
        match search_spec(value, keys[0], wanted) {
            Some(found) => Some(found),
            None => first_under(value, keys.drop_first(), wanted),
        }
    }
}

/// The first suitable value: a path goes before a key.
pub open spec fn located(
    value: Json,
    paths: Seq<Seq<char>>,
    keys: Seq<Seq<char>>,
    wanted: Wanted,
) -> Option<Json> {
    match first_at(value, paths, wanted) {
        Some(found) => Some(found),
        None => first_under(value, keys, wanted),
    }
}

fn locate<'a>(
    value: &'a Json,
    paths: &Vec<&'static str>,
    keys: &Vec<&'static str>,
    wanted: Wanted,
) -> (result: Option<&'a Json>)
    ensures
        held(result) == located(*value, strs(paths@), strs(keys@), wanted),
{
    let ghost roads = strs(paths@);
    let ghost names = strs(keys@);
    let mut i: usize = 0;
    assert(roads.skip(0) =~= roads);
    while i < paths.len()
        invariant
            i <= paths@.len(),
            roads == strs(paths@),
            names == strs(keys@),
            first_at(*value, roads, wanted) == first_at(*value, roads.skip(i as int), wanted),
        decreases paths@.len() - i,
    {
        assert(roads[i as int] == paths@[i as int]@);
        if let Some(found) = json_value(value, paths[i]) {
            if suits(found, wanted) {
                return Some(found);
            }
        }
        assert(roads.skip(i as int).drop_first() =~= roads.skip(i + 1));
        i = i + 1;
    }
    let mut k: usize = 0;
    assert(names.skip(0) =~= names);
    while k < keys.len()
        invariant
            k <= keys@.len(),
            roads == strs(paths@),
            names == strs(keys@),
            first_at(*value, roads, wanted) is None,
            first_under(*value, names, wanted) == first_under(
                *value,
                names.skip(k as int),
                wanted,
            ),
        decreases keys@.len() - k,
    {
        assert(names[k as int] == keys@[k as int]@);
        if let Some(found) = search(value, keys[k], wanted) {
            return Some(found);
        }
        assert(names.skip(k as int).drop_first() =~= names.skip(k + 1));
        k = k + 1;
    }
    None
}

pub open spec fn count_in_spec(
    value: Json,
    paths: Seq<Seq<char>>,
    keys: Seq<Seq<char>>,
) -> Option<u64> {
    match located(value, paths, keys, Wanted::Count) {
        Some(found) => value_as_u64_spec(found),
        None => None,
    }
}

/// The first count at the end of a path, or else under a key.
pub fn count_in(
    value: &Json,
    paths: &Vec<&'static str>,
    keys: &Vec<&'static str>,
) -> (result: Option<
    u64,
>)
    ensures
        result == count_in_spec(*value, strs(paths@), strs(keys@)),
{
    match locate(value, paths, keys, Wanted::Count) {
        Some(found) => value_as_u64(found),
        None => None,
    }
}

pub open spec fn text_in_spec(
    value: Json,
    paths: Seq<Seq<char>>,
    keys: Seq<Seq<char>>,
) -> Option<String> {
    match located(value, paths, keys, Wanted::Text) {
        Some(found) => value_as_text_spec(found),
        None => None,
    }
}

/// The first text at the end of a path, or else under a key.
pub fn text_in(
    value: &Json,
    paths: &Vec<&'static str>,
    keys: &Vec<&'static str>,
) -> (result: Option<
    String,
>)
    ensures
        result == text_in_spec(*value, strs(paths@), strs(keys@)),
{
    match locate(value, paths, keys, Wanted::Text) {
        Some(found) => value_as_text(found),
        None => None,
    }
}

pub open spec fn version_spec(source: Json) -> Option<String> {
    text_in_spec(
        source,
        seq![
            "mlx_version"@,
            "mlx/version"@,
            "engines/mlx-lm/version"@,
            "engines/mlx-vlm/version"@,
            "engines/mlx-embeddings/version"@,
            "engines/mlx-audio/version"@,
        ],
        seq!["mlx_version"@],
    )
}

fn version_of(source: &Json) -> (result: Option<String>)
    ensures
        result == version_spec(*source),
{
    let paths: Vec<&'static str> = vec![
        "mlx_version",
        "mlx/version",
        "engines/mlx-lm/version",
        "engines/mlx-vlm/version",
        "engines/mlx-embeddings/version",
        "engines/mlx-audio/version",
    ];
    let keys: Vec<&'static str> = vec!["mlx_version"];
    assert(strs(paths@) =~= seq![
        "mlx_version"@,
        "mlx/version"@,
        "engines/mlx-lm/version"@,
        "engines/mlx-vlm/version"@,
        "engines/mlx-embeddings/version"@,
        "engines/mlx-audio/version"@,
    ]);
    assert(strs(keys@) =~= seq!["mlx_version"@]);
    text_in(source, &paths, &keys)
}

pub open spec fn active_memory_spec(source: Json) -> Option<u64> {
    count_in_spec(
        source,
        seq![
            "mlx_memory/active_bytes"@,
            "mlx/active_bytes"@,
            "mlx/active_memory"@,
            "active_memory_bytes"@,
        ],
        seq!["mlx_active_memory_bytes"@],
    )
}

fn active_memory_of(source: &Json) -> (result: Option<u64>)
    ensures
        result == active_memory_spec(*source),
{
    let paths: Vec<&'static str> = vec![
        "mlx_memory/active_bytes",
        "mlx/active_bytes",
        "mlx/active_memory",
        "active_memory_bytes",
    ];
    let keys: Vec<&'static str> = vec!["mlx_active_memory_bytes"];
    assert(strs(paths@) =~= seq![
        "mlx_memory/active_bytes"@,
        "mlx/active_bytes"@,
        "mlx/active_memory"@,
        "active_memory_bytes"@,
    ]);
    assert(strs(keys@) =~= seq!["mlx_active_memory_bytes"@]);
    count_in(source, &paths, &keys)
}

pub open spec fn cache_memory_spec(source: Json) -> Option<u64> {
    count_in_spec(
        source,
        seq![
            "mlx_memory/cache_bytes"@,
            "mlx/cache_bytes"@,
            "mlx/cache_memory"@,
            "cache_memory_bytes"@,
        ],
        seq!["mlx_cache_memory_bytes"@],
    )
}

fn cache_memory_of(source: &Json) -> (result: Option<u64>)
    ensures
        result == cache_memory_spec(*source),
{
    let paths: Vec<&'static str> = vec![
        "mlx_memory/cache_bytes",
        "mlx/cache_bytes",
        "mlx/cache_memory",
        "cache_memory_bytes",
    ];
    let keys: Vec<&'static str> = vec!["mlx_cache_memory_bytes"];
    assert(strs(paths@) =~= seq![
        "mlx_memory/cache_bytes"@,
        "mlx/cache_bytes"@,
        "mlx/cache_memory"@,
        "cache_memory_bytes"@,
    ]);
    assert(strs(keys@) =~= seq!["mlx_cache_memory_bytes"@]);
    count_in(source, &paths, &keys)
}

pub open spec fn peak_memory_spec(source: Json) -> Option<u64> {
    count_in_spec(
        source,
        seq!["mlx_memory/peak_bytes"@, "mlx/peak_bytes"@, "mlx/peak_memory"@, "peak_memory_bytes"@],
        seq!["mlx_peak_memory_bytes"@],
    )
}

fn peak_memory_of(source: &Json) -> (result: Option<u64>)
    ensures
        result == peak_memory_spec(*source),
{
    let paths: Vec<&'static str> = vec![
        "mlx_memory/peak_bytes",
        "mlx/peak_bytes",
        "mlx/peak_memory",
        "peak_memory_bytes",
    ];
    let keys: Vec<&'static str> = vec!["mlx_peak_memory_bytes"];
    assert(strs(paths@) =~= seq![
        "mlx_memory/peak_bytes"@,
        "mlx/peak_bytes"@,
        "mlx/peak_memory"@,
        "peak_memory_bytes"@,
    ]);
    assert(strs(keys@) =~= seq!["mlx_peak_memory_bytes"@]);
    count_in(source, &paths, &keys)
}

pub open spec fn device_name_spec(source: Json) -> Option<String> {
    text_in_spec(
        source,
        seq!["device_name"@, "mlx_device_name"@, "hardware/device_name"@, "chip_name"@],
        seq!["device_name"@, "mlx_device_name"@, "chip_name"@],
    )
}

fn device_name_of(source: &Json) -> (result: Option<String>)
    ensures
        result == device_name_spec(*source),
{
    let paths: Vec<&'static str> = vec![
        "device_name",
        "mlx_device_name",
        "hardware/device_name",
        "chip_name",
    ];
    let keys: Vec<&'static str> = vec!["device_name", "mlx_device_name", "chip_name"];
    assert(strs(paths@) =~= seq![
        "device_name"@,
        "mlx_device_name"@,
        "hardware/device_name"@,
        "chip_name"@,
    ]);
    assert(strs(keys@) =~= seq!["device_name"@, "mlx_device_name"@, "chip_name"@]);
    text_in(source, &paths, &keys)
}

pub open spec fn architecture_spec(source: Json) -> Option<String> {
    text_in_spec(
        source,
        seq!["architecture"@, "mlx/architecture"@],
        seq!["architecture"@],
    )
}

fn architecture_of(source: &Json) -> (result: Option<String>)
    ensures
        result == architecture_spec(*source),
{
    let paths: Vec<&'static str> = vec!["architecture", "mlx/architecture"];
    let keys: Vec<&'static str> = vec!["architecture"];
    assert(strs(paths@) =~= seq!["architecture"@, "mlx/architecture"@]);
    assert(strs(keys@) =~= seq!["architecture"@]);
    text_in(source, &paths, &keys)
}

pub open spec fn memory_size_spec(source: Json) -> Option<u64> {
    count_in_spec(
        source,
        seq![
            "memory_size"@,
            "mlx/memory_size"@,
            "hardware/memory_size"@,
            "system/total_memory_bytes"@,
        ],
        seq!["memory_size"@, "total_memory_bytes"@],
    )
}

fn memory_size_of(source: &Json) -> (result: Option<u64>)
    ensures
        result == memory_size_spec(*source),
{
    let paths: Vec<&'static str> = vec![
        "memory_size",
        "mlx/memory_size",
        "hardware/memory_size",
        "system/total_memory_bytes",
    ];
    let keys: Vec<&'static str> = vec!["memory_size", "total_memory_bytes"];
    assert(strs(paths@) =~= seq![
        "memory_size"@,
        "mlx/memory_size"@,
        "hardware/memory_size"@,
        "system/total_memory_bytes"@,
    ]);
    assert(strs(keys@) =~= seq!["memory_size"@, "total_memory_bytes"@]);
    count_in(source, &paths, &keys)
}

pub open spec fn recommended_working_set_spec(source: Json) -> Option<u64> {
    count_in_spec(
        source,
        seq![
            "max_recommended_working_set_size"@,
            "mlx/max_recommended_working_set_size"@,
            "recommended_working_set_bytes"@,
        ],
        seq!["max_recommended_working_set_size"@, "recommended_working_set_bytes"@],
    )
}

fn recommended_working_set_of(source: &Json) -> (result: Option<u64>)
    ensures
        result == recommended_working_set_spec(*source),
{
    let paths: Vec<&'static str> = vec![
        "max_recommended_working_set_size",
        "mlx/max_recommended_working_set_size",
        "recommended_working_set_bytes",
    ];
    let keys: Vec<&'static str> = vec![
        "max_recommended_working_set_size",
        "recommended_working_set_bytes",
    ];
    assert(strs(paths@) =~= seq![
        "max_recommended_working_set_size"@,
        "mlx/max_recommended_working_set_size"@,
        "recommended_working_set_bytes"@,
    ]);
    assert(strs(keys@) =~= seq![
        "max_recommended_working_set_size"@,
        "recommended_working_set_bytes"@,
    ]);
    count_in(source, &paths, &keys)
}

pub open spec fn max_buffer_size_spec(source: Json) -> Option<u64> {
    count_in_spec(
        source,
        seq!["max_buffer_size"@, "mlx/max_buffer_size"@, "max_buffer_length"@],
        seq!["max_buffer_size"@, "max_buffer_length"@],
    )
}

fn max_buffer_size_of(source: &Json) -> (result: Option<u64>)
    ensures
        result == max_buffer_size_spec(*source),
{
    let paths: Vec<&'static str> = vec![
        "max_buffer_size",
        "mlx/max_buffer_size",
        "max_buffer_length",
    ];
    let keys: Vec<&'static str> = vec!["max_buffer_size", "max_buffer_length"];
    assert(strs(paths@) =~= seq!["max_buffer_size"@, "mlx/max_buffer_size"@, "max_buffer_length"@]);
    assert(strs(keys@) =~= seq!["max_buffer_size"@, "max_buffer_length"@]);
    count_in(source, &paths, &keys)
}

pub open spec fn resource_limit_spec(source: Json) -> Option<u64> {
    count_in_spec(
        source,
        seq!["system/iogpu_wired_limit_bytes"@, "system/metal_limit_bytes"@, "mlx/resource_limit"@],
        seq!["iogpu_wired_limit_bytes"@, "metal_limit_bytes"@, "resource_limit"@],
    )
}

fn resource_limit_of(source: &Json) -> (result: Option<u64>)
    ensures
        result == resource_limit_spec(*source),
{
    let paths: Vec<&'static str> = vec![
        "system/iogpu_wired_limit_bytes",
        "system/metal_limit_bytes",
        "mlx/resource_limit",
    ];
    let keys: Vec<&'static str> = vec![
        "iogpu_wired_limit_bytes",
        "metal_limit_bytes",
        "resource_limit",
    ];
    assert(strs(paths@) =~= seq![
        "system/iogpu_wired_limit_bytes"@,
        "system/metal_limit_bytes"@,
        "mlx/resource_limit"@,
    ]);
    assert(strs(keys@) =~= seq![
        "iogpu_wired_limit_bytes"@,
        "metal_limit_bytes"@,
        "resource_limit"@,
    ]);
    count_in(source, &paths, &keys)
}

pub open spec fn process_footprint_spec(source: Json) -> Option<u64> {
    count_in_spec(
        source,
        seq!["system/omlx_phys_footprint_bytes"@, "system/phys_footprint_bytes"@],
        seq!["omlx_phys_footprint_bytes"@, "phys_footprint_bytes"@],
    )
}

fn process_footprint_of(source: &Json) -> (result: Option<u64>)
    ensures
        result == process_footprint_spec(*source),
{
    let paths: Vec<&'static str> = vec![
        "system/omlx_phys_footprint_bytes",
        "system/phys_footprint_bytes",
    ];
    let keys: Vec<&'static str> = vec!["omlx_phys_footprint_bytes", "phys_footprint_bytes"];
    assert(strs(paths@) =~= seq![
        "system/omlx_phys_footprint_bytes"@,
        "system/phys_footprint_bytes"@,
    ]);
    assert(strs(keys@) =~= seq!["omlx_phys_footprint_bytes"@, "phys_footprint_bytes"@]);
    count_in(source, &paths, &keys)
}

/// A size in GiB as whole bytes, where they fit in 64 bits.
pub open spec fn gib_to_bytes_spec(value: Binary64) -> Option<u64> {
    let size = value.product(Binary64::of_nat(GIB as nat));
    if value.measurable() && size.finite_spec() && size.at_most(Binary64::of_nat(u64::MAX as nat)) {
        Some(size.rounded_part() as u64)
    } else {
        None
    }
}

/// A size in GiB as whole bytes, where they fit in 64 bits.
pub fn gib_to_bytes(value: Binary64) -> (result: Option<u64>)
    ensures
        result == gib_to_bytes_spec(value),
{
    if !value.is_measurable() {
        return None;
    }
    let size = value.times(Binary64::from_u64(GIB));
    if size.is_finite() && size.le(Binary64::from_u64(u64::MAX)) {
        Some(size.rounded())
    } else {
        None
    }
}

/// The size of the memory in bytes, or else what is given in GiB.
pub open spec fn memory_size_or_gib_spec(source: Json) -> Option<u64> {
    match memory_size_spec(source) {
        Some(size) => Some(size),
        None => match search_spec(source, "memory_gb"@, Wanted::Real) {
            Some(found) => match value_as_f64_spec(found) {
                Some(value) => gib_to_bytes_spec(value),
                None => None,
            },
            None => None,
        },
    }
}

fn memory_size_or_gib(source: &Json) -> (result: Option<u64>)
    ensures
        result == memory_size_or_gib_spec(*source),
{
    match memory_size_of(source) {
        Some(size) => Some(size),
        None => match search(source, "memory_gb", Wanted::Real) {
            Some(found) => match value_as_f64(found) {
                Some(value) => gib_to_bytes(value),
                None => None,
            },
            None => None,
        },
    }
}

/// What one document says of the runtime.
pub open spec fn mlx_of(source: Json) -> MlxTelemetry {
    MlxTelemetry {
        version: version_spec(source),
        active_memory: active_memory_spec(source),
        cache_memory: cache_memory_spec(source),
        peak_memory: peak_memory_spec(source),
        device_name: device_name_spec(source),
        architecture: architecture_spec(source),
        memory_size: memory_size_or_gib_spec(source),
        recommended_working_set: recommended_working_set_spec(source),
        max_buffer_size: max_buffer_size_spec(source),
        resource_limit: resource_limit_spec(source),
        process_footprint: process_footprint_spec(source),
    }
}

fn read_mlx(source: &Json) -> (result: MlxTelemetry)
    ensures
        result == mlx_of(*source),
{
    MlxTelemetry {
        version: version_of(source),
        active_memory: active_memory_of(source),
        cache_memory: cache_memory_of(source),
        peak_memory: peak_memory_of(source),
        device_name: device_name_of(source),
        architecture: architecture_of(source),
        memory_size: memory_size_or_gib(source),
        recommended_working_set: recommended_working_set_of(source),
        max_buffer_size: max_buffer_size_of(source),
        resource_limit: resource_limit_of(source),
        process_footprint: process_footprint_of(source),
    }
}

/// What is known, with what is newly known in its place.
pub open spec fn merge_mlx_telemetry_spec(
    base: MlxTelemetry,
    update: MlxTelemetry,
) -> MlxTelemetry {
    MlxTelemetry {
        version: if update.version is Some {
            update.version
        } else {
            base.version
        },
        active_memory: if update.active_memory is Some {
            update.active_memory
        } else {
            base.active_memory
        },
        cache_memory: if update.cache_memory is Some {
            update.cache_memory
        } else {
            base.cache_memory
        },
        peak_memory: if update.peak_memory is Some {
            update.peak_memory
        } else {
            base.peak_memory
        },
        device_name: if update.device_name is Some {
            update.device_name
        } else {
            base.device_name
        },
        architecture: if update.architecture is Some {
            update.architecture
        } else {
            base.architecture
        },
        memory_size: if update.memory_size is Some {
            update.memory_size
        } else {
            base.memory_size
        },
        recommended_working_set: if update.recommended_working_set is Some {
            update.recommended_working_set
        } else {
            base.recommended_working_set
        },
        max_buffer_size: if update.max_buffer_size is Some {
            update.max_buffer_size
        } else {
            base.max_buffer_size
        },
        resource_limit: if update.resource_limit is Some {
            update.resource_limit
        } else {
            base.resource_limit
        },
        process_footprint: if update.process_footprint is Some {
            update.process_footprint
        } else {
            base.process_footprint
        },
    }
}

fn text_or(value: &Option<String>, other: &Option<String>) -> (result: Option<String>)
    ensures
        result == if *value is Some {
            *value
        } else {
            *other
        },
{
    if value.is_some() {
        value.clone()
    } else {
        other.clone()
    }
}

fn count_or(value: Option<u64>, other: Option<u64>) -> (result: Option<u64>)
    ensures
        result == if value is Some {
            value
        } else {
            other
        },
{
    if value.is_some() {
        value
    } else {
        other
    }
}

/// What is known, with what is newly known in its place.
pub fn merge_mlx_telemetry(base: &MlxTelemetry, update: &MlxTelemetry) -> (result: MlxTelemetry)
    ensures
        result == merge_mlx_telemetry_spec(*base, *update),
{
    MlxTelemetry {
        version: text_or(&update.version, &base.version),
        active_memory: count_or(update.active_memory, base.active_memory),
        cache_memory: count_or(update.cache_memory, base.cache_memory),
        peak_memory: count_or(update.peak_memory, base.peak_memory),
        device_name: text_or(&update.device_name, &base.device_name),
        architecture: text_or(&update.architecture, &base.architecture),
        memory_size: count_or(update.memory_size, base.memory_size),
        recommended_working_set: count_or(
            update.recommended_working_set,
            base.recommended_working_set,
        ),
        max_buffer_size: count_or(update.max_buffer_size, base.max_buffer_size),
        resource_limit: count_or(update.resource_limit, base.resource_limit),
        process_footprint: count_or(update.process_footprint, base.process_footprint),
    }
}

pub open spec fn mlx_metadata_is_empty_spec(telemetry: MlxTelemetry) -> bool {
    telemetry.version is None && telemetry.active_memory is None && telemetry.cache_memory is None
        && telemetry.peak_memory is None && telemetry.device_name is None
        && telemetry.architecture is None && telemetry.memory_size is None
        && telemetry.recommended_working_set is None && telemetry.max_buffer_size is None
        && telemetry.resource_limit is None && telemetry.process_footprint is None
}

/// Whether nothing is known of the runtime.
pub fn mlx_metadata_is_empty(telemetry: &MlxTelemetry) -> (result: bool)
    ensures
        result == mlx_metadata_is_empty_spec(*telemetry),
{
    telemetry.version.is_none() && telemetry.active_memory.is_none()
        && telemetry.cache_memory.is_none() && telemetry.peak_memory.is_none()
        && telemetry.device_name.is_none() && telemetry.architecture.is_none()
        && telemetry.memory_size.is_none() && telemetry.recommended_working_set.is_none()
        && telemetry.max_buffer_size.is_none() && telemetry.resource_limit.is_none()
        && telemetry.process_footprint.is_none()
}

/// Merging forgets nothing: an update that is empty changes nothing, what is
/// merged twice is merged once, and the order of three does not depend on which
/// two are merged first.
pub proof fn merging_keeps_what_is_known(a: MlxTelemetry, b: MlxTelemetry, c: MlxTelemetry)
    ensures
        mlx_metadata_is_empty_spec(b) ==> merge_mlx_telemetry_spec(a, b) == a,
        mlx_metadata_is_empty_spec(a) ==> merge_mlx_telemetry_spec(a, b) == b,
        merge_mlx_telemetry_spec(a, a) == a,
        merge_mlx_telemetry_spec(merge_mlx_telemetry_spec(a, b), b) == merge_mlx_telemetry_spec(
            a,
            b,
        ),
        merge_mlx_telemetry_spec(merge_mlx_telemetry_spec(a, b), c) == merge_mlx_telemetry_spec(
            a,
            merge_mlx_telemetry_spec(b, c),
        ),
{
}

/// What some documents say of the runtime; a later one goes before an earlier
/// one.
pub open spec fn parse_mlx_sources_spec(sources: Seq<Json>) -> MlxTelemetry
    decreases sources.len(),
{
    if sources.len() == 0 {
        MlxTelemetry::nothing_spec()
    } else {
        merge_mlx_telemetry_spec(
            parse_mlx_sources_spec(sources.drop_last()),
            mlx_of(sources.last()),
        )
    }
}

/// The documents that references lead to.
pub open spec fn documents(sources: Seq<&Json>) -> Seq<Json> {
    sources.map_values(|s: &Json| *s)
}

/// What some documents say of the runtime; a later one goes before an earlier
/// one.
pub fn parse_mlx_sources(sources: &Vec<&Json>) -> (result: MlxTelemetry)
    ensures
        result == parse_mlx_sources_spec(documents(sources@)),
{
    let ghost all = documents(sources@);
    let mut telemetry = MlxTelemetry::nothing();
    for i in 0..sources.len()
        invariant
            all == documents(sources@),
            telemetry == parse_mlx_sources_spec(all.take(i as int)),
    {
        assert(all.take(i + 1).drop_last() =~= all.take(i as int));
        assert(all.take(i + 1).last() == *sources@[i as int]);
        let next = read_mlx(sources[i]);
        telemetry = merge_mlx_telemetry(&telemetry, &next);
    }
    assert(all.take(all.len() as int) =~= all);
    telemetry
}

/// The documents that are there, in order.
pub open spec fn present(first: Option<Json>, second: Option<Json>) -> Seq<Json> {
    match (first, second) {
        (Some(first), Some(second)) => seq![first, second],
        (Some(first), None) => seq![first],
        (None, Some(second)) => seq![second],
        (None, None) => Seq::empty(),
    }
}

fn parse_present(first: Option<&Json>, second: Option<&Json>) -> (result: MlxTelemetry)
    ensures
        result == parse_mlx_sources_spec(present(held(first), held(second))),
{
    let mut sources: Vec<&Json> = Vec::new();
    if let Some(first) = first {
        sources.push(first);
    }
    if let Some(second) = second {
        sources.push(second);
    }
    assert(documents(sources@) =~= present(held(first), held(second)));
    parse_mlx_sources(&sources)
}

/// What a server's health and its statistics say of the runtime.
pub fn parse_mlx_runtime_telemetry(health: &Json, stats: Option<&Json>) -> (result: MlxTelemetry)
    ensures
        result == parse_mlx_sources_spec(present(Some(*health), held(stats))),
{
    parse_present(Some(health), stats)
}

/// What a server says of its device and its settings.
pub fn parse_mlx_metadata(device_info: Option<&Json>, settings: Option<&Json>) -> (result:
    MlxTelemetry)
    ensures
        result == parse_mlx_sources_spec(present(held(device_info), held(settings))),
{
    parse_present(device_info, settings)
}

/// A suitable value at the end of the first path is what is found.
proof fn lemma_first_path(
    value: Json,
    paths: Seq<Seq<char>>,
    keys: Seq<Seq<char>>,
    path: Seq<char>,
    wanted: Wanted,
)
    requires
        paths.len() > 0,
        paths[0] == path,
        json_value_spec(value, path) is Some,
        suits_spec(json_value_spec(value, path).unwrap(), wanted),
    ensures
        located(value, paths, keys, wanted) == json_value_spec(value, path),
{
}

proof fn lemma_says_version(source: Json)
    ensures
        get_spec(source, "mlx_version"@) matches Some(Json::Text(n)) ==> version_spec(source) == Some(n),
{
    reveal_strlit("mlx_version");
    one_key_is_a_path(source, "mlx_version"@);
    let paths = seq![
        "mlx_version"@,
        "mlx/version"@,
        "engines/mlx-lm/version"@,
        "engines/mlx-vlm/version"@,
        "engines/mlx-embeddings/version"@,
        "engines/mlx-audio/version"@,
    ];
    let keys = seq!["mlx_version"@];
    if let Some(found) = get_spec(source, "mlx_version"@) {
        if suits_spec(found, Wanted::Text) {
            lemma_first_path(source, paths, keys, "mlx_version"@, Wanted::Text);
        }
    }
}

proof fn lemma_says_active_memory(source: Json)
    ensures
        within(source, "mlx_memory"@, "active_bytes"@) matches Some(Json::Number(Some(n), _)) ==> active_memory_spec(source) == Some(n),
{
    reveal_strlit("mlx_memory");
    reveal_strlit("active_bytes");
    reveal_strlit("mlx_memory/active_bytes");
    reveal_strlit("/");
    two_keys_are_a_path(source, "mlx_memory/active_bytes"@, "mlx_memory"@, "active_bytes"@);
    let paths = seq![
        "mlx_memory/active_bytes"@,
        "mlx/active_bytes"@,
        "mlx/active_memory"@,
        "active_memory_bytes"@,
    ];
    let keys = seq!["mlx_active_memory_bytes"@];
    if let Some(found) = within(source, "mlx_memory"@, "active_bytes"@) {
        if suits_spec(found, Wanted::Count) {
            lemma_first_path(source, paths, keys, "mlx_memory/active_bytes"@, Wanted::Count);
        }
    }
}

proof fn lemma_says_cache_memory(source: Json)
    ensures
        within(source, "mlx_memory"@, "cache_bytes"@) matches Some(Json::Number(Some(n), _)) ==> cache_memory_spec(source) == Some(n),
{
    reveal_strlit("mlx_memory");
    reveal_strlit("mlx_memory/cache_bytes");
    reveal_strlit("cache_bytes");
    reveal_strlit("/");
    two_keys_are_a_path(source, "mlx_memory/cache_bytes"@, "mlx_memory"@, "cache_bytes"@);
    let paths = seq![
        "mlx_memory/cache_bytes"@,
        "mlx/cache_bytes"@,
        "mlx/cache_memory"@,
        "cache_memory_bytes"@,
    ];
    let keys = seq!["mlx_cache_memory_bytes"@];
    if let Some(found) = within(source, "mlx_memory"@, "cache_bytes"@) {
        if suits_spec(found, Wanted::Count) {
            lemma_first_path(source, paths, keys, "mlx_memory/cache_bytes"@, Wanted::Count);
        }
    }
}

proof fn lemma_says_peak_memory(source: Json)
    ensures
        within(source, "mlx_memory"@, "peak_bytes"@) matches Some(Json::Number(Some(n), _)) ==> peak_memory_spec(source) == Some(n),
{
    reveal_strlit("mlx_memory");
    reveal_strlit("peak_bytes");
    reveal_strlit("mlx_memory/peak_bytes");
    reveal_strlit("/");
    two_keys_are_a_path(source, "mlx_memory/peak_bytes"@, "mlx_memory"@, "peak_bytes"@);
    let paths = seq![
        "mlx_memory/peak_bytes"@,
        "mlx/peak_bytes"@,
        "mlx/peak_memory"@,
        "peak_memory_bytes"@,
    ];
    let keys = seq!["mlx_peak_memory_bytes"@];
    if let Some(found) = within(source, "mlx_memory"@, "peak_bytes"@) {
        if suits_spec(found, Wanted::Count) {
            lemma_first_path(source, paths, keys, "mlx_memory/peak_bytes"@, Wanted::Count);
        }
    }
}

proof fn lemma_says_device_name(source: Json)
    ensures
        get_spec(source, "device_name"@) matches Some(Json::Text(n)) ==> device_name_spec(source) == Some(n),
{
    reveal_strlit("device_name");
    one_key_is_a_path(source, "device_name"@);
    let paths = seq![
        "device_name"@,
        "mlx_device_name"@,
        "hardware/device_name"@,
        "chip_name"@,
    ];
    let keys = seq!["device_name"@, "mlx_device_name"@, "chip_name"@];
    if let Some(found) = get_spec(source, "device_name"@) {
        if suits_spec(found, Wanted::Text) {
            lemma_first_path(source, paths, keys, "device_name"@, Wanted::Text);
        }
    }
}

proof fn lemma_says_architecture(source: Json)
    ensures
        get_spec(source, "architecture"@) matches Some(Json::Text(n)) ==> architecture_spec(source) == Some(n),
{
    reveal_strlit("architecture");
    one_key_is_a_path(source, "architecture"@);
    let paths = seq![
        "architecture"@,
        "mlx/architecture"@,
    ];
    let keys = seq!["architecture"@];
    if let Some(found) = get_spec(source, "architecture"@) {
        if suits_spec(found, Wanted::Text) {
            lemma_first_path(source, paths, keys, "architecture"@, Wanted::Text);
        }
    }
}

proof fn lemma_says_memory_size(source: Json)
    ensures
        get_spec(source, "memory_size"@) matches Some(Json::Number(Some(n), _)) ==> memory_size_or_gib_spec(source) == Some(n),
{
    reveal_strlit("memory_size");
    one_key_is_a_path(source, "memory_size"@);
    let paths = seq![
        "memory_size"@,
        "mlx/memory_size"@,
        "hardware/memory_size"@,
        "system/total_memory_bytes"@,
    ];
    let keys = seq!["memory_size"@, "total_memory_bytes"@];
    if let Some(found) = get_spec(source, "memory_size"@) {
        if suits_spec(found, Wanted::Count) {
            lemma_first_path(source, paths, keys, "memory_size"@, Wanted::Count);
        }
    }
}

proof fn lemma_says_recommended_working_set(source: Json)
    ensures
        get_spec(source, "max_recommended_working_set_size"@) matches Some(Json::Number(Some(n), _)) ==> recommended_working_set_spec(source) == Some(n),
{
    reveal_strlit("max_recommended_working_set_size");
    one_key_is_a_path(source, "max_recommended_working_set_size"@);
    let paths = seq![
        "max_recommended_working_set_size"@,
        "mlx/max_recommended_working_set_size"@,
        "recommended_working_set_bytes"@,
    ];
    let keys = seq!["max_recommended_working_set_size"@, "recommended_working_set_bytes"@];
    if let Some(found) = get_spec(source, "max_recommended_working_set_size"@) {
        if suits_spec(found, Wanted::Count) {
            lemma_first_path(source, paths, keys, "max_recommended_working_set_size"@, Wanted::Count);
        }
    }
}

proof fn lemma_says_max_buffer_size(source: Json)
    ensures
        get_spec(source, "max_buffer_size"@) matches Some(Json::Number(Some(n), _)) ==> max_buffer_size_spec(source) == Some(n),
{
    reveal_strlit("max_buffer_size");
    one_key_is_a_path(source, "max_buffer_size"@);
    let paths = seq![
        "max_buffer_size"@,
        "mlx/max_buffer_size"@,
        "max_buffer_length"@,
    ];
    let keys = seq!["max_buffer_size"@, "max_buffer_length"@];
    if let Some(found) = get_spec(source, "max_buffer_size"@) {
        if suits_spec(found, Wanted::Count) {
            lemma_first_path(source, paths, keys, "max_buffer_size"@, Wanted::Count);
        }
    }
}

proof fn lemma_says_resource_limit(source: Json)
    ensures
        within(source, "system"@, "iogpu_wired_limit_bytes"@) matches Some(Json::Number(Some(n), _)) ==> resource_limit_spec(source) == Some(n),
{
    reveal_strlit("system/iogpu_wired_limit_bytes");
    reveal_strlit("iogpu_wired_limit_bytes");
    reveal_strlit("system");
    reveal_strlit("/");
    two_keys_are_a_path(source, "system/iogpu_wired_limit_bytes"@, "system"@, "iogpu_wired_limit_bytes"@);
    let paths = seq![
        "system/iogpu_wired_limit_bytes"@,
        "system/metal_limit_bytes"@,
        "mlx/resource_limit"@,
    ];
    let keys = seq!["iogpu_wired_limit_bytes"@, "metal_limit_bytes"@, "resource_limit"@];
    if let Some(found) = within(source, "system"@, "iogpu_wired_limit_bytes"@) {
        if suits_spec(found, Wanted::Count) {
            lemma_first_path(source, paths, keys, "system/iogpu_wired_limit_bytes"@, Wanted::Count);
        }
    }
}

proof fn lemma_says_process_footprint(source: Json)
    ensures
        within(source, "system"@, "omlx_phys_footprint_bytes"@) matches Some(Json::Number(Some(n), _)) ==> process_footprint_spec(source) == Some(n),
{
    reveal_strlit("system/omlx_phys_footprint_bytes");
    reveal_strlit("system");
    reveal_strlit("omlx_phys_footprint_bytes");
    reveal_strlit("/");
    two_keys_are_a_path(source, "system/omlx_phys_footprint_bytes"@, "system"@, "omlx_phys_footprint_bytes"@);
    let paths = seq![
        "system/omlx_phys_footprint_bytes"@,
        "system/phys_footprint_bytes"@,
    ];
    let keys = seq!["omlx_phys_footprint_bytes"@, "phys_footprint_bytes"@];
    if let Some(found) = within(source, "system"@, "omlx_phys_footprint_bytes"@) {
        if suits_spec(found, Wanted::Count) {
            lemma_first_path(source, paths, keys, "system/omlx_phys_footprint_bytes"@, Wanted::Count);
        }
    }
}

/// Each figure of a runtime is what its own field says: the allocator's counters
/// are read from what it reports of them, and never from anything else that is
/// reported beside them.
pub proof fn runtimes_say_their_own_figures(source: Json)
    ensures
        get_spec(source, "mlx_version"@) matches Some(Json::Text(n)) ==> parse_mlx_sources_spec(
            present(Some(source), None),
        ).version == Some(n),
        within(source, "mlx_memory"@, "active_bytes"@) matches Some(Json::Number(Some(n), _))
            ==> parse_mlx_sources_spec(
            present(Some(source), None),
        ).active_memory == Some(n),
        within(source, "mlx_memory"@, "cache_bytes"@) matches Some(Json::Number(Some(n), _))
            ==> parse_mlx_sources_spec(
            present(Some(source), None),
        ).cache_memory == Some(n),
        within(source, "mlx_memory"@, "peak_bytes"@) matches Some(Json::Number(Some(n), _))
            ==> parse_mlx_sources_spec(
            present(Some(source), None),
        ).peak_memory == Some(n),
        get_spec(source, "device_name"@) matches Some(Json::Text(n)) ==> parse_mlx_sources_spec(
            present(Some(source), None),
        ).device_name == Some(n),
        get_spec(source, "architecture"@) matches Some(Json::Text(n)) ==> parse_mlx_sources_spec(
            present(Some(source), None),
        ).architecture == Some(n),
        get_spec(source, "memory_size"@) matches Some(Json::Number(Some(n), _))
            ==> parse_mlx_sources_spec(
            present(Some(source), None),
        ).memory_size == Some(n),
        get_spec(source, "max_recommended_working_set_size"@) matches Some(Json::Number(Some(n), _))
            ==> parse_mlx_sources_spec(
            present(Some(source), None),
        ).recommended_working_set == Some(n),
        get_spec(source, "max_buffer_size"@) matches Some(Json::Number(Some(n), _))
            ==> parse_mlx_sources_spec(
            present(Some(source), None),
        ).max_buffer_size == Some(n),
        within(source, "system"@, "iogpu_wired_limit_bytes"@) matches Some(Json::Number(Some(n), _))
            ==> parse_mlx_sources_spec(
            present(Some(source), None),
        ).resource_limit == Some(n),
        within(source, "system"@, "omlx_phys_footprint_bytes"@) matches Some(Json::Number(Some(n), _))
            ==> parse_mlx_sources_spec(
            present(Some(source), None),
        ).process_footprint == Some(n),
{
    lemma_says_version(source);
    lemma_says_active_memory(source);
    lemma_says_cache_memory(source);
    lemma_says_peak_memory(source);
    lemma_says_device_name(source);
    lemma_says_architecture(source);
    lemma_says_memory_size(source);
    lemma_says_recommended_working_set(source);
    lemma_says_max_buffer_size(source);
    lemma_says_resource_limit(source);
    lemma_says_process_footprint(source);
    let sources = present(Some(source), None);
    assert(sources.drop_last() =~= Seq::<Json>::empty());
    assert(parse_mlx_sources_spec(sources.drop_last()) == MlxTelemetry::nothing_spec());
    assert(parse_mlx_sources_spec(sources) == merge_mlx_telemetry_spec(
        MlxTelemetry::nothing_spec(),
        mlx_of(source),
    ));
}

/// A later document goes before an earlier one, figure by figure, and what only
/// the earlier says still stands.
pub proof fn later_documents_go_first(first: Json, second: Json)
    ensures
        ({
            let both = parse_mlx_sources_spec(present(Some(first), Some(second)));
            let (one, two) = (mlx_of(first), mlx_of(second));
            &&& two.version is Some ==> both.version == two.version
            &&& two.version is None ==> both.version == one.version
            &&& two.active_memory is Some ==> both.active_memory == two.active_memory
            &&& two.active_memory is None ==> both.active_memory == one.active_memory
            &&& two.cache_memory is Some ==> both.cache_memory == two.cache_memory
            &&& two.cache_memory is None ==> both.cache_memory == one.cache_memory
            &&& two.peak_memory is Some ==> both.peak_memory == two.peak_memory
            &&& two.peak_memory is None ==> both.peak_memory == one.peak_memory
            &&& two.device_name is Some ==> both.device_name == two.device_name
            &&& two.device_name is None ==> both.device_name == one.device_name
            &&& two.architecture is Some ==> both.architecture == two.architecture
            &&& two.architecture is None ==> both.architecture == one.architecture
            &&& two.memory_size is Some ==> both.memory_size == two.memory_size
            &&& two.memory_size is None ==> both.memory_size == one.memory_size
            &&& two.recommended_working_set is Some ==> both.recommended_working_set == two.recommended_working_set
            &&& two.recommended_working_set is None ==> both.recommended_working_set == one.recommended_working_set
            &&& two.max_buffer_size is Some ==> both.max_buffer_size == two.max_buffer_size
            &&& two.max_buffer_size is None ==> both.max_buffer_size == one.max_buffer_size
            &&& two.resource_limit is Some ==> both.resource_limit == two.resource_limit
            &&& two.resource_limit is None ==> both.resource_limit == one.resource_limit
            &&& two.process_footprint is Some ==> both.process_footprint == two.process_footprint
            &&& two.process_footprint is None ==> both.process_footprint == one.process_footprint
        }),
{
    let sources = present(Some(first), Some(second));
    let fewer = sources.drop_last();
    assert(fewer =~= seq![first]);
    assert(fewer.drop_last() =~= Seq::<Json>::empty());
    assert(parse_mlx_sources_spec(fewer.drop_last()) == MlxTelemetry::nothing_spec());
    assert(parse_mlx_sources_spec(fewer) == merge_mlx_telemetry_spec(
        MlxTelemetry::nothing_spec(),
        mlx_of(first),
    ));
}

} // verus!
