//! What an oMLX server answers.

use crate::binary64::Binary64;
use crate::json::{
    get, get_spec, held, json_value, json_value_spec, one_key_is_a_path,
    two_keys_are_a_path, value_as_f64, value_as_f64_spec, value_as_text, value_as_text_spec,
    value_as_u64, value_as_u64_spec, within, Json,
};
use crate::mlx::{parse_mlx_runtime_telemetry, parse_mlx_sources_spec, present, strs};
use crate::model::{LlmTelemetry, TelemetrySource};
use vstd::prelude::*;

verus! {

pub open spec fn json_u64_spec(value: Json, path: Seq<char>) -> Option<u64> {
    match json_value_spec(value, path) {
        Some(found) => value_as_u64_spec(found),
        None => None,
    }
}

/// The count at the end of a path.
pub fn json_u64(value: &Json, path: &str) -> (result: Option<u64>)
    ensures
        result == json_u64_spec(*value, path@),
{
    match json_value(value, path) {
        Some(found) => value_as_u64(found),
        None => None,
    }
}

pub open spec fn json_f64_spec(value: Json, path: Seq<char>) -> Option<Binary64> {
    match json_value_spec(value, path) {
        Some(found) => value_as_f64_spec(found),
        None => None,
    }
}

/// The number at the end of a path.
pub fn json_f64(value: &Json, path: &str) -> (result: Option<Binary64>)
    ensures
        result == json_f64_spec(*value, path@),
{
    match json_value(value, path) {
        Some(found) => value_as_f64(found),
        None => None,
    }
}

pub open spec fn json_string_spec(value: Json, path: Seq<char>) -> Option<String> {
    match json_value_spec(value, path) {
        Some(found) => value_as_text_spec(found),
        None => None,
    }
}

/// The text at the end of a path.
pub fn json_string(value: &Json, path: &str) -> (result: Option<String>)
    ensures
        result == json_string_spec(*value, path@),
{
    match json_value(value, path) {
        Some(found) => value_as_text(found),
        None => None,
    }
}

/// The items of an array at the end of a path.
pub open spec fn items_spec(value: Json, path: Seq<char>) -> Option<Seq<Json>> {
    match json_value_spec(value, path) {
        Some(Json::Array(items)) => Some(items@),
        _ => None,
    }
}

fn items<'a>(value: &'a Json, path: &str) -> (result: Option<&'a Vec<Json>>)
    ensures
        match result {
            Some(list) => items_spec(*value, path@) == Some(list@),
            None => items_spec(*value, path@) is None,
        },
{
    match json_value(value, path) {
        Some(Json::Array(list)) => Some(list),
        _ => None,
    }
}

/// The first item of an array at the end of a path.
pub open spec fn first_item_spec(value: Json, path: Seq<char>) -> Option<Json> {
    match items_spec(value, path) {
        Some(list) => if list.len() > 0 {
            Some(list[0])
        } else {
            None
        },
        None => None,
    }
}

fn first_item<'a>(value: &'a Json, path: &str) -> (result: Option<&'a Json>)
    ensures
        held(result) == first_item_spec(*value, path@),
{
    match items(value, path) {
        Some(list) => if list.len() > 0 {
            Some(&list[0])
        } else {
            None
        },
        None => None,
    }
}

/// The number under the first of some keys that holds one, where it can be a
/// rate.
pub open spec fn request_rate_spec(request: Json, keys: Seq<Seq<char>>) -> Option<Binary64>
    decreases keys.len(),
{
    if keys.len() == 0 {
        None
    } else {
        match json_f64_spec(request, keys[0]) {
            Some(value) => if value.measurable() {
                Some(value)
            } else {
                None
            },
            None => request_rate_spec(request, keys.drop_first()),
        }
    }
}

/// The number under the first of some keys that holds one, where it can be a
/// rate.
pub fn request_rate(request: &Json, keys: &Vec<&'static str>) -> (result: Option<Binary64>)
    ensures
        result == request_rate_spec(*request, strs(keys@)),
{
    let ghost all = strs(keys@);
    let mut i: usize = 0;
    assert(all.skip(0) =~= all);
    while i < keys.len()
        invariant
            i <= keys@.len(),
            all == strs(keys@),
            request_rate_spec(*request, all) == request_rate_spec(*request, all.skip(i as int)),
        decreases keys@.len() - i,
    {
        assert(all[i as int] == keys@[i as int]@);
        if let Some(value) = json_f64(request, keys[i]) {
            return if value.is_measurable() {
                Some(value)
            } else {
                None
            };
        }
        assert(all.skip(i as int).drop_first() =~= all.skip(i + 1));
        i = i + 1;
    }
    None
}

/// Whether a model has a request under way.
pub open spec fn busy_spec(model: Json) -> bool {
    first_item_spec(model, "generating"@) is Some || first_item_spec(model, "prefilling"@) is Some
}

fn is_busy(model: &Json) -> (result: bool)
    ensures
        result == busy_spec(*model),
{
    first_item(model, "generating").is_some() || first_item(model, "prefilling").is_some()
}

/// The first busy model.
pub open spec fn first_busy(models: Seq<Json>) -> Option<Json>
    decreases models.len(),
{
    if models.len() == 0 {
        None
    } else if busy_spec(models[0]) {
        Some(models[0])
    } else {
        first_busy(models.drop_first())
    }
}

/// The model that is shown: the first busy one, or else the first.
pub open spec fn shown_model(stats: Json) -> Option<Json> {
    match items_spec(stats, "active_models/models"@) {
        Some(models) => match first_busy(models) {
            Some(model) => Some(model),
            None => if models.len() > 0 {
                Some(models[0])
            } else {
                None
            },
        },
        None => None,
    }
}

fn choose_model<'a>(stats: &'a Json) -> (result: Option<&'a Json>)
    ensures
        held(result) == shown_model(*stats),
{
    let models = match items(stats, "active_models/models") {
        Some(models) => models,
        None => {
            return None;
        },
    };
    let mut i: usize = 0;
    assert(models@.skip(0) =~= models@);
    while i < models.len()
        invariant
            i <= models@.len(),
            items_spec(*stats, "active_models/models"@) == Some(models@),
            first_busy(models@) == first_busy(models@.skip(i as int)),
        decreases models@.len() - i,
    {
        if is_busy(&models[i]) {
            return Some(&models[i]);
        }
        assert(models@.skip(i as int).drop_first() =~= models@.skip(i + 1));
        i = i + 1;
    }
    if models.len() > 0 {
        Some(&models[0])
    } else {
        None
    }
}

/// A number that is not below zero.
pub open spec fn not_below_zero(value: Option<Binary64>) -> Option<Binary64> {
    match value {
        Some(number) => if number.nan_spec() || number.rank() < 0 {
            None
        } else {
            Some(number)
        },
        None => None,
    }
}

fn drop_negative(value: Option<Binary64>) -> (result: Option<Binary64>)
    ensures
        result == not_below_zero(value),
{
    match value {
        Some(number) => if Binary64::from_bits(0).le(number) {
            Some(number)
        } else {
            None
        },
        None => None,
    }
}

/// A number moved into the range of percentages.
pub open spec fn percentage_of(value: Binary64) -> Binary64 {
    if value.less_than(Binary64::of_bits(0)) {
        Binary64::of_bits(0)
    } else if Binary64::of_nat(100).less_than(value) {
        Binary64::of_nat(100)
    } else {
        value
    }
}

pub fn clamp_percentage(value: Binary64) -> (result: Binary64)
    ensures
        result == percentage_of(value),
{
    let zero = Binary64::from_bits(0);
    let hundred = Binary64::from_u64(100);
    if value.lt(zero) {
        zero
    } else if hundred.lt(value) {
        hundred
    } else {
        value
    }
}

pub open spec fn or_else(value: Option<u64>, other: Option<u64>) -> Option<u64> {
    if value is Some {
        value
    } else {
        other
    }
}

fn count_or(value: Option<u64>, other: Option<u64>) -> (result: Option<u64>)
    ensures
        result == or_else(value, other),
{
    if value.is_some() {
        value
    } else {
        other
    }
}

/// What a server's health says, but for its provider and its status.
pub open spec fn health_figures(health: Json, stats: Option<Json>) -> LlmTelemetry {
    LlmTelemetry {
        source: TelemetrySource::Live,
        model: json_string_spec(health, "default_model"@),
        model_memory: json_u64_spec(health, "engine_pool/current_model_memory"@),
        model_memory_max: json_u64_spec(health, "engine_pool/final_ceiling"@),
        mlx: parse_mlx_sources_spec(present(Some(health), stats)),
        ..LlmTelemetry::nothing_spec()
    }
}

/// Averages and totals of a session. What the health says of the memory stands
/// where the statistics say nothing.
pub open spec fn with_session(t: LlmTelemetry, stats: Json) -> LlmTelemetry {
    LlmTelemetry {
        generation_tps: not_below_zero(json_f64_spec(stats, "avg_generation_tps"@)),
        prefill_tps: not_below_zero(json_f64_spec(stats, "avg_prefill_tps"@)),
        cache_efficiency: match json_f64_spec(stats, "cache_efficiency"@) {
            Some(value) => Some(percentage_of(value)),
            None => None,
        },
        total_prompt_tokens: json_u64_spec(stats, "total_prompt_tokens"@),
        total_cached_tokens: json_u64_spec(stats, "total_cached_tokens"@),
        model_memory: or_else(
            json_u64_spec(stats, "active_models/model_memory_used"@),
            t.model_memory,
        ),
        model_memory_max: or_else(
            json_u64_spec(stats, "active_models/model_memory_max"@),
            t.model_memory_max,
        ),
        prefix_hit_rate: match first_item_spec(stats, "runtime_cache/models"@) {
            Some(cache) => match json_f64_spec(
                cache,
                "cache_rates/cumulative/prefix_hit_rate"@,
            ) {
                Some(value) => Some(percentage_of(value.product(Binary64::of_nat(100)))),
                None => None,
            },
            None => None,
        },
        ..t
    }
}

pub open spec fn generation_keys() -> Seq<Seq<char>> {
    seq!["tokens_per_second"@]
}

pub open spec fn prefill_keys() -> Seq<Seq<char>> {
    seq![
        "tokens_per_second"@,
        "speed"@,
        "prefill_tps"@,
        "prompt_tokens_per_second"@,
    ]
}

pub open spec fn rate_in(request: Option<Json>, keys: Seq<Seq<char>>) -> Option<Binary64> {
    match request {
        Some(request) => request_rate_spec(request, keys),
        None => None,
    }
}

pub open spec fn count_of(request: Option<Json>, key: Seq<char>) -> Option<u64> {
    match request {
        Some(request) => json_u64_spec(request, key),
        None => None,
    }
}

/// What the model that is shown is doing. The rate of a request under way is
/// live and goes before an average. The prompt is that of the request that is
/// generated, or read, or waits.
pub open spec fn with_model(t: LlmTelemetry, model: Json) -> LlmTelemetry {
    let generated = first_item_spec(model, "generating"@);
    let read = first_item_spec(model, "prefilling"@);
    let waiting = first_item_spec(model, "waiting"@);
    let generation = rate_in(generated, generation_keys());
    let prefill = rate_in(read, prefill_keys());
    LlmTelemetry {
        model: if json_string_spec(model, "id"@) is Some {
            json_string_spec(model, "id"@)
        } else {
            t.model
        },
        active_requests: json_u64_spec(model, "active_requests"@),
        waiting_requests: json_u64_spec(model, "waiting_requests"@),
        generation_tps: if generation is Some {
            generation
        } else {
            t.generation_tps
        },
        generation_tps_live: generation is Some || t.generation_tps_live,
        prefill_tps: if prefill is Some {
            prefill
        } else {
            t.prefill_tps
        },
        prefill_tps_live: prefill is Some || t.prefill_tps_live,
        output_tokens: if generated is Some {
            count_of(generated, "generated_tokens"@)
        } else {
            t.output_tokens
        },
        prompt_tokens: or_else(
            or_else(
                if generated is Some {
                    count_of(generated, "prompt_tokens"@)
                } else {
                    t.prompt_tokens
                },
                count_of(read, "prompt_tokens"@),
            ),
            count_of(waiting, "prompt_tokens"@),
        ),
        ..t
    }
}

/// What a server's answers say, but for its provider and its status.
pub open spec fn omlx_figures(health: Json, stats: Option<Json>) -> LlmTelemetry {
    let base = health_figures(health, stats);
    match stats {
        Some(stats) => {
            let session = with_session(base, stats);
            match shown_model(stats) {
                Some(model) => with_model(session, model),
                None => session,
            }
        },
        None => base,
    }
}

pub open spec fn is_loading(model: Json) -> bool {
    match get_spec(model, "is_loading"@) {
        Some(Json::Bool(flag)) => flag,
        _ => false,
    }
}

pub open spec fn positive(value: Option<u64>) -> bool {
    value is Some && value.unwrap() > 0
}

/// What a model is doing, in a word.
pub open spec fn model_status(model: Json) -> Seq<char> {
    if is_loading(model) {
        "loading"@
    } else if first_item_spec(model, "prefilling"@) is Some {
        "prefilling"@
    } else if first_item_spec(model, "generating"@) is Some {
        "generating"@
    } else if positive(json_u64_spec(model, "waiting_requests"@)) {
        "waiting"@
    } else if positive(json_u64_spec(model, "active_requests"@)) {
        "active"@
    } else {
        "idle"@
    }
}

/// The status of a server: what its model is doing, or else what its health
/// says.
pub open spec fn omlx_status(health: Json, stats: Option<Json>) -> Seq<char> {
    let said = match json_string_spec(health, "status"@) {
        Some(status) => status@,
        None => "healthy"@,
    };
    match stats {
        Some(stats) => match shown_model(stats) {
            Some(model) => model_status(model),
            None => said,
        },
        None => said,
    }
}

/// Whether telemetry is what a server's answers say.
pub open spec fn omlx_says(t: LlmTelemetry, health: Json, stats: Option<Json>) -> bool {
    &&& t.provider is Some && t.provider.unwrap()@ == "oMLX"@
    &&& t.status is Some && t.status.unwrap()@ == omlx_status(health, stats)
    &&& t == (
        LlmTelemetry { provider: t.provider, status: t.status, ..omlx_figures(health, stats) }
    )
}

fn status_of_model(model: &Json) -> (out: String)
    ensures
        out@ == model_status(*model),
{
    let loading = match get(model, "is_loading") {
        Some(Json::Bool(flag)) => *flag,
        _ => false,
    };
    let waiting = match json_u64(model, "waiting_requests") {
        Some(count) => count > 0,
        None => false,
    };
    let active = match json_u64(model, "active_requests") {
        Some(count) => count > 0,
        None => false,
    };
    if loading {
        "loading".to_string()
    } else if first_item(model, "prefilling").is_some() {
        "prefilling".to_string()
    } else if first_item(model, "generating").is_some() {
        "generating".to_string()
    } else if waiting {
        "waiting".to_string()
    } else if active {
        "active".to_string()
    } else {
        "idle".to_string()
    }
}

fn read_session(t: &mut LlmTelemetry, stats: &Json)
    ensures
        *final(t) == with_session(*old(t), *stats),
{
    t.generation_tps = drop_negative(json_f64(stats, "avg_generation_tps"));
    t.prefill_tps = drop_negative(json_f64(stats, "avg_prefill_tps"));
    t.cache_efficiency = match json_f64(stats, "cache_efficiency") {
        Some(value) => Some(clamp_percentage(value)),
        None => None,
    };
    t.total_prompt_tokens = json_u64(stats, "total_prompt_tokens");
    t.total_cached_tokens = json_u64(stats, "total_cached_tokens");
    t.model_memory = count_or(json_u64(stats, "active_models/model_memory_used"), t.model_memory);
    t.model_memory_max = count_or(
        json_u64(stats, "active_models/model_memory_max"),
        t.model_memory_max,
    );
    t.prefix_hit_rate = match first_item(stats, "runtime_cache/models") {
        Some(cache) => match json_f64(cache, "cache_rates/cumulative/prefix_hit_rate") {
            Some(value) => Some(clamp_percentage(value.times(Binary64::from_u64(100)))),
            None => None,
        },
        None => None,
    };
}

fn read_model(t: &mut LlmTelemetry, model: &Json)
    ensures
        *final(t) == with_model(*old(t), *model),
{
    let id = json_string(model, "id");
    if id.is_some() {
        t.model = id;
    }
    t.active_requests = json_u64(model, "active_requests");
    t.waiting_requests = json_u64(model, "waiting_requests");
    if let Some(request) = first_item(model, "generating") {
        let keys: Vec<&'static str> = vec!["tokens_per_second"];
        assert(strs(keys@) =~= generation_keys());
        if let Some(rate) = request_rate(request, &keys) {
            t.generation_tps = Some(rate);
            t.generation_tps_live = true;
        }
        t.output_tokens = json_u64(request, "generated_tokens");
        t.prompt_tokens = json_u64(request, "prompt_tokens");
    }
    if let Some(request) = first_item(model, "prefilling") {
        let keys: Vec<&'static str> = vec![
            "tokens_per_second",
            "speed",
            "prefill_tps",
            "prompt_tokens_per_second",
        ];
        assert(strs(keys@) =~= prefill_keys());
        if let Some(rate) = request_rate(request, &keys) {
            t.prefill_tps = Some(rate);
            t.prefill_tps_live = true;
        }
        t.prompt_tokens = count_or(t.prompt_tokens, json_u64(request, "prompt_tokens"));
    }
    if let Some(request) = first_item(model, "waiting") {
        t.prompt_tokens = count_or(t.prompt_tokens, json_u64(request, "prompt_tokens"));
    }
}

/// Reads what an oMLX server answers of its health and its statistics.
pub fn parse_omlx_telemetry(health: &Json, stats: Option<&Json>) -> (t: LlmTelemetry)
    ensures
        omlx_says(t, *health, held(stats)),
{
    let mut t = LlmTelemetry::nothing();
    t.source = TelemetrySource::Live;
    t.model = json_string(health, "default_model");
    t.model_memory = json_u64(health, "engine_pool/current_model_memory");
    t.model_memory_max = json_u64(health, "engine_pool/final_ceiling");
    t.mlx = parse_mlx_runtime_telemetry(health, stats);
    assert(t == health_figures(*health, held(stats)));
    let mut status = match json_string(health, "status") {
        Some(status) => status,
        None => "healthy".to_string(),
    };
    if let Some(stats) = stats {
        read_session(&mut t, stats);
        if let Some(model) = choose_model(stats) {
            read_model(&mut t, model);
            status = status_of_model(model);
        }
    }
    t.provider = Some("oMLX".to_string());
    t.status = Some(status);
    t
}

/// A rate out of an answer is live only where a request is under way, and
/// averages alone are never live.
pub proof fn averages_are_not_live(t: LlmTelemetry, health: Json, stats: Option<Json>)
    requires
        omlx_says(t, health, stats),
    ensures
        stats is None ==> !t.generation_tps_live && !t.prefill_tps_live,
        stats is Some && shown_model(stats.unwrap()) is None ==> !t.generation_tps_live
            && !t.prefill_tps_live,
        stats is Some && shown_model(stats.unwrap()) is Some && !busy_spec(
            shown_model(stats.unwrap()).unwrap(),
        ) ==> !t.generation_tps_live && !t.prefill_tps_live,
{
}

/// What stands under a key that is no longer path.
proof fn lemma_keys(value: Json)
    ensures
        json_value_spec(value, "generated_tokens"@) == get_spec(value, "generated_tokens"@),
        json_value_spec(value, "prompt_tokens"@) == get_spec(value, "prompt_tokens"@),
        json_value_spec(value, "tokens_per_second"@) == get_spec(value, "tokens_per_second"@),
        json_value_spec(value, "speed"@) == get_spec(value, "speed"@),
        json_value_spec(value, "prefill_tps"@) == get_spec(value, "prefill_tps"@),
        json_value_spec(value, "prompt_tokens_per_second"@) == get_spec(value, "prompt_tokens_per_second"@),
        json_value_spec(value, "generating"@) == get_spec(value, "generating"@),
        json_value_spec(value, "prefilling"@) == get_spec(value, "prefilling"@),
        json_value_spec(value, "waiting"@) == get_spec(value, "waiting"@),
        json_value_spec(value, "id"@) == get_spec(value, "id"@),
        json_value_spec(value, "active_requests"@) == get_spec(value, "active_requests"@),
        json_value_spec(value, "waiting_requests"@) == get_spec(value, "waiting_requests"@),
        json_value_spec(value, "status"@) == get_spec(value, "status"@),
        json_value_spec(value, "default_model"@) == get_spec(value, "default_model"@),
        json_value_spec(value, "avg_generation_tps"@) == get_spec(value, "avg_generation_tps"@),
        json_value_spec(value, "avg_prefill_tps"@) == get_spec(value, "avg_prefill_tps"@),
        json_value_spec(value, "cache_efficiency"@) == get_spec(value, "cache_efficiency"@),
        json_value_spec(value, "total_prompt_tokens"@) == get_spec(value, "total_prompt_tokens"@),
        json_value_spec(value, "total_cached_tokens"@) == get_spec(value, "total_cached_tokens"@),
{
    reveal_strlit("generated_tokens");
    one_key_is_a_path(value, "generated_tokens"@);
    reveal_strlit("prompt_tokens");
    one_key_is_a_path(value, "prompt_tokens"@);
    reveal_strlit("tokens_per_second");
    one_key_is_a_path(value, "tokens_per_second"@);
    reveal_strlit("speed");
    one_key_is_a_path(value, "speed"@);
    reveal_strlit("prefill_tps");
    one_key_is_a_path(value, "prefill_tps"@);
    reveal_strlit("prompt_tokens_per_second");
    one_key_is_a_path(value, "prompt_tokens_per_second"@);
    reveal_strlit("generating");
    one_key_is_a_path(value, "generating"@);
    reveal_strlit("prefilling");
    one_key_is_a_path(value, "prefilling"@);
    reveal_strlit("waiting");
    one_key_is_a_path(value, "waiting"@);
    reveal_strlit("id");
    one_key_is_a_path(value, "id"@);
    reveal_strlit("active_requests");
    one_key_is_a_path(value, "active_requests"@);
    reveal_strlit("waiting_requests");
    one_key_is_a_path(value, "waiting_requests"@);
    reveal_strlit("status");
    one_key_is_a_path(value, "status"@);
    reveal_strlit("default_model");
    one_key_is_a_path(value, "default_model"@);
    reveal_strlit("avg_generation_tps");
    one_key_is_a_path(value, "avg_generation_tps"@);
    reveal_strlit("avg_prefill_tps");
    one_key_is_a_path(value, "avg_prefill_tps"@);
    reveal_strlit("cache_efficiency");
    one_key_is_a_path(value, "cache_efficiency"@);
    reveal_strlit("total_prompt_tokens");
    one_key_is_a_path(value, "total_prompt_tokens"@);
    reveal_strlit("total_cached_tokens");
    one_key_is_a_path(value, "total_cached_tokens"@);
}

proof fn lemma_paths(value: Json)
    ensures
        json_value_spec(value, "engine_pool/current_model_memory"@) == within(value, "engine_pool"@, "current_model_memory"@),
        json_value_spec(value, "engine_pool/final_ceiling"@) == within(value, "engine_pool"@, "final_ceiling"@),
        json_value_spec(value, "active_models/models"@) == within(value, "active_models"@, "models"@),
        json_value_spec(value, "active_models/model_memory_used"@) == within(value, "active_models"@, "model_memory_used"@),
        json_value_spec(value, "active_models/model_memory_max"@) == within(value, "active_models"@, "model_memory_max"@),
        json_value_spec(value, "runtime_cache/models"@) == within(value, "runtime_cache"@, "models"@),
{
    reveal_strlit("/");
    reveal_strlit("engine_pool");
    reveal_strlit("current_model_memory");
    reveal_strlit("engine_pool/current_model_memory");
    reveal_strlit("final_ceiling");
    reveal_strlit("engine_pool/final_ceiling");
    reveal_strlit("active_models");
    reveal_strlit("models");
    reveal_strlit("active_models/models");
    reveal_strlit("model_memory_used");
    reveal_strlit("active_models/model_memory_used");
    reveal_strlit("model_memory_max");
    reveal_strlit("active_models/model_memory_max");
    reveal_strlit("runtime_cache");
    reveal_strlit("runtime_cache/models");
    two_keys_are_a_path(value, "engine_pool/current_model_memory"@, "engine_pool"@, "current_model_memory"@);
    two_keys_are_a_path(value, "engine_pool/final_ceiling"@, "engine_pool"@, "final_ceiling"@);
    two_keys_are_a_path(value, "active_models/models"@, "active_models"@, "models"@);
    two_keys_are_a_path(value, "active_models/model_memory_used"@, "active_models"@, "model_memory_used"@);
    two_keys_are_a_path(value, "active_models/model_memory_max"@, "active_models"@, "model_memory_max"@);
    two_keys_are_a_path(value, "runtime_cache/models"@, "runtime_cache"@, "models"@);
}

/// The requests of one kind that a model has.
pub open spec fn requests_under(model: Json, key: Seq<char>) -> Seq<Json> {
    match get_spec(model, key) {
        Some(Json::Array(list)) => list@,
        _ => Seq::empty(),
    }
}

/// Whether a model generates or reads a prompt.
pub open spec fn is_working(model: Json) -> bool {
    requests_under(model, "generating"@).len() > 0 || requests_under(model, "prefilling"@).len() > 0
}

/// The models that the statistics list.
pub open spec fn listed_models(stats: Json) -> Seq<Json> {
    match within(stats, "active_models"@, "models"@) {
        Some(Json::Array(list)) => list@,
        _ => Seq::empty(),
    }
}

proof fn lemma_first_busy(models: Seq<Json>, at: int)
    requires
        0 <= at <= models.len(),
        forall|j: int| 0 <= j < at ==> !is_working(#[trigger] models[j]),
        at < models.len() ==> is_working(models[at]),
    ensures
        first_busy(models) == if at < models.len() {
            Some(models[at])
        } else {
            None
        },
    decreases models.len(),
{
    if models.len() > 0 {
        lemma_keys(models[0]);
        if at > 0 {
            assert(!is_working(models[0]));
            let rest = models.drop_first();
            assert forall|j: int| 0 <= j < at - 1 implies !is_working(#[trigger] rest[j]) by {
                assert(rest[j] == models[j + 1]);
            }
            lemma_first_busy(rest, at - 1);
        }
    }
}

/// The model that is shown is the first one at work; where none is, it is the
/// first that is listed.
pub proof fn the_first_model_at_work_is_shown(stats: Json, at: int)
    requires
        0 <= at <= listed_models(stats).len(),
        forall|j: int| 0 <= j < at ==> !is_working(#[trigger] listed_models(stats)[j]),
        at < listed_models(stats).len() ==> is_working(listed_models(stats)[at]),
    ensures
        at < listed_models(stats).len() ==> shown_model(stats) == Some(listed_models(stats)[at]),
        at == listed_models(stats).len() && at > 0 ==> shown_model(stats) == Some(
            listed_models(stats)[0],
        ),
        listed_models(stats).len() == 0 ==> shown_model(stats) is None,
{
    lemma_paths(stats);
    lemma_first_busy(listed_models(stats), at);
}

/// A request that is generated says its own figures: how many tokens came out,
/// how many went in, and how fast they come. None of them stands for another.
pub proof fn generated_requests_say_their_own_figures(
    t: LlmTelemetry,
    health: Json,
    stats: Json,
    model: Json,
)
    requires
        omlx_says(t, health, Some(stats)),
        shown_model(stats) == Some(model),
        requests_under(model, "generating"@).len() > 0,
    ensures
        ({
            let request = requests_under(model, "generating"@)[0];
            &&& get_spec(request, "generated_tokens"@) matches Some(Json::Number(Some(n), _))
                ==> t.output_tokens == Some(n)
            &&& get_spec(request, "generated_tokens"@) is None ==> t.output_tokens is None
            &&& get_spec(request, "prompt_tokens"@) matches Some(Json::Number(Some(n), _))
                ==> t.prompt_tokens == Some(n)
            &&& get_spec(request, "tokens_per_second"@) matches Some(Json::Number(_, Some(rate)))
                ==> rate.measurable() ==> t.generation_tps == Some(rate) && t.generation_tps_live
            &&& get_spec(request, "tokens_per_second"@) is None ==> !t.generation_tps_live
        }),
{
    lemma_keys(model);
    let request = requests_under(model, "generating"@)[0];
    lemma_keys(request);
    let keys = generation_keys();
    assert(keys[0] == "tokens_per_second"@);
    assert(keys.drop_first() =~= Seq::<Seq<char>>::empty());
    assert(request_rate_spec(request, keys.drop_first()) is None);
}

/// What is generated does not depend on what went in: two answers whose first
/// generated requests have the same count of tokens that came out show the same
/// count.
pub proof fn output_is_told_from_input(
    t: LlmTelemetry,
    u: LlmTelemetry,
    health: Json,
    stats: Json,
    others: Json,
    model: Json,
    other: Json,
)
    requires
        omlx_says(t, health, Some(stats)),
        omlx_says(u, health, Some(others)),
        shown_model(stats) == Some(model),
        shown_model(others) == Some(other),
        requests_under(model, "generating"@).len() > 0,
        requests_under(other, "generating"@).len() > 0,
        get_spec(requests_under(model, "generating"@)[0], "generated_tokens"@) == get_spec(
            requests_under(other, "generating"@)[0],
            "generated_tokens"@,
        ),
    ensures
        t.output_tokens == u.output_tokens,
{
    lemma_keys(model);
    lemma_keys(other);
    lemma_keys(requests_under(model, "generating"@)[0]);
    lemma_keys(requests_under(other, "generating"@)[0]);
}

/// A request whose prompt is read says how large the prompt is and how fast it
/// is read, under the first of its names for it. Nothing came out yet.
pub proof fn read_requests_say_their_own_figures(
    t: LlmTelemetry,
    health: Json,
    stats: Json,
    model: Json,
)
    requires
        omlx_says(t, health, Some(stats)),
        shown_model(stats) == Some(model),
        requests_under(model, "prefilling"@).len() > 0,
    ensures
        ({
            let request = requests_under(model, "prefilling"@)[0];
            let generates = requests_under(model, "generating"@).len() > 0;
            &&& !generates ==> t.output_tokens is None && !t.generation_tps_live
            &&& get_spec(request, "prompt_tokens"@) matches Some(Json::Number(Some(n), _))
                ==> !generates ==> t.prompt_tokens == Some(n)
            &&& get_spec(request, "tokens_per_second"@) matches Some(Json::Number(_, Some(rate)))
                ==> rate.measurable() ==> t.prefill_tps == Some(rate) && t.prefill_tps_live
            &&& get_spec(request, "speed"@) matches Some(Json::Number(_, Some(rate)))
                ==> rate.measurable() && get_spec(request, "tokens_per_second"@) is None
                ==> t.prefill_tps == Some(rate) && t.prefill_tps_live
            &&& get_spec(request, "prefill_tps"@) matches Some(Json::Number(_, Some(rate)))
                ==> rate.measurable() && get_spec(request, "tokens_per_second"@) is None
                && get_spec(request, "speed"@) is None ==> t.prefill_tps == Some(rate)
                && t.prefill_tps_live
        }),
{
    lemma_keys(model);
    let request = requests_under(model, "prefilling"@)[0];
    lemma_keys(request);
    let keys = prefill_keys();
    assert(keys[0] == "tokens_per_second"@);
    let second = keys.drop_first();
    assert(second[0] == "speed"@);
    let third = second.drop_first();
    assert(third[0] == "prefill_tps"@);
    assert(request_rate_spec(request, keys) == match json_f64_spec(request, keys[0]) {
        Some(value) => if value.measurable() {
            Some(value)
        } else {
            None
        },
        None => request_rate_spec(request, second),
    });
    assert(request_rate_spec(request, second) == match json_f64_spec(request, second[0]) {
        Some(value) => if value.measurable() {
            Some(value)
        } else {
            None
        },
        None => request_rate_spec(request, third),
    });
    assert(request_rate_spec(request, third) == match json_f64_spec(request, third[0]) {
        Some(value) => if value.measurable() {
            Some(value)
        } else {
            None
        },
        None => request_rate_spec(request, third.drop_first()),
    });
}

/// A model says its name and its own counts. A prompt that waits is shown where
/// no other is.
pub proof fn models_say_their_own_figures(t: LlmTelemetry, health: Json, stats: Json, model: Json)
    requires
        omlx_says(t, health, Some(stats)),
        shown_model(stats) == Some(model),
    ensures
        get_spec(model, "id"@) matches Some(Json::Text(name)) ==> t.model == Some(name),
        get_spec(model, "active_requests"@) matches Some(Json::Number(Some(n), _))
            ==> t.active_requests == Some(n),
        get_spec(model, "active_requests"@) is None ==> t.active_requests is None,
        get_spec(model, "waiting_requests"@) matches Some(Json::Number(Some(n), _))
            ==> t.waiting_requests == Some(n),
        get_spec(model, "waiting_requests"@) is None ==> t.waiting_requests is None,
        !is_working(model) && requests_under(model, "waiting"@).len() > 0 ==> (get_spec(
            requests_under(model, "waiting"@)[0],
            "prompt_tokens"@,
        ) matches Some(Json::Number(Some(n), _)) ==> t.prompt_tokens == Some(n)),
        !is_working(model) ==> t.output_tokens is None && !t.generation_tps_live
            && !t.prefill_tps_live,
{
    lemma_keys(model);
    if requests_under(model, "waiting"@).len() > 0 {
        lemma_keys(requests_under(model, "waiting"@)[0]);
    }
}

/// A model is loading, reads a prompt, generates, keeps requests waiting, serves
/// or is idle, and the first of these is its status. Without one the server's
/// own word is.
pub proof fn the_status_is_what_goes_on(
    t: LlmTelemetry,
    health: Json,
    stats: Option<Json>,
    model: Json,
)
    requires
        omlx_says(t, health, stats),
    ensures
        t.status is Some,
        stats is Some && shown_model(stats.unwrap()) == Some(model) ==> {
            let status = t.status.unwrap()@;
            let loading = get_spec(model, "is_loading"@) == Some(Json::Bool(true));
            let reads = requests_under(model, "prefilling"@).len() > 0;
            let generates = requests_under(model, "generating"@).len() > 0;
            &&& loading ==> status == "loading"@
            &&& !loading && reads ==> status == "prefilling"@
            &&& !loading && !reads && generates ==> status == "generating"@
            &&& get_spec(model, "waiting_requests"@) matches Some(Json::Number(Some(n), _))
                ==> !loading && !reads && !generates && n > 0 ==> status == "waiting"@
            &&& get_spec(model, "active_requests"@) matches Some(Json::Number(Some(n), _))
                ==> !loading && !reads && !generates && get_spec(model, "waiting_requests"@) is None
                && n > 0 ==> status == "active"@
            &&& !loading && !reads && !generates && get_spec(model, "waiting_requests"@) is None
                && get_spec(model, "active_requests"@) is None ==> status == "idle"@
        },
        stats is None ==> {
            &&& get_spec(health, "status"@) matches Some(Json::Text(said)) ==> t.status.unwrap()@
                == said@
            &&& get_spec(health, "status"@) is None ==> t.status.unwrap()@ == "healthy"@
        },
        t.provider is Some && t.provider.unwrap()@ == "oMLX"@,
        t.source == TelemetrySource::Live,
{
    lemma_keys(model);
    lemma_keys(health);
}

/// The health says which model is served and what its memory is; the statistics
/// say so better.
pub proof fn health_says_its_own_figures(t: LlmTelemetry, health: Json)
    requires
        omlx_says(t, health, None),
    ensures
        get_spec(health, "default_model"@) matches Some(Json::Text(name)) ==> t.model == Some(name),
        within(health, "engine_pool"@, "current_model_memory"@) matches Some(
            Json::Number(Some(n), _),
        ) ==> t.model_memory == Some(n),
        within(health, "engine_pool"@, "final_ceiling"@) matches Some(Json::Number(Some(n), _))
            ==> t.model_memory_max == Some(n),
        t.generation_tps is None && t.prefill_tps is None && t.output_tokens is None
            && t.prompt_tokens is None && t.active_requests is None && t.waiting_requests is None
            && t.cache_efficiency is None,
{
    lemma_keys(health);
    lemma_paths(health);
}

/// The statistics of a session say their own figures: averages, totals and
/// memory. A rate of a request under way goes before an average.
pub proof fn sessions_say_their_own_figures(t: LlmTelemetry, health: Json, stats: Json)
    requires
        omlx_says(t, health, Some(stats)),
    ensures
        get_spec(stats, "total_prompt_tokens"@) matches Some(Json::Number(Some(n), _))
            ==> t.total_prompt_tokens == Some(n),
        get_spec(stats, "total_cached_tokens"@) matches Some(Json::Number(Some(n), _))
            ==> t.total_cached_tokens == Some(n),
        within(stats, "active_models"@, "model_memory_used"@) matches Some(
            Json::Number(Some(n), _),
        ) ==> t.model_memory == Some(n),
        within(stats, "active_models"@, "model_memory_max"@) matches Some(Json::Number(Some(n), _))
            ==> t.model_memory_max == Some(n),
        get_spec(stats, "avg_generation_tps"@) matches Some(Json::Number(_, Some(rate)))
            ==> rate.measurable() && !t.generation_tps_live ==> t.generation_tps == Some(rate),
        get_spec(stats, "avg_prefill_tps"@) matches Some(Json::Number(_, Some(rate)))
            ==> rate.measurable() && !t.prefill_tps_live ==> t.prefill_tps == Some(rate),
        get_spec(stats, "cache_efficiency"@) matches Some(Json::Number(_, Some(share))) ==> {
            &&& share.measurable() && share.at_most(Binary64::of_nat(100)) ==> t.cache_efficiency
                == Some(share)
            &&& Binary64::of_nat(100).less_than(share) ==> t.cache_efficiency == Some(
                Binary64::of_nat(100),
            )
        },
        get_spec(stats, "cache_efficiency"@) is None ==> t.cache_efficiency is None,
{
    lemma_keys(stats);
    lemma_paths(stats);
}

} // verus!
