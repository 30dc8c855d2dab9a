use mlxtop::binary64::Binary64;
use mlxtop::completion::parse_llm_completion_line;
use mlxtop::json::{parse_json, Json};
use mlxtop::labels::{llm_generation_rate_label, llm_prefill_rate_label};
use mlxtop::mlx::{parse_mlx_metadata, parse_mlx_runtime_telemetry};
use mlxtop::model::{LlmTelemetry, Sample, TelemetrySource};
use mlxtop::omlx::parse_omlx_telemetry;
use mlxtop::sampling::cache_interval_efficiency;
use mlxtop::server::is_loopback_host;

fn number(value: f64) -> Binary64 {
    Binary64 { bits: value.to_bits() }
}

fn json(text: &str) -> Json {
    parse_json(text).expect("valid json should parse")
}

#[test]
fn telemetry_source_and_loopback_policy_are_explicit() {
    assert_eq!(TelemetrySource::Live.label(), "live API");
    assert_eq!(TelemetrySource::Log.label(), "completion log");
    assert!(is_loopback_host("127.0.0.1"));
    assert!(is_loopback_host("[::1]"));
    assert!(!is_loopback_host("192.168.1.10"));
}

#[test]
fn parses_llm_completion_stats() {
    let stats = parse_llm_completion_line(
        "2026-08-25 03:00:00 Chat completion: model=oQ4e-mtp, 128 tokens in 4.0s (32.0 tok/s), prompt: 4096, finish_reason=stop, max_tokens=512",
    )
    .expect("completion should parse");
    assert_eq!(stats.model.as_deref(), Some("oQ4e-mtp"));
    assert_eq!(stats.output_tokens, Some(128));
    assert_eq!(stats.prompt_tokens, Some(4096));
    assert_eq!(stats.tokens_per_second, Some(number(32.0)));
}

#[test]
fn parses_omlx_responses_api_stats_without_prompt_count() {
    let stats = parse_llm_completion_line(
        "2026-08-25 01:08:35,903 - omlx.server - INFO - [-] - Responses API: model=Qwen3.8-27B-oQ4e-mtp, 8407 tokens in 449.88s (18.7 tok/s)",
    )
    .expect("oMLX completion should parse");
    assert_eq!(stats.model.as_deref(), Some("Qwen3.8-27B-oQ4e-mtp"));
    assert_eq!(stats.output_tokens, Some(8407));
    assert_eq!(stats.prompt_tokens, None);
    assert_eq!(stats.tokens_per_second, Some(number(18.7)));
}

#[test]
fn parses_omlx_live_stats_and_active_request() {
    let health = json(r#"{"status":"healthy","default_model":"Qwen3.8-27B-oQ4e-mtp","engine_pool":{"final_ceiling":36507222016,"current_model_memory":16852732434}}"#);
    let stats = json(r#"{
            "avg_generation_tps": 30.7,
            "avg_prefill_tps": 132.9,
            "cache_efficiency": 62.1,
            "engines": {"mlx-lm": {"version": "0.31.3"}},
            "active_models": {
                "model_memory_used": 20990983024,
                "model_memory_max": 36507222016,
                "models": [{
                    "id": "Qwen3.8-27B-oQ4e-mtp",
                    "active_requests": 1,
                    "waiting_requests": 0,
                    "generating": [{"generated_tokens": 3849,"prompt_tokens": 12632,"tokens_per_second": 29.4}]
                }]
            },
            "runtime_cache": {
                "hot_cache_size_bytes": 388562944,
                "hot_cache_max_bytes": 536870912,
                "models": [{"cache_rates":{"cumulative":{"prefix_hit_rate":0.5471,"ssd_hot_rate":0.2772}}}]
            }
        }"#);
    let telemetry = parse_omlx_telemetry(&health, Some(&stats));
    assert_eq!(telemetry.source, TelemetrySource::Live);
    assert_eq!(telemetry.provider.as_deref(), Some("oMLX"));
    assert_eq!(telemetry.status.as_deref(), Some("generating"));
    assert_eq!(telemetry.model.as_deref(), Some("Qwen3.8-27B-oQ4e-mtp"));
    assert_eq!(telemetry.generation_tps, Some(number(29.4)));
    assert!(telemetry.generation_tps_live);
    assert_eq!(telemetry.prefill_tps, Some(number(132.9)));
    assert!(!telemetry.prefill_tps_live);
    assert_eq!(telemetry.prompt_tokens, Some(12632));
    assert_eq!(telemetry.prefix_hit_rate, Some(number(54.71)));
    assert_eq!(telemetry.mlx.version.as_deref(), Some("0.31.3"));
}

#[test]
fn parses_omlx_prefill_progress_speed_as_live_rate() {
    let health = json(r#"{
        "status": "healthy",
        "default_model": "model"
    }"#);
    let stats = json(r#"{
        "avg_generation_tps": 23.5,
        "avg_prefill_tps": 14.1,
        "active_models": {
            "models": [{
                "id": "model",
                "active_requests": 1,
                "waiting_requests": 0,
                "prefilling": [{
                    "processed": 2048,
                    "total": 32768,
                    "speed": 14.1,
                    "prompt_tokens": 32768
                }],
                "generating": []
            }]
        }
    }"#);

    let telemetry = parse_omlx_telemetry(&health, Some(&stats));

    assert_eq!(telemetry.status.as_deref(), Some("prefilling"));
    assert_eq!(telemetry.prefill_tps, Some(number(14.1)));
    assert!(telemetry.prefill_tps_live);
    assert_eq!(telemetry.prompt_tokens, Some(32768));
}

#[test]
fn cache_chart_uses_interval_counter_deltas() {
    let first = Some(LlmTelemetry {
        total_prompt_tokens: Some(100),
        total_cached_tokens: Some(20),
        ..LlmTelemetry::nothing()
    });
    let second = Some(LlmTelemetry {
        total_prompt_tokens: Some(150),
        total_cached_tokens: Some(50),
        ..LlmTelemetry::nothing()
    });
    let mut previous = None;

    assert_eq!(
        cache_interval_efficiency(&mut previous, &first, false),
        None
    );
    assert_eq!(
        cache_interval_efficiency(&mut previous, &second, false),
        Some(number(60.0))
    );
    assert_eq!(
        cache_interval_efficiency(&mut previous, &second, false),
        None
    );
}

#[test]
fn parses_omlx_waiting_prompt_tokens() {
    let health = json(r#"{"status":"healthy","default_model":"Qwen3.8-27B-oQ4e-mtp"}"#);
    let stats = json(r#"{
        "active_models": {"models": [{
            "id": "Qwen3.8-27B-oQ4e-mtp",
            "active_requests": 0,
            "waiting_requests": 1,
            "waiting": [{"prompt_tokens": 12632}]
        }]}
    }"#);
    let telemetry = parse_omlx_telemetry(&health, Some(&stats));
    assert_eq!(telemetry.status.as_deref(), Some("waiting"));
    assert_eq!(telemetry.prompt_tokens, Some(12632));
}

#[test]
fn retained_omlx_rates_are_not_marked_live_when_idle() {
    let health = json(r#"{"status":"healthy","default_model":"Qwen3.8-27B-oQ4e-mtp"}"#);
    let stats = json(r#"{
        "avg_generation_tps": 31.6,
        "avg_prefill_tps": 133.2,
        "active_models": {"models": [{
            "id": "Qwen3.8-27B-oQ4e-mtp",
            "active_requests": 0,
            "waiting_requests": 0,
            "generating": []
        }]}
    }"#);
    let telemetry = parse_omlx_telemetry(&health, Some(&stats));

    assert_eq!(telemetry.status.as_deref(), Some("idle"));
    assert_eq!(telemetry.generation_tps, Some(number(31.6)));
    assert_eq!(telemetry.prefill_tps, Some(number(133.2)));
    assert!(!telemetry.generation_tps_live);
    assert!(!telemetry.prefill_tps_live);

    let sample = Sample {
        llm_source: TelemetrySource::Live,
        llm_generation_tps: telemetry.generation_tps,
        llm_prefill_tps: telemetry.prefill_tps,
        ..Sample::default()
    };
    assert_eq!(llm_generation_rate_label(&sample), "AVG GEN 31.6 tok/s");
    assert_eq!(llm_prefill_rate_label(&sample), "AVG PREFILL 133.2 tok/s");
}

#[test]
fn parses_mlx_allocator_and_device_metrics_without_inference() {
    let health = json(r#"{
        "status": "healthy",
        "default_model": "Qwen3.8-27B-oQ4e-mtp",
        "mlx_version": "0.29.3",
        "mlx_memory": {"active_bytes": 4000, "peak_bytes": 8000}
    }"#);
    let stats = json(r#"{"mlx": {"cache_bytes": 2000}}"#);
    let telemetry = parse_mlx_runtime_telemetry(&health, Some(&stats));

    assert_eq!(telemetry.version.as_deref(), Some("0.29.3"));
    assert_eq!(telemetry.active_memory, Some(4_000));
    assert_eq!(telemetry.cache_memory, Some(2_000));
    assert_eq!(telemetry.peak_memory, Some(8_000));
}

#[test]
fn parses_mlx_device_metadata_and_metal_limit() {
    let device = json(r#"{
        "chip_name": "Apple M4",
        "gpu_cores": 10,
        "device_name": "Apple M4 GPU",
        "architecture": "arm64",
        "max_recommended_working_set_size": 27000
    }"#);
    let settings = json(r#"{
        "system": {
            "active_memory_bytes": 18000,
            "omlx_phys_footprint_bytes": 12000,
            "iogpu_wired_limit_bytes": 24000
        }
    }"#);
    let telemetry = parse_mlx_metadata(Some(&device), Some(&settings));

    assert_eq!(telemetry.device_name.as_deref(), Some("Apple M4 GPU"));
    assert_eq!(telemetry.architecture.as_deref(), Some("arm64"));
    assert_eq!(telemetry.memory_size, None);
    assert_eq!(telemetry.active_memory, None);
    assert_eq!(telemetry.recommended_working_set, Some(27_000));
    assert_eq!(telemetry.process_footprint, Some(12_000));
    assert_eq!(telemetry.resource_limit, Some(24_000));
}

#[test]
fn converts_omlx_device_memory_gb_to_bytes() {
    let device = json(r#"{"memory_gb": 36}"#);
    let telemetry = parse_mlx_metadata(Some(&device), None);

    assert_eq!(telemetry.memory_size, Some(36 * 1024 * 1024 * 1024));
}
