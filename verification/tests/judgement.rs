use mlxtop::binary64::Binary64;
use mlxtop::classify::{classify, llm_is_observed};
use mlxtop::correlation::{correlate_observations, CorrelationEngine, CorrelationObservation};
use mlxtop::labels::{
    compressed_memory_label, correlation_display, gpu_load_label, hero_impact,
    llm_generation_rate_label, pressure_state_label,
};
use mlxtop::model::{
    CorrelationCause, CorrelationInsight, CorrelationKey, Sample, TelemetrySource,
    ThroughputDirection,
};
use mlxtop::thresholds::{
    threshold_with_hysteresis, Config, OmxConfig, Thresholds, COMPRESSION_WARN_RATE,
};
use mlxtop::units::MIB;

fn number(value: f64) -> Binary64 {
    Binary64 { bits: value.to_bits() }
}

fn config(text: &str) -> Config {
    let value: serde_json::Value = serde_json::from_str(text).expect("valid json should parse");
    let count = |key: &str| value.get(key).and_then(|field| field.as_u64());
    Config {
        interval: count("interval"),
        history: count("history").map(|value| value as usize),
        omx: value.get("omx").map(|omx| OmxConfig {
            host: omx.get("host").and_then(|host| host.as_str()).map(str::to_owned),
            port: omx.get("port").and_then(|port| port.as_u64()).map(|port| port as u16),
        }),
        memory_warn_load: count("memory_warn_load"),
        memory_critical_load: count("memory_critical_load"),
        gpu_warn_load: count("gpu_warn_load"),
        gpu_critical_load: count("gpu_critical_load"),
        swap_warn_rate: count("swap_warn_rate"),
        swap_critical_rate: count("swap_critical_rate"),
        compression_warn_rate: count("compression_warn_rate"),
        swap_warn_exit: count("swap_warn_exit"),
        compression_warn_exit: count("compression_warn_exit"),
        gpu_warn_exit: count("gpu_warn_exit"),
    }
}

#[test]
fn compression_summary_keeps_footprint_and_ratio_visible() {
    let sample = Sample {
        vm_available: true,
        compressor: 512 * 1024 * 1024,
        compressed_logical: 4 * 1024 * 1024 * 1024,
        ..Sample::default()
    };
    assert_eq!(compressed_memory_label(&sample), "512.0 MiB · 8.0×");
}

#[test]
fn user_facing_load_labels_describe_conditions_not_colors() {
    let sample = Sample {
        pressure: "GREEN".into(),
        pressure_meaning: "normal".into(),
        ..Sample::default()
    };
    assert_eq!(pressure_state_label(&sample), "normal");

    let sample = Sample {
        pressure: "YELLOW".into(),
        pressure_meaning: "warning".into(),
        ..Sample::default()
    };
    assert_eq!(pressure_state_label(&sample), "watch");

    let sample = Sample {
        pressure: "RED".into(),
        pressure_meaning: "critical".into(),
        ..Sample::default()
    };
    assert_eq!(pressure_state_label(&sample), "critical");
    assert_eq!(gpu_load_label(Some(40), Thresholds::default()), "within target");
    assert_eq!(gpu_load_label(Some(80), Thresholds::default()), "loaded");
    assert_eq!(gpu_load_label(Some(95), Thresholds::default()), "saturated");
    assert_eq!(gpu_load_label(None, Thresholds::default()), "unavailable");
}

#[test]
fn severity_thresholds_have_a_recovery_band() {
    assert!(!threshold_with_hysteresis(
        69,
        false,
        70,
        Thresholds::default().gpu_warn_exit
    ));
    assert!(threshold_with_hysteresis(
        75,
        false,
        70,
        Thresholds::default().gpu_warn_exit
    ));
    assert!(threshold_with_hysteresis(
        71,
        true,
        80,
        Thresholds::default().gpu_warn_exit
    ));
    assert!(!threshold_with_hysteresis(
        69,
        true,
        80,
        Thresholds::default().gpu_warn_exit
    ));
}

#[test]
fn classification_reports_unknown_data_and_actionable_compression() {
    let mut sample = Sample {
        rate_ready: true,
        total_memory: 32 * 1024 * 1024 * 1024,
        availability: Some(50),
        pressure: "GREEN".into(),
        vm_available: true,
        swap_available: true,
        thermal: "no warning".into(),
        llm_count: 1,
        ..Sample::default()
    };
    classify(&mut sample, None, Thresholds::default());
    assert_eq!(sample.impact, "LLM READY");

    sample.vm_available = false;
    classify(&mut sample, None, Thresholds::default());
    assert_eq!(sample.impact, "DATA LIMITED");
    assert_eq!(sample.guidance_badge, "CHECK");

    sample.vm_available = true;
    sample.compress = COMPRESSION_WARN_RATE;
    classify(&mut sample, None, Thresholds::default());
    assert_eq!(sample.impact, "COMPRESSION ACTIVE");
    assert_eq!(sample.guidance_badge, "WATCH");
}

#[test]
fn correlation_explains_a_generation_drop_with_contemporaneous_signals() {
    let mut engine = CorrelationEngine::new();
    let baseline = Sample {
        llm_provider: "oMLX".into(),
        llm_model: "model".into(),
        llm_generation_tps: Some(number(30.0)),
        llm_generation_tps_live: true,
        llm_prompt_tokens: Some(20_000),
        llm_output_tokens: Some(1_000),
        llm_active_requests: Some(1),
        gpu_util: Some(99),
        gpu_in_use: Some(96),
        gpu_alloc: Some(100),
        ..Sample::default()
    };
    engine.observe(&baseline, Thresholds::default());

    let current = Sample {
        llm_provider: "oMLX".into(),
        llm_model: "model".into(),
        llm_generation_tps: Some(number(25.0)),
        llm_generation_tps_live: true,
        llm_prompt_tokens: Some(30_000),
        llm_output_tokens: Some(3_000),
        llm_active_requests: Some(1),
        gpu_util: Some(99),
        gpu_in_use: Some(96),
        gpu_alloc: Some(100),
        ..Sample::default()
    };
    let insight = engine.observe(&current, Thresholds::default());

    assert_eq!(insight.direction, ThroughputDirection::Down);
    assert_eq!(insight.cause, CorrelationCause::ContextGrowth);
    assert!(insight.summary.contains("GEN ↓16.7%"));
    assert!(insight.summary.contains("GPU 99% busy"));
    assert!(insight.summary.contains("context"));
    assert!(insight.details.contains("Metal MEM 96%"));
    assert_eq!(
        insight.event_key,
        Some(CorrelationKey {
            direction: ThroughputDirection::Down,
            cause: CorrelationCause::ContextGrowth,
        })
    );
}

#[test]
fn correlation_is_honest_when_no_system_signal_moved_with_rate() {
    let mut engine = CorrelationEngine::new();
    engine.observe(
        &Sample {
            llm_provider: "oMLX".into(),
            llm_model: "model".into(),
            llm_generation_tps: Some(number(30.0)),
            llm_generation_tps_live: true,
            ..Sample::default()
        },
        Thresholds::default(),
    );
    let insight = engine.observe(
        &Sample {
            llm_provider: "oMLX".into(),
            llm_model: "model".into(),
            llm_generation_tps: Some(number(25.0)),
            llm_generation_tps_live: true,
            ..Sample::default()
        },
        Thresholds::default(),
    );

    assert_eq!(insight.cause, CorrelationCause::Runtime);
    assert_eq!(insight.confidence_label(), "low");
    assert!(insight.summary.contains("no matching system signal"));
    assert!(insight.details.contains("workload/runtime change"));
}

#[test]
fn correlation_card_prefers_a_readable_primary_signal() {
    let sample = Sample {
        llm_generation_tps: Some(number(23.9)),
        gpu_in_use: Some(96),
        gpu_alloc: Some(100),
        correlation: CorrelationInsight {
            cause: CorrelationCause::MetalMemory,
            summary: "GEN 23.9 tok/s · correlated: Metal MEM 96% (21.0 GiB / 21.7 GiB)".into(),
            ..CorrelationInsight::default()
        },
        ..Sample::default()
    };

    assert_eq!(
        correlation_display(&sample, 48).as_deref(),
        Some("GEN 23.9 tok/s · Metal mem 96%")
    );
    assert!(
        correlation_display(&sample, 22)
            .expect("compact diagnosis should be present")
            .chars()
            .count()
            <= 22
    );
}

#[test]
fn provider_telemetry_counts_as_an_observed_llm_without_a_matching_process() {
    let sample = Sample {
        llm_provider: "oMLX".into(),
        llm_model: "model".into(),
        llm_source: TelemetrySource::Live,
        llm_generation_tps: Some(number(25.0)),
        llm_generation_tps_live: true,
        ..Sample::default()
    };

    assert!(llm_is_observed(&sample));
    assert!(!hero_impact(&sample).contains("No local LLM process detected"));
}

#[test]
fn log_rates_are_labeled_as_last_results() {
    let sample = Sample {
        llm_source: TelemetrySource::Log,
        llm_generation_tps: Some(number(28.5)),
        ..Sample::default()
    };

    assert_eq!(llm_generation_rate_label(&sample), "LAST GEN 28.5 tok/s");
}

#[test]
fn correlation_ignores_retained_idle_rates() {
    let mut engine = CorrelationEngine::new();
    engine.observe(
        &Sample {
            llm_provider: "oMLX".into(),
            llm_model: "model".into(),
            llm_generation_tps: Some(number(30.0)),
            ..Sample::default()
        },
        Thresholds::default(),
    );
    let insight = engine.observe(
        &Sample {
            llm_provider: "oMLX".into(),
            llm_model: "model".into(),
            llm_generation_tps: Some(number(25.0)),
            ..Sample::default()
        },
        Thresholds::default(),
    );

    assert_eq!(insight.direction, ThroughputDirection::Unknown);
    assert_eq!(insight.cause, CorrelationCause::Uncorrelated);
    assert!(insight.summary.is_empty());
}

#[test]
fn configured_swap_rates_change_the_classified_impact() {
    let template = Sample {
        rate_ready: true,
        total_memory: 32 * 1024 * 1024 * 1024,
        availability: Some(50),
        pressure: "GREEN".into(),
        vm_available: true,
        swap_available: true,
        thermal: "no warning".into(),
        llm_count: 1,
        swap_in: 16 * MIB,
        swap_out: 16 * MIB,
        ..Sample::default()
    };

    let mut sample = template.clone();
    classify(&mut sample, None, Thresholds::default());
    assert_eq!(sample.impact, "SWAP THRASHING");

    let config = config(r#"{"swap_warn_rate":67108864,"swap_critical_rate":134217728}"#);
    let mut sample = template;
    classify(&mut sample, None, Thresholds::from_config(&config));
    assert_ne!(sample.impact, "SWAP THRASHING");
    assert_eq!(sample.impact, "PAGING ACTIVE");
}

#[test]
fn configured_compression_rate_changes_the_classified_impact() {
    let template = Sample {
        rate_ready: true,
        total_memory: 32 * 1024 * 1024 * 1024,
        availability: Some(50),
        pressure: "GREEN".into(),
        vm_available: true,
        swap_available: true,
        thermal: "no warning".into(),
        llm_count: 1,
        compress: COMPRESSION_WARN_RATE,
        ..Sample::default()
    };

    let mut sample = template.clone();
    classify(&mut sample, None, Thresholds::default());
    assert_eq!(sample.impact, "COMPRESSION ACTIVE");

    let config = config(r#"{"compression_warn_rate":268435456}"#);
    let mut sample = template;
    classify(&mut sample, None, Thresholds::from_config(&config));
    assert_eq!(sample.impact, "LLM READY");
}

#[test]
fn configured_gpu_threshold_changes_correlation_attribution() {
    let current = CorrelationObservation {
        provider: "oMLX".into(),
        model: "model".into(),
        generation_tps: Some(number(20.0)),
        gpu_util: Some(78),
        ..CorrelationObservation::default()
    };
    let previous = CorrelationObservation {
        provider: "oMLX".into(),
        model: "model".into(),
        generation_tps: Some(number(30.0)),
        gpu_util: Some(10),
        ..CorrelationObservation::default()
    };

    let with_defaults =
        correlate_observations(&current, Some(&previous), Some(number(30.0)), Thresholds::default());
    assert_ne!(with_defaults.cause, CorrelationCause::GpuSaturation);

    let config = config(r#"{"gpu_warn_load":60,"gpu_critical_load":70}"#);
    let with_lower_ceiling = correlate_observations(
        &current,
        Some(&previous),
        Some(number(30.0)),
        Thresholds::from_config(&config),
    );
    assert_eq!(with_lower_ceiling.cause, CorrelationCause::GpuSaturation);
    assert!(with_lower_ceiling.details.contains("GPU 78% busy"));
}

fn generating(model: &str, rate: f64) -> Sample {
    Sample {
        llm_provider: "oMLX".into(),
        llm_model: model.into(),
        llm_status: "generating".into(),
        llm_source: TelemetrySource::Live,
        llm_generation_tps: Some(number(rate)),
        llm_generation_tps_live: true,
        ..Sample::default()
    }
}

#[test]
fn a_baseline_is_the_middle_of_one_models_rates() {
    let mut engine = CorrelationEngine::new();
    assert_eq!(engine.baseline("oMLX", "a"), None);
    for rate in [30.0, 10.0, 20.0] {
        engine.observe(&generating("a", rate), Thresholds::default());
    }
    assert_eq!(engine.baseline("oMLX", "a"), Some(number(20.0)));
    engine.observe(&generating("b", 500.0), Thresholds::default());
    assert_eq!(engine.baseline("oMLX", "a"), Some(number(20.0)));
    assert_eq!(engine.baseline("oMLX", "b"), Some(number(500.0)));
    assert_eq!(engine.baseline("Ollama", "a"), None);
    engine.observe(&generating("a", 25.0), Thresholds::default());
    assert_eq!(engine.baseline("oMLX", "a"), Some(number(22.5)));
    for _ in 0..40 {
        engine.observe(&generating("b", 1.0), Thresholds::default());
    }
    assert_eq!(engine.observations.len(), 16);
    assert_eq!(engine.baseline("oMLX", "a"), None);
    engine.reset();
    assert!(engine.observations.is_empty());
}

#[test]
fn a_drop_names_its_weightiest_factor() {
    let mut engine = CorrelationEngine::new();
    for _ in 0..3 {
        engine.observe(&generating("a", 30.0), Thresholds::default());
    }
    let quiet = engine.observe(&generating("a", 29.0), Thresholds::default());
    assert!(quiet.event_key.is_none());
    let alone = engine.observe(&generating("a", 20.0), Thresholds::default());
    assert_eq!(alone.direction, ThroughputDirection::Down);
    assert_eq!(alone.cause, CorrelationCause::Runtime);
    assert!(alone.summary.contains("33.3%"), "{}", alone.summary);
    let paged = Sample {
        swap_in: 20 * MIB,
        swap_available: true,
        rate_ready: true,
        gpu_util: Some(99),
        ..generating("a", 15.0)
    };
    let insight = engine.observe(&paged, Thresholds::default());
    assert_eq!(insight.cause, CorrelationCause::Paging);
    assert!(insight.is_material_drop());
}

#[test]
fn a_drop_is_shown_beside_its_strongest_evidence() {
    let mut engine = CorrelationEngine::new();
    let before = Sample {
        gpu_util: Some(50),
        llm_prompt_tokens: Some(20_500),
        ..generating("model", 30.0)
    };
    engine.observe(&before, Thresholds::default());
    let mut after = Sample {
        gpu_util: Some(99),
        llm_prompt_tokens: Some(32_200),
        ..generating("model", 25.0)
    };
    after.correlation = engine.observe(&after, Thresholds::default());
    assert_eq!(
        after.correlation.summary,
        "GEN ↓16.7% (30.0→25.0 tok/s) · correlated: GPU 99% busy + context +11.7k → 32.2k"
    );
    assert_eq!(correlation_display(&after, 100), Some("GEN ↓16.7% · GPU 99%".to_owned()));
}

#[test]
fn a_growth_below_a_very_high_level_is_not_heavy_paging() {
    let mut sample = Sample {
        total_memory: 1,
        pressure: "GREEN".into(),
        availability: Some(60),
        swap_available: true,
        vm_available: true,
        rate_ready: true,
        ..Sample::default()
    };
    let high = Thresholds { swap_critical_rate: 1 << 62, ..Thresholds::default() };
    classify(&mut sample, None, high);
    assert_eq!(sample.impact, "IDLE");
    sample.swap_growth = (32 * MIB) as i64;
    classify(&mut sample, None, high);
    assert_eq!(sample.impact, "IDLE");
    classify(&mut sample, None, Thresholds::default());
    assert_eq!(sample.impact, "HEAVY PAGING");
}
