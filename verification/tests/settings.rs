use mlxtop::chart::ChartMetric;
use mlxtop::classify::classify;
use mlxtop::diagnostics::panic_payload;
use mlxtop::labels::gpu_load_label;
use mlxtop::model::Sample;
use mlxtop::server::{
    parse_omlx_server_env, resolve_omlx_endpoint, DiscoveredEndpoint, DEFAULT_OMLX_PORT,
};
use mlxtop::thresholds::{
    config_history, config_interval, Config, OmxConfig, Thresholds, Tone, HISTORY_DEFAULT,
    INTERVAL_DEFAULT,
};
use mlxtop::units::{log_field, MIB};
use std::any::Any;

fn config(text: &str) -> Config {
    let value: serde_json::Value = serde_json::from_str(text).expect("valid json should parse");
    let count = |key: &str| value.get(key).and_then(|field| field.as_u64());
    Config {
        interval: count("interval"),
        history: count("history").map(|value| value as usize),
        omx: value.get("omx").map(|omx| OmxConfig {
            host: omx.get("host").and_then(|host| host.as_str()).map(str::to_owned),
            port: omx.get("port").and_then(|port| port.as_u64()).map(|port| port as u16),
        }),
        memory_warn_load: count("memory_warn_load"),
        memory_critical_load: count("memory_critical_load"),
        gpu_warn_load: count("gpu_warn_load"),
        gpu_critical_load: count("gpu_critical_load"),
        swap_warn_rate: count("swap_warn_rate"),
        swap_critical_rate: count("swap_critical_rate"),
        compression_warn_rate: count("compression_warn_rate"),
        swap_warn_exit: count("swap_warn_exit"),
        compression_warn_exit: count("compression_warn_exit"),
        gpu_warn_exit: count("gpu_warn_exit"),
    }
}

fn payload_text(payload: &(dyn Any + Send)) -> String {
    panic_payload(
        payload.downcast_ref::<&str>().copied(),
        payload.downcast_ref::<String>().map(String::as_str),
    )
}

const CONFIG_WITH_EVERY_FIELD_SET: &str = r#"{
    "interval": 7,
    "history": 1234,
    "omx": { "host": "10.1.2.3", "port": 9999 },
    "memory_warn_load": 55,
    "memory_critical_load": 77,
    "gpu_warn_load": 44,
    "gpu_critical_load": 66,
    "gpu_warn_exit": 33,
    "swap_warn_rate": 3145728,
    "swap_critical_rate": 25165824,
    "swap_warn_exit": 4194304,
    "compression_warn_rate": 100663296,
    "compression_warn_exit": 50331648
}"#;

#[test]
fn diagnostic_fields_are_single_line_and_bounded() {
    let field = log_field("model name\nwith\tunsafe=characters/and a very long suffix");

    assert!(!field.contains('\n'));
    assert!(!field.contains('\r'));
    assert!(!field.contains('\t'));
    assert!(!field.contains(' '));
    assert!(field.chars().count() <= 160);
    assert!(field.contains("model_name_with"));
}

#[test]
fn config_defaults_when_file_missing() {
    let config = Config::default();
    assert_eq!(config.interval, None);
    assert_eq!(config.history, None);
    assert_eq!(config.omx, None);
    assert_eq!(config.memory_warn_load, None);
    assert_eq!(config.gpu_critical_load, None);
}

#[test]
fn configured_thresholds_replace_the_built_in_defaults() {
    let config = config(r#"{"memory_warn_load":60,"memory_critical_load":75,
            "gpu_warn_load":50,"gpu_critical_load":65,"gpu_warn_exit":40,
            "swap_warn_rate":2097152,"swap_critical_rate":33554432,
            "swap_warn_exit":1048576,
            "compression_warn_rate":134217728,"compression_warn_exit":67108864}"#);
    let thresholds = Thresholds::from_config(&config);

    assert_eq!(
        thresholds,
        Thresholds {
            memory_warn_load: 60,
            memory_critical_load: 75,
            gpu_warn_load: 50,
            gpu_critical_load: 65,
            gpu_warn_exit: 40,
            swap_warn_rate: 2 * MIB,
            swap_critical_rate: 32 * MIB,
            swap_warn_exit: MIB,
            compression_warn_rate: 128 * MIB,
            compression_warn_exit: 64 * MIB,
        }
    );
    assert_eq!(Thresholds::from_config(&Config::default()), Thresholds::default());
}

#[test]
fn configured_memory_thresholds_move_the_severity_band() {
    let config = config(r#"{"memory_critical_load":95}"#);
    let thresholds = Thresholds::from_config(&config);

    /* 85% is critical with the built-in default and only a warning once
     * the user raises the critical level to 95. */
    assert_eq!(ChartMetric::Memory.tone(85, Thresholds::default()), Tone::Red);
    assert_eq!(ChartMetric::Memory.tone(85, thresholds), Tone::Yellow);
    assert_eq!(ChartMetric::Memory.tone(95, thresholds), Tone::Red);
    assert_eq!(ChartMetric::Memory.tone(69, thresholds), Tone::Green);
}

#[test]
fn configured_gpu_thresholds_change_the_reported_load_label() {
    let config = config(r#"{"gpu_warn_load":85,"gpu_critical_load":95}"#);
    let thresholds = Thresholds::from_config(&config);

    assert_eq!(gpu_load_label(Some(80), Thresholds::default()), "loaded");
    assert_eq!(gpu_load_label(Some(80), thresholds), "within target");
    assert_eq!(gpu_load_label(Some(90), thresholds), "loaded");
    assert_eq!(gpu_load_label(Some(96), thresholds), "saturated");
}

#[test]
fn inverted_or_out_of_range_thresholds_are_clamped_into_usable_bands() {
    let config = config(r#"{"memory_warn_load":90,"memory_critical_load":40,
            "gpu_warn_load":250,"gpu_critical_load":10,
            "swap_warn_rate":1000,"swap_critical_rate":10,
            "compression_warn_rate":100,"compression_warn_exit":900}"#);
    let thresholds = Thresholds::from_config(&config);

    assert_eq!(thresholds.memory_warn_load, 90);
    assert_eq!(thresholds.memory_critical_load, 90);
    assert_eq!(thresholds.gpu_warn_load, 100);
    assert_eq!(thresholds.gpu_critical_load, 100);
    assert_eq!(thresholds.swap_warn_rate, 1000);
    assert_eq!(thresholds.swap_critical_rate, 1000);
    assert_eq!(thresholds.compression_warn_exit, 100);
    /* The warning band is never silently removed by bad input. */
    assert_eq!(ChartMetric::Memory.tone(89, thresholds), Tone::Green);
    assert_eq!(ChartMetric::Memory.tone(90, thresholds), Tone::Red);
}

#[test]
fn explicit_endpoint_settings_win_over_discovery() {
    let discovered = parse_omlx_server_env("HOST=10.0.0.5\nPORT=9000\n");
    assert_eq!(discovered.host.as_deref(), Some("10.0.0.5"));
    assert_eq!(discovered.port, Some(9000));

    let config = config(r#"{"omx":{"host":"192.168.1.20","port":8123}}"#);
    assert_eq!(
        resolve_omlx_endpoint(&discovered, &config),
        ("192.168.1.20".to_owned(), 8123)
    );
}

#[test]
fn partially_specified_endpoint_settings_keep_discovered_values() {
    let discovered = parse_omlx_server_env("OMLX_HOST=10.0.0.5\nOMLX_PORT=9000\n");

    let host_only = config(r#"{"omx":{"host":"192.168.1.20"}}"#);
    assert_eq!(
        resolve_omlx_endpoint(&discovered, &host_only),
        ("192.168.1.20".to_owned(), 9000)
    );

    let port_only = config(r#"{"omx":{"port":8123}}"#);
    assert_eq!(
        resolve_omlx_endpoint(&discovered, &port_only),
        ("10.0.0.5".to_owned(), 8123)
    );
}

#[test]
fn endpoint_falls_back_to_discovery_then_built_in_defaults() {
    let discovered = parse_omlx_server_env("HOST=10.0.0.5\nPORT=9000\n");
    assert_eq!(
        resolve_omlx_endpoint(&discovered, &Config::default()),
        ("10.0.0.5".to_owned(), 9000)
    );
    assert_eq!(
        resolve_omlx_endpoint(&DiscoveredEndpoint::default(), &Config::default()),
        ("127.0.0.1".to_owned(), DEFAULT_OMLX_PORT)
    );

    let port_only = config(r#"{"omx":{"port":8123}}"#);
    assert_eq!(
        resolve_omlx_endpoint(&DiscoveredEndpoint::default(), &port_only),
        ("127.0.0.1".to_owned(), 8123)
    );
}

#[test]
fn server_env_discovery_ignores_wildcard_hosts_and_invalid_ports() {
    let discovered =
        parse_omlx_server_env("# oMLX server\nOMLX_HOST=\"0.0.0.0\"\nOMLX_PORT=not-a-port\n");
    assert_eq!(discovered, DiscoveredEndpoint::default());

    let blank_host = config(r#"{"omx":{"host":"  "}}"#);
    assert_eq!(
        resolve_omlx_endpoint(&parse_omlx_server_env("HOST=10.0.0.5\n"), &blank_host),
        ("10.0.0.5".to_owned(), DEFAULT_OMLX_PORT)
    );
}

#[test]
fn out_of_range_config_values_fall_back_instead_of_refusing_to_start() {
    let valid = config(r#"{"interval":5,"history":500}"#);
    assert_eq!(config_interval(&valid), (5, false));
    assert_eq!(config_history(&valid), (500, false));

    let out_of_range = config(r#"{"interval":0,"history":5}"#);
    assert_eq!(config_interval(&out_of_range), (INTERVAL_DEFAULT, true));
    assert_eq!(config_history(&out_of_range), (HISTORY_DEFAULT, true));

    assert_eq!(
        config_interval(&Config::default()),
        (INTERVAL_DEFAULT, false)
    );
    assert_eq!(config_history(&Config::default()), (HISTORY_DEFAULT, false));
}

#[test]
fn every_config_field_reaches_the_resolved_settings() {
    let config = config(CONFIG_WITH_EVERY_FIELD_SET);

    let Config {
        interval,
        history,
        omx,
        memory_warn_load,
        memory_critical_load,
        gpu_warn_load,
        gpu_critical_load,
        swap_warn_rate,
        swap_critical_rate,
        compression_warn_rate,
        swap_warn_exit,
        compression_warn_exit,
        gpu_warn_exit,
    } = config.clone();
    let OmxConfig { host, port } = omx.expect("the fixture sets omx");

    assert_eq!(
        config_interval(&config).0,
        interval.expect("the fixture sets interval")
    );
    assert_eq!(
        config_history(&config).0,
        history.expect("the fixture sets history")
    );
    assert_eq!(
        resolve_omlx_endpoint(&DiscoveredEndpoint::default(), &config),
        (
            host.expect("the fixture sets omx.host"),
            port.expect("the fixture sets omx.port")
        )
    );

    let thresholds = Thresholds::from_config(&config);
    assert_eq!(
        thresholds,
        Thresholds {
            memory_warn_load: memory_warn_load.expect("fixture"),
            memory_critical_load: memory_critical_load.expect("fixture"),
            gpu_warn_load: gpu_warn_load.expect("fixture"),
            gpu_critical_load: gpu_critical_load.expect("fixture"),
            gpu_warn_exit: gpu_warn_exit.expect("fixture"),
            swap_warn_rate: swap_warn_rate.expect("fixture"),
            swap_critical_rate: swap_critical_rate.expect("fixture"),
            swap_warn_exit: swap_warn_exit.expect("fixture"),
            compression_warn_rate: compression_warn_rate.expect("fixture"),
            compression_warn_exit: compression_warn_exit.expect("fixture"),
        },
        "a Config field was parsed but never reached Thresholds"
    );
}

#[test]
fn panic_payload_formats_string_and_static_string_panics() {
    let owned: Box<dyn Any + Send> = Box::new(String::from("owned panic"));
    let static_text: Box<dyn Any + Send> = Box::new("static panic");

    assert_eq!(payload_text(owned.as_ref()), "owned panic");
    assert_eq!(payload_text(static_text.as_ref()), "static panic");
}

#[test]
fn every_threshold_field_changes_an_observable_result() {
    struct Probe {
        field: &'static str,
        config: &'static str,
        observe: fn(Thresholds) -> String,
    }

    fn tone_name(tone: Tone) -> String {
        format!("{tone:?}")
    }

    fn impact_after_classify(
        thresholds: Thresholds,
        previous_impact: Option<&str>,
        prepare: fn(&mut Sample),
    ) -> String {
        let mut sample = Sample {
            rate_ready: true,
            total_memory: 32 * 1024 * 1024 * 1024,
            availability: Some(50),
            pressure: "GREEN".into(),
            vm_available: true,
            swap_available: true,
            thermal: "no warning".into(),
            llm_count: 1,
            ..Sample::default()
        };
        prepare(&mut sample);
        let previous = previous_impact.map(|impact| Sample {
            impact: impact.into(),
            ..Sample::default()
        });
        classify(&mut sample, previous.as_ref(), thresholds);
        sample.impact
    }

    let probes = [
        Probe {
            field: "memory_warn_load",
            config: r#"{"memory_warn_load":55}"#,
            observe: |thresholds| tone_name(ChartMetric::Memory.tone(60, thresholds)),
        },
        Probe {
            field: "memory_critical_load",
            config: r#"{"memory_critical_load":95}"#,
            observe: |thresholds| tone_name(ChartMetric::Memory.tone(85, thresholds)),
        },
        Probe {
            field: "gpu_warn_load",
            config: r#"{"gpu_warn_load":70}"#,
            observe: |thresholds| gpu_load_label(Some(72), thresholds).to_owned(),
        },
        Probe {
            field: "gpu_critical_load",
            config: r#"{"gpu_warn_load":70,"gpu_critical_load":85}"#,
            observe: |thresholds| gpu_load_label(Some(88), thresholds).to_owned(),
        },
        Probe {
            field: "gpu_warn_exit",
            config: r#"{"gpu_warn_exit":60}"#,
            observe: |thresholds| {
                impact_after_classify(thresholds, Some("GPU BUSY"), |sample| {
                    sample.gpu_util = Some(65);
                })
            },
        },
        Probe {
            field: "swap_warn_rate",
            config: r#"{"swap_warn_rate":4194304}"#,
            observe: |thresholds| tone_name(ChartMetric::Swap.tone(2 * MIB, thresholds)),
        },
        Probe {
            field: "swap_critical_rate",
            config: r#"{"swap_critical_rate":33554432}"#,
            observe: |thresholds| tone_name(ChartMetric::Swap.tone(16 * MIB, thresholds)),
        },
        Probe {
            field: "swap_warn_exit",
            config: r#"{"swap_warn_exit":4194304}"#,
            observe: |thresholds| {
                impact_after_classify(thresholds, Some("PAGING ACTIVE"), |sample| {
                    sample.swap_in = 3 * MIB;
                })
            },
        },
        Probe {
            field: "compression_warn_rate",
            config: r#"{"compression_warn_rate":134217728}"#,
            observe: |thresholds| {
                impact_after_classify(thresholds, None, |sample| {
                    sample.compress = 64 * MIB;
                })
            },
        },
        Probe {
            field: "compression_warn_exit",
            config: r#"{"compression_warn_exit":50331648}"#,
            observe: |thresholds| {
                impact_after_classify(thresholds, Some("COMPRESSION ACTIVE"), |sample| {
                    sample.compress = 40 * MIB;
                })
            },
        },
    ];

    let Thresholds {
        memory_warn_load,
        memory_critical_load,
        gpu_warn_load,
        gpu_critical_load,
        gpu_warn_exit,
        swap_warn_rate,
        swap_critical_rate,
        swap_warn_exit,
        compression_warn_rate,
        compression_warn_exit,
    } = Thresholds::default();
    let all_fields = [
        memory_warn_load,
        memory_critical_load,
        gpu_warn_load,
        gpu_critical_load,
        gpu_warn_exit,
        swap_warn_rate,
        swap_critical_rate,
        swap_warn_exit,
        compression_warn_rate,
        compression_warn_exit,
    ];
    assert_eq!(
        probes.len(),
        all_fields.len(),
        "every field in Thresholds needs a probe proving it changes behaviour"
    );

    for probe in probes {
        let config = config(probe.config);
        let configured = (probe.observe)(Thresholds::from_config(&config));
        let built_in = (probe.observe)(Thresholds::default());
        assert_ne!(
            configured, built_in,
            "setting {} changed nothing observable — it is parsed but not applied",
            probe.field
        );
    }
}
