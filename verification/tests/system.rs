use mlxtop::binary64::Binary64;
use mlxtop::model::LlmProcess;
use mlxtop::processes::{
    annotate_process_pagein_rates, is_llm_process, parse_processes, process_provider,
};
use mlxtop::system::{
    linux_pressure_state, linux_thermal_label, parse_gpu, parse_linux_meminfo, parse_linux_paging,
    parse_memory_pressure_stall, parse_metal_hardware, parse_nvidia_smi_csv, parse_swap_usage,
    parse_vm_stat,
};
use mlxtop::units::{rate_bytes, signed_rate_bytes, Elapsed};

fn number(value: f64) -> Binary64 {
    Binary64 { bits: value.to_bits() }
}

fn millis(value: u64) -> Elapsed {
    Elapsed { secs: value / 1000, nanos: (value % 1000) as u32 * 1_000_000 }
}

#[test]
fn parses_macos_swapusage_with_spaced_equals() {
    let (total, used) = parse_swap_usage("total = 8.00G used = 1.50G free = 6.50G");
    assert_eq!(total, 8 * 1024_u64.pow(3));
    assert_eq!(used, 1_536 * 1024_u64.pow(2));
}

#[test]
fn parses_vm_stat_punctuation_and_rates() {
    let counters = parse_vm_stat(
        "Pages wired down: 10.\nPages occupied by compressor: 2.\n\
         Pages stored in compressor: 4.\nSwapins: 7.\nSwapouts: 3.",
        16_384,
    );
    assert_eq!(counters.wired, 10 * 16_384);
    assert_eq!(counters.compressor, 2 * 16_384);
    assert_eq!(counters.compressed_logical, 4 * 16_384);
    assert_eq!(counters.swapins, 7);
    assert_eq!(counters.swapouts, 3);
}

#[test]
fn parses_linux_meminfo_and_swap() {
    let info = parse_linux_meminfo(
        "MemTotal:       16290024 kB\nMemAvailable:    7947480 kB\n\
         Active(anon):    4973124 kB\nInactive(anon):  1904636 kB\n\
         Active(file):    3432840 kB\nInactive(file):  4277316 kB\n\
         Cached:          7662848 kB\nBuffers:          171612 kB\n\
         SwapTotal:       4194300 kB\nSwapFree:         309148 kB\n",
    );
    assert_eq!(info.total_kb, 16_290_024);
    assert_eq!(info.available_kb, 7_947_480);
    assert_eq!(info.swap_total_kb, 4_194_300);
    assert_eq!(info.swap_free_kb, 309_148);
    assert_eq!(info.anon_kb, 4_973_124 + 1_904_636);
}

#[test]
fn parses_linux_vmstat_paging_counters() {
    let (swapins, swapouts) =
        parse_linux_paging("pswpin 237839\npswpout 1172451\npgpgin 67709690\n");
    assert_eq!(swapins, 237_839);
    assert_eq!(swapouts, 1_172_451);
}

#[test]
fn linux_pressure_follows_load_and_stall() {
    assert_eq!(linux_pressure_state(10, None).0, "GREEN");
    assert_eq!(linux_pressure_state(70, None).0, "YELLOW");
    assert_eq!(linux_pressure_state(85, None).0, "RED");
    // Sustained full stalls escalate an otherwise idle machine.
    assert_eq!(linux_pressure_state(10, Some(number(2.0))).0, "YELLOW");
    assert_eq!(linux_pressure_state(10, Some(number(6.0))).0, "RED");
}

#[test]
fn parses_memory_pressure_stall_average() {
    let text = "some avg10=0.00 avg60=0.00 avg300=0.00 total=18031870\n\
                full avg10=2.50 avg60=1.00 avg300=0.20 total=17677407\n";
    assert_eq!(parse_memory_pressure_stall(text), Some(number(2.5)));
    assert_eq!(parse_memory_pressure_stall(""), None);
}

#[test]
fn parses_nvidia_smi_csv_row() {
    let info = parse_nvidia_smi_csv("NVIDIA GeForce GTX 1660 SUPER, 23, 974, 6144, 40\n")
        .expect("csv row should parse");
    assert_eq!(info.name.as_deref(), Some("NVIDIA GeForce GTX 1660 SUPER"));
    assert_eq!(info.util_percent, Some(23));
    assert_eq!(info.used_bytes, Some(974 * 1024 * 1024));
    assert_eq!(info.total_bytes, Some(6144 * 1024 * 1024));
    assert_eq!(info.temp_celsius, Some(40));
}

#[test]
fn linux_thermal_labels_match_mac_semantics() {
    // `classify` treats "limited*" and "warning reported" as thermal
    // causes, so Linux labels must reuse those exact strings.
    assert!(linux_thermal_label(Some(95)).starts_with("limited"));
    assert_eq!(linux_thermal_label(Some(85)), "warning reported");
    assert_eq!(linux_thermal_label(Some(40)), "no warning");
    assert_eq!(linux_thermal_label(None), "unavailable");
}

#[test]
fn parses_metal_stats_without_charging_driver_memory_as_gpu_memory() {
    let ioreg = r#"
        "PerformanceStatistics" = {"In use system memory (driver)"=0,"Alloc system memory"=3224567808,"Tiler Utilization %"=16,"Renderer Utilization %"=15,"Device Utilization %"=16,"In use system memory"=850280448}
        "model" = "Apple M4"
        "gpu-core-count" = 10
    "#;
    assert_eq!(
        parse_gpu(ioreg),
        (Some(16), Some(3_224_567_808), Some(850_280_448))
    );
    let metal = parse_metal_hardware(ioreg);
    assert_eq!(metal.device_name.as_deref(), Some("Apple M4"));
    assert_eq!(metal.gpu_cores, Some(10));
    assert_eq!(metal.renderer_util, Some(15));
    assert_eq!(metal.tiler_util, Some(16));
}

#[test]
fn parses_detected_llm_processes_for_top_view() {
    let snapshot = parse_processes(
        "123 15728640 12.5 48.5 Rs 20 /usr/local/bin/omlx-server --port 8080\n\
         456 2048 0.1 0.0 S 0 /usr/bin/other-worker --task test",
    );
    let processes = snapshot.llm_processes;
    assert_eq!(processes.len(), 1);
    assert_eq!(snapshot.largest_consumer.as_deref(), Some("omlx-server"));
    assert_eq!(snapshot.provider.as_deref(), Some("oMLX"));
    assert_eq!(processes[0].pid, 123);
    assert_eq!(processes[0].name, "omlx-server");
    assert_eq!(processes[0].cpu, number(12.5));
    assert_eq!(processes[0].memory_percent, Some(number(48.5)));
    assert_eq!(processes[0].state, "Rs");
    assert_eq!(processes[0].pageins, Some(20));
    assert!(processes[0].command.contains("--port 8080"));
}

#[test]
fn detects_runtime_entrypoints_with_consistent_provider_names() {
    for (name, command, provider) in [
        ("Python", "python -m mlx_lm.server --model test", "mlx-lm"),
        ("mlx_lm.server", "mlx_lm.server --model test", "mlx-lm"),
        ("ollama", "/usr/local/bin/ollama serve", "Ollama"),
        ("llama-server", "llama-server --model test", "llama.cpp"),
        ("Python", "python KoboldCpp.py --model test", "KoboldCpp"),
        (
            "LM",
            "Studio /Applications/LM Studio.app/Contents/MacOS/LM Studio",
            "LM Studio",
        ),
        ("llmster", "llmster", "LM Studio"),
        (
            "llama-server",
            "/home/user/.lmstudio/engines/llama-server",
            "LM Studio",
        ),
        ("local-ai", "local-ai run", "LocalAI"),
    ] {
        assert!(is_llm_process(name, command), "{command}");
        assert_eq!(
            process_provider(name, command).as_deref(),
            Some(provider),
            "{command}"
        );
        let snapshot = parse_processes(&format!("42 1024 1.0 0.1 S 0 {name} {command}"));
        assert_eq!(snapshot.provider.as_deref(), Some(provider), "{command}");
    }
    assert!(!is_llm_process("python", "python client.py --model ollama"));
    assert!(!is_llm_process("mlxtop", "mlxtop --help"));
}

#[test]
fn process_pagein_rates_are_pid_scoped() {
    let mut current = vec![LlmProcess {
        pid: 123,
        name: "omlx-server".into(),
        command: "omlx-server".into(),
        rss: 1,
        cpu: number(0.0),
        memory_percent: Some(number(1.0)),
        state: "S".into(),
        pageins: Some(30),
        pagein_rate: None,
    }];
    let previous = vec![LlmProcess {
        pid: 123,
        name: "omlx-server".into(),
        command: "omlx-server".into(),
        rss: 1,
        cpu: number(0.0),
        memory_percent: Some(number(1.0)),
        state: "S".into(),
        pageins: Some(10),
        pagein_rate: None,
    }];
    annotate_process_pagein_rates(&mut current, &previous, Elapsed { secs: 2, nanos: 0 });
    assert_eq!(current[0].pagein_rate, Some(number(10.0)));
}

#[test]
fn rates_use_fractional_elapsed_time() {
    assert_eq!(rate_bytes(100, 4096, millis(1500)), 273_067);
    assert_eq!(signed_rate_bytes(150, 100, millis(2000)), 25);
    assert_eq!(
        signed_rate_bytes(100, 150, millis(2000)),
        -25
    );
}
