use std::collections::HashMap;

use simple_profiler::config::ProcessConfig;
use simple_profiler::model::CapabilityState;
use simple_profiler::process_collector::{
    apply_gpu_deltas, apply_network_deltas, base_capabilities, gpu_time_capability,
    network_capability, parse_nettop, rank_candidates, GpuEntry, NetworkEntry, NetworkTotals,
    ProcessCandidate,
};
use simple_profiler::process_storage::{attribution_dimension, snapshot_is_fresh, AttributionDimension};

fn candidate(pid: u32, start: u64, cpu: f64, memory: u64) -> ProcessCandidate {
    ProcessCandidate {
        pid,
        process_start_time_seconds: start,
        parent_pid: None,
        name: format!("process-{pid}-{start}"),
        executable_path: Some(format!("/private/process-{pid}")),
        cpu_usage_percent_bits: cpu.to_bits(),
        memory_bytes: memory,
        disk_read_bytes: pid as u64 * 10,
        disk_write_bytes: pid as u64 * 20,
        disk_read_bytes_per_second_bits: (pid as f64 * 10.0).to_bits(),
        disk_write_bytes_per_second_bits: (pid as f64 * 20.0).to_bits(),
        network_receive_bytes: None,
        network_transmit_bytes: None,
        network_receive_bytes_per_second_bits: None,
        network_transmit_bytes_per_second_bits: None,
        gpu_time_ns: None,
        gpu_usage_percent_bits: None,
    }
}

#[test]
fn keeps_the_union_of_all_available_rankings() {
    let config = ProcessConfig {
        top_cpu: 1,
        top_memory: 1,
        top_disk: 1,
        event_top_n: 1,
        ..ProcessConfig::default()
    };
    let samples = rank_candidates(
        &vec![candidate(1, 10, 80.0, 100), candidate(2, 20, 10.0, 1_000)],
        &config,
        1_700_000_000_000,
    );
    assert_eq!(samples.len(), 2);
    assert!(samples.iter().any(|sample| sample.cpu_rank == Some(1)));
    assert!(samples.iter().any(|sample| sample.memory_rank == Some(1)));
    assert!(
        samples
            .iter()
            .any(|sample| sample.disk_write_rank == Some(1))
    );
}

#[test]
fn pid_reuse_is_kept_as_a_distinct_process_identity() {
    let config = ProcessConfig {
        top_cpu: 2,
        top_memory: 2,
        event_top_n: 1,
        ..ProcessConfig::default()
    };
    let samples = rank_candidates(
        &vec![candidate(7, 10, 80.0, 100), candidate(7, 20, 70.0, 200)],
        &config,
        1_700_000_000_000,
    );
    assert_eq!(samples.len(), 2);
    assert_ne!(
        samples[0].process_start_time_seconds,
        samples[1].process_start_time_seconds
    );
}

#[test]
fn executable_paths_are_private_by_default() {
    let config = ProcessConfig {
        top_cpu: 1,
        top_memory: 1,
        event_top_n: 1,
        include_executable_path: false,
        ..ProcessConfig::default()
    };
    let samples = rank_candidates(&vec![candidate(1, 10, 1.0, 1)], &config, 0);
    assert_eq!(samples[0].executable_path, None);
}

#[test]
fn snapshots_list_by_best_rank_and_respect_the_cap() {
    let config = ProcessConfig {
        top_cpu: 2,
        top_memory: 1,
        top_disk: 0,
        max_snapshot_processes: 2,
        include_executable_path: true,
        ..ProcessConfig::default()
    };
    let candidates = vec![
        candidate(3, 1, 5.0, 9_000),
        candidate(4, 1, 50.0, 10),
        candidate(5, 1, 40.0, 20),
    ];
    let samples = rank_candidates(&candidates, &config, 42);
    assert_eq!(samples.len(), 2);
    // pid 3 leads memory, pid 4 leads CPU: both have best rank 1, listed by pid.
    assert_eq!(samples[0].pid, 3);
    assert_eq!(samples[0].memory_rank, Some(1));
    assert_eq!(samples[0].cpu_rank, None);
    assert_eq!(samples[1].pid, 4);
    assert_eq!(samples[1].cpu_rank, Some(1));
    assert_eq!(samples[1].executable_path.as_deref(), Some("/private/process-4"));
    assert_eq!(samples[1].collected_at_ms, 42);
}

#[test]
fn optional_rankings_only_consider_measured_processes() {
    let config = ProcessConfig {
        top_cpu: 0,
        top_memory: 0,
        top_disk: 0,
        top_network: 5,
        ..ProcessConfig::default()
    };
    let mut measured = candidate(9, 1, 0.0, 0);
    measured.network_receive_bytes_per_second_bits = Some(0.0_f64.to_bits());
    let samples = rank_candidates(&vec![candidate(8, 1, 0.0, 0), measured], &config, 0);
    assert_eq!(samples.len(), 1);
    assert_eq!(samples[0].pid, 9);
    assert_eq!(samples[0].network_receive_rank, Some(1));
    assert_eq!(samples[0].network_transmit_rank, None);
}

#[test]
fn parses_nettop_rows_using_pid_even_when_name_contains_spaces() {
    let totals = parse_nettop(",bytes_in,bytes_out,\nCodex (Service).1931,685324,1684779,\n")
        .expect("nettop");
    assert_eq!(totals[&1931].received, 685_324);
    assert_eq!(totals[&1931].transmitted, 1_684_779);
}

#[test]
fn nettop_rows_of_one_process_add_up_and_bad_rows_are_skipped() {
    let totals = parse_nettop(
        "time,,bytes_in,bytes_out,\nmDNS,Responder.77,10,20,\n  mDNS,Responder.77,5,7\nbroken row\nname.x,1,2,\n",
    )
    .expect("nettop");
    assert_eq!(totals.len(), 1);
    assert_eq!(
        totals[&77],
        NetworkTotals {
            received: 15,
            transmitted: 27
        }
    );
    assert_eq!(
        parse_nettop(",bytes_in,bytes_out,\n").unwrap_err(),
        "nettop returned no process counters"
    );
}

#[test]
fn counter_reset_never_creates_a_huge_delta() {
    let mut candidates = vec![candidate(7, 10, 1.0, 1)];
    let mut previous = vec![NetworkEntry {
        pid: 7,
        process_start_time_seconds: 10,
        totals: NetworkTotals {
            received: 100,
            transmitted: 200,
        },
    }];
    let totals = HashMap::from([(
        7,
        NetworkTotals {
            received: 5,
            transmitted: 9,
        },
    )]);
    apply_network_deltas(&mut candidates, &totals, &mut previous);
    assert_eq!(candidates[0].network_receive_bytes, Some(0));
    assert_eq!(candidates[0].network_transmit_bytes, Some(0));
}

#[test]
fn network_deltas_need_the_same_process_instance() {
    let mut candidates = vec![candidate(7, 20, 1.0, 1), candidate(8, 1, 1.0, 1)];
    let mut previous = vec![
        NetworkEntry {
            pid: 7,
            process_start_time_seconds: 10,
            totals: NetworkTotals {
                received: 1,
                transmitted: 1,
            },
        },
        NetworkEntry {
            pid: 8,
            process_start_time_seconds: 1,
            totals: NetworkTotals {
                received: 100,
                transmitted: 200,
            },
        },
    ];
    let totals = HashMap::from([
        (
            7,
            NetworkTotals {
                received: 50,
                transmitted: 60,
            },
        ),
        (
            8,
            NetworkTotals {
                received: 150,
                transmitted: 260,
            },
        ),
    ]);
    apply_network_deltas(&mut candidates, &totals, &mut previous);
    assert_eq!(candidates[0].network_receive_bytes, None);
    assert_eq!(candidates[1].network_receive_bytes, Some(50));
    assert_eq!(candidates[1].network_transmit_bytes, Some(60));
    assert_eq!(previous.len(), 2);
    assert_eq!(previous[0].process_start_time_seconds, 20);
    assert_eq!(previous[0].totals.received, 50);
}

#[test]
fn gpu_deltas_follow_the_helper_snapshot() {
    let mut candidates = vec![candidate(7, 10, 1.0, 1), candidate(9, 1, 1.0, 1)];
    let mut previous = vec![GpuEntry {
        pid: 7,
        process_start_time_seconds: 10,
        gpu_time_ns: 1_000,
    }];
    let totals = HashMap::from([(7, 4_000_u64)]);
    apply_gpu_deltas(&mut candidates, &totals, &mut previous);
    assert_eq!(candidates[0].gpu_time_ns, Some(3_000));
    assert_eq!(candidates[1].gpu_time_ns, None);
    assert_eq!(
        previous,
        vec![GpuEntry {
            pid: 7,
            process_start_time_seconds: 10,
            gpu_time_ns: 4_000
        }]
    );
}

#[test]
fn process_capabilities_describe_each_source() {
    let base = base_capabilities(5);
    assert_eq!(base.len(), 3);
    assert_eq!(base[2].capability, "process.disk_io");
    assert_eq!(base[2].provider, "sysinfo");
    let failed = network_capability(true, Some("nettop timed out"), 5);
    assert_eq!(failed.state, CapabilityState::Degraded);
    assert_eq!(failed.detail.as_deref(), Some("nettop timed out"));
    let off = network_capability(false, None, 5);
    assert_eq!(off.state, CapabilityState::Unavailable);
    assert_eq!(off.provider, "disabled");
    let helper = gpu_time_capability(true, None, 5);
    assert_eq!(helper.state, CapabilityState::Available);
    assert_eq!(helper.provider, "privileged-helper");
    let missing = gpu_time_capability(false, None, 5);
    assert_eq!(missing.provider, "not-configured");
}

#[test]
fn system_metrics_map_to_the_matching_process_dimension() {
    assert!(matches!(
        attribution_dimension("cpu.total.usage"),
        Some(AttributionDimension::Cpu)
    ));
    assert!(matches!(
        attribution_dimension("memory.usage"),
        Some(AttributionDimension::Memory)
    ));
    assert!(matches!(
        attribution_dimension("disk.io.read.rate"),
        Some(AttributionDimension::DiskRead)
    ));
    assert!(matches!(
        attribution_dimension("network.transmit.rate"),
        Some(AttributionDimension::NetworkTransmit)
    ));
    assert!(matches!(
        attribution_dimension("gpu.device.usage"),
        Some(AttributionDimension::Gpu)
    ));
    assert!(attribution_dimension("disk.space.used.percent").is_none());
}

#[test]
fn rejects_process_snapshots_older_than_two_collection_intervals() {
    let config = ProcessConfig {
        interval_seconds: 15,
        ..ProcessConfig::default()
    };

    assert!(snapshot_is_fresh(0, 30_000, &config));
    assert!(!snapshot_is_fresh(0, 30_001, &config));
}
