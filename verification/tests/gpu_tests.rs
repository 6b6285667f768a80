use simple_profiler::config::{GpuConfig, GpuProvider};
use simple_profiler::gpu::{
    collection_from_nodes, degraded_capabilities, disabled_capabilities, GpuCollector, GpuError,
    GpuPoll, IoregNode, PerformanceStatistics,
};
use simple_profiler::model::CapabilityState;

const FIXTURE: &[u8] = br#"<?xml version="1.0" encoding="UTF-8"?>
<!DOCTYPE plist PUBLIC "-//Apple//DTD PLIST 1.0//EN" "http://www.apple.com/DTDs/PropertyList-1.0.dtd">
<plist version="1.0"><array><dict>
<key>gpu-core-count</key><integer>10</integer>
<key>PerformanceStatistics</key><dict>
<key>Device Utilization %</key><integer>42</integer>
<key>Renderer Utilization %</key><integer>31</integer>
<key>Tiler Utilization %</key><integer>9</integer>
<key>In use system memory</key><integer>1048576</integer>
<key>Alloc system memory</key><integer>2097152</integer>
</dict></dict></array></plist>"#;

const COLLECTED_AT_MS: i64 = 1_700_000_000_000;

fn nodes(source: &[u8]) -> Vec<IoregNode> {
    let value: plist::Value = plist::from_bytes(source).expect("property list");
    let field = |dictionary: &plist::Dictionary, key: &str| {
        dictionary
            .get(key)
            .and_then(|value| value.as_unsigned_integer())
    };
    value
        .as_array()
        .expect("array")
        .iter()
        .map(|entry| {
            let entry = entry.as_dictionary().expect("entry");
            IoregNode {
                gpu_core_count: field(entry, "gpu-core-count"),
                performance_statistics: entry
                    .get("PerformanceStatistics")
                    .and_then(|value| value.as_dictionary())
                    .map(|statistics| PerformanceStatistics {
                        device_utilization: field(statistics, "Device Utilization %"),
                        renderer_utilization: field(statistics, "Renderer Utilization %"),
                        tiler_utilization: field(statistics, "Tiler Utilization %"),
                        memory_used: field(statistics, "In use system memory"),
                        memory_allocated: field(statistics, "Alloc system memory"),
                    }),
            }
        })
        .collect()
}

#[test]
fn parses_structured_apple_gpu_metrics_and_capabilities() {
    let collection =
        collection_from_nodes(&nodes(FIXTURE), COLLECTED_AT_MS).expect("GPU collection");

    assert_eq!(collection.metrics.len(), 5);
    assert!(collection.metrics.iter().any(|metric| {
        metric.name == "gpu.device.usage"
            && f64::from_bits(metric.value_bits) == 42.0
            && metric.unit == "percent"
    }));
    assert!(collection.metrics.iter().any(|metric| {
        metric.name == "gpu.memory.used" && f64::from_bits(metric.value_bits) == 1_048_576.0
    }));
    assert_eq!(collection.capabilities.len(), 9);
    assert!(collection.capabilities.iter().any(|capability| {
        capability.capability == "gpu.power" && capability.state == CapabilityState::Unavailable
    }));
    assert!(collection.capabilities.iter().any(|capability| {
        capability.capability == "gpu.device.identity"
            && capability.detail.as_deref() == Some("Apple GPU with 10 cores")
    }));
}

#[test]
fn missing_fields_are_unavailable_instead_of_zero() {
    let source = br#"<?xml version="1.0"?><plist version="1.0"><array><dict><key>PerformanceStatistics</key><dict><key>Device Utilization %</key><integer>5</integer></dict></dict></array></plist>"#;
    let collection = collection_from_nodes(&nodes(source), COLLECTED_AT_MS).expect("GPU collection");

    assert_eq!(collection.metrics.len(), 1);
    assert!(collection.capabilities.iter().any(|capability| {
        capability.capability == "gpu.memory.used"
            && capability.state == CapabilityState::Unavailable
    }));
}

#[test]
fn rejects_out_of_range_percent_without_emitting_a_metric() {
    let source = br#"<?xml version="1.0"?><plist version="1.0"><array><dict><key>PerformanceStatistics</key><dict><key>Device Utilization %</key><integer>101</integer></dict></dict></array></plist>"#;
    let collection = collection_from_nodes(&nodes(source), COLLECTED_AT_MS).expect("GPU collection");

    assert!(collection.metrics.is_empty());
    assert!(collection.capabilities.iter().any(|capability| {
        capability.capability == "gpu.device.usage"
            && capability.state == CapabilityState::Degraded
            && capability.detail.as_deref() == Some("ignored out-of-range value 101")
    }));
}

#[test]
fn statistics_are_required() {
    let result = collection_from_nodes(
        &vec![IoregNode {
            gpu_core_count: Some(8),
            performance_statistics: None,
        }],
        0,
    );
    assert!(matches!(result, Err(GpuError::MissingStatistics)));
}

#[test]
fn failures_back_off_and_repeat_warnings_once() {
    let mut collector = GpuCollector::new(GpuConfig::default());
    assert_eq!(collector.poll(0, true), GpuPoll::RunIoreg);
    let first = collector.failure_collection(0, 7, "ioreg timed out after 2 seconds");
    assert_eq!(first.warning.as_deref(), Some("ioreg timed out after 2 seconds"));
    assert_eq!(first.capabilities.len(), 9);
    assert_eq!(first.capabilities[5].capability, "gpu.device.identity");
    assert_eq!(first.capabilities[5].state, CapabilityState::Degraded);
    // The first failure waits two intervals.
    assert_eq!(collector.poll(29_999, true), GpuPoll::Idle);
    assert_eq!(collector.poll(30_000, true), GpuPoll::RunIoreg);
    let second = collector.failure_collection(30_000, 8, "ioreg timed out after 2 seconds");
    assert_eq!(second.warning, None);
    assert_eq!(collector.poll(89_999, true), GpuPoll::Idle);
    collector.record_success(90_000);
    assert_eq!(collector.poll(104_999, true), GpuPoll::Idle);
    assert_eq!(collector.poll(105_000, true), GpuPoll::RunIoreg);
}

#[test]
fn backoff_stops_at_five_minutes() {
    let mut collector = GpuCollector::new(GpuConfig {
        interval_seconds: 60,
        ..GpuConfig::default()
    });
    for _ in 0..10 {
        collector.record_failure(0, "failed");
    }
    assert_eq!(collector.poll(299_999, true), GpuPoll::Idle);
    assert_eq!(collector.poll(300_000, true), GpuPoll::RunIoreg);
}

#[test]
fn a_disabled_collector_reports_once() {
    let mut collector = GpuCollector::new(GpuConfig {
        enabled: false,
        ..GpuConfig::default()
    });
    assert_eq!(collector.poll(0, true), GpuPoll::ReportDisabled);
    assert_eq!(collector.poll(1, true), GpuPoll::Idle);
    let capabilities = disabled_capabilities(3);
    assert_eq!(capabilities.len(), 9);
    assert!(capabilities
        .iter()
        .all(|capability| capability.state == CapabilityState::Unavailable
            && capability.provider == "disabled"));
}

#[test]
fn other_platforms_have_no_provider() {
    let mut collector = GpuCollector::new(GpuConfig {
        provider: GpuProvider::AppleIoreg,
        ..GpuConfig::default()
    });
    assert_eq!(collector.poll(0, false), GpuPoll::NoProvider);
    assert_eq!(
        collector.no_provider_reason(),
        "apple_ioreg is available only on macOS"
    );
    let degraded = degraded_capabilities(1, "down");
    assert_eq!(degraded[8].capability, "gpu.temperature");
    assert_eq!(degraded[8].state, CapabilityState::Unavailable);
}
