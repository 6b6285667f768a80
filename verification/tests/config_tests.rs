use simple_profiler::config::{AppConfig, ConfigError, GpuConfig, GpuProvider, ProcessConfig};
use simple_profiler::float_bits::{integer_value_bits, rounded_as_f64, value_ge, value_gt};
use simple_profiler::instance::lock_path;
use simple_profiler::logging::{rotated_path, rotation_plan, should_rotate};

#[test]
fn rejects_zero_interval() {
    let config = AppConfig {
        interval_seconds: 0,
        ..AppConfig::default()
    };

    assert!(config.validate().is_err());
}

#[test]
fn validation_names_the_first_problem() {
    let config = AppConfig {
        interval_seconds: 0,
        channel_capacity: 0,
        ..AppConfig::default()
    };
    assert_eq!(config.validate(), Err(ConfigError::ZeroInterval));
    let config = AppConfig {
        channel_capacity: 0,
        ..AppConfig::default()
    };
    assert_eq!(config.validate(), Err(ConfigError::ZeroChannelCapacity));
    assert_eq!(AppConfig::default().validate(), Ok(()));
}

#[test]
fn defaults_match_the_documentation() {
    let process = ProcessConfig::default();
    assert_eq!(process.interval_seconds, 15);
    assert_eq!(process.max_snapshot_processes, 40);
    let gpu = GpuConfig::default();
    assert_eq!(gpu.provider, GpuProvider::Auto);
    assert_eq!(gpu.command_timeout_seconds, 2);
}

#[test]
fn integers_become_the_nearest_binary64_value() {
    for value in [0_u64, 1, 2, 3, 100, 1_048_576, (1 << 53) - 1, 1 << 53, (1 << 53) + 1, (1 << 53) + 3, u64::MAX - 1024, u64::MAX] {
        assert_eq!(integer_value_bits(value), (value as f64).to_bits(), "{value}");
        assert_eq!(rounded_as_f64(value), value as f64 as u128, "{value}");
    }
}

#[test]
fn float_comparisons_follow_ieee_rules() {
    let nan = f64::NAN.to_bits();
    assert!(!value_ge(nan, 1.0_f64.to_bits()));
    assert!(value_ge((-0.0_f64).to_bits(), 0.0_f64.to_bits()));
    assert!(!value_gt((-0.0_f64).to_bits(), 0.0_f64.to_bits()));
    assert!(value_gt(2.5_f64.to_bits(), (-3.0_f64).to_bits()));
}

#[test]
fn log_files_rotate_by_suffix() {
    assert_eq!(rotated_path("/tmp/profiler.log", 2), "/tmp/profiler.log.2");
    assert!(!should_rotate(0, 10, 5));
    assert!(should_rotate(5, 1, 5));
    assert!(!should_rotate(4, 1, 5));
    assert!(should_rotate(u64::MAX, 1, u64::MAX - 1));
    let plan = rotation_plan("app.log", 3);
    assert_eq!(plan.len(), 3);
    assert_eq!(plan[0].source, "app.log.2");
    assert_eq!(plan[0].destination, "app.log.3");
    assert!(plan[0].remove_destination);
    assert_eq!(plan[2].source, "app.log");
    assert_eq!(plan[2].destination, "app.log.1");
    assert!(!plan[2].remove_destination);
    assert!(rotation_plan("app.log", 0).is_empty());
}

#[test]
fn the_lock_sits_beside_the_database() {
    assert_eq!(lock_path("data/metrics.sqlite3"), "data/metrics.sqlite3.lock");
}
