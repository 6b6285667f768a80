//! Runtime settings and their validation.
use vstd::prelude::*;

verus! {

/// Why a configuration was refused.
#[derive(Debug, Clone, Copy, PartialEq, Eq, Structural)]
pub enum ConfigError {
    /// `interval_seconds` was zero.
    ZeroInterval,
    /// `channel_capacity` was zero.
    ZeroChannelCapacity,
}

/// Settings of the collector process.
#[derive(Debug, Clone)]
pub struct AppConfig {
    pub database_path: String,
    pub interval_seconds: u64,
    pub channel_capacity: usize,
}

impl Default for AppConfig {
    fn default() -> (config: Self)
        ensures
            config.database_path@ == "data/simple-profiler.sqlite3"@,
            config.interval_seconds == 5,
            config.channel_capacity == 128,
    {
        AppConfig {
            database_path: "data/simple-profiler.sqlite3".to_owned(),
            interval_seconds: 5,
            channel_capacity: 128,
        }
    }
}

impl AppConfig {
    /// Refuses a zero collection interval, then a zero channel capacity.
    pub fn validate(&self) -> (result: Result<(), ConfigError>)
        ensures
            self.interval_seconds == 0 ==> result == Err::<(), ConfigError>(
                ConfigError::ZeroInterval,
            ),
            self.interval_seconds != 0 && self.channel_capacity == 0 ==> result == Err::<
                (),
                ConfigError,
            >(ConfigError::ZeroChannelCapacity),
            self.interval_seconds != 0 && self.channel_capacity != 0 ==> result is Ok,
    {
        if self.interval_seconds == 0 {
            return Err(ConfigError::ZeroInterval);
        }
        if self.channel_capacity == 0 {
            return Err(ConfigError::ZeroChannelCapacity);
        }
        Ok(())
    }
}

/// One sustained-threshold detection rule.  Thresholds are IEEE-754 bit
/// patterns of the configured values (see `float_bits`).
#[derive(Debug)]
pub struct AnomalyRuleConfig {
    pub id: String,
    pub metric_name: String,
    pub enabled: bool,
    pub warning_threshold: u64,
    pub critical_threshold: u64,
    pub recovery_threshold: u64,
    pub trigger_seconds: u64,
    pub critical_trigger_seconds: u64,
    pub recovery_seconds: u64,
    pub min_samples: u64,
    pub critical_min_samples: u64,
    pub recovery_min_samples: u64,
    pub max_sample_gap_seconds: u64,
}

impl Clone for AnomalyRuleConfig {
    fn clone(&self) -> (r: Self)
        ensures
            r == *self,
    {
        AnomalyRuleConfig {
            id: self.id.clone(),
            metric_name: self.metric_name.clone(),
            enabled: self.enabled,
            warning_threshold: self.warning_threshold,
            critical_threshold: self.critical_threshold,
            recovery_threshold: self.recovery_threshold,
            trigger_seconds: self.trigger_seconds,
            critical_trigger_seconds: self.critical_trigger_seconds,
            recovery_seconds: self.recovery_seconds,
            min_samples: self.min_samples,
            critical_min_samples: self.critical_min_samples,
            recovery_min_samples: self.recovery_min_samples,
            max_sample_gap_seconds: self.max_sample_gap_seconds,
        }
    }
}

/// Bit pattern of 90.0.
pub const NINETY_PERCENT: u64 = 0x4056_8000_0000_0000;

/// Bit pattern of 97.0.
pub const NINETY_SEVEN_PERCENT: u64 = 0x4058_4000_0000_0000;

/// Bit pattern of 75.0.
pub const SEVENTY_FIVE_PERCENT: u64 = 0x4052_c000_0000_0000;

/// Bit pattern of 95.0.
pub const NINETY_FIVE_PERCENT: u64 = 0x4057_c000_0000_0000;

/// Bit pattern of 85.0.
pub const EIGHTY_FIVE_PERCENT: u64 = 0x4055_4000_0000_0000;

/// Bit pattern of 88.0.
pub const EIGHTY_EIGHT_PERCENT: u64 = 0x4056_0000_0000_0000;

impl Default for AnomalyRuleConfig {
    /// The sustained-CPU rule.
    fn default() -> (rule: Self)
        ensures
            rule.id@ == "cpu-sustained-high"@,
            rule.metric_name@ == "cpu.total.usage"@,
            rule.enabled,
            rule.warning_threshold == NINETY_PERCENT,
            rule.critical_threshold == NINETY_SEVEN_PERCENT,
            rule.recovery_threshold == SEVENTY_FIVE_PERCENT,
            rule.trigger_seconds == 120,
            rule.critical_trigger_seconds == 60,
            rule.recovery_seconds == 60,
            rule.min_samples == 12,
            rule.critical_min_samples == 12,
            rule.recovery_min_samples == 12,
            rule.max_sample_gap_seconds == 15,
    {
        AnomalyRuleConfig {
            id: "cpu-sustained-high".to_owned(),
            metric_name: "cpu.total.usage".to_owned(),
            enabled: true,
            warning_threshold: NINETY_PERCENT,
            critical_threshold: NINETY_SEVEN_PERCENT,
            recovery_threshold: SEVENTY_FIVE_PERCENT,
            trigger_seconds: 120,
            critical_trigger_seconds: 60,
            recovery_seconds: 60,
            min_samples: 12,
            critical_min_samples: 12,
            recovery_min_samples: 12,
            max_sample_gap_seconds: 15,
        }
    }
}

/// Settings of anomaly detection and of the evidence kept for each event.
#[derive(Debug)]
pub struct AnomalyConfig {
    pub enabled: bool,
    pub evidence_interval_seconds: u64,
    pub prelude_minutes: u64,
    pub event_retention_days: u64,
    pub delete_batch_rows: usize,
    pub rules: Vec<AnomalyRuleConfig>,
}

impl Default for AnomalyConfig {
    /// Detection enabled with the sustained CPU, memory-pressure and disk-space rules.
    fn default() -> (config: Self)
        ensures
            config.enabled,
            config.evidence_interval_seconds == 60,
            config.prelude_minutes == 5,
            config.event_retention_days == 365,
            config.delete_batch_rows == 1000,
            config.rules.len() == 3,
            config.rules[0].id@ == "cpu-sustained-high"@,
            config.rules[1].id@ == "memory-pressure"@,
            config.rules[1].metric_name@ == "memory.usage"@,
            config.rules[2].id@ == "disk-space-low"@,
            config.rules[2].metric_name@ == "disk.space.usage"@,
    {
        let mut rules = Vec::new();
        rules.push(AnomalyRuleConfig::default());
        rules.push(
            AnomalyRuleConfig {
                id: "memory-pressure".to_owned(),
                metric_name: "memory.usage".to_owned(),
                enabled: true,
                warning_threshold: NINETY_PERCENT,
                critical_threshold: NINETY_FIVE_PERCENT,
                recovery_threshold: EIGHTY_FIVE_PERCENT,
                trigger_seconds: 300,
                critical_trigger_seconds: 120,
                recovery_seconds: 120,
                min_samples: 60,
                critical_min_samples: 24,
                recovery_min_samples: 24,
                max_sample_gap_seconds: 15,
            },
        );
        rules.push(
            AnomalyRuleConfig {
                id: "disk-space-low".to_owned(),
                metric_name: "disk.space.usage".to_owned(),
                enabled: true,
                warning_threshold: NINETY_PERCENT,
                critical_threshold: NINETY_FIVE_PERCENT,
                recovery_threshold: EIGHTY_EIGHT_PERCENT,
                trigger_seconds: 60,
                critical_trigger_seconds: 60,
                recovery_seconds: 60,
                min_samples: 2,
                critical_min_samples: 2,
                recovery_min_samples: 2,
                max_sample_gap_seconds: 90,
            },
        );
        AnomalyConfig {
            enabled: true,
            evidence_interval_seconds: 60,
            prelude_minutes: 5,
            event_retention_days: 365,
            delete_batch_rows: 1000,
            rules,
        }
    }
}

/// Settings of process sampling, ranking, evidence and retention.
#[derive(Debug)]
pub struct ProcessConfig {
    pub enabled: bool,
    pub interval_seconds: u64,
    pub top_cpu: usize,
    pub top_memory: usize,
    pub top_disk: usize,
    pub top_network: usize,
    pub top_gpu: usize,
    pub max_snapshot_processes: usize,
    pub event_top_n: usize,
    pub event_evidence_max_rows: usize,
    pub include_executable_path: bool,
    pub network_enabled: bool,
    pub network_command: String,
    pub network_command_timeout_seconds: u64,
    pub gpu_snapshot_path: Option<String>,
    pub gpu_snapshot_max_age_seconds: u64,
    pub raw_retention_hours: u64,
    pub minute_retention_days: u64,
    pub quarter_hour_retention_days: u64,
}

impl Default for ProcessConfig {
    /// Sampling every 15 seconds, at most 40 ranked processes per snapshot,
    /// five rows per evidence checkpoint and 500 per event, executable paths
    /// off, and raw, one-minute and 15-minute data kept 24 hours, 7 days and
    /// 90 days.
    fn default() -> (config: Self)
        ensures
            config.enabled,
            config.interval_seconds == 15,
            config.top_cpu == 10,
            config.top_memory == 10,
            config.top_disk == 5,
            config.top_network == 5,
            config.top_gpu == 5,
            config.max_snapshot_processes == 40,
            config.event_top_n == 5,
            config.event_evidence_max_rows == 500,
            !config.include_executable_path,
            config.network_enabled,
            config.network_command@ == "/usr/bin/nettop"@,
            config.network_command_timeout_seconds == 5,
            config.gpu_snapshot_path is None,
            config.gpu_snapshot_max_age_seconds == 60,
            config.raw_retention_hours == 24,
            config.minute_retention_days == 7,
            config.quarter_hour_retention_days == 90,
    {
        ProcessConfig {
            enabled: true,
            interval_seconds: 15,
            top_cpu: 10,
            top_memory: 10,
            top_disk: 5,
            top_network: 5,
            top_gpu: 5,
            max_snapshot_processes: 40,
            event_top_n: 5,
            event_evidence_max_rows: 500,
            include_executable_path: false,
            network_enabled: true,
            network_command: "/usr/bin/nettop".to_owned(),
            network_command_timeout_seconds: 5,
            gpu_snapshot_path: None,
            gpu_snapshot_max_age_seconds: 60,
            raw_retention_hours: 24,
            minute_retention_days: 7,
            quarter_hour_retention_days: 90,
        }
    }
}


/// Where GPU measurements come from.
#[derive(Debug, Clone, Copy, PartialEq, Eq, Structural)]
pub enum GpuProvider {
    /// The best provider the platform has.
    Auto,
    /// The `AGXAccelerator` property list of `/usr/sbin/ioreg` (macOS).
    AppleIoreg,
}

/// Settings of GPU sampling.
#[derive(Debug, Clone, Copy, PartialEq, Eq, Structural)]
pub struct GpuConfig {
    pub enabled: bool,
    pub provider: GpuProvider,
    pub interval_seconds: u64,
    pub command_timeout_seconds: u64,
}

impl Default for GpuConfig {
    /// Sampling every 15 seconds through the platform's provider, with a
    /// two-second command timeout.
    fn default() -> (config: Self)
        ensures
            config == (GpuConfig {
                enabled: true,
                provider: GpuProvider::Auto,
                interval_seconds: 15,
                command_timeout_seconds: 2,
            }),
    {
        GpuConfig {
            enabled: true,
            provider: GpuProvider::Auto,
            interval_seconds: 15,
            command_timeout_seconds: 2,
        }
    }
}

} // verus!
