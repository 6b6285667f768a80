use simple_profiler::report::{
    chart_bucket_span_ms, parse_relative_duration, parse_rfc3339_millis,
    process_chart_bucket_span_ms, resolution_candidates, resolve_range, select_resolution,
    ReportError, ReportRange, ReportResolution, MAX_CHART_POINTS, MAX_PROCESS_CHART_POINTS,
    MIN_PROCESS_BUCKET_MS,
};
use simple_profiler::report::{
    chart_processes, rollup_dimension_available, ReportProcessSummary, limit_events, process_dimension_index, select_process_rollup_resolution, ProcessDimension,
    EVENT_LIMIT,
};
use simple_profiler::report_text::{
    escape_html, format_bytes, format_duration_ms, metric_label, summary_card,
};

#[test]
fn parses_relative_report_durations() {
    assert_eq!(
        parse_relative_duration("15m").expect("minutes").as_secs(),
        900
    );
    assert_eq!(
        parse_relative_duration("24h").expect("hours").as_secs(),
        86_400
    );
    assert_eq!(
        parse_relative_duration("7d").expect("days").as_secs(),
        604_800
    );
    assert!(parse_relative_duration("0h").is_err());
    assert!(parse_relative_duration("1w").is_err());
}

#[test]
fn relative_durations_report_each_kind_of_error() {
    assert_eq!(
        parse_relative_duration("h"),
        Err(ReportError::MalformedDuration)
    );
    assert_eq!(
        parse_relative_duration("15"),
        Err(ReportError::MalformedDuration)
    );
    assert_eq!(
        parse_relative_duration("15mm"),
        Err(ReportError::MalformedDuration)
    );
    assert_eq!(
        parse_relative_duration("99999999999999999999m"),
        Err(ReportError::InvalidDurationAmount)
    );
    assert_eq!(parse_relative_duration("0m"), Err(ReportError::ZeroDuration));
    assert_eq!(
        parse_relative_duration("3w"),
        Err(ReportError::UnknownDurationUnit)
    );
    assert_eq!(
        parse_relative_duration("999999999999999999d"),
        Err(ReportError::UnknownDurationUnit)
    );
    assert_eq!(
        parse_relative_duration("30s"),
        Err(ReportError::UnknownDurationUnit)
    );
    assert_eq!(
        parse_relative_duration("366d"),
        Err(ReportError::DurationOutOfBounds)
    );
    assert_eq!(
        parse_relative_duration("59m").map(|d| d.as_secs()),
        Ok(3_540)
    );
    assert_eq!(
        parse_relative_duration("  2h \n").map(|d| d.as_millis()),
        Ok(7_200_000)
    );
    assert_eq!(
        parse_relative_duration("365d").map(|d| d.as_secs()),
        Ok(31_536_000)
    );
}

#[test]
fn selects_resolution_from_requested_duration() {
    assert_eq!(
        ReportRange::new(0, 2 * 60 * 60 * 1_000)
            .expect("range")
            .preferred_resolution(),
        ReportResolution::Raw
    );
    assert_eq!(
        ReportRange::new(0, 24 * 60 * 60 * 1_000)
            .expect("range")
            .preferred_resolution(),
        ReportResolution::Minute
    );
    assert_eq!(
        ReportRange::new(0, 7 * 24 * 60 * 60 * 1_000)
            .expect("range")
            .preferred_resolution(),
        ReportResolution::QuarterHour
    );
}

#[test]
fn report_ranges_must_be_ordered_and_at_most_a_year() {
    assert_eq!(ReportRange::new(5, 5), Err(ReportError::EmptyRange));
    assert_eq!(ReportRange::new(6, 5), Err(ReportError::EmptyRange));
    assert_eq!(
        ReportRange::new(0, 365 * 24 * 60 * 60 * 1_000 + 1),
        Err(ReportError::RangeTooLong)
    );
    let longest = ReportRange::new(0, 365 * 24 * 60 * 60 * 1_000).expect("a year");
    assert_eq!(longest.duration_ms(), 31_536_000_000);
}

#[test]
fn resolves_relative_and_explicit_ranges() {
    let relative = resolve_range(Some("1h"), None, None, 7_200_000).expect("relative");
    assert_eq!(relative, ReportRange::new(3_600_000, 7_200_000).unwrap());

    let explicit = resolve_range(
        None,
        Some("2026-07-15T00:00:00Z"),
        Some("2026-07-15T01:00:00Z"),
        0,
    )
    .expect("explicit");
    assert_eq!(explicit.duration_ms(), 3_600_000);
    assert!(resolve_range(Some("1h"), Some("2026-07-15T00:00:00Z"), None, 0).is_err());
}

#[test]
fn range_resolution_reports_each_error() {
    assert_eq!(
        resolve_range(Some("1h"), None, Some("2026-07-15T00:00:00Z"), 0),
        Err(ReportError::LastWithExplicitRange)
    );
    assert_eq!(
        resolve_range(None, Some("2026-07-15T00:00:00Z"), None, 0),
        Err(ReportError::IncompleteExplicitRange)
    );
    assert_eq!(
        resolve_range(None, Some("yesterday"), Some("2026-07-15T00:00:00Z"), 0),
        Err(ReportError::InvalidTimestamp)
    );
    assert_eq!(
        resolve_range(
            None,
            Some("2026-07-15T01:00:00Z"),
            Some("2026-07-15T00:00:00Z"),
            0
        ),
        Err(ReportError::EmptyRange)
    );
    let default_hour = resolve_range(None, None, None, 10_000_000).expect("default");
    assert_eq!(default_hour, ReportRange::new(6_400_000, 10_000_000).unwrap());
}

#[test]
fn timestamps_parse_with_their_offset() {
    assert_eq!(
        parse_rfc3339_millis("2026-07-15T00:00:00Z"),
        Ok(1_784_073_600_000)
    );
    assert_eq!(
        parse_rfc3339_millis("2026-07-15T02:00:00.250+02:00"),
        Ok(1_784_073_600_250)
    );
    assert_eq!(
        parse_rfc3339_millis("2026-07-15 00:00"),
        Err(ReportError::InvalidTimestamp)
    );
}

#[test]
fn resolution_falls_back_to_the_first_tier_with_data() {
    assert_eq!(
        resolution_candidates(ReportResolution::Minute),
        [
            ReportResolution::Minute,
            ReportResolution::QuarterHour,
            ReportResolution::Raw
        ]
    );
    assert_eq!(
        select_resolution(ReportResolution::Minute, [false, false, true]),
        ReportResolution::Raw
    );
    assert_eq!(
        select_resolution(ReportResolution::Raw, [false, true, true]),
        ReportResolution::Minute
    );
    assert_eq!(
        select_resolution(ReportResolution::QuarterHour, [false, false, false]),
        ReportResolution::QuarterHour
    );
    assert_eq!(ReportResolution::QuarterHour.seconds(), 900);
    assert_eq!(ReportResolution::Minute.label(), "1 minute");
}

#[test]
fn escapes_untrusted_report_text() {
    assert_eq!(
        escape_html("<script>'&\""),
        "&lt;script&gt;&#39;&amp;&quot;"
    );
}

#[test]
fn escaping_leaves_plain_text_alone() {
    assert_eq!(escape_html("CPU usage 95%"), "CPU usage 95%");
    assert_eq!(escape_html(""), "");
}

#[test]
fn labels_known_metrics_and_keeps_unknown_names() {
    assert_eq!(metric_label("cpu.total.usage"), "CPU usage");
    assert_eq!(metric_label("gpu.memory.used"), "GPU memory in use");
    assert_eq!(metric_label("custom.metric"), "custom.metric");
}

#[test]
fn summary_cards_escape_their_text() {
    let mut html = String::from("<div>");
    summary_card(&mut html, "Resolution", "<raw>");
    assert_eq!(
        html,
        "<div><article class=\"card\"><span>Resolution</span><strong>&lt;raw&gt;</strong></article>"
    );
}

#[test]
fn bucket_spans_print_in_minutes_or_seconds() {
    assert_eq!(format_duration_ms(900_000), "15 min");
    assert_eq!(format_duration_ms(60_000), "1 min");
    assert_eq!(format_duration_ms(5_000), "5 sec");
    assert_eq!(format_duration_ms(90_500), "90 sec");
    assert_eq!(format_duration_ms(0), "0 min");
    assert_eq!(format_duration_ms(-90_000), "-90 sec");
}

#[test]
fn chart_buckets_stay_bounded() {
    let range = ReportRange::new(0, 365 * 24 * 60 * 60 * 1_000).expect("range");
    let bucket = chart_bucket_span_ms(range, ReportResolution::QuarterHour);

    assert!(range.duration_ms() / bucket <= MAX_CHART_POINTS);
    assert_eq!(bucket % (15 * 60 * 1_000), 0);
}

#[test]
fn chart_buckets_use_the_tier_for_short_ranges() {
    let hour = ReportRange::new(0, 3_600_000).expect("range");
    assert_eq!(chart_bucket_span_ms(hour, ReportResolution::Raw), 5_000);
    let day = ReportRange::new(0, 86_400_000).expect("range");
    assert_eq!(chart_bucket_span_ms(day, ReportResolution::Raw), 75_000);
    assert_eq!(chart_bucket_span_ms(day, ReportResolution::Minute), 120_000);
}

#[test]
fn process_chart_buckets_stay_bounded() {
    let range = ReportRange::new(0, 24 * 60 * 60 * 1_000).expect("range");
    let bucket = process_chart_bucket_span_ms(range);

    assert!(range.duration_ms() / bucket <= MAX_PROCESS_CHART_POINTS);
    assert!(bucket >= MIN_PROCESS_BUCKET_MS);
}

#[test]
fn process_chart_buckets_round_to_whole_seconds() {
    let hour = ReportRange::new(0, 3_600_000).expect("range");
    assert_eq!(process_chart_bucket_span_ms(hour), 15_000);
    let week = ReportRange::new(0, 7 * 86_400_000).expect("range");
    assert_eq!(process_chart_bucket_span_ms(week), 1_680_000);
}

fn float_bytes(bytes: u64) -> String {
    const KIB: f64 = 1_024.0;
    const MIB: f64 = KIB * 1_024.0;
    const GIB: f64 = MIB * 1_024.0;
    let bytes = bytes as f64;
    if bytes >= GIB {
        format!("{:.2} GiB", bytes / GIB)
    } else if bytes >= MIB {
        format!("{:.2} MiB", bytes / MIB)
    } else if bytes >= KIB {
        format!("{:.2} KiB", bytes / KIB)
    } else {
        format!("{bytes:.0} B")
    }
}

#[test]
fn byte_counts_print_like_floating_point_formatting() {
    assert_eq!(format_bytes(0), "0 B");
    assert_eq!(format_bytes(1_023), "1023 B");
    assert_eq!(format_bytes(1_024), "1.00 KiB");
    assert_eq!(format_bytes(1_152), "1.12 KiB");
    assert_eq!(format_bytes(1_048_576), "1.00 MiB");
    assert_eq!(format_bytes(1_610_612_736), "1.50 GiB");
    let mut values = vec![
        1_034,
        1_035,
        1_162,
        3_200,
        1_073_741_823,
        1_073_741_824,
        9_007_199_254_740_993,
        u64::MAX,
    ];
    let mut x: u64 = 0x9E37_79B9_7F4A_7C15;
    for _ in 0..2_000 {
        x ^= x << 13;
        x ^= x >> 7;
        x ^= x << 17;
        values.push(x >> (x % 60));
        values.push((x % 4096) * 128);
    }
    for value in values {
        assert_eq!(format_bytes(value), float_bytes(value), "{value}");
    }
}

#[test]
fn reports_read_process_rollups_only_when_raw_data_is_missing() {
    let range = ReportRange::new(1_000, 2_000).expect("range");
    assert_eq!(
        select_process_rollup_resolution(Some(500), Some(0), Some(0), range),
        None
    );
    assert_eq!(
        select_process_rollup_resolution(Some(1_500), Some(900), Some(0), range),
        Some(60)
    );
    assert_eq!(
        select_process_rollup_resolution(None, Some(1_200), Some(1_000), range),
        Some(900)
    );
    assert_eq!(select_process_rollup_resolution(None, None, None, range), None);
    assert_eq!(process_dimension_index(ProcessDimension::Gpu), 6);
}

#[test]
fn reports_show_at_most_two_hundred_events() {
    let ids: Vec<i64> = (0..=EVENT_LIMIT as i64).collect();
    let (shown, truncated) = limit_events(&ids);
    assert_eq!(shown.len(), EVENT_LIMIT);
    assert!(truncated);
    let (shown, truncated) = limit_events(&vec![3, 2, 1]);
    assert_eq!(shown, vec![3, 2, 1]);
    assert!(!truncated);
}

fn summary(pid: u32, start: u64, cpu: f64, memory: u64, gpu: Option<f64>) -> ReportProcessSummary {
    ReportProcessSummary {
        pid,
        process_start_time_seconds: start,
        name: format!("process-{pid}"),
        peak_cpu_percent_bits: cpu.to_bits(),
        peak_memory_bytes: memory,
        peak_disk_read_bytes_per_second_bits: 0.0_f64.to_bits(),
        peak_disk_write_bytes_per_second_bits: 0.0_f64.to_bits(),
        peak_network_receive_bytes_per_second_bits: None,
        peak_network_transmit_bytes_per_second_bits: None,
        peak_gpu_usage_percent_bits: gpu.map(f64::to_bits),
        sample_count: 1,
        first_seen_ms: 0,
        last_seen_ms: 0,
    }
}

#[test]
fn dashboards_chart_the_top_three_per_dimension_in_pid_order() {
    let summaries = vec![
        summary(40, 1, 90.0, 10, None),
        summary(10, 1, 80.0, 20, Some(5.0)),
        summary(30, 1, 70.0, 30, None),
        summary(20, 1, 60.0, 40, None),
        summary(50, 1, 50.0, 5, None),
    ];
    assert!(!rollup_dimension_available(
        &summaries[0],
        ProcessDimension::Gpu
    ));
    let charted = chart_processes(&summaries);
    let pids: Vec<u32> = charted.iter().map(|entry| summaries[entry.index].pid).collect();
    // Disk peaks tie at zero, so the smallest pids win there: 10, 20, 30.
    assert_eq!(pids, vec![10, 20, 30, 40]);
    let forty = charted.iter().find(|entry| summaries[entry.index].pid == 40).unwrap();
    assert_eq!(forty.cpu_rank, Some(1));
    assert_eq!(forty.memory_rank, None);
    let ten = charted.iter().find(|entry| summaries[entry.index].pid == 10).unwrap();
    assert_eq!(ten.gpu_rank, Some(1));
    assert_eq!(ten.disk_read_rank, Some(1));
    let twenty = charted.iter().find(|entry| summaries[entry.index].pid == 20).unwrap();
    assert_eq!(twenty.memory_rank, Some(1));
}
