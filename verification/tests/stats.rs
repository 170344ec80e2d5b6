use rx11::stats::{format_bytes, format_duration, format_duration_secs, ConnectionStats};

fn float_format(bytes: u64) -> String {
    const KB: f64 = 1024.0;
    const MB: f64 = KB * 1024.0;
    const GB: f64 = MB * 1024.0;
    let b = bytes as f64;
    if b >= GB {
        format!("{:.1} GB", b / GB)
    } else if b >= MB {
        format!("{:.1} MB", b / MB)
    } else if b >= KB {
        format!("{:.1} KB", b / KB)
    } else {
        format!("{} B", bytes)
    }
}

#[test]
fn test_format_bytes_zero() {
    assert_eq!(format_bytes(0), "0 B");
}

#[test]
fn test_format_bytes_small() {
    assert_eq!(format_bytes(512), "512 B");
}

#[test]
fn test_format_bytes_kb() {
    let result = format_bytes(1536);
    assert!(result.contains("KB"));
}

#[test]
fn test_format_bytes_mb() {
    let result = format_bytes(1024 * 1024 * 5);
    assert!(result.contains("MB"));
}

#[test]
fn test_format_bytes_gb() {
    let result = format_bytes(1024 * 1024 * 1024 * 3);
    assert!(result.contains("GB"));
}

#[test]
fn format_bytes_exact_values() {
    assert_eq!(format_bytes(1536), "1.5 KB");
    assert_eq!(format_bytes(1024), "1.0 KB");
    assert_eq!(format_bytes(1023), "1023 B");
    assert_eq!(format_bytes(5 * 1024 * 1024), "5.0 MB");
    assert_eq!(format_bytes(3 * 1024 * 1024 * 1024), "3.0 GB");
}

#[test]
fn format_bytes_agrees_with_float_formatting() {
    let mut samples: Vec<u64> = vec![
        0, 1, 1023, 1024, 1075, 1076, 1126, 1127, 1587, 1588, 10240, 104755, 104857,
        1048575, 1048576, 1101004, 1101005, 1073741823, 1073741824, 1127428915, 1127428916,
        u64::MAX, u64::MAX - 1, 1 << 53, (1 << 53) + 1, 123456789012345,
    ];
    let mut x: u64 = 0x9E3779B97F4A7C15;
    for _ in 0..20000 {
        x ^= x << 13;
        x ^= x >> 7;
        x ^= x << 17;
        samples.push(x >> (x % 60));
    }
    for b in samples {
        assert_eq!(format_bytes(b), float_format(b), "bytes = {}", b);
    }
}

#[test]
fn test_stats_initial_values() {
    let stats = ConnectionStats::new();
    assert_eq!(stats.total_bytes_sent, 0);
    assert_eq!(stats.total_bytes_received, 0);
    assert_eq!(stats.x11_connections_active, 0);
}

#[test]
fn test_stats_add_bytes() {
    let mut stats = ConnectionStats::new();
    stats.add_bytes_sent(100);
    stats.add_bytes_received(200);
    assert_eq!(stats.total_bytes_sent, 100);
    assert_eq!(stats.total_bytes_received, 200);
    assert_eq!(stats.period_bytes_sent, 100);
    assert_eq!(stats.period_bytes_received, 200);
}

#[test]
fn test_stats_reset_period() {
    let mut stats = ConnectionStats::new();
    stats.add_bytes_sent(100);
    stats.add_bytes_received(200);
    stats.add_compression_saved(50);
    stats.add_incremental_saved(30);

    stats.reset_period();

    assert_eq!(stats.total_bytes_sent, 100);
    assert_eq!(stats.total_bytes_received, 200);
    assert_eq!(stats.period_bytes_sent, 0);
    assert_eq!(stats.period_bytes_received, 0);
}

#[test]
fn test_stats_x11_connections() {
    let mut stats = ConnectionStats::new();
    stats.inc_x11_connections();
    stats.inc_x11_connections();
    assert_eq!(stats.x11_connections_active, 2);
    stats.dec_x11_connections();
    assert_eq!(stats.x11_connections_active, 1);
}

#[test]
fn test_stats_dec_does_not_underflow() {
    let mut stats = ConnectionStats::new();
    stats.dec_x11_connections();
    assert_eq!(stats.x11_connections_active, 0);
}

#[test]
fn test_default() {
    let stats = ConnectionStats::default();
    assert_eq!(stats.total_bytes_sent, 0);
}

#[test]
fn test_format_duration_seconds() {
    let d = std::time::Duration::from_secs(45);
    assert_eq!(format_duration(d), "45s");
}

#[test]
fn test_format_duration_minutes() {
    let d = std::time::Duration::from_secs(90);
    assert_eq!(format_duration(d), "1m30s");
}

#[test]
fn test_format_duration_hours() {
    let d = std::time::Duration::from_secs(3661);
    assert_eq!(format_duration(d), "1h1m1s");
}

#[test]
fn test_format_duration_days() {
    let d = std::time::Duration::from_secs(90061);
    assert_eq!(format_duration(d), "1d1h1m1s");
}

#[test]
fn format_duration_edge_cases() {
    assert_eq!(format_duration_secs(0), "0s");
    assert_eq!(format_duration_secs(60), "1m0s");
    assert_eq!(format_duration_secs(3600), "1h0m0s");
    assert_eq!(format_duration_secs(86400), "1d0h0m0s");
    assert_eq!(format_duration(std::time::Duration::from_millis(1999)), "1s");
}

#[test]
fn compression_and_incremental_counters() {
    let mut stats = ConnectionStats::new();
    stats.add_compression_saved(0);
    assert_eq!(stats.total_compression_frames, 0);
    stats.add_compression_saved(10);
    stats.add_compression_saved(5);
    assert_eq!(stats.total_compression_saved, 15);
    assert_eq!(stats.total_compression_frames, 2);
    stats.add_incremental_saved(7);
    stats.add_incremental_full_fallback();
    assert_eq!(stats.total_incremental_saved, 7);
    assert_eq!(stats.total_incremental_frames, 1);
    assert_eq!(stats.total_incremental_fallback, 1);
    let total = stats.get_total_stats();
    let period = stats.get_period_stats();
    assert_eq!(total.compression_saved, 15);
    assert_eq!(period.incremental_fallback, 1);
    stats.reset_period();
    let period = stats.get_period_stats();
    assert_eq!(period.compression_saved, 0);
    assert_eq!(stats.get_total_stats().compression_saved, 15);
}

#[test]
fn counters_wrap_like_atomics() {
    let mut stats = ConnectionStats::new();
    stats.add_bytes_sent(u64::MAX);
    stats.add_bytes_sent(2);
    assert_eq!(stats.total_bytes_sent, 1);
}

#[test]
fn summary_lists_transfer_and_uptime() {
    let mut stats = ConnectionStats::new();
    stats.add_bytes_sent(1536);
    stats.add_bytes_received(512);
    stats.inc_x11_connections();
    let s = stats.summary_with_uptime(3661);
    assert!(s.contains("1h1m1s"), "{}", s);
    assert!(s.contains("1.5 KB"), "{}", s);
    assert!(s.contains("512 B"), "{}", s);
    let live = stats.summary();
    assert!(live.contains("1.5 KB"), "{}", live);
}
