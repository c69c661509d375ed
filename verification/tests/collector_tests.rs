use telemetry::collector::{
    address_counts, clamped_delta, extract_remote_addrs, parse_proc_io, RawTick, SamplerState,
};

/// The entropy figure the sampler reports, evaluated from the verified
/// per-address counts: H = -sum (c/n) * log2(c/n), 0 for an empty set.
fn shannon_entropy_bits(counts: &[u64]) -> f64 {
    let total: u64 = counts.iter().sum();
    if total == 0 {
        return 0.0;
    }
    let n = total as f64;
    let mut h = 0.0;
    for &c in counts {
        if c > 0 {
            let p = c as f64 / n;
            h -= p * p.log2();
        }
    }
    h
}

#[test]
fn clamped_delta_floors_at_zero() {
    assert_eq!(clamped_delta(10, 3), 7);
    assert_eq!(clamped_delta(3, 10), 0);
    assert_eq!(clamped_delta(5, 5), 0);
    assert_eq!(clamped_delta(0, i64::MAX), 0);
    assert_eq!(clamped_delta(i64::MAX, -1), i64::MAX);
}

#[test]
fn build_sample_clamps_deltas_when_counters_decrease() {
    let mut state = SamplerState::new(120, 4096, 2048);
    let sample = state.build_sample(RawTick {
        ts: "2026-01-01T00:00:01Z".into(),
        ts_epoch_ms: 1_767_225_601_000,
        cpu_usage_pct: "23.5".into(),
        memory_used_bytes: 1_000_000,
        memory_total_bytes: 8_000_000,
        process_count: 100,
        io_read_bytes: 1024,
        io_write_bytes: 9000,
        net_connections: 15,
        dest_ip_entropy: "2.3".into(),
        syscall_freq_json: None,
    });
    // Process count and read counter decreased: deltas clamp to 0.
    assert_eq!(sample.process_spawn_rate, 0);
    assert_eq!(sample.file_read_bytes, 0);
    assert_eq!(sample.file_write_bytes, 9000 - 2048);
    assert!(sample.process_spawn_rate >= 0);
    assert!(sample.file_read_bytes >= 0);
    assert!(sample.file_write_bytes >= 0);
    // The previous counters advanced to this tick's readings.
    assert_eq!(state.prev_process_count, 100);
    assert_eq!(state.prev_io_read, 1024);
    assert_eq!(state.prev_io_write, 9000);
}

#[test]
fn build_sample_reports_growth() {
    let mut state = SamplerState::new(100, 1000, 2000);
    let sample = state.build_sample(RawTick {
        ts: "t".into(),
        ts_epoch_ms: 1,
        cpu_usage_pct: "0".into(),
        memory_used_bytes: 1,
        memory_total_bytes: 2,
        process_count: 103,
        io_read_bytes: 1500,
        io_write_bytes: 2600,
        net_connections: 0,
        dest_ip_entropy: "0".into(),
        syscall_freq_json: None,
    });
    assert_eq!(sample.process_spawn_rate, 3);
    assert_eq!(sample.file_read_bytes, 500);
    assert_eq!(sample.file_write_bytes, 600);
}

#[test]
fn parse_proc_io_reads_counters() {
    let content = b"rchar: 9999\nwchar: 1111\nread_bytes: 4096\nwrite_bytes: 2048\n";
    let (r, w) = parse_proc_io(content);
    assert_eq!(r, 4096);
    assert_eq!(w, 2048);
}

#[test]
fn parse_proc_io_missing_counters_read_zero() {
    let (r, w) = parse_proc_io(b"rchar: 9\n");
    assert_eq!(r, 0);
    assert_eq!(w, 0);
    let (r2, w2) = parse_proc_io(b"read_bytes: notanumber\nwrite_bytes: 7\n");
    assert_eq!(r2, 0);
    assert_eq!(w2, 7);
}

#[test]
fn extract_remote_addrs_reads_the_table() {
    let content = b"  sl  local_address rem_address   st\n\
   0: 0100007F:1F90 0200007F:0050 01\n\
   1: 0100007F:1F91 0300007F:01BB 01\n";
    let mut out: Vec<Vec<u8>> = Vec::new();
    extract_remote_addrs(content, &mut out);
    assert_eq!(out.len(), 2);
    assert_eq!(out[0], b"0200007F".to_vec());
    assert_eq!(out[1], b"0300007F".to_vec());
}

#[test]
fn extract_remote_addrs_skips_short_lines() {
    let content = b"header\nonly two\n   2: 0100007F:1F90 0A00000A:0016 01\n";
    let mut out: Vec<Vec<u8>> = Vec::new();
    extract_remote_addrs(content, &mut out);
    assert_eq!(out.len(), 1);
    assert_eq!(out[0], b"0A00000A".to_vec());
}

#[test]
fn address_counts_group_by_first_occurrence() {
    let addrs: Vec<Vec<u8>> = vec![
        b"a".to_vec(),
        b"b".to_vec(),
        b"a".to_vec(),
        b"c".to_vec(),
        b"a".to_vec(),
    ];
    let counts = address_counts(&addrs);
    assert_eq!(counts, vec![3u64, 1, 1]);
}

#[test]
fn entropy_of_empty_set_is_zero() {
    let counts = address_counts(&Vec::new());
    assert!(counts.is_empty());
    assert_eq!(shannon_entropy_bits(&counts), 0.0);
}

#[test]
fn entropy_of_identical_addresses_is_zero() {
    let addrs: Vec<Vec<u8>> = vec![b"x".to_vec(), b"x".to_vec(), b"x".to_vec()];
    let counts = address_counts(&addrs);
    assert_eq!(counts, vec![3u64]);
    assert_eq!(shannon_entropy_bits(&counts), 0.0);
}

#[test]
fn entropy_of_distinct_addresses_is_log2_n() {
    let addrs: Vec<Vec<u8>> = vec![
        b"a".to_vec(),
        b"b".to_vec(),
        b"c".to_vec(),
        b"d".to_vec(),
    ];
    let counts = address_counts(&addrs);
    assert_eq!(counts, vec![1u64, 1, 1, 1]);
    assert_eq!(shannon_entropy_bits(&counts), 2.0);
    assert_eq!(shannon_entropy_bits(&counts), (4.0f64).log2());
}
