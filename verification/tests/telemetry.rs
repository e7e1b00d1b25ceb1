//! The 40-byte telemetry record and snapshot updates.

use wu::stats::{encode_stats, Statistics};
use wu::sysinfo::{parse_cpu_times, parse_df, parse_meminfo};

#[test]
fn record_decodes_to_the_fields() {
    let cpu = 12.34f64;
    let record = encode_stats(cpu.to_bits(), 100, 200, 300, 400);
    assert_eq!(record.len(), 40);

    // the record is the five fields' big-endian bytes in order
    let mut manual = Vec::new();
    manual.extend_from_slice(&cpu.to_be_bytes());
    manual.extend_from_slice(&100u64.to_be_bytes());
    manual.extend_from_slice(&200u64.to_be_bytes());
    manual.extend_from_slice(&300u64.to_be_bytes());
    manual.extend_from_slice(&400u64.to_be_bytes());
    assert_eq!(record, manual);

    let mut snap = Statistics::new();
    snap.apply_record(&record);
    assert_eq!(f64::from_bits(snap.cpu()), 12.34);
    assert_eq!(snap.mem(), (100, 200));
    assert_eq!(snap.disk(), (300, 400));
}

#[test]
fn wrong_length_records_are_ignored() {
    let mut snap = Statistics::new();
    snap.apply_record(&encode_stats(1, 2, 3, 4, 5));
    assert_eq!(snap.mem(), (2, 3));

    snap.apply_record(&vec![0u8; 39]);
    assert_eq!(snap.cpu(), 1);
    assert_eq!(snap.mem(), (2, 3));
    assert_eq!(snap.disk(), (4, 5));

    snap.apply_record(&vec![0u8; 41]);
    assert_eq!(snap.mem(), (2, 3));
}

#[test]
fn cpu_times_from_stat_table() {
    let buf = b"cpu  100 20 30 400 5 0 6 0 0 0\ncpu0 50 10 15 200 2 0 3 0 0 0\n";
    let (idle, total) = parse_cpu_times(buf).unwrap();
    assert_eq!(idle, 400);
    assert_eq!(total, 561);
}

#[test]
fn cpu_times_reject_short_or_garbled_lines() {
    assert!(parse_cpu_times(b"cpu 1\n").is_err());
    assert!(parse_cpu_times(b"cpu  1 2 3\n").is_err());
    assert!(parse_cpu_times(b"cpu  1 2 three 4\n").is_err());
}

#[test]
fn meminfo_used_and_total() {
    let buf = b"MemTotal:       16000 kB\nMemFree:         8000 kB\nMemAvailable:   12000 kB\n";
    let (used, total) = parse_meminfo(buf).unwrap();
    assert_eq!(total, 16000);
    assert_eq!(used, 16000 - 12000);
}

#[test]
fn meminfo_rejects_available_above_total() {
    let buf = b"MemTotal: 100 kB\nMemFree: 50 kB\nMemAvailable: 200 kB\n";
    assert!(parse_meminfo(buf).is_err());
}

#[test]
fn df_second_line_fields() {
    let out = b"Filesystem     1K-blocks    Used Available Use% Mounted on\n/dev/sda1       41152812 5948036  33091272  16% /\n";
    let (used, total) = parse_df(out).unwrap();
    assert_eq!(total, 41152812);
    assert_eq!(used, 5948036);
}

#[test]
fn df_without_second_line_fails() {
    assert!(parse_df(b"Filesystem 1K-blocks Used\n").is_err());
    assert!(parse_df(b"no newline at all").is_err());
}

#[test]
fn meminfo_with_two_numeric_fields_arms_but_cannot_subtract() {
    // with only total and one further numeric field, the scan ends armed:
    // used stays at its placeholder value of 1
    let buf = b"MemTotal: 16000 kB\nMemFree: 8000 kB\n";
    assert_eq!(parse_meminfo(buf).unwrap(), (1, 16000));
}

#[test]
fn df_zero_block_counts_are_skipped() {
    // a zero total cannot arm the scan; the first nonzero numeric is taken
    // as the total and the next numeric as the used amount
    let out = b"Filesystem 1K-blocks Used\nnone 0 0\n";
    assert_eq!(parse_df(out).unwrap(), (0, 0));
}
