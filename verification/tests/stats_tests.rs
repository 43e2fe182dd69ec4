//! Statistics counters and the number formatting of the summaries.

use jconvert::Statistics;
use jconvert::format_bytes;
use jconvert::stats::format_duration;

#[test]
fn test_format_bytes() {
    assert_eq!(format_bytes(0), "0 B");
    assert_eq!(format_bytes(500), "500 B");
    assert_eq!(format_bytes(1023), "1023 B");
    assert_eq!(format_bytes(1024), "1.00 KB");
    assert_eq!(format_bytes(1536), "1.50 KB");
    assert_eq!(format_bytes(1048576), "1.00 MB");
    assert_eq!(format_bytes(1073741824), "1.00 GB");
}

#[test]
fn test_format_bytes_boundaries() {
    assert_eq!(format_bytes(0), "0 B");
    assert_eq!(format_bytes(1023), "1023 B");
    assert_eq!(format_bytes(1024), "1.00 KB");
    assert_eq!(format_bytes(1024 * 1024 - 1), "1024.00 KB");
    assert_eq!(format_bytes(1024 * 1024), "1.00 MB");
    assert_eq!(format_bytes(1024 * 1024 * 1024), "1.00 GB");
}

#[test]
fn test_format_duration() {
    assert_eq!(format_duration(500), "500ms");
    assert_eq!(format_duration(5 * 1000), "5.000초");
    assert_eq!(format_duration(65 * 1000), "1분 5초");
    assert_eq!(format_duration(3665 * 1000), "1시간 1분");
}

#[test]
fn test_format_duration_fractions() {
    assert_eq!(format_duration(1042), "1.042초");
    assert_eq!(format_duration(0), "0ms");
    assert_eq!(format_duration(59999), "59.999초");
    assert_eq!(format_duration(60000), "1분 0초");
    assert_eq!(format_duration(3600000), "1시간 0분");
}

#[test]
fn test_statistics_counters() {
    let mut stats = Statistics::new(10);

    stats.increment_success();
    stats.increment_success();
    stats.increment_error();
    stats.add_bytes_read(1024);
    stats.add_bytes_written(512);

    assert_eq!(stats.get_success_count(), 2);
    assert_eq!(stats.get_error_count(), 1);
    assert_eq!(stats.total_bytes_read, 1024);
    assert_eq!(stats.total_bytes_written, 512);
}

#[test]
fn test_statistics_tracking() {
    let mut stats = Statistics::new(10);

    stats.increment_success();
    stats.increment_success();
    stats.increment_error();
    stats.increment_validation_failed();
    stats.add_bytes_read(1024);
    stats.add_bytes_written(512);

    assert_eq!(stats.get_success_count(), 2);
    assert_eq!(stats.get_error_count(), 1);
    assert_eq!(stats.get_validation_failed(), 1);
}

#[test]
fn test_elapsed_unstamped_is_zero() {
    let mut stats = Statistics::new(0);
    stats.start_time = None;
    assert_eq!(stats.elapsed(), 0);
}

#[test]
fn test_statistics_new_is_zeroed() {
    let stats = Statistics::new(3);
    assert_eq!(stats.total_files, 3);
    assert_eq!(stats.get_success_count(), 0);
    assert_eq!(stats.get_error_count(), 0);
    assert_eq!(stats.get_validation_failed(), 0);
    assert_eq!(stats.total_bytes_read, 0);
    assert_eq!(stats.total_bytes_written, 0);
}
