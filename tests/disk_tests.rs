use eyes::disk::{feed_disk_output, DiskEvent};
use eyes::fields::parse_decimal_milli;

#[test]
fn test_disk_event_from_iostat_line() {
    let iostat_line = "disk0       4.00     2.50     1.50     0.75";
    let event = DiskEvent::from_iostat_line(iostat_line, 0).unwrap();

    assert_eq!(event.disk_name, "disk0");
    assert_eq!(event.read_kb_per_sec_milli, 1_536_000); // 1.50 MB/s * 1024
    assert_eq!(event.write_kb_per_sec_milli, 768_000); // 0.75 MB/s * 1024
    assert!(event.read_ops_per_sec_milli > 0);
    assert!(event.write_ops_per_sec_milli > 0);
    assert_eq!(event.filesystem_path, None);
}

#[test]
fn disk_row_example_values() {
    let event = DiskEvent::from_iostat_line("disk0 4.00 2.50 1.50 0.75", 42).unwrap();
    assert_eq!(event.read_kb_per_sec_milli, 1_536_000);
    assert_eq!(event.write_kb_per_sec_milli, 768_000);
    // 2.5 transfers per second, two thirds of the bytes read
    assert_eq!(event.read_ops_per_sec_milli, 1666);
    assert_eq!(event.write_ops_per_sec_milli, 834);
    assert_eq!(event.timestamp, 42);
}

#[test]
fn disk_row_without_io_splits_evenly() {
    let event = DiskEvent::from_iostat_line("disk1 0.00 3.00 0.00 0.00", 0).unwrap();
    assert_eq!(event.read_ops_per_sec_milli, 1500);
    assert_eq!(event.write_ops_per_sec_milli, 1500);
}

#[test]
fn disk_row_rejections() {
    assert!(DiskEvent::from_iostat_line("disk0 4.00 2.50 1.50", 0).is_err());
    assert!(DiskEvent::from_iostat_line("", 0).is_err());
    assert!(DiskEvent::from_iostat_line("disk0 KB/t tps MB/s MB/s", 0).is_err());
    assert!(DiskEvent::from_iostat_line("disk0 4.00 -2.50 1.50 0.75", 0).is_err());
}

#[test]
fn decimal_parsing() {
    assert_eq!(parse_decimal_milli("1.50"), Some(1500));
    assert_eq!(parse_decimal_milli("0.75"), Some(750));
    assert_eq!(parse_decimal_milli("12"), Some(12000));
    assert_eq!(parse_decimal_milli("3."), Some(3000));
    assert_eq!(parse_decimal_milli("1.23456"), Some(1234));
    assert_eq!(parse_decimal_milli(".5"), None);
    assert_eq!(parse_decimal_milli("1.2.3"), None);
    assert_eq!(parse_decimal_milli("abc"), None);
    assert_eq!(parse_decimal_milli("999999999999"), Some(999_999_999_999_000));
    assert_eq!(parse_decimal_milli("1000000000000"), None);
}

#[test]
fn disk_output_skips_headers_and_keeps_partial_row() {
    let mut buf: Vec<u8> = Vec::new();
    let chunk = b"              disk0\n    KB/t  tps  MB/s\ndisk0 4.00 2.50 1.50 0.75\ndisk1 8.0";
    let events = feed_disk_output(&mut buf, chunk, 7);
    assert_eq!(events.len(), 1);
    assert_eq!(events[0].disk_name, "disk0");
    assert_eq!(buf, b"disk1 8.0".to_vec());
    let events = feed_disk_output(&mut buf, b"0 1.00 1.00 0.00\n", 8);
    assert_eq!(events.len(), 1);
    assert_eq!(events[0].disk_name, "disk1");
    assert_eq!(events[0].read_kb_per_sec_milli, 1_024_000);
    assert_eq!(events[0].read_ops_per_sec_milli, 1000);
    assert_eq!(events[0].timestamp, 8);
}

#[test]
fn test_parse_fs_usage_line_basic() {
    let line = "12:00:00.000 read /Users/test/file.txt 2048 bytes";
    let event = DiskEvent::from_fs_usage_line(line, 0).unwrap();
    assert!(event.read_kb_per_sec_milli > 0);
    assert_eq!(event.write_kb_per_sec_milli, 0);
    assert_eq!(event.filesystem_path, Some("/Users/test/file.txt".to_string()));
    assert_eq!(event.disk_name, "fs_usage");
}

#[test]
fn test_parse_fs_usage_line_write() {
    let line = "12:00:00.000 WRITE /var/log/system.log 1024";
    let event = DiskEvent::from_fs_usage_line(line, 0).unwrap();
    assert_eq!(event.read_kb_per_sec_milli, 0);
    assert!(event.write_kb_per_sec_milli > 0);
    assert_eq!(event.filesystem_path, Some("/var/log/system.log".to_string()));
}

#[test]
fn fs_usage_exact_values_and_rejections() {
    let event = DiskEvent::from_fs_usage_line("t read write /a 4096", 3).unwrap();
    assert_eq!(event.read_kb_per_sec_milli, 2000);
    assert_eq!(event.write_kb_per_sec_milli, 2000);
    assert_eq!(event.read_ops_per_sec_milli, 1000);
    assert_eq!(event.write_ops_per_sec_milli, 1000);
    assert!(DiskEvent::from_fs_usage_line("read /a 10", 0).is_none());
    assert!(DiskEvent::from_fs_usage_line("open /a 10 bytes", 0).is_none());
    let mut buf: Vec<u8> = Vec::new();
    let events = eyes::fsusage::feed_fs_usage_output(&mut buf, b"noise\n1 read /x 1024\n1 wri", 0);
    assert_eq!(events.len(), 1);
    assert_eq!(events[0].read_kb_per_sec_milli, 1000);
    assert_eq!(buf, b"1 wri".to_vec());
}
