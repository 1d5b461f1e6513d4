use larql_backend::backend::LarqlBackend;
use larql_backend::memory::{parse_available_kib, split_lines};

const MEMINFO: &str = "MemTotal:       16314204 kB\nMemFree:         1000000 kB\nMemAvailable:    9876543 kB\nBuffers: 1 kB\n";

#[test]
fn available_memory_is_read_in_bytes() {
    assert_eq!(parse_available_kib(MEMINFO), 9876543);
    assert_eq!(LarqlBackend::new().available_memory_bytes(Some(MEMINFO)), 9876543 * 1024);
}

#[test]
fn unknown_memory_counts_as_none() {
    let backend = LarqlBackend::new();
    assert_eq!(backend.available_memory_bytes(None), 0);
    assert_eq!(backend.available_memory_bytes(Some("")), 0);
    assert_eq!(backend.available_memory_bytes(Some("MemTotal: 5 kB\n")), 0);
    assert_eq!(backend.available_memory_bytes(Some("MemAvailable: lots kB\n")), 0);
    assert_eq!(backend.available_memory_bytes(Some(" MemAvailable: 5 kB\n")), 0);
}

#[test]
fn the_first_labelled_line_counts() {
    assert_eq!(parse_available_kib("MemAvailable:1 kB\nMemAvailable:2 kB"), 1);
    assert_eq!(parse_available_kib("MemAvailable: x\nMemAvailable:2 kB"), 0);
    assert_eq!(parse_available_kib("a\r\nMemAvailable:\t3 kB\r\n"), 3);
}

#[test]
fn the_unit_may_be_missing_or_repeated() {
    assert_eq!(parse_available_kib("MemAvailable: 4"), 4);
    assert_eq!(parse_available_kib("MemAvailable: 4 kB kB"), 4);
    assert_eq!(parse_available_kib("MemAvailable: 4kB"), 0);
    assert_eq!(parse_available_kib("MemAvailable: 4  kB"), 0);
    assert_eq!(parse_available_kib("MemAvailable: 4 KB"), 0);
}

#[test]
fn text_splits_at_line_feeds() {
    assert_eq!(split_lines(""), vec![""]);
    assert_eq!(split_lines("a\n\nb\n"), vec!["a", "", "b", ""]);
}
