use termdash::text::{
    cpu_panel_body, disk_line, disk_process_line, disk_process_lines, disk_process_visible,
    group_lines, join_with, memory_line, network_line, u64_string,
};

#[test]
fn decimal_rendering() {
    assert_eq!(u64_string(0).as_str(), "0");
    assert_eq!(u64_string(7).as_str(), "7");
    assert_eq!(u64_string(42).as_str(), "42");
    assert_eq!(u64_string(1000).as_str(), "1000");
    assert_eq!(u64_string(1234567890).as_str(), "1234567890");
    assert_eq!(u64_string(u64::MAX).as_str(), "18446744073709551615");
}

#[test]
fn memory_line_shows_megabytes() {
    assert_eq!(
        memory_line(524288, 8388608).as_str(),
        "Memory: 512 MB / 8192 MB"
    );
    assert_eq!(memory_line(0, 0).as_str(), "Memory: 0 MB / 0 MB");
    // Kilobyte remainders are truncated.
    assert_eq!(memory_line(1023, 2047).as_str(), "Memory: 0 MB / 1 MB");
}

#[test]
fn disk_line_shows_megabytes() {
    assert_eq!(
        disk_line("sda", 104857600, 209715200).as_str(),
        "sda: 100 MB / 200 MB"
    );
    assert_eq!(disk_line("tmp", 0, 1048576).as_str(), "tmp: 0 MB / 1 MB");
}

#[test]
fn disk_process_line_format() {
    assert_eq!(
        disk_process_line("cargo", 10, 20).as_str(),
        "cargo: Read 10 bytes, Wrote 20 bytes"
    );
}

#[test]
fn network_line_format() {
    assert_eq!(
        network_line("eth0", 1, 2).as_str(),
        "eth0: Received 1 bytes, Transmitted 2 bytes"
    );
}

#[test]
fn disk_process_visibility() {
    assert!(!disk_process_visible(0, 0));
    assert!(disk_process_visible(1, 0));
    assert!(disk_process_visible(0, 5));
    assert!(disk_process_visible(3, 4));
}

fn strings(parts: &[&str]) -> Vec<String> {
    parts.iter().map(|s| s.to_string()).collect()
}

#[test]
fn join_with_separator() {
    assert_eq!(join_with(&strings(&[]), "\n").as_str(), "");
    assert_eq!(join_with(&strings(&["solo"]), "\n").as_str(), "solo");
    assert_eq!(join_with(&strings(&["a", "b", "c"]), "\n").as_str(), "a\nb\nc");
    assert_eq!(join_with(&strings(&["x", "y"]), " ").as_str(), "x y");
}

#[test]
fn group_lines_packs_rows() {
    let lines = strings(&["c0", "c1", "c2", "c3", "c4", "c5"]);
    let rows = group_lines(&lines, 5);
    assert_eq!(rows.len(), 2);
    assert_eq!(rows[0].as_str(), "c0 c1 c2 c3 c4");
    assert_eq!(rows[1].as_str(), "c5");
}

#[test]
fn group_lines_exact_multiple() {
    let lines = strings(&["a", "b", "c", "d"]);
    let rows = group_lines(&lines, 2);
    assert_eq!(rows.len(), 2);
    assert_eq!(rows[0].as_str(), "a b");
    assert_eq!(rows[1].as_str(), "c d");
}

#[test]
fn group_lines_empty() {
    let rows = group_lines(&strings(&[]), 5);
    assert_eq!(rows.len(), 0);
}

#[test]
fn disk_process_lines_filters_idle_processes() {
    let records = vec![
        ("idle".to_string(), 0u64, 0u64),
        ("reader".to_string(), 10, 0),
        ("writer".to_string(), 0, 20),
        ("both".to_string(), 3, 4),
    ];
    let lines = disk_process_lines(&records);
    assert_eq!(lines.len(), 3);
    assert_eq!(lines[0].as_str(), "reader: Read 10 bytes, Wrote 0 bytes");
    assert_eq!(lines[1].as_str(), "writer: Read 0 bytes, Wrote 20 bytes");
    assert_eq!(lines[2].as_str(), "both: Read 3 bytes, Wrote 4 bytes");
}

#[test]
fn disk_process_lines_empty() {
    let lines = disk_process_lines(&vec![]);
    assert_eq!(lines.len(), 0);
}

#[test]
fn cpu_panel_body_groups_and_joins() {
    let lines = strings(&["c0", "c1", "c2", "c3", "c4", "c5", "c6"]);
    assert_eq!(cpu_panel_body(&lines, 5).as_str(), "c0 c1 c2 c3 c4\nc5 c6");
    assert_eq!(cpu_panel_body(&strings(&[]), 5).as_str(), "");
}

#[test]
fn group_lines_single_group() {
    let lines = strings(&["a", "b"]);
    let rows = group_lines(&lines, 5);
    assert_eq!(rows.len(), 1);
    assert_eq!(rows[0].as_str(), "a b");
}
