use motd::{
    bar_width, build_entries, column_sizes, find_mount, format_row, pad_to_width,
    parse_into_entry, scrub_summary, split_kv, split_lines, trim, FilesystemsError, MountInfo,
    INDENT_WIDTH,
};

fn mount(on: &str, from: &str, fs_type: &str, total: u64, avail: u64) -> MountInfo {
    MountInfo {
        fs_mounted_from: from.to_string(),
        fs_mounted_on: on.to_string(),
        fs_type: fs_type.to_string(),
        total,
        avail,
    }
}

#[test]
fn entry_humanizes_sizes() {
    let m = mount("/", "/dev/sda1", "ext4", 2048, 1024);
    let e = parse_into_entry("root".to_string(), &m);
    assert_eq!(e.filesystem_name, "root");
    assert_eq!(e.dev, "/dev/sda1");
    assert_eq!(e.mount_point, "/");
    assert_eq!(e.fs_type, "ext4");
    assert_eq!(e.used_bytes, 1024);
    assert_eq!(e.total_bytes, 2048);
    assert_eq!(e.used, "1.0 KiB");
    assert_eq!(e.total, "2.0 KiB");
}

#[test]
fn entry_small_sizes_in_bytes() {
    let m = mount("/boot", "/dev/sda2", "vfat", 500, 0);
    let e = parse_into_entry("boot".to_string(), &m);
    assert_eq!(e.used, "500 B");
    assert_eq!(e.total, "500 B");
}

#[test]
fn empty_filesystems_config_is_refused() {
    let config = Vec::new();
    let mounts = vec![mount("/", "/dev/sda1", "ext4", 100, 50)];
    assert_eq!(
        build_entries(&config, &mounts),
        Err(FilesystemsError::ConfigEmtpy)
    );
}

#[test]
fn missing_mount_is_named() {
    let config = vec![("data".to_string(), "/data".to_string())];
    let mounts = vec![mount("/", "/dev/sda1", "ext4", 100, 50)];
    assert_eq!(
        build_entries(&config, &mounts),
        Err(FilesystemsError::MountNotFound { mount_point: "/data".to_string() })
    );
}

#[test]
fn entries_follow_configuration_order() {
    let config = vec![
        ("root".to_string(), "/".to_string()),
        ("boot".to_string(), "/boot".to_string()),
    ];
    let mounts = vec![
        mount("/boot", "/dev/sda2", "vfat", 4096, 2048),
        mount("/", "/dev/sda1", "ext4", 8192, 4096),
    ];
    let entries = build_entries(&config, &mounts).unwrap();
    assert_eq!(entries.len(), 2);
    assert_eq!(entries[0].filesystem_name, "root");
    assert_eq!(entries[0].dev, "/dev/sda1");
    assert_eq!(entries[1].filesystem_name, "boot");
    assert_eq!(entries[1].dev, "/dev/sda2");
}

#[test]
fn find_mount_takes_last_match() {
    let mounts = vec![
        mount("/", "/dev/sda1", "ext4", 100, 50),
        mount("/", "/dev/sdb1", "btrfs", 200, 100),
    ];
    let m = find_mount(&mounts, "/").unwrap();
    assert_eq!(m.fs_mounted_from, "/dev/sdb1");
    assert!(find_mount(&mounts, "/nope").is_none());
}

#[test]
fn column_sizes_cover_headers_and_rows() {
    let m = mount("/verylongmountpoint", "/dev/mapper/vg0-root", "ext4", 500, 100);
    let e = parse_into_entry("rootfs".to_string(), &m);
    let sizes = column_sizes(&vec![e]);
    assert_eq!(sizes.len(), 6);
    // "Filesystems" is 11 wide and longer than "rootfs" plus the indent.
    assert_eq!(sizes[0], 11);
    assert_eq!(sizes[1], "/dev/mapper/vg0-root".len());
    assert_eq!(sizes[2], "/verylongmountpoint".len());
    assert_eq!(sizes[3], "Type".len());
    assert_eq!(sizes[4], "400 B".len());
    assert_eq!(sizes[5], "Total".len());
}

#[test]
fn column_sizes_with_no_rows_are_header_widths() {
    let sizes = column_sizes(&Vec::new());
    assert_eq!(sizes, vec![11, 6, 5, 4, 4, 5]);
}

#[test]
fn format_row_pads_and_separates() {
    let items = vec![
        "Filesystems".to_string(),
        "Device".to_string(),
        "Mount".to_string(),
        "Type".to_string(),
        "Used".to_string(),
        "Total".to_string(),
    ];
    let sizes = vec![12usize, 7, 5, 4, 4, 5];
    let row = format_row(&items, &sizes);
    assert_eq!(row, "Filesystems   Device   Mount  Type  Used  Total");
}

#[test]
fn pad_keeps_longer_strings() {
    assert_eq!(pad_to_width("abc", 5), "abc  ");
    assert_eq!(pad_to_width("abcdef", 3), "abcdef");
    assert_eq!(pad_to_width("", 2), "  ");
}

#[test]
fn bar_width_follows_the_row_width() {
    let sizes = vec![10usize, 10, 10, 10, 10, 10];
    // Sixty columns, four separators of INDENT_WIDTH, minus prefix and suffix.
    let expected = 60 + 4 * INDENT_WIDTH - 1 - 1;
    assert_eq!(bar_width(&sizes, 1, 1), Some(expected));
}

#[test]
fn bar_width_refuses_an_impossible_width() {
    let sizes = vec![1usize, 1, 1, 1, 1, 1];
    assert_eq!(bar_width(&sizes, 100, 100), None);
}

#[test]
fn trim_strips_spaces_and_tabs() {
    assert_eq!(trim("  hello \t"), "hello");
    assert_eq!(trim("hello"), "hello");
    assert_eq!(trim(" \t "), "");
    assert_eq!(trim(""), "");
    assert_eq!(trim("a b"), "a b");
}

#[test]
fn split_kv_splits_at_first_colon() {
    assert_eq!(
        split_kv("Status: finished"),
        Some(("Status".to_string(), "finished".to_string()))
    );
    assert_eq!(
        split_kv("time: 12:30:00"),
        Some(("time".to_string(), "12:30:00".to_string()))
    );
    assert_eq!(split_kv("no colon here"), None);
}

#[test]
fn split_lines_keeps_every_segment() {
    let ls = split_lines("a\nb\nc");
    assert_eq!(ls, vec!["a", "b", "c"]);
    let with_trailing = split_lines("a\n");
    assert_eq!(with_trailing, vec!["a", ""]);
    assert_eq!(split_lines(""), vec![""]);
}

#[test]
fn scrub_summary_reads_a_finished_report() {
    let report = "UUID: 1234\nScrub started: Sun Mar 3 10:00:00 2024\nStatus: finished\nError summary: no errors found";
    let (status, ok) = scrub_summary("btrfs", report).unwrap();
    assert_eq!(status, "Sun Mar 3 10:00:00 2024");
    assert!(ok);
}

#[test]
fn scrub_summary_reports_a_running_scrub() {
    let report = "Status: running\nError summary: no errors found";
    let (status, ok) = scrub_summary("btrfs", report).unwrap();
    assert_eq!(status, "in progress...");
    assert!(ok);
}

#[test]
fn scrub_summary_flags_errors() {
    let report = "Status: aborted\nError summary: 3 errors";
    let (status, ok) = scrub_summary("btrfs", report).unwrap();
    assert_eq!(status, "aborted");
    assert!(!ok);
}

#[test]
fn scrub_summary_only_for_btrfs() {
    let report = "Status: finished\nError summary: no errors found";
    assert!(scrub_summary("ext4", report).is_none());
}

#[test]
fn scrub_summary_needs_a_status_line() {
    assert!(scrub_summary("btrfs", "Error summary: no errors found").is_none());
    assert!(scrub_summary("btrfs", "Status: finished\nScrub started: x").is_none());
}
