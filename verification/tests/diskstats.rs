use os_watchdog::diskstats::{diskstats_fit, parse_line, read_diskstats, DiskStats};

const SAMPLE: &str = "   8       0 sda 100 0 2000 5 50 0 1000 7 0 0 0
   7       0 loop0 1 0 2 0 0 0 0 0 0 0 0
   1       0 ram0 1 0 2 0 0 0 0 0 0 0 0
 259       0 nvme0n1 1 0 3 0 0 0 4 0 0 0 0 0 0
   8       1 sda1 short
   8      16 sdb 1 0 x 0 0 0 4 0 0 0 0
";

#[test]
fn reads_counters_as_bytes() {
    let table = read_diskstats(Some(SAMPLE));
    assert_eq!(table.entries.len(), 2);
    let sda = table.get("sda").unwrap();
    assert_eq!(sda.read_bytes, 1_024_000);
    assert_eq!(sda.write_bytes, 512_000);
    let nvme = table.get("nvme0n1").unwrap();
    assert_eq!(nvme.read_bytes, 1536);
    assert_eq!(nvme.write_bytes, 2048);
}

#[test]
fn loop_devices_and_ram_disks_are_left_out() {
    let table = read_diskstats(Some(SAMPLE));
    assert!(table.get("loop0").is_none());
    assert!(table.get("ram0").is_none());
}

#[test]
fn lines_that_do_not_count_are_left_out() {
    assert!(parse_line("8 1 sda1 short").is_none());
    assert!(parse_line("8 16 sdb 1 0 x 0 0 0 4 0 0 0 0").is_none());
    assert!(parse_line("8 16 sdb 1 0 3 0 0 0 4 0 0 0").is_none());
    assert_eq!(
        parse_line("8 16 sdb 1 0 3 0 0 0 4 0 0 0 0"),
        Some((String::from("sdb"), 3, 4))
    );
}

#[test]
fn the_last_line_for_a_device_counts() {
    let text = "8 0 sda 1 0 1 0 0 0 1 0 0 0 0\n8 0 sda 1 0 2 0 0 0 3 0 0 0 0\n";
    let table = read_diskstats(Some(text));
    assert_eq!(table.entries.len(), 1);
    assert_eq!(table.get("sda").unwrap().read_bytes, 1024);
    assert_eq!(table.get("sda").unwrap().write_bytes, 1536);
}

#[test]
fn no_text_gives_an_empty_table() {
    assert!(read_diskstats(None).entries.is_empty());
    assert!(read_diskstats(Some("")).entries.is_empty());
}

#[test]
fn counts_beyond_a_u64_do_not_fit() {
    assert!(diskstats_fit(SAMPLE));
    assert!(diskstats_fit("8 0 sda 1 0 36028797018963967 0 0 0 1 0 0 0 0"));
    assert!(!diskstats_fit("8 0 sda 1 0 36028797018963968 0 0 0 1 0 0 0 0"));
    assert!(!diskstats_fit("8 0 sda 1 0 1 0 0 0 36028797018963968 0 0 0 0"));
    assert!(diskstats_fit("7 0 loop0 1 0 36028797018963968 0 0 0 1 0 0 0 0"));
}

#[test]
fn counters_start_at_zero() {
    let stats = DiskStats::default();
    assert_eq!(stats.read_bytes, 0);
    assert_eq!(stats.write_bytes, 0);
}

#[test]
fn a_table_replaces_values() {
    let mut table = read_diskstats(None);
    table.insert(String::from("a"), DiskStats { read_bytes: 1, write_bytes: 2 });
    table.insert(String::from("b"), DiskStats { read_bytes: 3, write_bytes: 4 });
    table.insert(String::from("a"), DiskStats { read_bytes: 5, write_bytes: 6 });
    assert_eq!(table.entries.len(), 2);
    assert_eq!(table.get("a").unwrap().read_bytes, 5);
    assert_eq!(table.get("b").unwrap().write_bytes, 4);
}
