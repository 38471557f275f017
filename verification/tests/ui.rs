use os_watchdog::data::{DiskInfo, DiskType, NetworkInfo, SmartData};
use os_watchdog::ui::{
    disk_rows, memory_title, network_rows, poll_timeout, quits, show_smart, show_type, tick_over,
};

#[test]
fn memory_is_shown_in_mebibytes() {
    assert_eq!(memory_title(3 * 1048576 - 1, 16 * 1048576), "Memory Usage: 2 MB / 16 MB");
}

#[test]
fn interfaces_are_rows() {
    let net = NetworkInfo {
        interface: String::from("eth0"),
        ip: String::from("10.0.0.2"),
        mac: String::from("aa:bb"),
        rx_bytes_per_sec: 12,
        tx_bytes_per_sec: 0,
    };
    assert_eq!(
        network_rows(&vec![net]),
        vec![vec!["eth0", "10.0.0.2", "aa:bb", "12 B/s", "0 B/s"]]
    );
}

#[test]
fn disks_are_rows() {
    let disk = DiskInfo {
        name: String::from("sda"),
        mount_point: String::new(),
        disk_type: DiskType::Hdd,
        smart_data: None,
        total_space: 2097152,
        available_space: 1048575,
        read_bytes_per_sec: 512,
        write_bytes_per_sec: 1024,
    };
    assert_eq!(
        disk_rows(&vec![disk]),
        vec![vec!["sda (HDD)", "-", "2 MB", "0 MB", "512 B/s", "1024 B/s", "-"]]
    );
}

#[test]
fn mounted_disks_show_where() {
    let disk = DiskInfo {
        name: String::from("nvme0n1"),
        mount_point: String::from("/"),
        disk_type: DiskType::NVMe,
        smart_data: Some(SmartData { passed: true, temperature: Some(41), power_on_hours: None }),
        total_space: 0,
        available_space: 0,
        read_bytes_per_sec: 0,
        write_bytes_per_sec: 0,
    };
    let rows = disk_rows(&vec![disk]);
    assert_eq!(rows[0][0], "nvme0n1 (NVMe)");
    assert_eq!(rows[0][1], "/");
    assert_eq!(rows[0][6], "OK 41C");
}

#[test]
fn kinds_and_health_are_shown() {
    assert_eq!(show_type(DiskType::SataSsd), "SSD");
    assert_eq!(show_type(DiskType::Unknown), "?");
    let report = SmartData { passed: false, temperature: Some(-3), power_on_hours: None };
    assert_eq!(show_smart(Some(report)), "FAIL -3C");
    let report = SmartData { passed: true, temperature: None, power_on_hours: None };
    assert_eq!(show_smart(Some(report)), "OK ");
    assert_eq!(show_smart(None), "-");
}

#[test]
fn the_terminal_is_drawn_ten_times_a_second() {
    assert_eq!(poll_timeout(0), 100_000_000);
    assert_eq!(poll_timeout(40_000_000), 60_000_000);
    assert_eq!(poll_timeout(200_000_000), 0);
    assert!(tick_over(100_000_000));
    assert!(!tick_over(99_999_999));
    assert!(quits('q'));
    assert!(!quits('Q'));
}
