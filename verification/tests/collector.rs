use os_watchdog::collector::{
    collect_networks, energy_used, get_disk_type, parse_energy, rotational_file, Collector,
    HealthAnswer, InterfaceAddress, InterfaceCounters, MountedDisk,
};
use os_watchdog::data::{DiskType, SystemData};
use os_watchdog::smart::KEEP_NANOS;

fn mount(name: &str, mount_point: &str, total: u64, available: u64) -> MountedDisk {
    MountedDisk {
        name: String::from(name),
        mount_point: String::from(mount_point),
        total_space: total,
        available_space: available,
    }
}

#[test]
fn the_kind_of_a_disk() {
    assert_eq!(get_disk_type("nvme0n1", None), DiskType::NVMe);
    assert_eq!(get_disk_type("nvme0n1", Some("1")), DiskType::NVMe);
    assert_eq!(get_disk_type("sda", Some("1\n")), DiskType::Hdd);
    assert_eq!(get_disk_type("sda", Some("0\n")), DiskType::SataSsd);
    assert_eq!(get_disk_type("sda", Some("2\n")), DiskType::Unknown);
    assert_eq!(get_disk_type("sda", None), DiskType::Unknown);
    assert_eq!(rotational_file("nvme0n1"), None);
    assert_eq!(rotational_file("sda"), Some(String::from("/sys/block/sda/queue/rotational")));
}

#[test]
fn interfaces_get_their_last_address() {
    let address = |interface: &str, ip: &str| InterfaceAddress {
        interface: String::from(interface),
        ip: String::from(ip),
    };
    let addresses = vec![
        address("eth0", "10.0.0.2"),
        address("lo", "127.0.0.1"),
        address("eth0", "fe80::1"),
    ];
    let counters = vec![
        InterfaceCounters {
            interface: String::from("eth0"),
            mac: String::from("aa"),
            received: 1,
            transmitted: 2,
        },
        InterfaceCounters {
            interface: String::from("wlan0"),
            mac: String::from("bb"),
            received: 3,
            transmitted: 4,
        },
    ];
    let found = collect_networks(&addresses, &counters);
    assert_eq!(found.len(), 2);
    assert_eq!(found[0].interface, "eth0");
    assert_eq!(found[0].ip, "fe80::1");
    assert_eq!(found[0].mac, "aa");
    assert_eq!(found[0].rx_bytes_per_sec, 1);
    assert_eq!(found[0].tx_bytes_per_sec, 2);
    assert_eq!(found[1].ip, "Unknown");
}

#[test]
fn rates_are_the_growth_between_rounds() {
    let first = "8 0 sda 1 0 10 0 0 0 20 0 0 0 0\n";
    let second = "8 0 sda 1 0 12 0 0 0 15 0 0 0 0\n8 16 sdb 1 0 9 0 0 0 9 0 0 0 0\n";
    let mut collector = Collector::new(Some(first), None);
    let disks = collector.disks(Some(second), &vec![]);
    assert_eq!(disks.len(), 2);
    assert_eq!(disks[0].name, "sda");
    assert_eq!(disks[0].read_bytes_per_sec, 1024);
    assert_eq!(disks[0].write_bytes_per_sec, 0);
    assert_eq!(disks[1].name, "sdb");
    assert_eq!(disks[1].read_bytes_per_sec, 0);
    assert_eq!(disks[1].write_bytes_per_sec, 0);
    let again = collector.disks(Some(second), &vec![]);
    assert_eq!(again[0].read_bytes_per_sec, 0);
    assert_eq!(again[1].read_bytes_per_sec, 0);
}

#[test]
fn devices_take_the_first_file_system_that_names_them() {
    let text = "8 0 sda 1 0 10 0 0 0 20 0 0 0 0\n";
    let mounts = vec![
        mount("/dev/sdb1", "/data", 5, 4),
        mount("/dev/sda2", "/", 100, 40),
        mount("/dev/sda1", "/boot", 10, 3),
    ];
    let mut collector = Collector::new(Some(text), None);
    let disks = collector.disks(Some(text), &mounts);
    assert_eq!(disks[0].mount_point, "/");
    assert_eq!(disks[0].total_space, 100);
    assert_eq!(disks[0].available_space, 40);
}

#[test]
fn file_systems_without_counters_are_added_once() {
    let text = "8 0 sda 1 0 10 0 0 0 20 0 0 0 0\n";
    let mounts = vec![
        mount("/dev/sda1", "/", 1, 1),
        mount("overlay", "/merged", 7, 6),
        mount("overlay", "/other", 8, 5),
        mount("tmpfs", "/tmp", 9, 9),
    ];
    let mut collector = Collector::new(Some(text), None);
    let disks = collector.disks(Some(text), &mounts);
    assert_eq!(disks.len(), 3);
    assert_eq!(disks[1].name, "overlay");
    assert_eq!(disks[1].mount_point, "/merged");
    assert_eq!(disks[1].total_space, 7);
    assert_eq!(disks[1].read_bytes_per_sec, 0);
    assert_eq!(disks[2].name, "tmpfs");
}

#[test]
fn a_survey_is_completed() {
    let mut collector = Collector::new(None, None);
    let mounts = vec![mount("tmpfs", "/tmp", 9, 8)];
    let survey = collector.disks(None, &mounts).remove(0);
    let now = 3 * KEEP_NANOS;
    let inquiry = collector.inquire("tmpfs", now, Some(now - KEEP_NANOS));
    assert_eq!(inquiry.rotational.unwrap(), "/sys/block/tmpfs/queue/rotational");
    assert_eq!(inquiry.smart.unwrap(), vec!["-n", "smartctl", "-j", "-a", "/dev/tmpfs"]);
    let answer = HealthAnswer {
        at: now + 5,
        stdout: Some(br#"{"smart_status":{"passed":true}}"#.to_vec()),
    };
    let disk = collector.describe(survey, Some("1\n"), Some(answer));
    assert_eq!(disk.name, "tmpfs");
    assert_eq!(disk.mount_point, "/tmp");
    assert_eq!(disk.total_space, 9);
    assert_eq!(disk.available_space, 8);
    assert_eq!(disk.disk_type, DiskType::Hdd);
    assert!(disk.smart_data.unwrap().passed);
}

#[test]
fn a_report_is_shown_until_the_next() {
    let mut collector = Collector::new(None, None);
    let mounts = vec![mount("nvme0n1", "/", 9, 8)];
    let survey = collector.disks(None, &mounts).remove(0);
    assert!(collector.inquire("nvme0n1", 7, None).smart.is_none());
    assert!(collector.describe(survey.clone(), None, None).smart_data.is_none());
    assert!(collector.inquire("nvme0n1", 7 + KEEP_NANOS, None).smart.is_some());
    let good = HealthAnswer {
        at: 8 + KEEP_NANOS,
        stdout: Some(br#"{"smart_status":{"passed":true}}"#.to_vec()),
    };
    let disk = collector.describe(survey.clone(), None, Some(good));
    assert_eq!(disk.disk_type, DiskType::NVMe);
    assert!(disk.smart_data.unwrap().passed);
    let inquiry = collector.inquire("nvme0n1", 7 + 2 * KEEP_NANOS, None);
    assert!(inquiry.rotational.is_none());
    assert!(inquiry.smart.is_none());
    assert!(collector.describe(survey.clone(), None, None).smart_data.unwrap().passed);
    assert!(collector.inquire("nvme0n1", 8 + 2 * KEEP_NANOS, None).smart.is_some());
    let none = HealthAnswer { at: 9 + 2 * KEEP_NANOS, stdout: None };
    assert!(collector.describe(survey, None, Some(none)).smart_data.is_none());
}

#[test]
fn energy_is_the_growth_between_rounds() {
    assert_eq!(parse_energy(Some("12345\n")), Some(12345));
    assert_eq!(parse_energy(Some("n/a")), None);
    assert_eq!(parse_energy(None), None);
    assert_eq!(energy_used(Some(10), Some(4)), Some(6));
    assert_eq!(energy_used(Some(4), Some(10)), Some(0));
    assert_eq!(energy_used(None, Some(10)), None);
    let mut collector = Collector::new(None, Some("100"));
    assert_eq!(collector.energy_since(Some(" 250 ")), Some(150));
    assert_eq!(collector.energy_since(None), None);
    assert_eq!(collector.energy_since(Some("300")), None);
    assert_eq!(collector.energy_since(Some("310")), Some(10));
}

#[test]
fn a_snapshot_starts_empty() {
    let data = SystemData::default();
    assert_eq!(data.mem_total, 0);
    assert_eq!(data.mem_used, 0);
    assert!(data.networks.is_empty());
    assert!(data.disks.is_empty());
}
