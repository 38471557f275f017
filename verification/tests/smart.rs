use os_watchdog::data::SmartData;
use os_watchdog::smart::{get_smart_data, smart_data, smart_data_of, smartctl_args, SmartCache, KEEP_NANOS};

#[test]
fn reads_a_full_report() {
    let text = br#"{"smart_status":{"passed":true},"temperature":{"current":34},"power_on_time":{"hours":8123}}"#;
    assert_eq!(
        get_smart_data(Some(text)),
        Some(SmartData { passed: true, temperature: Some(34), power_on_hours: Some(8123) })
    );
}

#[test]
fn missing_values_are_left_out_and_count_as_failed() {
    assert_eq!(
        get_smart_data(Some(b"{}")),
        Some(SmartData { passed: false, temperature: None, power_on_hours: None })
    );
    let odd = br#"{"smart_status":{"passed":"yes"},"temperature":[1],"power_on_time":{"hours":-1}}"#;
    assert_eq!(
        get_smart_data(Some(odd)),
        Some(SmartData { passed: false, temperature: None, power_on_hours: None })
    );
}

#[test]
fn numbers_must_be_whole_and_fit() {
    let text = br#"{"temperature":{"current":-5},"power_on_time":{"hours":1.5}}"#;
    assert_eq!(
        get_smart_data(Some(text)),
        Some(SmartData { passed: false, temperature: Some(-5), power_on_hours: None })
    );
    let big = br#"{"temperature":{"current":18446744073709551615},"power_on_time":{"hours":18446744073709551615}}"#;
    assert_eq!(
        get_smart_data(Some(big)),
        Some(SmartData { passed: false, temperature: None, power_on_hours: Some(u64::MAX) })
    );
}

#[test]
fn no_output_and_no_json_give_no_report() {
    assert_eq!(get_smart_data(None), None);
    assert_eq!(get_smart_data(Some(b"")), None);
    assert_eq!(get_smart_data(Some(b"sudo: a password is required")), None);
}

#[test]
fn a_document_that_is_no_object_is_an_empty_report() {
    let value = serde_json::Value::from(3u64);
    assert_eq!(
        smart_data_of(&value),
        SmartData { passed: false, temperature: None, power_on_hours: None }
    );
    assert_eq!(
        smart_data(Some(true), None, Some(1)),
        SmartData { passed: true, temperature: None, power_on_hours: Some(1) }
    );
}

#[test]
fn asks_smartctl_for_the_device() {
    assert_eq!(smartctl_args("sda"), vec!["-n", "smartctl", "-j", "-a", "/dev/sda"]);
}

#[test]
fn a_new_disk_is_due_where_the_clock_reaches_back() {
    let mut cache = SmartCache::new();
    let now = 5 * KEEP_NANOS;
    assert!(cache.due("sda", now, Some(now - KEEP_NANOS)));
    assert!(!cache.due("sdb", now, None));
    assert_eq!(cache.cached("sda"), None);
    assert_eq!(cache.cached("sdc"), None);
}

#[test]
fn a_report_is_kept_for_a_minute() {
    let report = SmartData { passed: true, temperature: Some(30), power_on_hours: None };
    let mut cache = SmartCache::new();
    cache.record("sda", 100, Some(report));
    assert!(!cache.due("sda", 100 + KEEP_NANOS - 1, None));
    assert!(cache.due("sda", 100 + KEEP_NANOS, None));
    assert!(!cache.due("sda", 50, None));
    assert_eq!(cache.cached("sda"), Some(report));
    cache.record("sda", 100 + KEEP_NANOS, None);
    assert_eq!(cache.cached("sda"), None);
    assert!(!cache.due("sda", 101 + KEEP_NANOS, None));
}
