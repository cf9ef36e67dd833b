use couchmic::access::TailscaleSelf;
use couchmic::startup::{
    allowed_origins, boot_time, first_match, pick_device, stop_marker, stopped_by_user, ui_url,
    DeviceChoice,
};

fn names() -> Vec<String> {
    vec!["Speakers".into(), "CABLE Input (VB-Audio)".into(), "Lautsprecher ÄÖÜ".into()]
}

#[test]
fn output_device_is_found_by_part_of_its_name() {
    let n = names();
    assert_eq!(pick_device("cable input", &n), DeviceChoice::Listed(1));
    assert_eq!(pick_device("", &n), DeviceChoice::Listed(0));
    assert_eq!(pick_device("äöü", &n), DeviceChoice::Listed(2));
    assert_eq!(pick_device("Headset", &n), DeviceChoice::Missing);
    assert_eq!(pick_device("DeFault", &n), DeviceChoice::Default);
    assert_eq!(pick_device("default ", &n), DeviceChoice::Missing);
    assert_eq!(first_match(&n, "Input"), Some(1));
    assert_eq!(first_match(&n, "input"), None);
}

#[test]
fn page_address_falls_back_to_this_pc() {
    let ts = Some(TailscaleSelf { host: "pc.tail0000.ts.net".into(), login: None });
    let set = Some("https://mic.example.net/".to_string());
    assert_eq!(ui_url(&set, &ts, 8321), "https://mic.example.net/");
    assert_eq!(ui_url(&None, &ts, 8321), "https://pc.tail0000.ts.net/");
    assert_eq!(ui_url(&None, &None, 8321), "http://127.0.0.1:8321/");
}

#[test]
fn own_page_is_an_allowed_origin() {
    let given = vec!["https://a".to_string(), "https://b".to_string()];
    assert_eq!(allowed_origins(&given, &None), given);
    let all = allowed_origins(&given, &Some("https://c/".to_string()));
    assert_eq!(all, ["https://a", "https://b", "https://c/"]);
}

#[test]
fn stop_marker_counts_until_the_next_start() {
    let marker = |s: &str| Some(s.to_string());
    assert_eq!(stop_marker(1_700_000_000), "1700000000");
    assert!(!stopped_by_user(&None, 0));
    let m = Some(stop_marker(1_000));
    assert!(stopped_by_user(&m, 10));
    assert!(stopped_by_user(&m, 1_005));
    assert!(!stopped_by_user(&m, 1_006));
    assert!(stopped_by_user(&marker(" 1000\r\n"), 1_000));
    assert!(!stopped_by_user(&marker("soon"), 0));
    assert!(!stopped_by_user(&marker(""), 0));
    assert!(stopped_by_user(&marker("18446744073709551615"), u64::MAX));
}

#[test]
fn boot_time_is_now_minus_uptime() {
    assert_eq!(boot_time(1_000, 250_999), 750);
    assert_eq!(boot_time(10, 11_000), 0);
    assert_eq!(boot_time(10, 10_000), 0);
}
