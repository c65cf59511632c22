use radioscope::classify::observe_device;
use radioscope::devices::{merge_role, role_rank, DeviceRole, DeviceTracker};
use radioscope::frame::parse_radiotap_and_frame;

const AP: [u8; 6] = [0xAA, 0, 0, 0, 0, 1];
const AP2: [u8; 6] = [0xAA, 0, 0, 0, 0, 2];
const STA: [u8; 6] = [0x5A, 0, 0, 0, 0, 3];

#[test]
fn role_merge_is_commutative_and_idempotent() {
    assert_eq!(merge_role(DeviceRole::Ap, DeviceRole::Unknown), DeviceRole::Ap);
    assert_eq!(merge_role(DeviceRole::Unknown, DeviceRole::Ap), DeviceRole::Ap);
    assert_eq!(merge_role(DeviceRole::Client, DeviceRole::Client), DeviceRole::Client);
    assert_eq!(merge_role(DeviceRole::Client, DeviceRole::Ap), DeviceRole::Ap);
    assert_eq!(merge_role(DeviceRole::Unknown, DeviceRole::Client), DeviceRole::Client);
    assert_eq!(merge_role(DeviceRole::Unknown, DeviceRole::Unknown), DeviceRole::Unknown);
    assert_eq!(role_rank(&DeviceRole::Ap), 0);
    assert_eq!(role_rank(&DeviceRole::Client), 1);
    assert_eq!(role_rank(&DeviceRole::Unknown), 2);
}

fn observe_n(t: &mut DeviceTracker, mac: [u8; 6], role: DeviceRole, n: u64, now: u64) {
    for _ in 0..n {
        t.observe(mac, None, role, None, None, None, now);
    }
}

#[test]
fn snapshot_orders_by_role_then_frames() {
    let mut t = DeviceTracker::new();
    observe_n(&mut t, AP, DeviceRole::Ap, 5, 1000);
    observe_n(&mut t, STA, DeviceRole::Client, 50, 1000);
    observe_n(&mut t, AP2, DeviceRole::Ap, 10, 1000);
    let s = t.snapshot(60_000, 2000);
    let got: Vec<(DeviceRole, u64)> = s.iter().map(|v| (v.role, v.frames)).collect();
    assert_eq!(got, vec![(DeviceRole::Ap, 10), (DeviceRole::Ap, 5), (DeviceRole::Client, 50)]);
    assert_eq!(s[0].mac, "AA:00:00:00:00:02");
    assert_eq!(s[0].age_ms, 1000);
    assert!(s.iter().all(|v| v.allowed));
}

#[test]
fn snapshot_excludes_devices_outside_window() {
    let mut t = DeviceTracker::new();
    t.observe(AP, None, DeviceRole::Ap, None, None, None, 0);
    t.observe(STA, None, DeviceRole::Client, None, None, None, 9_000);
    let s = t.snapshot(5_000, 10_000);
    assert_eq!(s.len(), 1);
    assert_eq!(s[0].mac, "5A:00:00:00:00:03");
    assert_eq!(t.snapshot(10_000, 10_000).len(), 2);
}

#[test]
fn role_upgrades_and_never_downgrades() {
    let mut t = DeviceTracker::new();
    t.observe(AP, None, DeviceRole::Unknown, None, None, None, 1);
    t.observe(AP, None, DeviceRole::Ap, None, None, None, 2);
    t.observe(AP, None, DeviceRole::Client, Some(-40), None, None, 3);
    t.observe(AP, None, DeviceRole::Unknown, None, None, None, 4);
    let s = t.snapshot(1000, 4);
    assert_eq!(s.len(), 1);
    assert_eq!(s[0].role, DeviceRole::Ap);
    assert_eq!(s[0].frames, 4);
    assert_eq!(s[0].rssi_dbm, Some(-40));
}

#[test]
fn ssid_and_channel_backfill_from_bssid_cache() {
    let mut t = DeviceTracker::new();
    t.observe(AP, Some(AP), DeviceRole::Ap, None, Some("home".to_string()), Some(6), 10);
    t.observe(STA, Some(AP), DeviceRole::Client, None, None, None, 20);
    let s = t.snapshot(1000, 30);
    let sta = s.iter().find(|v| v.mac == "5A:00:00:00:00:03").unwrap();
    assert_eq!(sta.ssid.as_deref(), Some("home"));
    assert_eq!(sta.channel, Some(6));
    assert_eq!(sta.bssid.as_deref(), Some("AA:00:00:00:00:01"));
}

#[test]
fn snapshot_falls_back_to_cache_learned_later() {
    let mut t = DeviceTracker::new();
    t.observe(STA, Some(AP), DeviceRole::Client, None, None, None, 20);
    t.observe(AP, Some(AP), DeviceRole::Ap, None, Some("late".to_string()), Some(11), 25);
    let s = t.snapshot(1000, 30);
    let sta = s.iter().find(|v| v.mac == "5A:00:00:00:00:03").unwrap();
    assert_eq!(sta.ssid.as_deref(), Some("late"));
    assert_eq!(sta.channel, Some(11));
}

#[test]
fn blocklist_toggles() {
    let mut t = DeviceTracker::new();
    assert!(t.allows(Some(STA), Some(AP)));
    t.set_many(&[(STA, false)]);
    assert!(!t.allows(Some(STA), None));
    assert!(!t.allows(None, Some(STA)));
    assert!(t.allows(Some(AP), None));
    t.set_many(&[(STA, false), (AP, false), (STA, true)]);
    assert!(t.allows(Some(STA), None));
    assert!(!t.allows(Some(STA), Some(AP)));
    t.observe(AP, None, DeviceRole::Ap, None, None, None, 0);
    assert!(!t.snapshot(1000, 0)[0].allowed);
}

#[test]
fn reset_counts_keeps_identity() {
    let mut t = DeviceTracker::new();
    observe_n(&mut t, AP, DeviceRole::Ap, 3, 7);
    t.reset_counts();
    let s = t.snapshot(1000, 7);
    assert_eq!(s[0].frames, 0);
    assert_eq!(s[0].role, DeviceRole::Ap);
    assert_eq!(s[0].age_ms, 0);
}

#[test]
fn frames_feed_the_tracker() {
    let mut d = vec![0, 0, 9, 0, 0x20, 0, 0, 0, (-50i8) as u8];
    d.extend_from_slice(&[0x80, 0x00, 0, 0]);
    d.extend_from_slice(&[0xFF; 6]);
    d.extend_from_slice(&AP);
    d.extend_from_slice(&AP);
    d.extend_from_slice(&[0, 0]);
    d.extend_from_slice(&[0u8; 12]);
    d.extend_from_slice(&[0, 2, b'h', b'i', 3, 1, 1]);
    let f = parse_radiotap_and_frame(&d).unwrap();
    let mut t = DeviceTracker::new();
    observe_device(&mut t, &f, 5);
    let s = t.snapshot(1000, 5);
    assert_eq!(s.len(), 1);
    assert_eq!(s[0].role, DeviceRole::Ap);
    assert_eq!(s[0].ssid.as_deref(), Some("hi"));
    assert_eq!(s[0].channel, Some(1));
    assert_eq!(s[0].rssi_dbm, Some(-50));
}

#[test]
fn frames_without_transmitter_are_not_tracked() {
    let mut d = vec![0, 0, 8, 0, 0, 0, 0, 0];
    d.extend_from_slice(&[0xC4, 0x00, 0, 0]);
    d.extend_from_slice(&STA);
    let f = parse_radiotap_and_frame(&d).unwrap();
    assert_eq!(f.addr2, None);
    let mut t = DeviceTracker::new();
    observe_device(&mut t, &f, 1);
    assert!(t.snapshot(1000, 1).is_empty());
}
