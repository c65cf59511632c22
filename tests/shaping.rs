use radioscope::api::{all_event_toggles, build_events_response, event_label, window_from_query, DevicesQuery};
use radioscope::classify::PacketEvent;
use radioscope::devices::DeviceTracker;
use radioscope::events::{EventKind, EventSettings, EventWindow, NoiseMode, RateKey};
use radioscope::limiter::RateLimiter;
use radioscope::shaper::{data_tick_for, min_interval_for, window_caps, NoiseShaper};

#[test]
fn rate_limiter_enforces_min_gap() {
    let mut l = RateLimiter::new();
    let k = RateKey::Tx([1, 2, 3, 4, 5, 6]);
    assert!(l.allow(&EventKind::ProbeReq, k, 200, 1000));
    assert!(!l.allow(&EventKind::ProbeReq, k, 200, 1000));
    assert!(!l.allow(&EventKind::ProbeReq, k, 200, 1199));
    assert!(l.allow(&EventKind::Beacon, k, 200, 1100));
    assert!(l.allow(&EventKind::ProbeReq, RateKey::Tx([9; 6]), 200, 1100));
    assert!(l.allow(&EventKind::ProbeReq, k, 200, 1200));
    assert!(!l.allow(&EventKind::ProbeReq, k, 200, 1300));
    assert!(!l.allow(&EventKind::ProbeReq, k, 200, 500));
}

#[test]
fn event_window_caps_per_bucket() {
    let mut w = EventWindow::new(100, 0);
    assert!(w.try_count(&EventKind::Beacon, 2, 1, 1, 10));
    assert!(w.try_count(&EventKind::Deauth, 2, 1, 1, 20));
    assert!(!w.try_count(&EventKind::Eapol, 2, 1, 1, 30));
    assert!(w.try_count(&EventKind::Ack, 2, 1, 1, 40));
    assert!(!w.try_count(&EventKind::Rts, 2, 1, 1, 41));
    assert!(w.try_count(&EventKind::DataTick, 2, 1, 1, 50));
    assert!(w.try_count(&EventKind::ProbeReq, 2, 1, 1, 100));
    assert_eq!(w.start_ms, 100);
    assert_eq!(w.counts_mgmt, 1);
}

#[test]
fn event_window_refresh_resets_lazily() {
    let mut w = EventWindow::new(100, 0);
    assert!(w.try_count(&EventKind::Beacon, 1, 1, 1, 0));
    w.refresh(99);
    assert_eq!(w.counts_mgmt, 1);
    w.refresh(100);
    assert_eq!(w.counts_mgmt, 0);
    assert_eq!(w.start_ms, 100);
}

fn data_tick() -> PacketEvent {
    PacketEvent {
        kind: EventKind::DataTick,
        rate_key: RateKey::none(),
        retry: false,
        amplitude_milli: 1000,
        src: Some([1; 6]),
        bssid: Some([2; 6]),
    }
}

#[test]
fn data_ticks_aggregate_one_in_n() {
    let settings = EventSettings::default();
    let tracker = DeviceTracker::new();
    let mut s = NoiseShaper::new(0);
    let passed = (0..250u64).filter(|i| s.offer(&data_tick(), &settings, &tracker, i * 1000)).count();
    assert_eq!(passed, 2);
    let mut sparse = EventSettings::default();
    sparse.mode = NoiseMode::Sparse;
    let mut s = NoiseShaper::new(0);
    let passed = (0..250u64).filter(|i| s.offer(&data_tick(), &sparse, &tracker, i * 1000)).count();
    assert_eq!(passed, 25);
}

#[test]
fn gates_drop_blocked_and_disabled_events() {
    let mut settings = EventSettings::default();
    let mut tracker = DeviceTracker::new();
    let mut s = NoiseShaper::new(0);
    let mut beacon = data_tick();
    beacon.kind = EventKind::Beacon;
    beacon.rate_key = RateKey::Bssid([2; 6]);
    assert!(s.offer(&beacon, &settings, &tracker, 0));
    assert!(!s.offer(&beacon, &settings, &tracker, 100));
    assert!(s.offer(&beacon, &settings, &tracker, 400));
    settings.set_enabled(EventKind::Beacon, false);
    assert!(!settings.is_enabled(EventKind::Beacon));
    assert!(!s.offer(&beacon, &settings, &tracker, 2000));
    settings.set_enabled(EventKind::Beacon, true);
    tracker.set_many(&[([2; 6], false)]);
    assert!(!s.offer(&beacon, &settings, &tracker, 3000));
    tracker.set_many(&[([2; 6], true)]);
    assert!(s.offer(&beacon, &settings, &tracker, 4000));
}

#[test]
fn window_cap_limits_a_burst() {
    let settings = EventSettings::default();
    let tracker = DeviceTracker::new();
    let mut s = NoiseShaper::new(0);
    let mut e = data_tick();
    e.kind = EventKind::Beacon;
    let mut passed = 0;
    for i in 0..10u8 {
        e.rate_key = RateKey::Bssid([i; 6]);
        if s.offer(&e, &settings, &tracker, 5) {
            passed += 1;
        }
    }
    assert_eq!(passed, 3);
}

#[test]
fn policy_tables() {
    assert_eq!(min_interval_for(&EventKind::Beacon, &NoiseMode::Crowded), 333);
    assert_eq!(min_interval_for(&EventKind::ProbeResp, &NoiseMode::Sparse), 200);
    assert_eq!(min_interval_for(&EventKind::Assoc, &NoiseMode::Crowded), 500);
    assert_eq!(min_interval_for(&EventKind::Eapol, &NoiseMode::Crowded), 300);
    assert_eq!(min_interval_for(&EventKind::Cts, &NoiseMode::Crowded), 150);
    assert_eq!(min_interval_for(&EventKind::Ack, &NoiseMode::Crowded), 80);
    assert_eq!(min_interval_for(&EventKind::Ack, &NoiseMode::Sparse), 40);
    assert_eq!(min_interval_for(&EventKind::DataTick, &NoiseMode::Sparse), 200);
    assert_eq!(window_caps(&NoiseMode::Crowded), (3, 2, 1));
    assert_eq!(window_caps(&NoiseMode::Sparse), (5, 3, 1));
    assert_eq!(data_tick_for(&NoiseMode::Crowded), 100);
    assert_eq!(data_tick_for(&NoiseMode::Sparse), 10);
}

#[test]
fn default_settings_enable_everything() {
    let s = EventSettings::default();
    assert_eq!(s.mode, NoiseMode::Crowded);
    let toggles = all_event_toggles(&s);
    assert_eq!(toggles.len(), 10);
    assert!(toggles.iter().all(|t| t.enabled));
    assert_eq!(toggles[0].id, EventKind::Beacon);
    assert_eq!(toggles[9].label, "Data tick");
    let r = build_events_response(&s);
    assert_eq!(r.data_tick_n, 100);
    assert_eq!(r.events.len(), 10);
    assert_eq!(event_label(&EventKind::Eapol), "EAPOL (handshake)");
    assert_eq!(event_label(&EventKind::Ack), "ACK / Block ACK");
}

#[test]
fn device_window_query() {
    let q = |s: Option<u64>, m: Option<u64>| window_from_query(&DevicesQuery { window_seconds: s, window_minutes: m });
    assert_eq!(q(None, None), 600);
    assert_eq!(q(Some(30), None), 60);
    assert_eq!(q(Some(900), None), 900);
    assert_eq!(q(Some(900), Some(2)), 120);
    assert_eq!(q(None, Some(1000)), 7200);
    assert_eq!(q(None, Some(u64::MAX)), 7200);
}

#[test]
fn window_caps_three_management_calls() {
    let mut w = EventWindow::new(100, 0);
    let got: Vec<bool> = (0..3).map(|i| w.try_count(&EventKind::Beacon, 2, 1, 1, i)).collect();
    assert_eq!(got, vec![true, true, false]);
    assert!(w.try_count(&EventKind::Beacon, 2, 1, 1, 150));
}
