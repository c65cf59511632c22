use radioscope::classify::classify_frame;
use radioscope::events::{EventKind, RateKey};
use radioscope::frame::{decode_ssid, is_eapol, parse_radiotap_and_frame, parse_ds_channel, parse_ssid};
use radioscope::radiotap::{align, dbm_to_gain, freq_to_channel, radiotap_signal};
use radioscope::text::{format_mac, parse_mac};

const A1: [u8; 6] = [0x11, 0x11, 0x11, 0x11, 0x11, 0x11];
const A2: [u8; 6] = [0x22, 0x22, 0x22, 0x22, 0x22, 0x22];
const A3: [u8; 6] = [0x33, 0x33, 0x33, 0x33, 0x33, 0x33];

fn bare_radiotap() -> Vec<u8> {
    vec![0, 0, 8, 0, 0, 0, 0, 0]
}

fn mac_header(fc0: u8, fc1: u8) -> Vec<u8> {
    let mut h = vec![fc0, fc1, 0, 0];
    h.extend_from_slice(&A1);
    h.extend_from_slice(&A2);
    h.extend_from_slice(&A3);
    h.extend_from_slice(&[0, 0]);
    h
}

fn capture(fc0: u8, fc1: u8, body: &[u8]) -> Vec<u8> {
    let mut d = bare_radiotap();
    d.extend(mac_header(fc0, fc1));
    d.extend_from_slice(body);
    d
}

fn beacon_body(ssid: &[u8], channel: u8) -> Vec<u8> {
    let mut b = vec![0u8; 12];
    b.push(0);
    b.push(ssid.len() as u8);
    b.extend_from_slice(ssid);
    b.extend_from_slice(&[1, 2, 0x82, 0x84]);
    b.extend_from_slice(&[3, 1, channel]);
    b
}

#[test]
fn short_inputs_are_unparseable() {
    assert!(parse_radiotap_and_frame(&[]).is_none());
    assert!(parse_radiotap_and_frame(&[0, 0, 8]).is_none());
}

#[test]
fn declared_radiotap_length_beyond_buffer_is_unparseable() {
    let mut d = capture(0x08, 0x00, &[]);
    d[2] = 200;
    assert!(parse_radiotap_and_frame(&d).is_none());
    let mut t = capture(0x08, 0x00, &[]);
    t.truncate(8 + 20);
    assert!(parse_radiotap_and_frame(&t).is_none());
}

#[test]
fn truncated_fixtures_never_parse_past_the_end() {
    let full = capture(0x80, 0x00, &beacon_body(b"home", 6));
    for cut in 0..full.len() {
        let _ = parse_radiotap_and_frame(&full[..cut]);
    }
    assert!(parse_radiotap_and_frame(&full[..8 + 23]).is_none());
    assert!(parse_radiotap_and_frame(&full[..8 + 24]).is_some());
}

#[test]
fn data_bssid_follows_ds_bits() {
    let cases: [(u8, Option<[u8; 6]>); 4] =
        [(0x00, Some(A3)), (0x02, Some(A2)), (0x01, Some(A1)), (0x03, None)];
    for (flags, want) in cases {
        let d = capture(0x08, flags, &[]);
        let f = parse_radiotap_and_frame(&d).unwrap();
        assert_eq!(f.bssid, want);
    }
}

#[test]
fn management_bssid_is_addr3_and_control_has_none() {
    let d = capture(0x80, 0x00, &beacon_body(b"x", 1));
    assert_eq!(parse_radiotap_and_frame(&d).unwrap().bssid, Some(A3));
    let mut c = bare_radiotap();
    c.extend_from_slice(&[0xB4, 0x00, 0, 0]);
    c.extend_from_slice(&A1);
    c.extend_from_slice(&A2);
    let f = parse_radiotap_and_frame(&c).unwrap();
    assert_eq!(f.bssid, None);
    assert_eq!(f.addr3, None);
    assert_eq!(f.header_len, 10);
}

#[test]
fn qos_data_header_is_26_bytes() {
    let mut d = capture(0x88, 0x00, &[0, 0]);
    d.extend_from_slice(&[9, 9, 9]);
    let f = parse_radiotap_and_frame(&d).unwrap();
    assert_eq!(f.header_len, 26);
    assert_eq!(f.payload, &[9, 9, 9]);
    let short = capture(0x88, 0x00, &[0]);
    assert!(parse_radiotap_and_frame(&short).is_none());
}

#[test]
fn beacon_ssid_and_ds_channel() {
    let d = capture(0x80, 0x00, &beacon_body(b"home", 11));
    let f = parse_radiotap_and_frame(&d).unwrap();
    assert_eq!(f.ssid.as_deref(), Some("home"));
    assert_eq!(f.channel, Some(11));
    assert_eq!(f.gain_milli, 1000);
    assert_eq!(f.signal_dbm, None);
}

#[test]
fn empty_ssid_is_hidden_and_binary_ssid_is_hex() {
    let d = capture(0x80, 0x00, &beacon_body(b"", 1));
    assert_eq!(parse_radiotap_and_frame(&d).unwrap().ssid.as_deref(), Some("<hidden>"));
    let b = capture(0x80, 0x00, &beacon_body(&[0xFF, 0x01], 1));
    assert_eq!(parse_radiotap_and_frame(&b).unwrap().ssid.as_deref(), Some("0xFF01"));
    assert_eq!(decode_ssid(&[]).as_deref(), Some("<hidden>"));
    assert_eq!(decode_ssid("café".as_bytes()).as_deref(), Some("café"));
    assert_eq!(decode_ssid(&[0xC3]).as_deref(), Some("0xC3"));
}

#[test]
fn probe_request_elements_start_at_body_start() {
    let body = [0u8, 3, b'a', b'b', b'c', 3, 1, 6];
    assert_eq!(parse_ssid(0, 4, &body).as_deref(), Some("abc"));
    assert_eq!(parse_ds_channel(4, &body), Some(6));
    assert_eq!(parse_ssid(2, 4, &body), None);
    assert_eq!(parse_ssid(0, 0, &body), None);
    assert_eq!(parse_ds_channel(8, &[0u8; 11]), None);
    let truncated = [0u8, 9, b'a'];
    assert_eq!(parse_ssid(0, 4, &truncated), None);
    let empty_ds = [3u8, 0, 3, 1, 44];
    assert_eq!(parse_ds_channel(4, &empty_ds), Some(44));
}

#[test]
fn radiotap_signal_and_channel() {
    let mut d = vec![0, 0, 13, 0, 0x28, 0, 0, 0];
    d.extend_from_slice(&2437u16.to_le_bytes());
    d.extend_from_slice(&[0, 0]);
    d.push((-60i8) as u8);
    let s = radiotap_signal(&d).unwrap();
    assert_eq!(s.dbm, Some(-60));
    assert_eq!(s.gain_milli, 600);
    assert_eq!(s.channel, Some(6));
    d.extend(mac_header(0x08, 0x00));
    let f = parse_radiotap_and_frame(&d).unwrap();
    assert_eq!(f.signal_dbm, Some(-60));
    assert_eq!(f.gain_milli, 600);
    assert_eq!(f.channel, Some(6));
}

#[test]
fn radiotap_fields_are_aligned() {
    // TSFT (8 bytes), flags, then signal.
    let mut d = vec![0, 0, 18, 0, 0x23, 0, 0, 0];
    d.extend_from_slice(&[0; 8]);
    d.push(0x10);
    d.push((-90i8) as u8);
    let s = radiotap_signal(&d).unwrap();
    assert_eq!(s.dbm, Some(-90));
    assert_eq!(s.gain_milli, 200);
    // flags, then channel aligned to 2: the channel starts at 10.
    let mut c = vec![0, 0, 14, 0, 0x0A, 0, 0, 0, 0x10, 0];
    c.extend_from_slice(&5180u16.to_le_bytes());
    c.extend_from_slice(&[0, 0]);
    let s = radiotap_signal(&c).unwrap();
    assert_eq!(s.channel, Some(36));
    assert_eq!(s.dbm, None);
    assert_eq!(s.gain_milli, 1000);
    assert!(radiotap_signal(&[0, 0, 8]).is_none());
    assert!(radiotap_signal(&[0, 0, 9, 0, 0, 0, 0, 0]).is_none());
}

#[test]
fn gain_mapping_values() {
    assert_eq!(dbm_to_gain(-90), 200);
    assert_eq!(dbm_to_gain(-30), 1000);
    assert_eq!(dbm_to_gain(-60), 600);
    assert_eq!(dbm_to_gain(-128), 200);
    assert_eq!(dbm_to_gain(0), 1000);
    let mut prev = 0;
    for dbm in -128i8..=127 {
        let g = dbm_to_gain(dbm);
        assert!(g >= prev && (200..=1000).contains(&g));
        prev = g;
    }
}

#[test]
fn frequencies_map_to_channels() {
    assert_eq!(freq_to_channel(2412), Some(1));
    assert_eq!(freq_to_channel(2472), Some(13));
    assert_eq!(freq_to_channel(2484), Some(14));
    assert_eq!(freq_to_channel(5180), Some(36));
    assert_eq!(freq_to_channel(5900), Some(180));
    assert_eq!(freq_to_channel(2411), None);
    assert_eq!(freq_to_channel(3000), None);
}

#[test]
fn alignment_rounds_up() {
    assert_eq!(align(8, 8), 8);
    assert_eq!(align(9, 8), 16);
    assert_eq!(align(9, 2), 10);
    assert_eq!(align(10, 2), 10);
}

const SNAP: [u8; 8] = [0xAA, 0xAA, 0x03, 0x00, 0x00, 0x00, 0x88, 0x8E];

/// A to-DS data frame whose payload, right after the MAC header, starts with `snap`.
fn eapol_capture(snap: &[u8; 8]) -> Vec<u8> {
    let mut body = snap.to_vec();
    body.extend_from_slice(&[1, 2, 3]);
    capture(0x08, 0x01, &body)
}

#[test]
fn eapol_snap_classifies_as_eapol() {
    let d = eapol_capture(&SNAP);
    let f = parse_radiotap_and_frame(&d).unwrap();
    assert_eq!(&f.payload[..8], &SNAP);
    let e = classify_frame(&f).unwrap();
    assert_eq!(e.kind, EventKind::Eapol);
    assert_eq!(e.rate_key, RateKey::Pair(A2, A1));
    assert_eq!(e.bssid, Some(A1));
    // The bare header, with nothing after it, is enough.
    let bare = capture(0x08, 0x01, &SNAP);
    let e = classify_frame(&parse_radiotap_and_frame(&bare).unwrap()).unwrap();
    assert_eq!(e.kind, EventKind::Eapol);
}

#[test]
fn qos_eapol_follows_the_26_byte_header() {
    let mut body = vec![0u8, 0];
    body.extend_from_slice(&SNAP);
    let d = capture(0x88, 0x01, &body);
    let f = parse_radiotap_and_frame(&d).unwrap();
    assert_eq!(f.header_len, 26);
    assert_eq!(classify_frame(&f).unwrap().kind, EventKind::Eapol);
}

#[test]
fn changed_ethertype_classifies_as_data_tick() {
    let d = eapol_capture(&[0xAA, 0xAA, 0x03, 0x00, 0x00, 0x00, 0x08, 0x00]);
    let f = parse_radiotap_and_frame(&d).unwrap();
    let e = classify_frame(&f).unwrap();
    assert_eq!(e.kind, EventKind::DataTick);
    assert_eq!(e.rate_key, RateKey::none());
    assert_eq!(e.bssid, f.bssid);
    let mut snap = SNAP;
    for i in 0..8 {
        snap[i] ^= 0x01;
        assert!(!is_eapol(&snap));
        let d = eapol_capture(&snap);
        let e = classify_frame(&parse_radiotap_and_frame(&d).unwrap()).unwrap();
        assert_eq!(e.kind, EventKind::DataTick);
        snap[i] ^= 0x01;
    }
    assert!(is_eapol(&snap));
    assert!(!is_eapol(&snap[..7]));
    // The header further into the payload does not count.
    let mut late = vec![0u8; 24];
    late.extend_from_slice(&SNAP);
    assert!(!is_eapol(&late));
}

#[test]
fn management_event_table() {
    let beacon = capture(0x80, 0x00, &beacon_body(b"n", 1));
    let e = classify_frame(&parse_radiotap_and_frame(&beacon).unwrap()).unwrap();
    assert_eq!(e.kind, EventKind::Beacon);
    assert_eq!(e.rate_key, RateKey::Bssid(A3));
    assert_eq!(e.src, Some(A2));
    assert!(!e.retry);

    let probe = capture(0x40, 0x08, &[]);
    let e = classify_frame(&parse_radiotap_and_frame(&probe).unwrap()).unwrap();
    assert_eq!(e.kind, EventKind::ProbeReq);
    assert_eq!(e.rate_key, RateKey::Tx(A2));
    assert!(e.retry);

    let resp = capture(0x50, 0x00, &[0u8; 12]);
    let e = classify_frame(&parse_radiotap_and_frame(&resp).unwrap()).unwrap();
    assert_eq!(e.kind, EventKind::ProbeResp);

    for fc0 in [0x00u8, 0x10, 0x20, 0x30] {
        let d = capture(fc0, 0x00, &[]);
        let e = classify_frame(&parse_radiotap_and_frame(&d).unwrap()).unwrap();
        assert_eq!(e.kind, EventKind::Assoc);
        assert_eq!(e.rate_key, RateKey::Pair(A2, A3));
    }
    for fc0 in [0xA0u8, 0xC0] {
        let d = capture(fc0, 0x00, &[]);
        let e = classify_frame(&parse_radiotap_and_frame(&d).unwrap()).unwrap();
        assert_eq!(e.kind, EventKind::Deauth);
    }
    let action = capture(0xD0, 0x00, &[]);
    assert!(classify_frame(&parse_radiotap_and_frame(&action).unwrap()).is_none());
}

fn control(fc0: u8) -> Vec<u8> {
    let mut c = bare_radiotap();
    c.extend_from_slice(&[fc0, 0x00, 0, 0]);
    c.extend_from_slice(&A1);
    c.extend_from_slice(&A2);
    c
}

#[test]
fn control_event_table() {
    let kinds = [
        (0xB4u8, Some(EventKind::Rts)),
        (0xC4, Some(EventKind::Cts)),
        (0xD4, Some(EventKind::Ack)),
        (0x94, Some(EventKind::Ack)),
        (0x84, None),
    ];
    for (fc0, want) in kinds {
        let d = control(fc0);
        let e = classify_frame(&parse_radiotap_and_frame(&d).unwrap());
        assert_eq!(e.map(|e| e.kind), want);
        if let Some(e) = e {
            assert_eq!(e.rate_key, RateKey::none());
        }
    }
}

#[test]
fn mac_text_round_trip() {
    let m = [0x00, 0x1A, 0x2B, 0xFF, 0x0C, 0x99];
    assert_eq!(format_mac(&m), "00:1A:2B:FF:0C:99");
    assert_eq!(parse_mac("00:1a:2b:ff:0c:99"), Some(m));
    assert_eq!(parse_mac("001A.2BFF.0C99"), Some(m));
    assert_eq!(parse_mac("00:1A:2B:FF:0C"), None);
    assert_eq!(parse_mac("00:1A:2B:FF:0C:99:00"), None);
    assert_eq!(parse_mac(""), None);
    for m in [[0u8; 6], [0xFF; 6], m, [0x12, 0x34, 0x56, 0x78, 0x9A, 0xBC]] {
        assert_eq!(parse_mac(&format_mac(&m)), Some(m));
    }
}

#[test]
fn random_buffers_never_panic() {
    let mut seed: u64 = 0x2545_F491_4F6C_DD1D;
    for round in 0..2000 {
        seed ^= seed << 13;
        seed ^= seed >> 7;
        seed ^= seed << 17;
        let len = (seed % 96) as usize;
        let mut d: Vec<u8> = (0..len).map(|i| (seed >> (i % 56)) as u8 ^ i as u8).collect();
        if round % 2 == 0 && len >= 4 {
            d[2] = (seed % 40) as u8;
            d[3] = 0;
        }
        let r = parse_radiotap_and_frame(&d);
        if len < 4 {
            assert!(r.is_none());
        } else {
            let rt = u16::from_le_bytes([d[2], d[3]]) as usize;
            if rt + 10 > len {
                assert!(r.is_none());
            }
            if let Some(f) = r {
                assert!(f.payload.len() + f.header_len + rt == len);
                let _ = classify_frame(&f);
            }
        }
    }
}
