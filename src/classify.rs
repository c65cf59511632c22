use vstd::prelude::*;

use crate::devices::{clone_text, observe_post, DeviceRole, DeviceTracker};
use crate::events::{same_mac, EventKind, Mac, RateKey};
use crate::frame::{eapol_at, frame_subtype, frame_type, is_eapol, retry_bit, ParsedFrame};

verus! {

/// A classified frame, ready for admission.
#[derive(Clone, Copy, Debug)]
pub struct PacketEvent {
    pub kind: EventKind,
    pub rate_key: RateKey,
    pub retry: bool,
    /// Signal gain in thousandths, within [200, 1000].
    pub amplitude_milli: u16,
    pub src: Option<Mac>,
    pub bssid: Option<Mac>,
}

pub open spec fn either(a: Option<Mac>, b: Option<Mac>) -> Option<Mac> {
    if a is Some {
        a
    } else {
        b
    }
}

pub open spec fn bssid_key(b: Option<Mac>) -> RateKey {
    match b {
        Some(m) => RateKey::Bssid(m),
        None => RateKey::NoKey,
    }
}

pub open spec fn pair_key(sta: Option<Mac>, b: Option<Mac>) -> RateKey {
    match (sta, b) {
        (Some(s), Some(m)) => RateKey::Pair(s, m),
        _ => RateKey::NoKey,
    }
}

pub open spec fn event(f: ParsedFrame, kind: EventKind, key: RateKey, bssid: Option<Mac>) -> PacketEvent {
    PacketEvent {
        kind,
        rate_key: key,
        retry: retry_bit(f.fc),
        amplitude_milli: f.gain_milli,
        src: f.addr2,
        bssid,
    }
}

/// The event table: kind and rate key by frame type and subtype.
pub open spec fn classified(f: ParsedFrame) -> Option<PacketEvent> {
    let st = frame_subtype(f.fc);
    let b = either(f.bssid, f.addr3);
    if frame_type(f.fc) == 0 {
        if st == 8 {
            Some(event(f, EventKind::Beacon, bssid_key(b), f.bssid))
        } else if st == 4 {
            Some(
                event(
                    f,
                    EventKind::ProbeReq,
                    match f.addr2 {
                        Some(m) => RateKey::Tx(m),
                        None => RateKey::NoKey,
                    },
                    f.bssid,
                ),
            )
        } else if st == 5 {
            Some(event(f, EventKind::ProbeResp, bssid_key(b), f.bssid))
        } else if st <= 3 {
            Some(event(f, EventKind::Assoc, pair_key(f.addr2, b), b))
        } else if st == 10 || st == 12 {
            Some(event(f, EventKind::Deauth, pair_key(f.addr2, b), b))
        } else {
            None
        }
    } else if frame_type(f.fc) == 1 {
        if st == 11 {
            Some(event(f, EventKind::Rts, RateKey::NoKey, f.bssid))
        } else if st == 12 {
            Some(event(f, EventKind::Cts, RateKey::NoKey, f.bssid))
        } else if st == 13 || st == 9 {
            Some(event(f, EventKind::Ack, RateKey::NoKey, f.bssid))
        } else {
            None
        }
    } else if frame_type(f.fc) == 2 {
        if eapol_at(f.payload@) {
            Some(event(f, EventKind::Eapol, pair_key(f.addr2, b), b))
        } else {
            Some(event(f, EventKind::DataTick, RateKey::NoKey, f.bssid))
        }
    } else {
        None
    }
}

fn or_mac(a: Option<Mac>, b: Option<Mac>) -> (r: Option<Mac>)
    ensures
        r == either(a, b),
{
    match a {
        Some(_) => a,
        None => b,
    }
}

fn pair_of(sta: Option<Mac>, b: Option<Mac>) -> (r: RateKey)
    ensures
        r == pair_key(sta, b),
{
    match (sta, b) {
        (Some(s), Some(m)) => RateKey::Pair(s, m),
        _ => RateKey::none(),
    }
}

fn make_event(frame: &ParsedFrame, kind: EventKind, key: RateKey, retry: bool, bssid: Option<Mac>) -> (r: PacketEvent)
    requires
        retry == retry_bit(frame.fc),
    ensures
        r == event(*frame, kind, key, bssid),
{
    PacketEvent { kind, rate_key: key, retry, amplitude_milli: frame.gain_milli, src: frame.addr2, bssid }
}

pub fn classify_mgmt(subtype: u16, retry: bool, frame: &ParsedFrame) -> (r: Option<PacketEvent>)
    requires
        frame_type(frame.fc) == 0,
        subtype == frame_subtype(frame.fc),
        retry == retry_bit(frame.fc),
    ensures
        r == classified(*frame),
{
    let b = or_mac(frame.bssid, frame.addr3);
    match subtype {
        8 => {
            let key = match b {
                Some(m) => RateKey::Bssid(m),
                None => RateKey::none(),
            };
            Some(make_event(frame, EventKind::Beacon, key, retry, frame.bssid))
        },
        4 => {
            let key = match frame.addr2 {
                Some(m) => RateKey::Tx(m),
                None => RateKey::none(),
            };
            Some(make_event(frame, EventKind::ProbeReq, key, retry, frame.bssid))
        },
        5 => {
            let key = match b {
                Some(m) => RateKey::Bssid(m),
                None => RateKey::none(),
            };
            Some(make_event(frame, EventKind::ProbeResp, key, retry, frame.bssid))
        },
        0 | 1 | 2 | 3 => {
            let key = pair_of(frame.addr2, b);
            Some(make_event(frame, EventKind::Assoc, key, retry, b))
        },
        10 | 12 => {
            let key = pair_of(frame.addr2, b);
            Some(make_event(frame, EventKind::Deauth, key, retry, b))
        },
        _ => None,
    }
}

pub fn classify_ctrl(subtype: u16, retry: bool, frame: &ParsedFrame) -> (r: Option<PacketEvent>)
    requires
        frame_type(frame.fc) == 1,
        subtype == frame_subtype(frame.fc),
        retry == retry_bit(frame.fc),
    ensures
        r == classified(*frame),
{
    match subtype {
        11 => Some(make_event(frame, EventKind::Rts, RateKey::none(), retry, frame.bssid)),
        12 => Some(make_event(frame, EventKind::Cts, RateKey::none(), retry, frame.bssid)),
        13 | 9 => Some(make_event(frame, EventKind::Ack, RateKey::none(), retry, frame.bssid)),
        _ => None,
    }
}

pub fn classify_data(subtype: u16, retry: bool, frame: &ParsedFrame) -> (r: Option<PacketEvent>)
    requires
        frame_type(frame.fc) == 2,
        subtype == frame_subtype(frame.fc),
        retry == retry_bit(frame.fc),
    ensures
        r == classified(*frame),
{
    if is_eapol(frame.payload) {
        let b = or_mac(frame.bssid, frame.addr3);
        let key = pair_of(frame.addr2, b);
        return Some(make_event(frame, EventKind::Eapol, key, retry, b));
    }
    Some(make_event(frame, EventKind::DataTick, RateKey::none(), retry, frame.bssid))
}

/// Maps a decoded frame to its event, if its type and subtype have one.
pub fn classify_frame(parsed: &ParsedFrame) -> (r: Option<PacketEvent>)
    ensures
        r == classified(*parsed),
{
    let kind_bits = (parsed.fc >> 2u16) & 0x3u16;
    let subtype = (parsed.fc >> 4u16) & 0xFu16;
    let retry = parsed.fc & 0x0800u16 != 0;
    match kind_bits {
        0 => classify_mgmt(subtype, retry, parsed),
        1 => classify_ctrl(subtype, retry, parsed),
        2 => classify_data(subtype, retry, parsed),
        _ => None,
    }
}

/// Role inference table: a transmitter that is its own BSSID is an access
/// point; one with a different BSSID is a client; otherwise unknown.
pub open spec fn role_of(tx: Option<Mac>, bssid: Option<Mac>) -> DeviceRole {
    match (tx, bssid) {
        (Some(t), Some(b)) => if t == b {
            DeviceRole::Ap
        } else {
            DeviceRole::Client
        },
        _ => DeviceRole::Unknown,
    }
}

pub fn role_for_frame(frame: &ParsedFrame) -> (r: DeviceRole)
    ensures
        r == role_of(frame.addr2, frame.bssid),
{
    match (&frame.addr2, &frame.bssid) {
        (Some(tx), Some(b)) => if same_mac(tx, b) {
            DeviceRole::Ap
        } else {
            DeviceRole::Client
        },
        _ => DeviceRole::Unknown,
    }
}

/// Records the frame's transmitter, when it has one, with the frame's BSSID,
/// inferred role, signal, SSID and channel.
pub fn observe_device(tracker: &mut DeviceTracker, frame: &ParsedFrame, now_ms: u64)
    ensures
        match frame.addr2 {
            Some(mac) => observe_post(
                *old(tracker),
                *final(tracker),
                mac,
                frame.bssid,
                role_of(frame.addr2, frame.bssid),
                frame.signal_dbm,
                frame.ssid,
                frame.channel,
                now_ms,
            ),
            None => *final(tracker) == *old(tracker),
        },
{
    if let Some(mac) = frame.addr2 {
        let role = role_for_frame(frame);
        tracker.observe(
            mac,
            frame.bssid,
            role,
            frame.signal_dbm,
            clone_text(&frame.ssid),
            frame.channel,
            now_ms,
        );
    }
}

} // verus!
