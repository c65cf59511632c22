use vstd::prelude::*;

use crate::events::{index_of_kind, kind_index, EventKind, EventSettings, NoiseMode, KIND_COUNT};
use crate::shaper::{data_tick_for, data_tick_n};

verus! {

/// One channel a radio supports, and whether it may be used.
#[derive(Clone, Copy, Debug, PartialEq, Eq, Structural)]
pub struct ChannelInfo {
    pub channel: u16,
    pub enabled: bool,
}

/// The look-back window a device listing asks for.
#[derive(Clone, Copy, Debug, PartialEq, Eq, Structural)]
pub struct DevicesQuery {
    pub window_seconds: Option<u64>,
    pub window_minutes: Option<u64>,
}

/// Window in seconds: minutes win over seconds, ten minutes by default,
/// clamped to [60, 7200].
pub open spec fn window_secs(q: DevicesQuery) -> u64 {
    let base: int = match q.window_minutes {
        Some(m) => if m * 60 > u64::MAX {
            u64::MAX as int
        } else {
            m * 60
        },
        None => match q.window_seconds {
            Some(s) => s as int,
            None => 600,
        },
    };
    if base < 60 {
        60
    } else if base > 7200 {
        7200
    } else {
        base as u64
    }
}

pub fn window_from_query(params: &DevicesQuery) -> (r: u64)
    ensures
        r == window_secs(*params),
        60 <= r <= 7200,
{
    let base_seconds = if let Some(min) = params.window_minutes {
        if min > u64::MAX / 60 {
            u64::MAX
        } else {
            min * 60
        }
    } else if let Some(sec) = params.window_seconds {
        sec
    } else {
        600
    };
    if base_seconds < 60 {
        60
    } else if base_seconds > 7200 {
        7200
    } else {
        base_seconds
    }
}

/// The kinds in presentation order.
pub open spec fn kind_at(i: int) -> EventKind {
    if i == 0 {
        EventKind::Beacon
    } else if i == 1 {
        EventKind::ProbeReq
    } else if i == 2 {
        EventKind::ProbeResp
    } else if i == 3 {
        EventKind::Assoc
    } else if i == 4 {
        EventKind::Deauth
    } else if i == 5 {
        EventKind::Eapol
    } else if i == 6 {
        EventKind::Rts
    } else if i == 7 {
        EventKind::Cts
    } else if i == 8 {
        EventKind::Ack
    } else {
        EventKind::DataTick
    }
}

pub fn kind_at_index(i: usize) -> (r: EventKind)
    ensures
        r == kind_at(i as int),
{
    match i {
        0 => EventKind::Beacon,
        1 => EventKind::ProbeReq,
        2 => EventKind::ProbeResp,
        3 => EventKind::Assoc,
        4 => EventKind::Deauth,
        5 => EventKind::Eapol,
        6 => EventKind::Rts,
        7 => EventKind::Cts,
        8 => EventKind::Ack,
        _ => EventKind::DataTick,
    }
}

/// Human-readable name of each kind.
pub open spec fn label_of(kind: EventKind) -> &'static str {
    match kind {
        EventKind::Beacon => "Beacon",
        EventKind::ProbeReq => "Probe request",
        EventKind::ProbeResp => "Probe response",
        EventKind::Assoc => "Association / Reassociation",
        EventKind::Deauth => "Deauthentication / Disassociation",
        EventKind::Eapol => "EAPOL (handshake)",
        EventKind::Rts => "RTS",
        EventKind::Cts => "CTS",
        EventKind::Ack => "ACK / Block ACK",
        EventKind::DataTick => "Data tick",
    }
}

pub fn event_label(kind: &EventKind) -> (r: &'static str)
    ensures
        r == label_of(*kind),
{
    match kind {
        EventKind::Beacon => "Beacon",
        EventKind::ProbeReq => "Probe request",
        EventKind::ProbeResp => "Probe response",
        EventKind::Assoc => "Association / Reassociation",
        EventKind::Deauth => "Deauthentication / Disassociation",
        EventKind::Eapol => "EAPOL (handshake)",
        EventKind::Rts => "RTS",
        EventKind::Cts => "CTS",
        EventKind::Ack => "ACK / Block ACK",
        EventKind::DataTick => "Data tick",
    }
}

/// One kind's enable switch as the settings page shows it.
#[derive(Clone, Copy, Debug)]
pub struct EventToggle {
    pub id: EventKind,
    pub label: &'static str,
    pub enabled: bool,
}

/// Every kind, in presentation order, with its label and switch.
pub fn all_event_toggles(settings: &EventSettings) -> (r: Vec<EventToggle>)
    requires
        settings.wf(),
    ensures
        r@.len() == KIND_COUNT,
        forall|i: int|
            0 <= i < KIND_COUNT ==> #[trigger] r@[i] == (EventToggle {
                id: kind_at(i),
                label: label_of(kind_at(i)),
                enabled: settings.enabled_spec(kind_at(i)),
            }),
{
    let mut out: Vec<EventToggle> = Vec::new();
    let mut i: usize = 0;
    while i < KIND_COUNT
        invariant
            settings.wf(),
            i <= KIND_COUNT,
            out@.len() == i,
            forall|j: int|
                0 <= j < i ==> #[trigger] out@[j] == (EventToggle {
                    id: kind_at(j),
                    label: label_of(kind_at(j)),
                    enabled: settings.enabled_spec(kind_at(j)),
                }),
        decreases KIND_COUNT - i,
    {
        let id = kind_at_index(i);
        out.push(EventToggle { id, label: event_label(&id), enabled: settings.is_enabled(id) });
        i += 1;
    }
    out
}

/// The event settings as the settings page shows them.
#[derive(Clone, Debug)]
pub struct EventsResponse {
    pub mode: NoiseMode,
    pub data_tick_n: u32,
    pub events: Vec<EventToggle>,
}

pub fn build_events_response(settings: &EventSettings) -> (r: EventsResponse)
    requires
        settings.wf(),
    ensures
        r.mode == settings.mode,
        r.data_tick_n == data_tick_n(settings.mode),
        r.events@.len() == KIND_COUNT,
        forall|i: int|
            0 <= i < KIND_COUNT ==> #[trigger] r.events@[i] == (EventToggle {
                id: kind_at(i),
                label: label_of(kind_at(i)),
                enabled: settings.enabled_spec(kind_at(i)),
            }),
{
    EventsResponse {
        mode: settings.mode,
        data_tick_n: data_tick_for(&settings.mode),
        events: all_event_toggles(settings),
    }
}

} // verus!
