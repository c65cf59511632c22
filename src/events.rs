use vstd::prelude::*;

verus! {

/// A hardware (MAC) address.
pub type Mac = [u8; 6];

/// The audible event classes that a frame can map to.
#[derive(Clone, Copy, Debug, PartialEq, Eq, Hash, Structural)]
pub enum EventKind {
    Beacon,
    ProbeReq,
    ProbeResp,
    Assoc,
    Deauth,
    Eapol,
    Rts,
    Cts,
    Ack,
    DataTick,
}

/// The identity granularity used for per-entity rate limiting.
#[derive(Clone, Copy, Debug, PartialEq, Eq, Hash)]
pub enum RateKey {
    NoKey,
    Bssid(Mac),
    Tx(Mac),
    Pair(Mac, Mac),
}

impl RateKey {
    pub fn none() -> (r: Self)
        ensures
            r == RateKey::NoKey,
    {
        RateKey::NoKey
    }
}

/// Byte-wise address comparison.
pub fn same_mac(a: &Mac, b: &Mac) -> (r: bool)
    ensures
        r == (*a == *b),
{
    let mut i: usize = 0;
    while i < 6
        invariant
            i <= 6,
            forall|j: int| 0 <= j < i ==> a[j] == b[j],
        decreases 6 - i,
    {
        if a[i] != b[i] {
            return false;
        }
        i += 1;
    }
    proof {
        assert(a@ =~= b@);
        vstd::array::axiom_array_ext_equal(*a, *b);
    }
    true
}

/// The operator's noise policy: how aggressively admission is throttled.
#[derive(Clone, Copy, Debug, PartialEq, Eq, Hash, Structural)]
pub enum NoiseMode {
    Crowded,
    Sparse,
}

/// Position of a kind in the fixed presentation order.
pub open spec fn kind_index(kind: EventKind) -> int {
    match kind {
        EventKind::Beacon => 0,
        EventKind::ProbeReq => 1,
        EventKind::ProbeResp => 2,
        EventKind::Assoc => 3,
        EventKind::Deauth => 4,
        EventKind::Eapol => 5,
        EventKind::Rts => 6,
        EventKind::Cts => 7,
        EventKind::Ack => 8,
        EventKind::DataTick => 9,
    }
}

pub const KIND_COUNT: usize = 10;

pub fn index_of_kind(kind: EventKind) -> (r: usize)
    ensures
        r == kind_index(kind),
        r < KIND_COUNT,
{
    match kind {
        EventKind::Beacon => 0,
        EventKind::ProbeReq => 1,
        EventKind::ProbeResp => 2,
        EventKind::Assoc => 3,
        EventKind::Deauth => 4,
        EventKind::Eapol => 5,
        EventKind::Rts => 6,
        EventKind::Cts => 7,
        EventKind::Ack => 8,
        EventKind::DataTick => 9,
    }
}

/// Operator configuration consumed by admission: the mode and one enable flag
/// per kind, stored in the order of `kind_index`.
#[derive(Clone, Debug)]
pub struct EventSettings {
    pub mode: NoiseMode,
    pub enabled: Vec<bool>,
}

impl EventSettings {
    pub open spec fn wf(&self) -> bool {
        self.enabled@.len() == KIND_COUNT
    }

    /// Whether events of `kind` may be heard.
    pub open spec fn enabled_spec(&self, kind: EventKind) -> bool {
        self.enabled@[kind_index(kind)]
    }

    pub fn is_enabled(&self, kind: EventKind) -> (r: bool)
        requires
            self.wf(),
        ensures
            r == self.enabled_spec(kind),
    {
        self.enabled[index_of_kind(kind)]
    }

    pub fn set_enabled(&mut self, kind: EventKind, on: bool)
        requires
            old(self).wf(),
        ensures
            final(self).wf(),
            final(self).mode == old(self).mode,
            final(self).enabled@ == old(self).enabled@.update(kind_index(kind), on),
    {
        let i = index_of_kind(kind);
        self.enabled.set(i, on);
    }
}

impl Default for EventSettings {
    /// Crowded mode with every kind enabled.
    fn default() -> (r: Self)
        ensures
            r.wf(),
            r.mode == NoiseMode::Crowded,
            forall|k: EventKind| #[trigger] r.enabled_spec(k),
    {
        let enabled: Vec<bool> = vec![true; KIND_COUNT];
        EventSettings { mode: NoiseMode::Crowded, enabled }
    }
}

/// The three counting buckets of the admission window.
#[derive(Clone, Copy, Debug, PartialEq, Eq, Structural)]
pub enum Bucket {
    Mgmt,
    Ctrl,
    Data,
}

pub open spec fn bucket_of(kind: EventKind) -> Bucket {
    match kind {
        EventKind::Rts | EventKind::Cts | EventKind::Ack => Bucket::Ctrl,
        EventKind::DataTick => Bucket::Data,
        _ => Bucket::Mgmt,
    }
}

/// Time since `since`, saturating at zero when the clock reads earlier.
pub open spec fn elapsed(since: u64, now: u64) -> u64 {
    if now >= since {
        (now - since) as u64
    } else {
        0
    }
}

pub fn elapsed_ms(since: u64, now: u64) -> (r: u64)
    ensures
        r == elapsed(since, now),
{
    if now >= since {
        now - since
    } else {
        0
    }
}

/// A fixed-duration admission window with one counter per bucket. Counters are
/// reset lazily, the next time the window is consulted after it has elapsed.
/// Times are milliseconds of a caller-supplied monotonic clock.
#[derive(Clone, Copy, Debug, PartialEq, Eq, Structural)]
pub struct EventWindow {
    pub start_ms: u64,
    pub counts_mgmt: u32,
    pub counts_ctrl: u32,
    pub counts_data: u32,
    pub window_ms: u64,
}

impl EventWindow {
    pub open spec fn count(&self, b: Bucket) -> u32 {
        match b {
            Bucket::Mgmt => self.counts_mgmt,
            Bucket::Ctrl => self.counts_ctrl,
            Bucket::Data => self.counts_data,
        }
    }

    /// The window as `refresh` leaves it at time `now`.
    pub open spec fn refreshed(self, now: u64) -> EventWindow {
        if elapsed(self.start_ms, now) >= self.window_ms {
            EventWindow { start_ms: now, counts_mgmt: 0, counts_ctrl: 0, counts_data: 0, ..self }
        } else {
            self
        }
    }

    /// The window with one more event counted in bucket `b`.
    pub open spec fn bumped(self, b: Bucket) -> EventWindow
        recommends
            self.count(b) < u32::MAX,
    {
        match b {
            Bucket::Mgmt => EventWindow { counts_mgmt: (self.counts_mgmt + 1) as u32, ..self },
            Bucket::Ctrl => EventWindow { counts_ctrl: (self.counts_ctrl + 1) as u32, ..self },
            Bucket::Data => EventWindow { counts_data: (self.counts_data + 1) as u32, ..self },
        }
    }

    pub fn new(window_ms: u64, now_ms: u64) -> (r: Self)
        ensures
            r == (EventWindow {
                start_ms: now_ms,
                counts_mgmt: 0,
                counts_ctrl: 0,
                counts_data: 0,
                window_ms,
            }),
    {
        EventWindow { start_ms: now_ms, counts_mgmt: 0, counts_ctrl: 0, counts_data: 0, window_ms }
    }

    pub fn refresh(&mut self, now_ms: u64)
        ensures
            *final(self) == old(self).refreshed(now_ms),
    {
        if elapsed_ms(self.start_ms, now_ms) >= self.window_ms {
            self.start_ms = now_ms;
            self.counts_mgmt = 0;
            self.counts_ctrl = 0;
            self.counts_data = 0;
        }
    }

    /// Counts one event of `kind` against its bucket's cap; refuses once the
    /// cap is reached within the current window.
    pub fn try_count(
        &mut self,
        kind: &EventKind,
        max_mgmt: u32,
        max_ctrl: u32,
        max_data: u32,
        now_ms: u64,
    ) -> (r: bool)
        ensures
            ({
                let w = old(self).refreshed(now_ms);
                let b = bucket_of(*kind);
                let cap = match b {
                    Bucket::Mgmt => max_mgmt,
                    Bucket::Ctrl => max_ctrl,
                    Bucket::Data => max_data,
                };
                &&& r == (w.count(b) < cap)
                &&& *final(self) == if r { w.bumped(b) } else { w }
            }),
    {
        self.refresh(now_ms);
        match kind {
            EventKind::Rts | EventKind::Cts | EventKind::Ack => {
                if self.counts_ctrl >= max_ctrl {
                    return false;
                }
                self.counts_ctrl += 1;
            },
            EventKind::DataTick => {
                if self.counts_data >= max_data {
                    return false;
                }
                self.counts_data += 1;
            },
            _ => {
                if self.counts_mgmt >= max_mgmt {
                    return false;
                }
                self.counts_mgmt += 1;
            },
        }
        true
    }
}

} // verus!
