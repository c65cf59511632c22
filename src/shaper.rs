use vstd::prelude::*;

use crate::classify::PacketEvent;
use crate::devices::DeviceTracker;
use crate::events::{
    bucket_of, Bucket, EventKind, EventSettings, EventWindow, NoiseMode,
};
use crate::limiter::{gap_ok, RateLimiter};

verus! {

/// Length of the admission window.
pub const WINDOW_MS: u64 = 100;

/// Minimum gap between two audible events of one kind and key, in ms.
pub open spec fn min_gap(kind: EventKind, mode: NoiseMode) -> u64 {
    match kind {
        EventKind::Beacon => 333,
        EventKind::ProbeReq => 200,
        EventKind::ProbeResp => 200,
        EventKind::Assoc => 500,
        EventKind::Deauth => 500,
        EventKind::Eapol => 300,
        EventKind::Rts | EventKind::Cts => 150,
        EventKind::Ack => match mode {
            NoiseMode::Crowded => 80,
            NoiseMode::Sparse => 40,
        },
        EventKind::DataTick => 200,
    }
}

pub fn min_interval_for(kind: &EventKind, mode: &NoiseMode) -> (r: u64)
    ensures
        r == min_gap(*kind, *mode),
{
    match kind {
        EventKind::Beacon => 333,
        EventKind::ProbeReq => 200,
        EventKind::ProbeResp => 200,
        EventKind::Assoc => 500,
        EventKind::Deauth => 500,
        EventKind::Eapol => 300,
        EventKind::Rts | EventKind::Cts => 150,
        EventKind::Ack => match mode {
            NoiseMode::Crowded => 80,
            NoiseMode::Sparse => 40,
        },
        EventKind::DataTick => 200,
    }
}

/// How many consecutive data ticks make one audible tick.
pub open spec fn data_tick_n(mode: NoiseMode) -> u32 {
    match mode {
        NoiseMode::Crowded => 100,
        NoiseMode::Sparse => 10,
    }
}

pub fn data_tick_for(mode: &NoiseMode) -> (r: u32)
    ensures
        r == data_tick_n(*mode),
{
    match mode {
        NoiseMode::Crowded => 100,
        NoiseMode::Sparse => 10,
    }
}

/// Per-window caps of the (management, control, data) buckets.
pub open spec fn cap(b: Bucket, mode: NoiseMode) -> u32 {
    match (b, mode) {
        (Bucket::Mgmt, NoiseMode::Crowded) => 3,
        (Bucket::Ctrl, NoiseMode::Crowded) => 2,
        (Bucket::Mgmt, NoiseMode::Sparse) => 5,
        (Bucket::Ctrl, NoiseMode::Sparse) => 3,
        (Bucket::Data, _) => 1,
    }
}

pub fn window_caps(mode: &NoiseMode) -> (r: (u32, u32, u32))
    ensures
        r == (cap(Bucket::Mgmt, *mode), cap(Bucket::Ctrl, *mode), cap(Bucket::Data, *mode)),
{
    match mode {
        NoiseMode::Crowded => (3, 2, 1),
        NoiseMode::Sparse => (5, 3, 1),
    }
}

/// The data-tick aggregation gate: every data tick bumps the counter, and
/// only the one that reaches the mode's threshold passes, resetting it.
/// Other kinds pass untouched.
pub open spec fn data_gate(counter: u32, kind: EventKind, mode: NoiseMode) -> (bool, u32) {
    if kind != EventKind::DataTick {
        (true, counter)
    } else if counter + 1 < data_tick_n(mode) {
        (false, (counter + 1) as u32)
    } else {
        (true, 0)
    }
}

/// The admission state of the sequential consumer.
#[derive(Debug)]
pub struct NoiseShaper {
    window: EventWindow,
    limiter: RateLimiter,
    data_counter: u32,
}

impl NoiseShaper {
    /// The admission window.
    pub closed spec fn window(&self) -> EventWindow {
        self.window
    }

    /// The last allowed time of every (kind, key).
    pub closed spec fn limits(&self) -> Map<(EventKind, crate::events::RateKey), u64> {
        self.limiter@
    }

    /// Data ticks seen since the last one that passed aggregation.
    pub closed spec fn counter(&self) -> u32 {
        self.data_counter
    }

    pub fn new(now_ms: u64) -> (r: Self)
        ensures
            r.window() == (EventWindow {
                start_ms: now_ms,
                counts_mgmt: 0,
                counts_ctrl: 0,
                counts_data: 0,
                window_ms: WINDOW_MS,
            }),
            r.limits() == Map::<(EventKind, crate::events::RateKey), u64>::empty(),
            r.counter() == 0,
    {
        NoiseShaper {
            window: EventWindow::new(WINDOW_MS, now_ms),
            limiter: RateLimiter::new(),
            data_counter: 0,
        }
    }

    /// Runs one event through the gates in order: blocklist, per-kind enable,
    /// data-tick aggregation, window caps, per-key minimum gap. Returns whether
    /// it passed them all; each gate's state changes only if the event reached it.
    pub fn offer(
        &mut self,
        evt: &PacketEvent,
        settings: &EventSettings,
        tracker: &DeviceTracker,
        now_ms: u64,
    ) -> (r: bool)
        requires
            settings.wf(),
        ensures
            ({
                let reached = tracker.allows_spec(evt.src, evt.bssid) && settings.enabled_spec(
                    evt.kind,
                );
                let (data_ok, counter) = data_gate(
                    old(self).counter(),
                    evt.kind,
                    settings.mode,
                );
                let w = old(self).window().refreshed(now_ms);
                let b = bucket_of(evt.kind);
                let win_ok = w.count(b) < cap(b, settings.mode);
                let spaced = gap_ok(
                    old(self).limits(),
                    evt.kind,
                    evt.rate_key,
                    min_gap(evt.kind, settings.mode),
                    now_ms,
                );
                &&& r == (reached && data_ok && win_ok && spaced)
                &&& final(self).counter() == if reached {
                    counter
                } else {
                    old(self).counter()
                }
                &&& final(self).window() == if reached && data_ok {
                    if win_ok {
                        w.bumped(b)
                    } else {
                        w
                    }
                } else {
                    old(self).window()
                }
                &&& final(self).limits() == if reached && data_ok && win_ok && spaced {
                    old(self).limits().insert((evt.kind, evt.rate_key), now_ms)
                } else {
                    old(self).limits()
                }
            }),
    {
        if !tracker.allows(evt.src, evt.bssid) {
            return false;
        }
        if !settings.is_enabled(evt.kind) {
            return false;
        }
        if evt.kind == EventKind::DataTick {
            let threshold = data_tick_for(&settings.mode);
            if self.data_counter < threshold - 1 {
                self.data_counter += 1;
                return false;
            }
            self.data_counter = 0;
        }
        let (max_mgmt, max_ctrl, max_data) = window_caps(&settings.mode);
        if !self.window.try_count(&evt.kind, max_mgmt, max_ctrl, max_data, now_ms) {
            return false;
        }
        let gap = min_interval_for(&evt.kind, &settings.mode);
        self.limiter.allow(&evt.kind, evt.rate_key, gap, now_ms)
    }
}

/// How many of `n` consecutive data ticks pass the aggregation gate when the
/// counter starts at `counter`.
pub open spec fn ticks_passed(counter: u32, n: nat, mode: NoiseMode) -> nat
    decreases n,
{
    if n == 0 {
        0
    } else {
        let (ok, next) = data_gate(counter, EventKind::DataTick, mode);
        ticks_passed(next, (n - 1) as nat, mode) + if ok { 1nat } else { 0nat }
    }
}

/// From a fresh counter, exactly one in every `data_tick_n(mode)` consecutive
/// data ticks passes the aggregation gate.
pub proof fn lemma_one_tick_in_n(c: u32, n: nat, mode: NoiseMode)
    requires
        c < data_tick_n(mode),
    ensures
        ticks_passed(c, n, mode) == (c + n) / (data_tick_n(mode) as int),
    decreases n,
{
    let t = data_tick_n(mode) as int;
    if n > 0 {
        let (ok, next) = data_gate(c, EventKind::DataTick, mode);
        lemma_one_tick_in_n(next, (n - 1) as nat, mode);
        if ok {
            assert(c + 1 == t);
            assert((c + n) / t == 1 + (n - 1) / t) by {
                vstd::arithmetic::div_mod::lemma_div_plus_one(n - 1, t);
                assert(c + n == t + (n - 1));
            }
        } else {
            assert(next == c + 1);
        }
    }
}

} // verus!
