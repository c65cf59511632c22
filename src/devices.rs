use vstd::prelude::*;

use crate::events::{elapsed, elapsed_ms, same_mac, Mac};
use crate::macmap::MacMap;
use crate::text::mac_text;
pub use crate::text::{format_mac, parse_mac};

verus! {

/// What a transmitter is believed to be.
#[derive(Clone, Copy, Debug, PartialEq, Eq, Hash, Structural)]
pub enum DeviceRole {
    Ap,
    Client,
    Unknown,
}

/// Presentation rank of a role: access points first, unknown last.
pub open spec fn rank(r: DeviceRole) -> u8 {
    match r {
        DeviceRole::Ap => 0,
        DeviceRole::Client => 1,
        DeviceRole::Unknown => 2,
    }
}

/// Role merge table: Ap beats Client beats Unknown, whatever the order.
pub open spec fn merged(a: DeviceRole, b: DeviceRole) -> DeviceRole {
    match (a, b) {
        (DeviceRole::Ap, _) | (_, DeviceRole::Ap) => DeviceRole::Ap,
        (DeviceRole::Client, _) | (_, DeviceRole::Client) => DeviceRole::Client,
        _ => DeviceRole::Unknown,
    }
}

pub fn merge_role(current: DeviceRole, new_role: DeviceRole) -> (r: DeviceRole)
    ensures
        r == merged(current, new_role),
{
    match (current, new_role) {
        (DeviceRole::Ap, _) | (_, DeviceRole::Ap) => DeviceRole::Ap,
        (DeviceRole::Client, _) | (_, DeviceRole::Client) => DeviceRole::Client,
        _ => DeviceRole::Unknown,
    }
}

pub fn role_rank(role: &DeviceRole) -> (r: u8)
    ensures
        r == rank(*role),
{
    match role {
        DeviceRole::Ap => 0,
        DeviceRole::Client => 1,
        DeviceRole::Unknown => 2,
    }
}

/// Role merge is commutative, idempotent and associative, and never moves a
/// role away from Ap.
pub proof fn lemma_merge_role_laws(a: DeviceRole, b: DeviceRole, c: DeviceRole)
    ensures
        merged(a, b) == merged(b, a),
        merged(a, a) == a,
        merged(merged(a, b), c) == merged(a, merged(b, c)),
        rank(merged(a, b)) <= rank(a),
        rank(merged(a, b)) <= rank(b),
{
}

/// Everything remembered about one transmitter.
#[derive(Debug)]
pub struct TrackedDevice {
    pub mac: Mac,
    pub bssid: Option<Mac>,
    pub role: DeviceRole,
    pub last_seen_ms: u64,
    pub last_rssi: Option<i8>,
    pub frames: u64,
    pub ssid: Option<String>,
    pub channel: Option<u16>,
}

/// One row of a snapshot.
#[derive(Debug, Clone)]
pub struct DeviceView {
    pub mac: String,
    pub bssid: Option<String>,
    pub role: DeviceRole,
    pub age_ms: u64,
    pub rssi_dbm: Option<i8>,
    pub frames: u64,
    pub allowed: bool,
    pub ssid: Option<String>,
    pub channel: Option<u16>,
}

/// The content of a snapshot row, with text as character sequences.
pub ghost struct DeviceModel {
    pub mac: Seq<char>,
    pub bssid: Option<Seq<char>>,
    pub role: DeviceRole,
    pub age_ms: u64,
    pub rssi_dbm: Option<i8>,
    pub frames: u64,
    pub allowed: bool,
    pub ssid: Option<Seq<char>>,
    pub channel: Option<u16>,
}

pub open spec fn opt_text(s: Option<String>) -> Option<Seq<char>> {
    match s {
        Some(x) => Some(x@),
        None => None,
    }
}

impl View for DeviceView {
    type V = DeviceModel;

    open spec fn view(&self) -> DeviceModel {
        DeviceModel {
            mac: self.mac@,
            bssid: opt_text(self.bssid),
            role: self.role,
            age_ms: self.age_ms,
            rssi_dbm: self.rssi_dbm,
            frames: self.frames,
            allowed: self.allowed,
            ssid: opt_text(self.ssid),
            channel: self.channel,
        }
    }
}

pub open spec fn models(s: Seq<DeviceView>) -> Seq<DeviceModel> {
    s.map_values(|v: DeviceView| v@)
}

/// Snapshot order: role rank ascending, then frame count descending.
pub open spec fn precedes(a: DeviceModel, b: DeviceModel) -> bool {
    rank(a.role) < rank(b.role) || (rank(a.role) == rank(b.role) && a.frames >= b.frames)
}

pub open spec fn strictly_before(a: DeviceModel, b: DeviceModel) -> bool {
    rank(a.role) < rank(b.role) || (rank(a.role) == rank(b.role) && a.frames > b.frames)
}

pub open spec fn in_snapshot_order(s: Seq<DeviceModel>) -> bool {
    forall|i: int, j: int| 0 <= i < j < s.len() ==> precedes(#[trigger] s[i], #[trigger] s[j])
}

/// A device's row at time `now`: cached SSID and channel of its BSSID fill in
/// what it has not reported itself.
pub open spec fn model_of(
    d: TrackedDevice,
    blocked: Set<Mac>,
    ssids: Map<Mac, String>,
    channels: Map<Mac, u16>,
    now: u64,
) -> DeviceModel {
    DeviceModel {
        mac: mac_text(d.mac@),
        bssid: match d.bssid {
            Some(b) => Some(mac_text(b@)),
            None => None,
        },
        role: d.role,
        age_ms: elapsed(d.last_seen_ms, now),
        rssi_dbm: d.last_rssi,
        frames: d.frames,
        allowed: !blocked.contains(d.mac),
        ssid: match d.ssid {
            Some(s) => Some(s@),
            None => if d.bssid is Some && ssids.contains_key(d.bssid->0) {
                Some(ssids[d.bssid->0]@)
            } else {
                None
            },
        },
        channel: match d.channel {
            Some(c) => Some(c),
            None => if d.bssid is Some && channels.contains_key(d.bssid->0) {
                Some(channels[d.bssid->0])
            } else {
                None
            },
        },
    }
}

/// Rows of every device seen within `window` of `now`, in storage order.
pub open spec fn listed(
    devs: Seq<TrackedDevice>,
    blocked: Set<Mac>,
    ssids: Map<Mac, String>,
    channels: Map<Mac, u16>,
    window: u64,
    now: u64,
) -> Seq<DeviceModel>
    decreases devs.len(),
{
    if devs.len() == 0 {
        Seq::empty()
    } else {
        let rest = listed(devs.drop_last(), blocked, ssids, channels, window, now);
        if elapsed(devs.last().last_seen_ms, now) <= window {
            rest.push(model_of(devs.last(), blocked, ssids, channels, now))
        } else {
            rest
        }
    }
}

/// A record for a transmitter seen for the first time.
pub open spec fn fresh_device(mac: Mac, bssid: Option<Mac>, now: u64) -> TrackedDevice {
    TrackedDevice {
        mac,
        bssid,
        role: DeviceRole::Unknown,
        last_seen_ms: now,
        last_rssi: None,
        frames: 0,
        ssid: None,
        channel: None,
    }
}

/// A record after one more observation.
pub open spec fn observed(
    d: TrackedDevice,
    bssid: Option<Mac>,
    role: DeviceRole,
    rssi: Option<i8>,
    ssid: Option<String>,
    channel: Option<u16>,
    now: u64,
    ssids: Map<Mac, String>,
    channels: Map<Mac, u16>,
) -> TrackedDevice {
    TrackedDevice {
        mac: d.mac,
        bssid: if bssid is Some { bssid } else { d.bssid },
        role: merged(d.role, role),
        last_seen_ms: now,
        last_rssi: if rssi is Some { rssi } else { d.last_rssi },
        frames: if d.frames == u64::MAX { d.frames } else { (d.frames + 1) as u64 },
        ssid: if ssid is Some {
            ssid
        } else if bssid is Some && d.ssid is None && ssids.contains_key(bssid->0) {
            Some(ssids[bssid->0])
        } else {
            d.ssid
        },
        channel: if channel is Some {
            channel
        } else if d.channel is None && bssid is Some && channels.contains_key(bssid->0) {
            Some(channels[bssid->0])
        } else {
            d.channel
        },
    }
}

/// Index of the first record for `mac` at or after `i`, or -1.
pub open spec fn index_from(devs: Seq<TrackedDevice>, mac: Mac, i: int) -> int
    decreases devs.len() - i,
{
    if i < 0 || i >= devs.len() {
        -1
    } else if devs[i].mac == mac {
        i
    } else {
        index_from(devs, mac, i + 1)
    }
}

proof fn lemma_index_from(devs: Seq<TrackedDevice>, mac: Mac, i: int)
    requires
        0 <= i,
    ensures
        index_from(devs, mac, i) == -1 || (i <= index_from(devs, mac, i) < devs.len()
            && devs[index_from(devs, mac, i)].mac == mac),
        index_from(devs, mac, i) == -1 ==> forall|j: int|
            i <= j < devs.len() ==> (#[trigger] devs[j]).mac != mac,
    decreases devs.len() - i,
{
    if i < devs.len() && devs[i].mac != mac {
        lemma_index_from(devs, mac, i + 1);
    }
}

/// The tracker `t1` is `t0` after one sighting of `mac` at `now`.
pub open spec fn observe_post(
    t0: DeviceTracker,
    t1: DeviceTracker,
    mac: Mac,
    bssid: Option<Mac>,
    role: DeviceRole,
    rssi_dbm: Option<i8>,
    ssid: Option<String>,
    channel: Option<u16>,
    now_ms: u64,
) -> bool {
    let devs = t0.devices();
    let i = index_from(devs, mac, 0);
    let found = i >= 0;
    let d0 = if found { devs[i] } else { fresh_device(mac, bssid, now_ms) };
    let d1 = observed(d0, bssid, role, rssi_dbm, ssid, channel, now_ms, t0.ssid_cache(), t0.channel_cache());
    &&& t1.devices() == if found { devs.update(i, d1) } else { devs.push(d1) }
    &&& t1.ssid_cache() == match (ssid, bssid) {
        (Some(n), Some(b)) => t0.ssid_cache().insert(b, n),
        _ => t0.ssid_cache(),
    }
    &&& t1.channel_cache() == match (channel, bssid) {
        (Some(c), Some(b)) => t0.channel_cache().insert(b, c),
        _ => t0.channel_cache(),
    }
    &&& t1.blocked() == t0.blocked()
}

/// The blocklist after applying allow (`true`) / deny (`false`) toggles in order.
pub open spec fn toggled(b: Set<Mac>, t: Seq<(Mac, bool)>) -> Set<Mac>
    decreases t.len(),
{
    if t.len() == 0 {
        b
    } else {
        let prev = toggled(b, t.drop_last());
        if t.last().1 {
            prev.remove(t.last().0)
        } else {
            prev.insert(t.last().0)
        }
    }
}

pub(crate) fn clone_text(s: &Option<String>) -> (r: Option<String>)
    ensures
        r == *s,
{
    match s {
        Some(x) => Some(x.clone()),
        None => None,
    }
}

fn mac_option_text(m: &Option<Mac>) -> (r: Option<String>)
    ensures
        opt_text(r) == match *m {
            Some(b) => Some(mac_text(b@)),
            None => None,
        },
{
    match m {
        Some(b) => Some(format_mac(b)),
        None => None,
    }
}

/// Per-transmitter cache of identity, role, signal, SSID and channel, with a
/// blocklist and BSSID-keyed SSID / channel caches for backfilling.
///
/// The records are a vector holding at most one record per address (proved
/// kept by every method), not a hash map: `observe` and `reset_counts` change
/// records in place, and vstd specifies no in-place access to a `HashMap`'s
/// values (no `get_mut`, `values_mut` or `iter_mut`).
#[derive(Debug)]
pub struct DeviceTracker {
    devices: Vec<TrackedDevice>,
    blocked: MacMap<bool>,
    ssid_cache: MacMap<String>,
    channel_cache: MacMap<u16>,
}

impl DeviceTracker {
    /// The device records, one per address, in order of first sighting.
    pub closed spec fn devices(&self) -> Seq<TrackedDevice> {
        self.devices@
    }

    /// The denied addresses.
    pub closed spec fn blocked(&self) -> Set<Mac> {
        Set::new(|m: Mac| self.blocked@.contains_key(m) && self.blocked@[m])
    }

    /// SSIDs learned per BSSID.
    pub closed spec fn ssid_cache(&self) -> Map<Mac, String> {
        self.ssid_cache@
    }

    /// Channels learned per BSSID.
    pub closed spec fn channel_cache(&self) -> Map<Mac, u16> {
        self.channel_cache@
    }

    /// Every address has at most one record.
    pub open spec fn wf(&self) -> bool {
        forall|i: int, j: int|
            0 <= i < j < self.devices().len() ==> (#[trigger] self.devices()[i]).mac
                != (#[trigger] self.devices()[j]).mac
    }

    pub fn new() -> (r: Self)
        ensures
            r.wf(),
            r.devices() == Seq::<TrackedDevice>::empty(),
            r.blocked() == Set::<Mac>::empty(),
            r.ssid_cache() == Map::<Mac, String>::empty(),
            r.channel_cache() == Map::<Mac, u16>::empty(),
    {
        let r = DeviceTracker {
            devices: Vec::new(),
            blocked: MacMap::new(),
            ssid_cache: MacMap::new(),
            channel_cache: MacMap::new(),
        };
        assert(r.blocked() =~= Set::<Mac>::empty());
        r
    }

    fn position(&self, mac: &Mac) -> (r: Option<usize>)
        ensures
            match r {
                Some(i) => index_from(self.devices(), *mac, 0) == i,
                None => index_from(self.devices(), *mac, 0) == -1,
            },
            forall|j: int|
                0 <= j < self.devices().len() && (r is None || j < r->0) ==> (#[trigger] self.devices()[j]).mac != *mac,
    {
        let mut i: usize = 0;
        while i < self.devices.len()
            invariant
                i <= self.devices@.len(),
                index_from(self.devices@, *mac, i as int) == index_from(self.devices@, *mac, 0),
                forall|j: int| 0 <= j < i ==> (#[trigger] self.devices@[j]).mac != *mac,
            decreases self.devices@.len() - i,
        {
            if same_mac(&self.devices[i].mac, mac) {
                return Some(i);
            }
            i += 1;
        }
        None
    }

    fn updated(
        &self,
        d: TrackedDevice,
        bssid: Option<Mac>,
        role: DeviceRole,
        rssi_dbm: Option<i8>,
        ssid: &Option<String>,
        channel: Option<u16>,
        now_ms: u64,
    ) -> (r: TrackedDevice)
        ensures
            r == observed(
                d,
                bssid,
                role,
                rssi_dbm,
                *ssid,
                channel,
                now_ms,
                self.ssid_cache(),
                self.channel_cache(),
            ),
    {
        let mut d = d;
        d.last_seen_ms = now_ms;
        d.frames = if d.frames == u64::MAX { d.frames } else { d.frames + 1 };
        if rssi_dbm.is_some() {
            d.last_rssi = rssi_dbm;
        }
        if bssid.is_some() {
            d.bssid = bssid;
        }
        d.role = merge_role(d.role, role);
        match ssid {
            Some(name) => {
                d.ssid = Some(name.clone());
            },
            None => {
                if let Some(b) = bssid {
                    if d.ssid.is_none() {
                        if let Some(name) = self.ssid_cache.get(&b) {
                            d.ssid = Some(name.clone());
                        }
                    }
                }
            },
        }
        if channel.is_some() {
            d.channel = channel;
        } else if d.channel.is_none() {
            if let Some(b) = bssid {
                if let Some(ch) = self.channel_cache.get(&b) {
                    d.channel = Some(*ch);
                }
            }
        }
        d
    }

    /// Records one sighting of `mac` at `now_ms`: creates the record on first
    /// sight, merges the role toward Ap, counts the frame (saturating),
    /// overwrites what was supplied and backfills SSID / channel from the
    /// BSSID caches; a supplied SSID or channel is also cached for the BSSID.
    pub fn observe(
        &mut self,
        mac: Mac,
        bssid: Option<Mac>,
        role: DeviceRole,
        rssi_dbm: Option<i8>,
        ssid: Option<String>,
        channel: Option<u16>,
        now_ms: u64,
    )
        ensures
            old(self).wf() ==> final(self).wf(),
            observe_post(*old(self), *final(self), mac, bssid, role, rssi_dbm, ssid, channel, now_ms),
    {
        let ghost devs = self.devices@;
        let pos = self.position(&mac);
        proof {
            lemma_index_from(devs, mac, 0);
        }
        match pos {
            Some(i) => {
                let cur = &self.devices[i];
                let d0 = TrackedDevice {
                    mac: cur.mac,
                    bssid: cur.bssid,
                    role: cur.role,
                    last_seen_ms: cur.last_seen_ms,
                    last_rssi: cur.last_rssi,
                    frames: cur.frames,
                    ssid: clone_text(&cur.ssid),
                    channel: cur.channel,
                };
                let d1 = self.updated(d0, bssid, role, rssi_dbm, &ssid, channel, now_ms);
                self.devices.set(i, d1);
            },
            None => {
                let d0 = TrackedDevice {
                    mac,
                    bssid,
                    role: DeviceRole::Unknown,
                    last_seen_ms: now_ms,
                    last_rssi: None,
                    frames: 0,
                    ssid: None,
                    channel: None,
                };
                let d1 = self.updated(d0, bssid, role, rssi_dbm, &ssid, channel, now_ms);
                self.devices.push(d1);
            },
        }
        if let Some(b) = bssid {
            if let Some(name) = ssid {
                self.ssid_cache.insert(b, name);
            }
            if let Some(ch) = channel {
                self.channel_cache.insert(b, ch);
            }
        }
    }

    fn is_blocked(&self, mac: &Mac) -> (r: bool)
        ensures
            r == self.blocked().contains(*mac),
    {
        match self.blocked.get(mac) {
            Some(b) => *b,
            None => false,
        }
    }

    fn row(&self, d: &TrackedDevice, now_ms: u64) -> (r: DeviceView)
        ensures
            r@ == model_of(*d, self.blocked(), self.ssid_cache(), self.channel_cache(), now_ms),
    {
        let ssid = match &d.ssid {
            Some(s) => Some(s.clone()),
            None => match &d.bssid {
                Some(b) => match self.ssid_cache.get(b) {
                    Some(s) => Some(s.clone()),
                    None => None,
                },
                None => None,
            },
        };
        let channel = match d.channel {
            Some(c) => Some(c),
            None => match &d.bssid {
                Some(b) => match self.channel_cache.get(b) {
                    Some(c) => Some(*c),
                    None => None,
                },
                None => None,
            },
        };
        DeviceView {
            mac: format_mac(&d.mac),
            bssid: mac_option_text(&d.bssid),
            role: d.role,
            age_ms: elapsed_ms(d.last_seen_ms, now_ms),
            rssi_dbm: d.last_rssi,
            frames: d.frames,
            allowed: !self.is_blocked(&d.mac),
            ssid,
            channel,
        }
    }

    /// Every device seen within `window_ms` of `now_ms`, access points first,
    /// then clients, then unknown roles, each group by frame count descending.
    pub fn snapshot(&self, window_ms: u64, now_ms: u64) -> (r: Vec<DeviceView>)
        ensures
            models(r@).to_multiset() == listed(
                self.devices(),
                self.blocked(),
                self.ssid_cache(),
                self.channel_cache(),
                window_ms,
                now_ms,
            ).to_multiset(),
            in_snapshot_order(models(r@)),
    {
        let mut out: Vec<DeviceView> = Vec::new();
        let mut i: usize = 0;
        proof {
            assert(self.devices@.subrange(0, 0) =~= Seq::<TrackedDevice>::empty());
            assert(models(out@) =~= Seq::<DeviceModel>::empty());
        }
        while i < self.devices.len()
            invariant
                i <= self.devices@.len(),
                in_snapshot_order(models(out@)),
                models(out@).to_multiset() == listed(
                    self.devices@.subrange(0, i as int),
                    self.blocked(),
                    self.ssid_cache(),
                    self.channel_cache(),
                    window_ms,
                    now_ms,
                ).to_multiset(),
            decreases self.devices@.len() - i,
        {
            let d = &self.devices[i];
            proof {
                assert(self.devices@.subrange(0, i + 1).drop_last() =~= self.devices@.subrange(
                    0,
                    i as int,
                ));
            }
            if elapsed_ms(d.last_seen_ms, now_ms) <= window_ms {
                let row = self.row(d, now_ms);
                proof {
                    vstd::seq_lib::to_multiset_build(
                        listed(
                            self.devices@.subrange(0, i as int),
                            self.blocked(),
                            self.ssid_cache(),
                            self.channel_cache(),
                            window_ms,
                            now_ms,
                        ),
                        row@,
                    );
                }
                insert_in_order(&mut out, row);
            }
            i += 1;
        }
        assert(self.devices@.subrange(0, self.devices@.len() as int) =~= self.devices@);
        out
    }

    /// Neither supplied address is on the blocklist.
    pub open spec fn allows_spec(&self, src: Option<Mac>, bssid: Option<Mac>) -> bool {
        !((src is Some && self.blocked().contains(src->0)) || (bssid is Some
            && self.blocked().contains(bssid->0)))
    }

    /// False when either supplied address is on the blocklist.
    pub fn allows(&self, src: Option<Mac>, bssid: Option<Mac>) -> (r: bool)
        ensures
            r == self.allows_spec(src, bssid),
    {
        if let Some(mac) = src {
            if self.is_blocked(&mac) {
                return false;
            }
        }
        if let Some(id) = bssid {
            if self.is_blocked(&id) {
                return false;
            }
        }
        true
    }

    /// Applies allow (`true`) / deny (`false`) toggles in order.
    pub fn set_many(&mut self, toggles: &[(Mac, bool)])
        ensures
            final(self).blocked() == toggled(old(self).blocked(), toggles@),
            final(self).devices() == old(self).devices(),
            final(self).ssid_cache() == old(self).ssid_cache(),
            final(self).channel_cache() == old(self).channel_cache(),
    {
        let mut i: usize = 0;
        while i < toggles.len()
            invariant
                i <= toggles@.len(),
                self.blocked() == toggled(old(self).blocked(), toggles@.subrange(0, i as int)),
                self.devices() == old(self).devices(),
                self.ssid_cache() == old(self).ssid_cache(),
                self.channel_cache() == old(self).channel_cache(),
            decreases toggles@.len() - i,
        {
            let (mac, allowed) = toggles[i];
            proof {
                assert(toggles@.subrange(0, i + 1).drop_last() =~= toggles@.subrange(0, i as int));
            }
            self.blocked.insert(mac, !allowed);
            i += 1;
            proof {
                let prev = toggled(old(self).blocked(), toggles@.subrange(0, i - 1));
                if allowed {
                    assert(self.blocked() =~= prev.remove(mac));
                } else {
                    assert(self.blocked() =~= prev.insert(mac));
                }
            }
        }
        assert(toggles@.subrange(0, toggles@.len() as int) =~= toggles@);
    }

    /// Zeroes every frame counter; everything else is kept.
    pub fn reset_counts(&mut self)
        ensures
            final(self).devices().len() == old(self).devices().len(),
            forall|i: int|
                0 <= i < old(self).devices().len() ==> #[trigger] final(self).devices()[i] == (
                TrackedDevice { frames: 0, ..old(self).devices()[i] }),
            final(self).blocked() == old(self).blocked(),
            final(self).ssid_cache() == old(self).ssid_cache(),
            final(self).channel_cache() == old(self).channel_cache(),
    {
        let mut i: usize = 0;
        while i < self.devices.len()
            invariant
                i <= self.devices@.len(),
                self.devices@.len() == old(self).devices@.len(),
                forall|j: int|
                    0 <= j < i ==> #[trigger] self.devices@[j] == (TrackedDevice {
                        frames: 0,
                        ..old(self).devices@[j]
                    }),
                forall|j: int| i <= j < self.devices@.len() ==> #[trigger] self.devices@[j] == old(self).devices@[j],
                self.blocked == old(self).blocked,
                self.ssid_cache == old(self).ssid_cache,
                self.channel_cache == old(self).channel_cache,
            decreases self.devices@.len() - i,
        {
            let cur = &self.devices[i];
            let d = TrackedDevice {
                mac: cur.mac,
                bssid: cur.bssid,
                role: cur.role,
                last_seen_ms: cur.last_seen_ms,
                last_rssi: cur.last_rssi,
                frames: 0,
                ssid: clone_text(&cur.ssid),
                channel: cur.channel,
            };
            self.devices.set(i, d);
            i += 1;
        }
    }
}

/// Inserts `v` after every row that does not come strictly after it.
fn insert_in_order(out: &mut Vec<DeviceView>, v: DeviceView)
    requires
        in_snapshot_order(models(old(out)@)),
    ensures
        in_snapshot_order(models(final(out)@)),
        models(final(out)@).to_multiset() == models(old(out)@).to_multiset().insert(v@),
{
    let rank_v = role_rank(&v.role);
    let mut p: usize = 0;
    let mut stop = false;
    while p < out.len() && !stop
        invariant
            p <= out@.len(),
            out@ == old(out)@,
            rank_v == rank(v.role),
            stop ==> p < out@.len() && strictly_before(v@, out@[p as int]@),
            forall|j: int| 0 <= j < p ==> !strictly_before(v@, (#[trigger] out@[j])@),
        decreases out@.len() - p + if stop { 0int } else { 1int },
    {
        let r = role_rank(&out[p].role);
        let f = out[p].frames;
        if rank_v < r || (rank_v == r && v.frames > f) {
            stop = true;
        } else {
            p += 1;
        }
    }
    let ghost m0 = models(out@);
    let ghost vm = v@;
    proof {
        assert forall|j: int| 0 <= j < p implies !strictly_before(vm, #[trigger] m0[j]) by {
            assert(m0[j] == out@[j]@);
        }
        if p < m0.len() {
            assert(m0[p as int] == out@[p as int]@);
        }
    }
    out.insert(p, v);
    proof {
        let m1 = models(out@);
        assert(m1 =~= m0.insert(p as int, vm));
        vstd::seq_lib::to_multiset_insert(m0, p as int, vm);
        assert forall|i: int, j: int| 0 <= i < j < m1.len() implies precedes(
            #[trigger] m1[i],
            #[trigger] m1[j],
        ) by {
            if j < p {
                assert(precedes(m0[i], m0[j]));
            } else if j == p {
                assert(!strictly_before(vm, m0[i]));
            } else if i == p {
                assert(precedes(m0[p as int], m0[j - 1]) || j - 1 == p);
            } else if i < p {
                assert(precedes(m0[i], m0[j - 1]));
            } else {
                assert(precedes(m0[i - 1], m0[j - 1]));
            }
        }
    }
}

} // verus!
