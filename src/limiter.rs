use vstd::prelude::*;
use std::collections::HashMap;

use crate::events::{elapsed, elapsed_ms, index_of_kind, kind_index, EventKind, RateKey};
use crate::macmap::{key_of, lemma_mac_key_bound, lemma_mac_key_injective, mac_key};

verus! {

broadcast use vstd::std_specs::hash::group_hash_axioms;

pub open spec fn variant_code(k: RateKey) -> u128 {
    match k {
        RateKey::NoKey => 0,
        RateKey::Bssid(_) => 1,
        RateKey::Tx(_) => 2,
        RateKey::Pair(_, _) => 3,
    }
}

pub open spec fn first_key(k: RateKey) -> u128 {
    match k {
        RateKey::NoKey => 0,
        RateKey::Bssid(m) => mac_key(m) as u128,
        RateKey::Tx(m) => mac_key(m) as u128,
        RateKey::Pair(m, _) => mac_key(m) as u128,
    }
}

pub open spec fn second_key(k: RateKey) -> u128 {
    match k {
        RateKey::Pair(_, m) => mac_key(m) as u128,
        _ => 0,
    }
}

/// (kind, key) packed into one integer: kind above bit 100, the key's
/// variant at bits 96..98, then its one or two addresses in 48 bits each.
pub open spec fn rate_slot(kind: EventKind, key: RateKey) -> u128 {
    ((kind_index(kind) as u128) << 100u128) | (variant_code(key) << 96u128) | (first_key(key)
        << 48u128) | second_key(key)
}

proof fn lemma_slot_fields(a: u128, b: u128, c: u128, d: u128)
    requires
        a < 16 && b < 4 && c < 0x1_0000_0000_0000u128 && d < 0x1_0000_0000_0000u128,
    ensures
        ({
            let x = (a << 100u128) | (b << 96u128) | (c << 48u128) | d;
            &&& (x >> 100u128) & 0xfu128 == a
            &&& (x >> 96u128) & 0x3u128 == b
            &&& (x >> 48u128) & 0xffff_ffff_ffffu128 == c
            &&& x & 0xffff_ffff_ffffu128 == d
        }),
{
    let x = (a << 100u128) | (b << 96u128) | (c << 48u128) | d;
    assert((x >> 100u128) & 0xfu128 == a) by (bit_vector)
        requires
            a < 16 && b < 4 && c < 0x1_0000_0000_0000u128 && d < 0x1_0000_0000_0000u128,
            x == (a << 100u128) | (b << 96u128) | (c << 48u128) | d,
    ;
    assert((x >> 96u128) & 0x3u128 == b) by (bit_vector)
        requires
            a < 16 && b < 4 && c < 0x1_0000_0000_0000u128 && d < 0x1_0000_0000_0000u128,
            x == (a << 100u128) | (b << 96u128) | (c << 48u128) | d,
    ;
    assert((x >> 48u128) & 0xffff_ffff_ffffu128 == c) by (bit_vector)
        requires
            a < 16 && b < 4 && c < 0x1_0000_0000_0000u128 && d < 0x1_0000_0000_0000u128,
            x == (a << 100u128) | (b << 96u128) | (c << 48u128) | d,
    ;
    assert(x & 0xffff_ffff_ffffu128 == d) by (bit_vector)
        requires
            a < 16 && b < 4 && c < 0x1_0000_0000_0000u128 && d < 0x1_0000_0000_0000u128,
            x == (a << 100u128) | (b << 96u128) | (c << 48u128) | d,
    ;
}

proof fn lemma_key_parts_bounded(k: RateKey)
    ensures
        variant_code(k) < 4,
        first_key(k) < 0x1_0000_0000_0000u128,
        second_key(k) < 0x1_0000_0000_0000u128,
{
    match k {
        RateKey::NoKey => {},
        RateKey::Bssid(m) => lemma_mac_key_bound(m),
        RateKey::Tx(m) => lemma_mac_key_bound(m),
        RateKey::Pair(m, n) => {
            lemma_mac_key_bound(m);
            lemma_mac_key_bound(n);
        },
    }
}

/// Distinct (kind, key) pairs have distinct slots.
pub proof fn lemma_rate_slot_injective(k1: EventKind, q1: RateKey, k2: EventKind, q2: RateKey)
    requires
        rate_slot(k1, q1) == rate_slot(k2, q2),
    ensures
        k1 == k2 && q1 == q2,
{
    lemma_key_parts_bounded(q1);
    lemma_key_parts_bounded(q2);
    lemma_slot_fields(kind_index(k1) as u128, variant_code(q1), first_key(q1), second_key(q1));
    lemma_slot_fields(kind_index(k2) as u128, variant_code(q2), first_key(q2), second_key(q2));
    match (q1, q2) {
        (RateKey::Bssid(a), RateKey::Bssid(b)) => lemma_mac_key_injective(a, b),
        (RateKey::Tx(a), RateKey::Tx(b)) => lemma_mac_key_injective(a, b),
        (RateKey::Pair(a, c), RateKey::Pair(b, d)) => {
            lemma_mac_key_injective(a, b);
            lemma_mac_key_injective(c, d);
        },
        _ => {},
    }
}

fn slot_of(kind: &EventKind, key: &RateKey) -> (r: u128)
    ensures
        r == rate_slot(*kind, *key),
{
    let (v, a, b): (u128, u128, u128) = match key {
        RateKey::NoKey => (0, 0, 0),
        RateKey::Bssid(m) => (1, key_of(m) as u128, 0),
        RateKey::Tx(m) => (2, key_of(m) as u128, 0),
        RateKey::Pair(m, n) => (3, key_of(m) as u128, key_of(n) as u128),
    };
    ((index_of_kind(*kind) as u128) << 100u128) | (v << 96u128) | (a << 48u128) | b
}

/// Per-(kind, key) minimum-gap limiter. It remembers one timestamp for every
/// distinct (kind, key) it has ever allowed and never forgets any of them, so
/// it grows for as long as new identities keep appearing.
#[derive(Clone, Debug)]
pub struct RateLimiter {
    last_seen: HashMap<u128, u64>,
}

impl View for RateLimiter {
    type V = Map<(EventKind, RateKey), u64>;

    closed spec fn view(&self) -> Map<(EventKind, RateKey), u64> {
        Map::new(
            |p: (EventKind, RateKey)| self.last_seen@.contains_key(rate_slot(p.0, p.1)),
            |p: (EventKind, RateKey)| self.last_seen@[rate_slot(p.0, p.1)],
        )
    }
}

/// Whether an event of `kind` with `key` may sound at `now` given the
/// remembered times `m`.
pub open spec fn gap_ok(m: Map<(EventKind, RateKey), u64>, kind: EventKind, key: RateKey, min_gap_ms: u64, now: u64) -> bool {
    !m.contains_key((kind, key)) || elapsed(m[(kind, key)], now) >= min_gap_ms
}

impl RateLimiter {
    pub fn new() -> (r: Self)
        ensures
            r@ == Map::<(EventKind, RateKey), u64>::empty(),
    {
        let r = RateLimiter { last_seen: HashMap::new() };
        assert(r@ =~= Map::<(EventKind, RateKey), u64>::empty());
        r
    }

    /// Allows the event unless less than `min_gap_ms` has passed since the last
    /// allowed event of the same kind and key; an allowed event records `now_ms`.
    pub fn allow(&mut self, kind: &EventKind, key: RateKey, min_gap_ms: u64, now_ms: u64) -> (r: bool)
        ensures
            r == gap_ok(old(self)@, *kind, key, min_gap_ms, now_ms),
            final(self)@ == if r { old(self)@.insert((*kind, key), now_ms) } else { old(self)@ },
    {
        let slot = slot_of(kind, &key);
        match self.last_seen.get(&slot) {
            Some(last) => {
                if elapsed_ms(*last, now_ms) < min_gap_ms {
                    return false;
                }
            },
            None => {},
        }
        self.last_seen.insert(slot, now_ms);
        proof {
            let m1 = old(self)@.insert((*kind, key), now_ms);
            assert forall|p: (EventKind, RateKey)| #[trigger] self@.contains_key(p)
                == m1.contains_key(p) && (self@.contains_key(p) ==> self@[p] == m1[p]) by {
                if rate_slot(p.0, p.1) == slot {
                    lemma_rate_slot_injective(p.0, p.1, *kind, key);
                }
            }
            assert(self@ =~= m1);
        }
        true
    }
}

/// A (kind, key) never allowed before is allowed; once allowed at `t0`, it is
/// refused at `t1` while less than `gap` has elapsed and allowed again once
/// `gap` has elapsed. Other keys are unaffected by the recorded time.
pub proof fn lemma_min_gap(
    m: Map<(EventKind, RateKey), u64>,
    kind: EventKind,
    key: RateKey,
    gap: u64,
    t0: u64,
    t1: u64,
    other: (EventKind, RateKey),
)
    requires
        !m.contains_key((kind, key)),
        other != (kind, key),
    ensures
        gap_ok(m, kind, key, gap, t0),
        elapsed(t0, t1) < gap ==> !gap_ok(m.insert((kind, key), t0), kind, key, gap, t1),
        elapsed(t0, t1) >= gap ==> gap_ok(m.insert((kind, key), t0), kind, key, gap, t1),
        gap_ok(m.insert((kind, key), t0), other.0, other.1, gap, t1) == gap_ok(
            m,
            other.0,
            other.1,
            gap,
            t1,
        ),
{
    assert(m.insert((kind, key), t0).contains_key((kind, key)));
}

} // verus!
