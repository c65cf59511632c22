use vstd::prelude::*;
use std::collections::HashMap;

use crate::events::Mac;

verus! {

broadcast use vstd::std_specs::hash::group_hash_axioms;

/// An address packed into the low 48 bits of an integer, first byte highest.
pub open spec fn mac_key(m: Mac) -> u64 {
    ((m[0] as u64) << 40u64) | ((m[1] as u64) << 32u64) | ((m[2] as u64) << 24u64) | ((
    m[3] as u64) << 16u64) | ((m[4] as u64) << 8u64) | (m[5] as u64)
}

proof fn lemma_key_bytes(a: u64, b: u64, c: u64, d: u64, e: u64, f: u64)
    requires
        a < 256 && b < 256 && c < 256 && d < 256 && e < 256 && f < 256,
    ensures
        ({
            let x = (a << 40u64) | (b << 32u64) | (c << 24u64) | (d << 16u64) | (e << 8u64) | f;
            &&& (x >> 40u64) & 0xffu64 == a
            &&& (x >> 32u64) & 0xffu64 == b
            &&& (x >> 24u64) & 0xffu64 == c
            &&& (x >> 16u64) & 0xffu64 == d
            &&& (x >> 8u64) & 0xffu64 == e
            &&& x & 0xffu64 == f
            &&& x < 0x1_0000_0000_0000u64
        }),
{
    let x = (a << 40u64) | (b << 32u64) | (c << 24u64) | (d << 16u64) | (e << 8u64) | f;
    assert((x >> 40u64) & 0xffu64 == a) by (bit_vector)
        requires
            a < 256 && b < 256 && c < 256 && d < 256 && e < 256 && f < 256,
            x == (a << 40u64) | (b << 32u64) | (c << 24u64) | (d << 16u64) | (e << 8u64) | f,
    ;
    assert((x >> 32u64) & 0xffu64 == b) by (bit_vector)
        requires
            a < 256 && b < 256 && c < 256 && d < 256 && e < 256 && f < 256,
            x == (a << 40u64) | (b << 32u64) | (c << 24u64) | (d << 16u64) | (e << 8u64) | f,
    ;
    assert((x >> 24u64) & 0xffu64 == c) by (bit_vector)
        requires
            a < 256 && b < 256 && c < 256 && d < 256 && e < 256 && f < 256,
            x == (a << 40u64) | (b << 32u64) | (c << 24u64) | (d << 16u64) | (e << 8u64) | f,
    ;
    assert((x >> 16u64) & 0xffu64 == d) by (bit_vector)
        requires
            a < 256 && b < 256 && c < 256 && d < 256 && e < 256 && f < 256,
            x == (a << 40u64) | (b << 32u64) | (c << 24u64) | (d << 16u64) | (e << 8u64) | f,
    ;
    assert((x >> 8u64) & 0xffu64 == e) by (bit_vector)
        requires
            a < 256 && b < 256 && c < 256 && d < 256 && e < 256 && f < 256,
            x == (a << 40u64) | (b << 32u64) | (c << 24u64) | (d << 16u64) | (e << 8u64) | f,
    ;
    assert(x & 0xffu64 == f) by (bit_vector)
        requires
            a < 256 && b < 256 && c < 256 && d < 256 && e < 256 && f < 256,
            x == (a << 40u64) | (b << 32u64) | (c << 24u64) | (d << 16u64) | (e << 8u64) | f,
    ;
    assert(x < 0x1_0000_0000_0000u64) by (bit_vector)
        requires
            a < 256 && b < 256 && c < 256 && d < 256 && e < 256 && f < 256,
            x == (a << 40u64) | (b << 32u64) | (c << 24u64) | (d << 16u64) | (e << 8u64) | f,
    ;
}

/// Keys fit in 48 bits.
pub proof fn lemma_mac_key_bound(m: Mac)
    ensures
        mac_key(m) < 0x1_0000_0000_0000u64,
{
    lemma_key_bytes(
        m[0] as u64,
        m[1] as u64,
        m[2] as u64,
        m[3] as u64,
        m[4] as u64,
        m[5] as u64,
    );
}

/// Distinct addresses have distinct keys.
pub proof fn lemma_mac_key_injective(p: Mac, q: Mac)
    requires
        mac_key(p) == mac_key(q),
    ensures
        p == q,
{
    lemma_key_bytes(
        p[0] as u64,
        p[1] as u64,
        p[2] as u64,
        p[3] as u64,
        p[4] as u64,
        p[5] as u64,
    );
    lemma_key_bytes(
        q[0] as u64,
        q[1] as u64,
        q[2] as u64,
        q[3] as u64,
        q[4] as u64,
        q[5] as u64,
    );
    assert(p@ =~= q@);
    vstd::array::axiom_array_ext_equal(p, q);
}

pub(crate) fn key_of(m: &Mac) -> (r: u64)
    ensures
        r == mac_key(*m),
{
    ((m[0] as u64) << 40u64) | ((m[1] as u64) << 32u64) | ((m[2] as u64) << 24u64) | ((
    m[3] as u64) << 16u64) | ((m[4] as u64) << 8u64) | (m[5] as u64)
}

/// A table keyed by hardware address, held in a hash map under `mac_key`.
#[derive(Debug)]
pub struct MacMap<V> {
    entries: HashMap<u64, V>,
}

impl<V> View for MacMap<V> {
    type V = Map<Mac, V>;

    closed spec fn view(&self) -> Map<Mac, V> {
        Map::new(
            |k: Mac| self.entries@.contains_key(mac_key(k)),
            |k: Mac| self.entries@[mac_key(k)],
        )
    }
}

impl<V> MacMap<V> {
    pub fn new() -> (r: Self)
        ensures
            r@ == Map::<Mac, V>::empty(),
    {
        let r = MacMap { entries: HashMap::new() };
        assert(r@ =~= Map::<Mac, V>::empty());
        r
    }

    pub fn get(&self, k: &Mac) -> (r: Option<&V>)
        ensures
            match r {
                Some(v) => self@.contains_key(*k) && self@[*k] == *v,
                None => !self@.contains_key(*k),
            },
    {
        let key = key_of(k);
        self.entries.get(&key)
    }

    pub fn insert(&mut self, k: Mac, v: V)
        ensures
            final(self)@ == old(self)@.insert(k, v),
    {
        let key = key_of(&k);
        self.entries.insert(key, v);
        proof {
            assert forall|q: Mac| #[trigger] self@.contains_key(q) == old(self)@.insert(
                k,
                v,
            ).contains_key(q) && (self@.contains_key(q) ==> self@[q] == old(self)@.insert(
                k,
                v,
            )[q]) by {
                if mac_key(q) == key {
                    lemma_mac_key_injective(q, k);
                }
            }
            assert(self@ =~= old(self)@.insert(k, v));
        }
    }
}

} // verus!
