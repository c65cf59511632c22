use vstd::prelude::*;
use vstd::string::*;
use vstd::utf8::{decode_utf8, valid_utf8};

use crate::events::Mac;
use crate::radiotap::{
    le16, radiotap_channel, radiotap_dbm, radiotap_signal, read_le16, rt_len, FULL_GAIN,
};
use crate::text::{bytes_hex, push_bytes_hex};

verus! {

/// Frame type: 0 management, 1 control, 2 data.
pub open spec fn frame_type(fc: u16) -> u16 {
    (fc >> 2u16) & 0x3u16
}

pub open spec fn frame_subtype(fc: u16) -> u16 {
    (fc >> 4u16) & 0xFu16
}

pub open spec fn retry_bit(fc: u16) -> bool {
    fc & 0x0800u16 != 0
}

pub open spec fn to_ds(fc: u16) -> bool {
    fc & 0x0100u16 != 0
}

pub open spec fn from_ds(fc: u16) -> bool {
    fc & 0x0200u16 != 0
}

/// MAC header length: 10 for control frames, 26 for QoS data, 24 otherwise.
pub open spec fn header_len(fc: u16) -> int {
    if frame_type(fc) == 1 {
        10
    } else if frame_type(fc) == 2 && frame_subtype(fc) & 0x08u16 != 0 {
        26
    } else {
        24
    }
}

/// The frame-control field of a capture whose MAC frame starts at `rt_len`.
pub open spec fn fc_of(d: Seq<u8>) -> u16 {
    le16(d[rt_len(d)], d[rt_len(d) + 1])
}

/// Whether a capture holds a radiotap header and a complete MAC header.
pub open spec fn parseable(d: Seq<u8>) -> bool {
    &&& d.len() >= 4
    &&& d.len() >= rt_len(d) + 10
    &&& d.len() - rt_len(d) >= header_len(fc_of(d))
}

/// BSSID selection: management frames use addr3; data frames choose by the
/// (to-DS, from-DS) bits; everything else has none.
pub open spec fn bssid_for(fc: u16, a1: Option<Mac>, a2: Option<Mac>, a3: Option<Mac>) -> Option<Mac> {
    if frame_type(fc) == 0 {
        a3
    } else if frame_type(fc) == 2 {
        match (to_ds(fc), from_ds(fc)) {
            (false, false) => a3,
            (false, true) => a2,
            (true, false) => a1,
            (true, true) => None,
        }
    } else {
        None
    }
}

pub open spec fn addr_view(a: Option<Mac>) -> Option<Seq<u8>> {
    match a {
        Some(m) => Some(m@),
        None => None,
    }
}

/// Where information elements begin in a management body, by subtype.
pub open spec fn ie_start(subtype: u16, len: int) -> Option<int> {
    if subtype == 8 || subtype == 5 {
        if len < 12 {
            None
        } else {
            Some(12)
        }
    } else if subtype == 4 {
        Some(0)
    } else {
        None
    }
}

/// Body position and length of the first element tagged `tag` with at least
/// `min_len` body bytes, walking complete elements from `idx`.
pub open spec fn find_ie(p: Seq<u8>, idx: int, tag: u8, min_len: int) -> Option<(int, int)>
    decreases p.len() - idx,
{
    if idx < 0 || idx + 2 > p.len() {
        None
    } else {
        let len = p[idx + 1] as int;
        let body = idx + 2;
        if body + len > p.len() {
            None
        } else if p[idx] == tag && len >= min_len {
            Some((body, len))
        } else {
            find_ie(p, body + len, tag, min_len)
        }
    }
}

/// Display text of SSID bytes: a sentinel when empty, the text when it is
/// UTF-8, else `0x` and upper-case hexadecimal.
pub open spec fn ssid_text(b: Seq<u8>) -> Seq<char> {
    if b.len() == 0 {
        hidden_ssid()
    } else if valid_utf8(b) {
        decode_utf8(b)
    } else {
        seq!['0', 'x'] + bytes_hex(b)
    }
}

pub open spec fn hidden_ssid() -> Seq<char> {
    seq!['<', 'h', 'i', 'd', 'd', 'e', 'n', '>']
}

/// The SSID element of a management body.
pub open spec fn ssid_of(kind: u16, subtype: u16, p: Seq<u8>) -> Option<Seq<char>> {
    if kind != 0 {
        None
    } else {
        match ie_start(subtype, p.len() as int) {
            None => None,
            Some(start) => match find_ie(p, start, 0, 0) {
                None => None,
                Some((b, l)) => Some(ssid_text(p.subrange(b, b + l))),
            },
        }
    }
}

/// The channel of the DS-parameter element of a management body.
pub open spec fn ds_channel_of(subtype: u16, p: Seq<u8>) -> Option<u16> {
    match ie_start(subtype, p.len() as int) {
        None => None,
        Some(start) => match find_ie(p, start, 3, 1) {
            None => None,
            Some((b, l)) => Some(p[b] as u16),
        },
    }
}

/// LLC/SNAP header announcing EAPOL (ethertype 0x888E).
pub open spec fn eapol_snap() -> Seq<u8> {
    seq![0xAAu8, 0xAAu8, 0x03u8, 0x00u8, 0x00u8, 0x00u8, 0x88u8, 0x8Eu8]
}

/// EAPOL detection: the data payload, which begins right after the 24-byte
/// (26 for QoS) MAC header, opens with the EAPOL LLC/SNAP header.
pub open spec fn eapol_at(p: Seq<u8>) -> bool {
    p.len() >= 8 && p.subrange(0, 8) == eapol_snap()
}

/// A decoded capture: header fields, addresses, payload and signal metadata.
#[derive(Debug)]
pub struct ParsedFrame<'a> {
    pub fc: u16,
    pub header_len: usize,
    pub payload: &'a [u8],
    pub addr1: Option<Mac>,
    pub addr2: Option<Mac>,
    pub addr3: Option<Mac>,
    pub bssid: Option<Mac>,
    pub gain_milli: u16,
    pub signal_dbm: Option<i8>,
    pub ssid: Option<String>,
    pub channel: Option<u16>,
}

/// What decoding capture `d` yields.
pub open spec fn decoded_as(d: Seq<u8>, f: ParsedFrame) -> bool {
    let rt = rt_len(d);
    let fc = fc_of(d);
    let hl = header_len(fc);
    let flen = d.len() - rt;
    &&& f.fc == fc
    &&& f.header_len == hl
    &&& f.payload@ == d.subrange(rt + hl, d.len() as int)
    &&& addr_view(f.addr1) == Some(d.subrange(rt + 4, rt + 10))
    &&& addr_view(f.addr2) == if flen >= 16 {
        Some(d.subrange(rt + 10, rt + 16))
    } else {
        None::<Seq<u8>>
    }
    &&& addr_view(f.addr3) == if hl >= 16 {
        Some(d.subrange(rt + 16, rt + 22))
    } else {
        None::<Seq<u8>>
    }
    &&& f.bssid == bssid_for(fc, f.addr1, f.addr2, f.addr3)
    &&& f.signal_dbm == radiotap_dbm(d)
    &&& f.gain_milli == match radiotap_dbm(d) {
        Some(x) => crate::radiotap::gain_of(x),
        None => FULL_GAIN,
    }
    &&& opt_chars(f.ssid) == ssid_of(frame_type(fc), frame_subtype(fc), f.payload@)
    &&& f.channel == if frame_type(fc) == 0 && ds_channel_of(frame_subtype(fc), f.payload@) is Some {
        ds_channel_of(frame_subtype(fc), f.payload@)
    } else {
        radiotap_channel(d)
    }
}

pub open spec fn opt_chars(s: Option<String>) -> Option<Seq<char>> {
    match s {
        Some(x) => Some(x@),
        None => None,
    }
}

/// Copies six bytes starting at `at` into an address.
pub fn to_mac(bytes: &[u8], at: usize) -> (r: Mac)
    requires
        at + 6 <= bytes@.len(),
    ensures
        r@ == bytes@.subrange(at as int, at + 6),
{
    let r: Mac = [
        bytes[at],
        bytes[at + 1],
        bytes[at + 2],
        bytes[at + 3],
        bytes[at + 4],
        bytes[at + 5],
    ];
    assert(r@ =~= bytes@.subrange(at as int, at + 6));
    r
}

pub fn mgmt_ie_start(subtype: u16, payload: &[u8]) -> (r: Option<usize>)
    ensures
        match r {
            Some(i) => ie_start(subtype, payload@.len() as int) == Some(i as int),
            None => ie_start(subtype, payload@.len() as int) is None,
        },
{
    match subtype {
        8 | 5 => {
            if payload.len() < 12 {
                None
            } else {
                Some(12)
            }
        },
        4 => Some(0),
        _ => None,
    }
}

/// Walks complete elements from `start` and returns the body position and
/// length of the first one tagged `tag` with at least `min_len` body bytes.
fn find_element(payload: &[u8], start: usize, tag: u8, min_len: usize) -> (r: Option<(usize, usize)>)
    ensures
        match r {
            Some((b, l)) => find_ie(payload@, start as int, tag, min_len as int) == Some(
                (b as int, l as int),
            ),
            None => find_ie(payload@, start as int, tag, min_len as int) is None,
        },
        r matches Some((b, l)) ==> b + l <= payload@.len() <= usize::MAX && l >= min_len,
{
    let mut idx = start;
    while idx <= payload.len() && payload.len() - idx >= 2
        invariant
            find_ie(payload@, idx as int, tag, min_len as int) == find_ie(
                payload@,
                start as int,
                tag,
                min_len as int,
            ),
        decreases payload@.len() - idx,
    {
        let id = payload[idx];
        let len = payload[idx + 1] as usize;
        let body = idx + 2;
        if len > payload.len() - body {
            return None;
        }
        if id == tag && len >= min_len {
            return Some((body, len));
        }
        idx = body + len;
    }
    None
}

/// Relies on `std::str::from_utf8`: it accepts exactly the well-formed UTF-8
/// byte sequences, whose text is then their decoding.
#[verifier::external_body]
fn utf8_text(bytes: &[u8]) -> (r: Option<String>)
    ensures
        r is Some <==> valid_utf8(bytes@),
        r matches Some(s) ==> s@ == decode_utf8(bytes@),
{
    match std::str::from_utf8(bytes) {
        Ok(s) => Some(s.to_string()),
        Err(_) => None,
    }
}

/// Display text of SSID bytes (always present).
pub fn decode_ssid(bytes: &[u8]) -> (r: Option<String>)
    ensures
        r matches Some(s) && s@ == ssid_text(bytes@),
{
    if bytes.len() == 0 {
        proof {
            reveal_strlit("<hidden>");
        }
        let s = String::from_str("<hidden>");
        assert(s@ =~= hidden_ssid());
        return Some(s);
    }
    match utf8_text(bytes) {
        Some(s) => Some(s),
        None => {
            proof {
                reveal_strlit("0x");
            }
            let mut hex = String::from_str("0x");
            push_bytes_hex(&mut hex, bytes);
            assert(hex@ =~= seq!['0', 'x'] + bytes_hex(bytes@));
            Some(hex)
        },
    }
}

/// The SSID element of a management frame body.
pub fn parse_ssid(kind: u16, subtype: u16, payload: &[u8]) -> (r: Option<String>)
    ensures
        opt_chars(r) == ssid_of(kind, subtype, payload@),
{
    if kind != 0 {
        return None;
    }
    let start = match mgmt_ie_start(subtype, payload) {
        Some(s) => s,
        None => return None,
    };
    match find_element(payload, start, 0, 0) {
        Some((b, l)) => {
            let end: usize = b + l;
            let raw = &payload[b..end];
            decode_ssid(raw)
        },
        None => None,
    }
}

/// The channel of the DS-parameter element of a management frame body.
pub fn parse_ds_channel(subtype: u16, payload: &[u8]) -> (r: Option<u16>)
    ensures
        r == ds_channel_of(subtype, payload@),
{
    let start = match mgmt_ie_start(subtype, payload) {
        Some(s) => s,
        None => return None,
    };
    match find_element(payload, start, 3, 1) {
        Some((b, l)) => Some(payload[b] as u16),
        None => None,
    }
}

/// Whether a data payload opens with the EAPOL LLC/SNAP header.
pub fn is_eapol(payload: &[u8]) -> (r: bool)
    ensures
        r == eapol_at(payload@),
{
    if payload.len() < 8 {
        return false;
    }
    let ok = payload[0] == 0xAA && payload[1] == 0xAA && payload[2] == 0x03 && payload[3] == 0x00
        && payload[4] == 0x00 && payload[5] == 0x00 && payload[6] == 0x88 && payload[7] == 0x8E;
    proof {
        let head = payload@.subrange(0, 8);
        if ok {
            assert(head =~= eapol_snap());
        } else if head == eapol_snap() {
            assert(head[0] == eapol_snap()[0]);
            assert(head[1] == eapol_snap()[1]);
            assert(head[2] == eapol_snap()[2]);
            assert(head[3] == eapol_snap()[3]);
            assert(head[4] == eapol_snap()[4]);
            assert(head[5] == eapol_snap()[5]);
            assert(head[6] == eapol_snap()[6]);
            assert(head[7] == eapol_snap()[7]);
        }
    }
    ok
}

/// Decodes one capture: radiotap length at bytes 2..4, then the MAC header,
/// addresses, BSSID, payload, signal metadata, SSID and channel. Truncated or
/// malformed input yields `None`.
pub fn parse_radiotap_and_frame(data: &[u8]) -> (r: Option<ParsedFrame<'_>>)
    ensures
        r is Some <==> parseable(data@),
        r matches Some(f) ==> decoded_as(data@, f),
{
    if data.len() < 4 {
        return None;
    }
    let rt = read_le16(data[2], data[3]) as usize;
    if data.len() < rt + 10 {
        return None;
    }
    let flen = data.len() - rt;
    let fc = read_le16(data[rt], data[rt + 1]);
    let kind_bits = (fc >> 2u16) & 0x3u16;
    let subtype = (fc >> 4u16) & 0xFu16;
    let has_qos = kind_bits == 2 && (subtype & 0x08u16 != 0);
    let hl: usize = if kind_bits == 1 {
        10
    } else if has_qos {
        26
    } else {
        24
    };
    if flen < hl {
        return None;
    }
    let addr1 = Some(to_mac(data, rt + 4));
    let addr2 = if flen >= 16 {
        Some(to_mac(data, rt + 10))
    } else {
        None
    };
    let addr3 = if hl >= 16 {
        Some(to_mac(data, rt + 16))
    } else {
        None
    };
    let bssid = if kind_bits == 0 {
        addr3
    } else if kind_bits == 2 {
        let tods = fc & 0x0100u16 != 0;
        let fromds = fc & 0x0200u16 != 0;
        match (tods, fromds) {
            (false, false) => addr3,
            (false, true) => addr2,
            (true, false) => addr1,
            (true, true) => None,
        }
    } else {
        None
    };
    let payload = &data[rt + hl..data.len()];
    let signal = radiotap_signal(data);
    let (gain_milli, signal_dbm, mut channel) = match signal {
        Some(s) => (s.gain_milli, s.dbm, s.channel),
        None => (FULL_GAIN, None, None),
    };
    let ssid = parse_ssid(kind_bits, subtype, payload);
    if kind_bits == 0 {
        if let Some(ds) = parse_ds_channel(subtype, payload) {
            channel = Some(ds);
        }
    }
    Some(
        ParsedFrame {
            fc,
            header_len: hl,
            payload,
            addr1,
            addr2,
            addr3,
            bssid,
            gain_milli,
            signal_dbm,
            ssid,
            channel,
        },
    )
}

/// A payload is EAPOL only with every byte of the LLC/SNAP header in place:
/// changing any one of them (the ethertype, say) makes it ordinary data.
pub proof fn lemma_eapol_needs_every_byte(p: Seq<u8>, k: int, b: u8)
    requires
        eapol_at(p),
        0 <= k < 8,
        b != eapol_snap()[k],
    ensures
        !eapol_at(p.update(k, b)),
{
    let q = p.update(k, b);
    assert(q.subrange(0, 8)[k] == b);
}

/// Inputs shorter than four bytes, or whose declared radiotap length leaves
/// no room for a MAC header, are never decodable.
pub proof fn lemma_truncated_unparseable(d: Seq<u8>)
    requires
        d.len() < 4 || rt_len(d) + 10 > d.len(),
    ensures
        !parseable(d),
{
}

} // verus!
