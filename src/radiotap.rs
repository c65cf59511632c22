use vstd::prelude::*;

verus! {

/// Little-endian 16-bit value of two bytes.
pub open spec fn le16(lo: u8, hi: u8) -> u16 {
    (lo + 256 * hi) as u16
}

pub fn read_le16(lo: u8, hi: u8) -> (r: u16)
    ensures
        r == le16(lo, hi),
{
    lo as u16 + (hi as u16) * 256
}

/// Declared radiotap header length (bytes 2..4).
pub open spec fn rt_len(d: Seq<u8>) -> int
    recommends
        d.len() >= 4,
{
    le16(d[2], d[3]) as int
}

/// The radiotap present bitmask (bytes 4..8, little-endian).
pub open spec fn present_mask(d: Seq<u8>) -> u32
    recommends
        d.len() >= 8,
{
    (d[4] + 256 * d[5] + 65536 * d[6] + 16777216 * d[7]) as u32
}

pub open spec fn has_field(present: u32, bit: u32) -> bool {
    present & (1u32 << bit) != 0
}

/// `o` rounded up to a multiple of `a`.
pub open spec fn align_up(o: int, a: int) -> int {
    ((o + a - 1) / a) * a
}

/// Rounds `offset` up to a multiple of `align` (2 or 8).
pub fn align(offset: usize, to: usize) -> (r: usize)
    requires
        to == 2 || to == 8,
        offset < 0x10000,
    ensures
        r == align_up(offset as int, to as int),
{
    let x = offset + to - 1;
    if to == 2 {
        assert((x & !1usize) == (x / 2) * 2) by (bit_vector)
            requires
                x < 0x20000,
        ;
    } else {
        assert((x & !7usize) == (x / 8) * 8) by (bit_vector)
            requires
                x < 0x20000,
        ;
    }
    x & !(to - 1)
}

/// Channel number of a centre frequency in MHz, for the 2.4 GHz and 5 GHz bands.
pub open spec fn channel_of(freq: u32) -> Option<u16> {
    if 2412 <= freq <= 2472 {
        Some(((freq - 2407) / 5) as u16)
    } else if freq == 2484 {
        Some(14)
    } else if 5000 <= freq <= 5900 {
        Some(((freq - 5000) / 5) as u16)
    } else {
        None
    }
}

pub fn freq_to_channel(freq: u32) -> (r: Option<u16>)
    ensures
        r == channel_of(freq),
{
    if freq >= 2412 && freq <= 2472 {
        Some(((freq - 2407) / 5) as u16)
    } else if freq == 2484 {
        Some(14)
    } else if freq >= 5000 && freq <= 5900 {
        Some(((freq - 5000) / 5) as u16)
    } else {
        None
    }
}

/// Gain in thousandths for a signal of `dbm`: linear from 200 at -90 dBm to
/// 1000 at -30 dBm, clamped outside that range.
pub open spec fn gain_of(dbm: i8) -> u16 {
    let n = dbm + 90;
    let c = if n < 0 {
        0
    } else if n > 60 {
        60
    } else {
        n
    };
    (200 + 800 * c / 60) as u16
}

/// Gain used when the capture carries no signal strength.
pub const FULL_GAIN: u16 = 1000;

pub fn dbm_to_gain(dbm: i8) -> (r: u16)
    ensures
        r == gain_of(dbm),
        200 <= r <= 1000,
{
    let n: i32 = dbm as i32 + 90;
    let c: i32 = if n < 0 {
        0
    } else if n > 60 {
        60
    } else {
        n
    };
    (200 + 800 * c / 60) as u16
}

/// The gain mapping is monotonic in dBm and stays within [200, 1000].
pub proof fn lemma_gain_monotonic(a: i8, b: i8)
    requires
        a <= b,
    ensures
        gain_of(a) <= gain_of(b),
        200 <= gain_of(a) <= 1000,
{
    let na = a + 90;
    let nb = b + 90;
    let ca = if na < 0 { 0 } else if na > 60 { 60 } else { na };
    let cb = if nb < 0 { 0 } else if nb > 60 { 60 } else { nb };
    assert(0 <= ca <= cb <= 60);
    assert(800 * ca / 60 <= 800 * cb / 60) by (nonlinear_arith)
        requires
            0 <= ca <= cb,
    ;
    assert(800 * ca / 60 <= 800) by (nonlinear_arith)
        requires
            0 <= ca <= 60,
    ;
}

/// A byte read as a two's-complement signed value.
pub open spec fn signed(b: u8) -> i8 {
    if b < 128 {
        b as i8
    } else {
        (b - 256) as i8
    }
}

fn to_signed(b: u8) -> (r: i8)
    ensures
        r == signed(b),
{
    if b < 128 {
        b as i8
    } else {
        (b as i16 - 256) as i8
    }
}

/// Offset after the TSFT, flags and rate fields.
pub open spec fn offset_before_channel(p: u32) -> int {
    let o1 = if has_field(p, 0) { align_up(8, 8) + 8 } else { 8 };
    let o2 = if has_field(p, 1) { o1 + 1 } else { o1 };
    if has_field(p, 2) { o2 + 1 } else { o2 }
}

/// Offset of the antenna-signal field.
pub open spec fn offset_of_signal(p: u32) -> int {
    let o3 = offset_before_channel(p);
    let o4 = if has_field(p, 3) { align_up(o3, 2) + 4 } else { o3 };
    if has_field(p, 4) { align_up(o4, 2) + 2 } else { o4 }
}

/// Whether the radiotap header can be walked at all.
pub open spec fn radiotap_readable(d: Seq<u8>) -> bool {
    d.len() >= 8 && rt_len(d) <= d.len()
}

/// The channel given by the radiotap channel field, if present, inside the
/// header and mapped.
pub open spec fn radiotap_channel(d: Seq<u8>) -> Option<u16> {
    let p = present_mask(d);
    let at = align_up(offset_before_channel(p), 2);
    if radiotap_readable(d) && has_field(p, 3) && at + 4 <= rt_len(d) {
        channel_of(le16(d[at], d[at + 1]) as u32)
    } else {
        None
    }
}

/// The antenna signal in dBm, if present and inside the header.
pub open spec fn radiotap_dbm(d: Seq<u8>) -> Option<i8> {
    let p = present_mask(d);
    let at = offset_of_signal(p);
    if radiotap_readable(d) && has_field(p, 5) && at < rt_len(d) {
        Some(signed(d[at]))
    } else {
        None
    }
}

/// Signal metadata taken from the radiotap header.
#[derive(Clone, Copy, Debug, PartialEq, Eq, Structural)]
pub struct SignalInfo {
    pub gain_milli: u16,
    pub dbm: Option<i8>,
    pub channel: Option<u16>,
}

/// Walks the present bitmask in ascending order (TSFT, flags, rate, channel,
/// FHSS, antenna signal), honouring each field's size and alignment, and stops
/// at the antenna signal.
pub fn radiotap_signal(data: &[u8]) -> (r: Option<SignalInfo>)
    ensures
        r is Some <==> radiotap_readable(data@),
        r matches Some(s) ==> {
            &&& s.dbm == radiotap_dbm(data@)
            &&& s.channel == radiotap_channel(data@)
            &&& s.gain_milli == match s.dbm {
                Some(x) => gain_of(x),
                None => FULL_GAIN,
            }
        },
{
    if data.len() < 8 {
        return None;
    }
    let rt = read_le16(data[2], data[3]) as usize;
    if rt > data.len() {
        return None;
    }
    let present: u32 = data[4] as u32 + (data[5] as u32) * 256 + (data[6] as u32) * 65536 + (
    data[7] as u32) * 16777216;
    let mut offset: usize = 8;
    let mut channel: Option<u16> = None;
    if present & (1u32 << 0u32) != 0 {
        offset = align(offset, 8);
        offset += 8;
    }
    if present & (1u32 << 1u32) != 0 {
        offset += 1;
    }
    if present & (1u32 << 2u32) != 0 {
        offset += 1;
    }
    if present & (1u32 << 3u32) != 0 {
        offset = align(offset, 2);
        if offset + 4 <= rt {
            let freq = read_le16(data[offset], data[offset + 1]) as u32;
            channel = freq_to_channel(freq);
        }
        offset += 4;
    }
    if present & (1u32 << 4u32) != 0 {
        offset = align(offset, 2);
        offset += 2;
    }
    if present & (1u32 << 5u32) != 0 {
        if offset < rt {
            let sig = to_signed(data[offset]);
            return Some(SignalInfo { gain_milli: dbm_to_gain(sig), dbm: Some(sig), channel });
        }
    }
    Some(SignalInfo { gain_milli: FULL_GAIN, dbm: None, channel })
}

} // verus!
