use vstd::prelude::*;

use crate::api::ChannelInfo;

verus! {

/// ASCII whitespace.
pub open spec fn is_space(c: u8) -> bool {
    c == 32 || (9 <= c <= 13)
}

pub open spec fn is_digit(c: u8) -> bool {
    48 <= c <= 57
}

/// End (exclusive) of the line that starts at `i`: the next newline, or the end.
pub open spec fn line_end(s: Seq<u8>, i: int) -> int
    decreases s.len() - i,
{
    if i < 0 || i >= s.len() || s[i] == 10 {
        i
    } else {
        line_end(s, i + 1)
    }
}

/// First position at or after `i`, before `end`, that is not whitespace.
pub open spec fn skip_space(s: Seq<u8>, i: int, end: int) -> int
    decreases end - i,
{
    if 0 <= i < end && is_space(s[i]) {
        skip_space(s, i + 1, end)
    } else {
        i
    }
}

/// End of the run of non-whitespace bytes that starts at `i`.
pub open spec fn token_end(s: Seq<u8>, i: int, end: int) -> int
    decreases end - i,
{
    if 0 <= i < end && !is_space(s[i]) {
        token_end(s, i + 1, end)
    } else {
        i
    }
}

/// Decimal value of a digit string, saturating at 65536.
pub open spec fn dec_capped(d: Seq<u8>) -> int
    decreases d.len(),
{
    if d.len() == 0 {
        0
    } else {
        let v = dec_capped(d.drop_last()) * 10 + (d.last() - 48);
        if v > 65536 {
            65536
        } else {
            v
        }
    }
}

pub open spec fn all_digits(d: Seq<u8>) -> bool {
    forall|k: int| 0 <= k < d.len() ==> is_digit(#[trigger] d[k])
}

/// `t` without a leading `+`.
pub open spec fn unsigned_part(t: Seq<u8>) -> Seq<u8> {
    if t.len() > 0 && t[0] == 43 {
        t.drop_first()
    } else {
        t
    }
}

/// A `u16` written in decimal, with an optional leading `+`.
pub open spec fn u16_of(t: Seq<u8>) -> Option<u16> {
    let d = unsigned_part(t);
    if d.len() > 0 && all_digits(d) && dec_capped(d) < 65536 {
        Some(dec_capped(d) as u16)
    } else {
        None
    }
}

fn skip_spaces(s: &[u8], i: usize, end: usize) -> (r: usize)
    requires
        i <= end <= s@.len(),
    ensures
        r == skip_space(s@, i as int, end as int),
        i <= r <= end,
    decreases end - i,
{
    if i < end && (s[i] == 32 || (9 <= s[i] && s[i] <= 13)) {
        skip_spaces(s, i + 1, end)
    } else {
        i
    }
}

fn token_stop(s: &[u8], i: usize, end: usize) -> (r: usize)
    requires
        i <= end <= s@.len(),
    ensures
        r == token_end(s@, i as int, end as int),
        i <= r <= end,
    decreases end - i,
{
    if i < end && !(s[i] == 32 || (9 <= s[i] && s[i] <= 13)) {
        token_stop(s, i + 1, end)
    } else {
        i
    }
}

fn line_stop(s: &[u8], i: usize) -> (r: usize)
    requires
        i <= s@.len(),
    ensures
        r == line_end(s@, i as int),
        i <= r <= s@.len(),
    decreases s@.len() - i,
{
    if i < s.len() && s[i] != 10 {
        line_stop(s, i + 1)
    } else {
        i
    }
}

/// Reads `s[i..j]` as a `u16` in decimal, with an optional leading `+`.
pub fn parse_u16(s: &[u8], i: usize, j: usize) -> (r: Option<u16>)
    requires
        i <= j <= s@.len(),
    ensures
        r == u16_of(s@.subrange(i as int, j as int)),
{
    let ghost t = s@.subrange(i as int, j as int);
    let start = if i < j && s[i] == 43 { i + 1 } else { i };
    let ghost d = s@.subrange(start as int, j as int);
    assert(d =~= unsigned_part(t));
    if start >= j {
        assert(d.len() == 0);
        return None;
    }
    let mut v: u32 = 0;
    let mut k: usize = start;
    while k < j
        invariant
            start <= k <= j <= s@.len(),
            d == s@.subrange(start as int, j as int),
            t == s@.subrange(i as int, j as int),
            d == unsigned_part(t),
            v == dec_capped(s@.subrange(start as int, k as int)),
            forall|m: int| start <= m < k ==> is_digit(#[trigger] s@[m]),
        decreases j - k,
    {
        let c = s[k];
        if !(48 <= c && c <= 57) {
            proof {
                assert(d[k - start] == c);
                assert(!is_digit(d[k - start]));
            }
            return None;
        }
        proof {
            assert(s@.subrange(start as int, k + 1).drop_last() =~= s@.subrange(
                start as int,
                k as int,
            ));
        }
        let nv = v * 10 + (c - 48) as u32;
        v = if nv > 65536 { 65536 } else { nv };
        k += 1;
    }
    proof {
        assert forall|m: int| 0 <= m < d.len() implies is_digit(#[trigger] d[m]) by {
            assert(d[m] == s@[start + m]);
        }
    }
    if v < 65536 {
        Some(v as u16)
    } else {
        None
    }
}

fn has_prefix_at(s: &[u8], i: usize, end: usize, lit: &[u8]) -> (r: bool)
    requires
        i <= end <= s@.len(),
    ensures
        r == (i + lit@.len() <= end && s@.subrange(i as int, i + lit@.len()) == lit@),
{
    if lit.len() > end - i {
        return false;
    }
    let mut k: usize = 0;
    while k < lit.len()
        invariant
            i + lit@.len() <= end <= s@.len(),
            k <= lit@.len(),
            forall|m: int| 0 <= m < k ==> s@[i + m] == lit@[m],
        decreases lit@.len() - k,
    {
        if s[i + k] != lit[k] {
            proof {
                assert(s@.subrange(i as int, i + lit@.len())[k as int] != lit@[k as int]);
            }
            return false;
        }
        k += 1;
    }
    assert(s@.subrange(i as int, i + lit@.len()) =~= lit@);
    true
}

pub open spec fn channel_word() -> Seq<u8> {
    seq![99u8, 104, 97, 110, 110, 101, 108, 32]
}

pub open spec fn wiphy_word() -> Seq<u8> {
    seq![119u8, 105, 112, 104, 121, 32]
}

/// The channel that a `channel N ...` line between `start` and `end` gives.
pub open spec fn channel_on_line(s: Seq<u8>, start: int, end: int) -> Option<u16> {
    let i = skip_space(s, start, end);
    if i + 8 <= end && s.subrange(i, i + 8) == channel_word() {
        let j = skip_space(s, i + 8, end);
        let k = token_end(s, j, end);
        if j < k {
            u16_of(s.subrange(j, k))
        } else {
            None
        }
    } else {
        None
    }
}

/// The first channel that a line of `iw dev <if> info` output from `i` on gives.
pub open spec fn channel_from(s: Seq<u8>, i: int) -> Option<u16>
    decreases s.len() - i,
{
    if i < 0 || i > s.len() {
        None
    } else {
        let e = line_end(s, i);
        match channel_on_line(s, i, e) {
            Some(c) => Some(c),
            None => if i <= e < s.len() {
                channel_from(s, e + 1)
            } else {
                None
            },
        }
    }
}

/// The current channel reported by `iw dev <if> info`: the first line that,
/// after leading whitespace, reads `channel ` followed by a number.
pub fn channel_from_info(text: &[u8]) -> (r: Option<u16>)
    ensures
        r == channel_from(text@, 0),
{
    let word: [u8; 8] = [99, 104, 97, 110, 110, 101, 108, 32];
    let mut i: usize = 0;
    while i <= text.len()
        invariant
            i <= text@.len(),
            word@ == channel_word(),
            channel_from(text@, i as int) == channel_from(text@, 0),
        decreases text@.len() - i,
    {
        let e = line_stop(text, i);
        let at = skip_spaces(text, i, e);
        if has_prefix_at(text, at, e, word.as_slice()) {
            let j = skip_spaces(text, at + 8, e);
            let k = token_stop(text, j, e);
            if j < k {
                if let Some(c) = parse_u16(text, j, k) {
                    return Some(c);
                }
            }
        }
        if e >= text.len() {
            return None;
        }
        i = e + 1;
    }
    None
}

/// The phy name that a `wiphy N` line between `start` and `end` gives: the
/// rest of the line, trimmed.
pub open spec fn wiphy_on_line(s: Seq<u8>, start: int, end: int) -> Option<Seq<u8>> {
    let i = skip_space(s, start, end);
    if i + 6 <= end && s.subrange(i, i + 6) == wiphy_word() {
        let j = skip_space(s, i + 6, end);
        Some(s.subrange(j, trim_end(s, j, end)))
    } else {
        None
    }
}

/// End of `s[i..end]` with trailing whitespace removed.
pub open spec fn trim_end(s: Seq<u8>, i: int, end: int) -> int
    decreases end - i,
{
    if i < end && is_space(s[end - 1]) {
        trim_end(s, i, end - 1)
    } else {
        end
    }
}

pub open spec fn wiphy_from(s: Seq<u8>, i: int) -> Option<Seq<u8>>
    decreases s.len() - i,
{
    if i < 0 || i > s.len() {
        None
    } else {
        let e = line_end(s, i);
        match wiphy_on_line(s, i, e) {
            Some(w) => Some(w),
            None => if i <= e < s.len() {
                wiphy_from(s, e + 1)
            } else {
                None
            },
        }
    }
}

fn trim_stop(s: &[u8], i: usize, end: usize) -> (r: usize)
    requires
        i <= end <= s@.len(),
    ensures
        r == trim_end(s@, i as int, end as int),
        i <= r <= end,
    decreases end - i,
{
    if i < end && (s[end - 1] == 32 || (9 <= s[end - 1] && s[end - 1] <= 13)) {
        trim_stop(s, i, end - 1)
    } else {
        end
    }
}

/// The wireless phy index text reported by `iw dev <if> info`: the trimmed
/// rest of the first line that reads `wiphy ` after leading whitespace.
pub fn wiphy_from_info(text: &[u8]) -> (r: Option<Vec<u8>>)
    ensures
        match r {
            Some(v) => wiphy_from(text@, 0) == Some(v@),
            None => wiphy_from(text@, 0) is None,
        },
{
    let word: [u8; 6] = [119, 105, 112, 104, 121, 32];
    let mut i: usize = 0;
    while i <= text.len()
        invariant
            i <= text@.len(),
            word@ == wiphy_word(),
            wiphy_from(text@, i as int) == wiphy_from(text@, 0),
        decreases text@.len() - i,
    {
        let e = line_stop(text, i);
        let at = skip_spaces(text, i, e);
        if has_prefix_at(text, at, e, word.as_slice()) {
            let j = skip_spaces(text, at + 6, e);
            let k = trim_stop(text, j, e);
            let mut out: Vec<u8> = Vec::new();
            let mut m: usize = j;
            while m < k
                invariant
                    j <= m <= k <= text@.len(),
                    out@ == text@.subrange(j as int, m as int),
                decreases k - m,
            {
                out.push(text[m]);
                m += 1;
                assert(out@ =~= text@.subrange(j as int, m as int));
            }
            return Some(out);
        }
        if e >= text.len() {
            return None;
        }
        i = e + 1;
    }
    None
}

/// First position in `[i, end)` holding `b`, or `end`.
pub open spec fn find_byte(s: Seq<u8>, i: int, end: int, b: u8) -> int
    decreases end - i,
{
    if 0 <= i < end && s[i] != b {
        find_byte(s, i + 1, end, b)
    } else {
        i
    }
}

fn find_byte_at(s: &[u8], i: usize, end: usize, b: u8) -> (r: usize)
    requires
        i <= end <= s@.len(),
    ensures
        r == find_byte(s@, i as int, end as int, b),
        i <= r <= end,
    decreases end - i,
{
    if i < end && s[i] != b {
        find_byte_at(s, i + 1, end, b)
    } else {
        i
    }
}

pub open spec fn lower(c: u8) -> u8 {
    if 65 <= c <= 90 {
        (c + 32) as u8
    } else {
        c
    }
}

/// `lit` (lower case) occurs at `i`, ignoring ASCII case.
pub open spec fn matches_ci_at(s: Seq<u8>, i: int, lit: Seq<u8>) -> bool {
    forall|k: int| 0 <= k < lit.len() ==> lower(#[trigger] s[i + k]) == lit[k]
}

/// `lit` (lower case) occurs in `s[i..end]`, ignoring ASCII case.
pub open spec fn contains_ci(s: Seq<u8>, i: int, end: int, lit: Seq<u8>) -> bool {
    exists|p: int| i <= p && p + lit.len() <= end && matches_ci_at(s, p, lit)
}

fn contains_ci_in(s: &[u8], i: usize, end: usize, lit: &[u8]) -> (r: bool)
    requires
        i <= end <= s@.len(),
    ensures
        r == contains_ci(s@, i as int, end as int, lit@),
{
    if lit.len() > end - i {
        return false;
    }
    let mut p: usize = i;
    while p <= end - lit.len()
        invariant
            i <= p,
            i + lit@.len() <= end <= s@.len(),
            forall|q: int| i <= q < p ==> !matches_ci_at(s@, q, lit@),
        decreases end - p,
    {
        let mut k: usize = 0;
        let mut ok = true;
        while k < lit.len() && ok
            invariant
                p + lit@.len() <= end <= s@.len(),
                k <= lit@.len(),
                ok ==> forall|m: int| 0 <= m < k ==> lower(#[trigger] s@[p + m]) == lit@[m],
                !ok ==> k < lit@.len() && lower(s@[p + k]) != lit@[k as int],
            decreases lit@.len() - k + if ok { 1int } else { 0int },
        {
            let c = s[p + k];
            let lc = if 65 <= c && c <= 90 { c + 32 } else { c };
            if lc != lit[k] {
                ok = false;
            } else {
                k += 1;
            }
        }
        if ok {
            assert(matches_ci_at(s@, p as int, lit@));
            return true;
        }
        proof {
            assert(!(lower(s@[p + k]) == lit@[k as int]));
        }
        p += 1;
    }
    false
}

/// `disabled`, as iw marks an unusable frequency.
pub open spec fn disabled_word() -> Seq<u8> {
    seq![100u8, 105, 115, 97, 98, 108, 101, 100]
}

/// Integer part of the frequency `s[b..e]`, written as digits with an optional
/// fraction, saturating at 65536.
pub open spec fn mhz_at(s: Seq<u8>, b: int, e: int) -> Option<int> {
    let dot = find_byte(s, b, e, 46);
    let whole = s.subrange(b, dot);
    let frac = s.subrange(if dot < e { dot + 1 } else { dot }, e);
    if whole.len() > 0 && all_digits(whole) && all_digits(frac) {
        Some(dec_capped(whole))
    } else {
        None
    }
}

/// The channel listed by one `* <freq> MHz [<ch>] ...` line of
/// `iw phy <phy> info` output: (in the 2.4 GHz band, channel, usable), where
/// 2.4 GHz is below 3000 MHz and 5 GHz below 6000 MHz.
pub open spec fn channel_entry(s: Seq<u8>, start: int, end: int) -> Option<(bool, u16, bool)> {
    let a = skip_space(s, start, end);
    let a_end = token_end(s, a, end);
    let b = skip_space(s, a_end, end);
    let b_end = token_end(s, b, end);
    let c = skip_space(s, b_end, end);
    let open = find_byte(s, a, end, 91);
    let close = find_byte(s, open + 1, end, 93);
    let inner = skip_space(s, open + 1, close);
    let ch = u16_of(s.subrange(inner, trim_end(s, inner, close)));
    let mhz = mhz_at(s, b, b_end);
    if a < end && s[a] == 42 && c < end && open < end && close < end && ch is Some && mhz is Some {
        let f = mhz->0;
        let usable = !contains_ci(s, a, end, disabled_word());
        if f < 3000 {
            Some((true, ch->0, usable))
        } else if f < 6000 {
            Some((false, ch->0, usable))
        } else {
            None
        }
    } else {
        None
    }
}

/// Whether `s[i..j]` is all digits, and its decimal value saturating at 65536.
fn digits_value(s: &[u8], i: usize, j: usize) -> (r: (bool, u32))
    requires
        i <= j <= s@.len(),
    ensures
        r.0 == all_digits(s@.subrange(i as int, j as int)),
        r.0 ==> r.1 == dec_capped(s@.subrange(i as int, j as int)),
        r.1 <= 65536,
{
    let ghost d = s@.subrange(i as int, j as int);
    let mut v: u32 = 0;
    let mut k: usize = i;
    while k < j
        invariant
            i <= k <= j <= s@.len(),
            d == s@.subrange(i as int, j as int),
            v == dec_capped(s@.subrange(i as int, k as int)),
            v <= 65536,
            forall|m: int| i <= m < k ==> is_digit(#[trigger] s@[m]),
        decreases j - k,
    {
        let c = s[k];
        if !(48 <= c && c <= 57) {
            proof {
                assert(d[k - i] == c);
                assert(!is_digit(d[k - i]));
            }
            return (false, v);
        }
        proof {
            assert(s@.subrange(i as int, k + 1).drop_last() =~= s@.subrange(i as int, k as int));
        }
        let nv = v * 10 + (c - 48) as u32;
        v = if nv > 65536 { 65536 } else { nv };
        k += 1;
    }
    proof {
        assert forall|m: int| 0 <= m < d.len() implies is_digit(#[trigger] d[m]) by {
            assert(d[m] == s@[i + m]);
        }
    }
    (true, v)
}

fn mhz_in(s: &[u8], b: usize, e: usize) -> (r: Option<u32>)
    requires
        b <= e <= s@.len(),
    ensures
        match r {
            Some(f) => mhz_at(s@, b as int, e as int) == Some(f as int),
            None => mhz_at(s@, b as int, e as int) is None,
        },
{
    let dot = find_byte_at(s, b, e, 46);
    let after = if dot < e { dot + 1 } else { dot };
    let (whole_ok, v) = digits_value(s, b, dot);
    let (frac_ok, _) = digits_value(s, after, e);
    if dot > b && whole_ok && frac_ok {
        Some(v)
    } else {
        None
    }
}

fn channel_entry_at(s: &[u8], start: usize, end: usize) -> (r: Option<(bool, u16, bool)>)
    requires
        start <= end <= s@.len(),
    ensures
        r == channel_entry(s@, start as int, end as int),
{
    let disabled: [u8; 8] = [100, 105, 115, 97, 98, 108, 101, 100];
    assert(disabled@ =~= disabled_word());
    let a = skip_spaces(s, start, end);
    if !(a < end && s[a] == 42) {
        return None;
    }
    let a_end = token_stop(s, a, end);
    let b = skip_spaces(s, a_end, end);
    let b_end = token_stop(s, b, end);
    let c = skip_spaces(s, b_end, end);
    if c >= end {
        return None;
    }
    let open = find_byte_at(s, a, end, 91);
    if open >= end {
        return None;
    }
    let close = find_byte_at(s, open + 1, end, 93);
    if close >= end {
        return None;
    }
    let inner = skip_spaces(s, open + 1, close);
    let inner_end = trim_stop(s, inner, close);
    let ch = match parse_u16(s, inner, inner_end) {
        Some(x) => x,
        None => return None,
    };
    let f = match mhz_in(s, b, b_end) {
        Some(x) => x,
        None => return None,
    };
    let usable = !contains_ci_in(s, a, end, disabled.as_slice());
    if f < 3000 {
        Some((true, ch, usable))
    } else if f < 6000 {
        Some((false, ch, usable))
    } else {
        None
    }
}

/// The usable flag of every channel of each band listed from line `i` on,
/// later lines overriding earlier ones, starting from `acc`.
pub open spec fn bands_from(s: Seq<u8>, i: int, acc: (Map<u16, bool>, Map<u16, bool>)) -> (
    Map<u16, bool>,
    Map<u16, bool>,
)
    decreases s.len() - i,
{
    if i < 0 || i > s.len() {
        acc
    } else {
        let e = line_end(s, i);
        let next = match channel_entry(s, i, e) {
            Some((true, ch, ok)) => (acc.0.insert(ch, ok), acc.1),
            Some((false, ch, ok)) => (acc.0, acc.1.insert(ch, ok)),
            None => acc,
        };
        if i <= e < s.len() {
            bands_from(s, e + 1, next)
        } else {
            next
        }
    }
}

/// `v` lists the channels of `m` in strictly ascending order.
pub open spec fn lists(v: Seq<ChannelInfo>, m: Map<u16, bool>) -> bool {
    &&& forall|i: int, j: int| 0 <= i < j < v.len() ==> (#[trigger] v[i]).channel < (#[trigger] v[j]).channel
    &&& forall|i: int| 0 <= i < v.len() ==> #[trigger] m.contains_key(v[i].channel) && m[v[i].channel] == v[i].enabled
    &&& forall|c: u16| #[trigger] m.contains_key(c) ==> exists|i: int| 0 <= i < v.len() && v[i].channel == c
}

/// Channels 1 to 14, none usable: the 2.4 GHz list when iw lists none.
pub open spec fn default_24() -> Seq<ChannelInfo> {
    Seq::new(14, |i: int| ChannelInfo { channel: (i + 1) as u16, enabled: false })
}

fn set_channel(v: &mut Vec<ChannelInfo>, ch: u16, ok: bool, m: Ghost<Map<u16, bool>>)
    requires
        lists(old(v)@, m@),
    ensures
        lists(final(v)@, m@.insert(ch, ok)),
{
    let mut p: usize = 0;
    while p < v.len() && v[p].channel < ch
        invariant
            p <= v@.len(),
            v@ == old(v)@,
            forall|j: int| 0 <= j < p ==> (#[trigger] v@[j]).channel < ch,
        decreases v@.len() - p,
    {
        p += 1;
    }
    let ghost v0 = v@;
    let ghost m1 = m@.insert(ch, ok);
    if p < v.len() && v[p].channel == ch {
        v.set(p, ChannelInfo { channel: ch, enabled: ok });
        proof {
            assert forall|i: int, j: int| 0 <= i < j < v@.len() implies (#[trigger] v@[i]).channel < (
            #[trigger] v@[j]).channel by {
                assert(v0[i].channel < v0[j].channel);
            }
            assert forall|i: int| 0 <= i < v@.len() implies #[trigger] m1.contains_key(v@[i].channel)
                && m1[v@[i].channel] == v@[i].enabled by {
                if i != p {
                    assert(m@.contains_key(v0[i].channel));
                    if i < p {
                        assert(v0[i].channel < v0[p as int].channel);
                    } else {
                        assert(v0[p as int].channel < v0[i].channel);
                    }
                }
            }
            assert forall|c: u16| #[trigger] m1.contains_key(c) implies exists|i: int|
                0 <= i < v@.len() && v@[i].channel == c by {
                if c != ch {
                    let i = choose|i: int| 0 <= i < v0.len() && v0[i].channel == c;
                    assert(v@[i].channel == c);
                } else {
                    assert(v@[p as int].channel == c);
                }
            }
        }
    } else {
        v.insert(p, ChannelInfo { channel: ch, enabled: ok });
        proof {
            assert forall|i: int, j: int| 0 <= i < j < v@.len() implies (#[trigger] v@[i]).channel < (
            #[trigger] v@[j]).channel by {
                if j < p {
                    assert(v0[i].channel < v0[j].channel);
                } else if j == p {
                    assert(v0[i].channel < ch);
                } else if i == p {
                    assert(v0[p as int].channel >= ch);
                    assert(v0[p as int].channel != ch);
                    if j - 1 > p {
                        assert(v0[p as int].channel < v0[j - 1].channel);
                    }
                } else if i < p {
                    assert(v0[i].channel < ch);
                    assert(v0[p as int].channel > ch);
                    if j - 1 > p {
                        assert(v0[p as int].channel < v0[j - 1].channel);
                    }
                } else {
                    assert(v0[i - 1].channel < v0[j - 1].channel);
                }
            }
            assert forall|i: int| 0 <= i < v@.len() implies #[trigger] m1.contains_key(v@[i].channel)
                && m1[v@[i].channel] == v@[i].enabled by {
                if i < p {
                    assert(v@[i] == v0[i]);
                    assert(m@.contains_key(v0[i].channel));
                    assert(v0[i].channel < ch);
                } else if i > p {
                    assert(v@[i] == v0[i - 1]);
                    assert(m@.contains_key(v0[i - 1].channel));
                    assert(v0[p as int].channel > ch);
                    if i - 1 > p {
                        assert(v0[p as int].channel < v0[i - 1].channel);
                    }
                }
            }
            assert forall|c: u16| #[trigger] m1.contains_key(c) implies exists|i: int|
                0 <= i < v@.len() && v@[i].channel == c by {
                if c != ch {
                    let i = choose|i: int| 0 <= i < v0.len() && v0[i].channel == c;
                    if i < p {
                        assert(v@[i].channel == c);
                    } else {
                        assert(v@[i + 1].channel == c);
                    }
                } else {
                    assert(v@[p as int].channel == c);
                }
            }
        }
    }
}

/// The channels `iw phy <phy> info` lists, per band, in ascending order: a
/// line `* <freq> MHz [<channel>] ...` (at least three words) lists a channel,
/// usable unless the line says "disabled"; frequencies below 3000 MHz are
/// 2.4 GHz and below 6000 MHz 5 GHz. A later line for the same channel wins.
/// When no 2.4 GHz channel is listed, channels 1 to 14 are given, unusable.
pub fn supported_channels(text: &[u8]) -> (r: (Vec<ChannelInfo>, Vec<ChannelInfo>))
    ensures
        ({
            let (m24, m5) = bands_from(
                text@,
                0,
                (Map::<u16, bool>::empty(), Map::<u16, bool>::empty()),
            );
            &&& if m24 == Map::<u16, bool>::empty() {
                r.0@ == default_24()
            } else {
                lists(r.0@, m24)
            }
            &&& lists(r.1@, m5)
        }),
{
    let ghost target = bands_from(
        text@,
        0,
        (Map::<u16, bool>::empty(), Map::<u16, bool>::empty()),
    );
    let mut c24: Vec<ChannelInfo> = Vec::new();
    let mut c5: Vec<ChannelInfo> = Vec::new();
    let ghost mut m24 = Map::<u16, bool>::empty();
    let ghost mut m5 = Map::<u16, bool>::empty();
    let mut i: usize = 0;
    let mut done = false;
    while !done
        invariant
            i <= text@.len(),
            done ==> (m24, m5) == target,
            !done ==> bands_from(text@, i as int, (m24, m5)) == target,
            lists(c24@, m24),
            lists(c5@, m5),
        decreases text@.len() - i + if done { 0int } else { 1int },
    {
        let e = line_stop(text, i);
        match channel_entry_at(text, i, e) {
            Some((true, ch, ok)) => {
                set_channel(&mut c24, ch, ok, Ghost(m24));
                proof {
                    m24 = m24.insert(ch, ok);
                }
            },
            Some((false, ch, ok)) => {
                set_channel(&mut c5, ch, ok, Ghost(m5));
                proof {
                    m5 = m5.insert(ch, ok);
                }
            },
            None => {},
        }
        if e >= text.len() {
            done = true;
        } else {
            i = e + 1;
        }
    }
    if c24.len() == 0 {
        proof {
            assert(m24 =~= Map::<u16, bool>::empty());
        }
        let mut ch: u16 = 1;
        while ch <= 14
            invariant
                1 <= ch <= 15,
                c24@ == default_24().subrange(0, ch - 1),
            decreases 15 - ch,
        {
            c24.push(ChannelInfo { channel: ch, enabled: false });
            ch += 1;
            assert(c24@ =~= default_24().subrange(0, ch - 1));
        }
        assert(c24@ =~= default_24());
    } else {
        proof {
            assert(m24.contains_key(c24@[0].channel));
            assert(m24 != Map::<u16, bool>::empty());
        }
    }
    (c24, c5)
}

} // verus!
