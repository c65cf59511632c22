use vstd::prelude::*;
use vstd::string::*;
use vstd::utf8::is_ascii_chars;

use crate::events::Mac;

verus! {

/// Upper-case hexadecimal digits, indexed by value.
pub open spec fn hex_digits() -> Seq<char> {
    seq!['0', '1', '2', '3', '4', '5', '6', '7', '8', '9', 'A', 'B', 'C', 'D', 'E', 'F']
}

/// Two upper-case hexadecimal digits for one byte.
pub open spec fn byte_hex(b: u8) -> Seq<char> {
    seq![hex_digits()[(b / 16) as int], hex_digits()[(b % 16) as int]]
}

/// Hexadecimal digits for every byte, in order.
pub open spec fn bytes_hex(s: Seq<u8>) -> Seq<char>
    decreases s.len(),
{
    if s.len() == 0 {
        Seq::empty()
    } else {
        bytes_hex(s.drop_last()) + byte_hex(s.last())
    }
}

/// `AA:BB:CC:DD:EE:FF` notation of an address.
pub open spec fn mac_text(m: Seq<u8>) -> Seq<char>
    recommends
        m.len() == 6,
{
    byte_hex(m[0]) + seq![':'] + byte_hex(m[1]) + seq![':'] + byte_hex(m[2]) + seq![':']
        + byte_hex(m[3]) + seq![':'] + byte_hex(m[4]) + seq![':'] + byte_hex(m[5])
}

fn hex_digit(n: u8) -> (r: &'static str)
    requires
        n < 16,
    ensures
        r@ == seq![hex_digits()[n as int]],
{
    proof {
        reveal_strlit("0");
        reveal_strlit("1");
        reveal_strlit("2");
        reveal_strlit("3");
        reveal_strlit("4");
        reveal_strlit("5");
        reveal_strlit("6");
        reveal_strlit("7");
        reveal_strlit("8");
        reveal_strlit("9");
        reveal_strlit("A");
        reveal_strlit("B");
        reveal_strlit("C");
        reveal_strlit("D");
        reveal_strlit("E");
        reveal_strlit("F");
    }
    let r = match n {
        0 => "0",
        1 => "1",
        2 => "2",
        3 => "3",
        4 => "4",
        5 => "5",
        6 => "6",
        7 => "7",
        8 => "8",
        9 => "9",
        10 => "A",
        11 => "B",
        12 => "C",
        13 => "D",
        14 => "E",
        _ => "F",
    };
    assert(r@ =~= seq![hex_digits()[n as int]]);
    r
}

/// Appends the two hexadecimal digits of `b`.
pub fn push_byte_hex(s: &mut String, b: u8)
    ensures
        final(s)@ == old(s)@ + byte_hex(b),
{
    s.append(hex_digit(b / 16));
    s.append(hex_digit(b % 16));
    assert(final(s)@ =~= old(s)@ + byte_hex(b));
}

/// Formats an address as six colon-separated upper-case hexadecimal pairs.
pub fn format_mac(mac: &Mac) -> (r: String)
    ensures
        r@ == mac_text(mac@),
{
    proof {
        reveal_strlit(":");
    }
    let mut s = String::new();
    push_byte_hex(&mut s, mac[0]);
    s.append(":");
    push_byte_hex(&mut s, mac[1]);
    s.append(":");
    push_byte_hex(&mut s, mac[2]);
    s.append(":");
    push_byte_hex(&mut s, mac[3]);
    s.append(":");
    push_byte_hex(&mut s, mac[4]);
    s.append(":");
    push_byte_hex(&mut s, mac[5]);
    assert(s@ =~= mac_text(mac@));
    s
}

pub open spec fn is_hex_byte(c: u8) -> bool {
    (48 <= c <= 57) || (65 <= c <= 70) || (97 <= c <= 102)
}

/// Value of an ASCII hexadecimal digit.
pub open spec fn hex_value(c: u8) -> u8 {
    if 48 <= c <= 57 {
        (c - 48) as u8
    } else if 65 <= c <= 70 {
        (c - 55) as u8
    } else {
        (c - 87) as u8
    }
}

/// The hexadecimal digits of `s`, in order, everything else dropped.
pub open spec fn hex_only(s: Seq<u8>) -> Seq<u8>
    decreases s.len(),
{
    if s.len() == 0 {
        Seq::empty()
    } else if is_hex_byte(s.last()) {
        hex_only(s.drop_last()).push(s.last())
    } else {
        hex_only(s.drop_last())
    }
}

/// The address spelled by the hexadecimal digits of `s` (UTF-8 text), in
/// order, whatever separators stand between them; none unless there are
/// exactly twelve digits.
pub open spec fn mac_of_text(s: Seq<u8>, m: Mac) -> bool {
    let h = hex_only(s);
    &&& h.len() == 12
    &&& forall|i: int|
        0 <= i < 6 ==> #[trigger] m[i] == hex_value(h[2 * i]) * 16 + hex_value(h[2 * i + 1])
}

fn hex_byte_value(c: u8) -> (r: u8)
    requires
        is_hex_byte(c),
    ensures
        r == hex_value(c),
        r < 16,
{
    if c <= 57 {
        c - 48
    } else if c <= 70 {
        c - 55
    } else {
        c - 87
    }
}

/// Reads an address from text: the hexadecimal digits are collected, and
/// exactly twelve of them make the six bytes.
pub fn parse_mac(input: &str) -> (r: Option<Mac>)
    ensures
        r is Some <==> hex_only(input.spec_bytes()).len() == 12,
        r matches Some(m) ==> mac_of_text(input.spec_bytes(), m),
{
    let bytes = input.as_bytes();
    let mut cleaned: Vec<u8> = Vec::new();
    let mut i: usize = 0;
    while i < bytes.len()
        invariant
            i <= bytes@.len(),
            bytes@ == input.spec_bytes(),
            cleaned@ == hex_only(bytes@.subrange(0, i as int)),
            forall|j: int| 0 <= j < cleaned@.len() ==> is_hex_byte(#[trigger] cleaned@[j]),
        decreases bytes@.len() - i,
    {
        let c = bytes[i];
        proof {
            assert(bytes@.subrange(0, i + 1).drop_last() =~= bytes@.subrange(0, i as int));
        }
        if (48 <= c && c <= 57) || (65 <= c && c <= 70) || (97 <= c && c <= 102) {
            cleaned.push(c);
        }
        i += 1;
    }
    assert(bytes@.subrange(0, bytes@.len() as int) =~= bytes@);
    if cleaned.len() != 12 {
        return None;
    }
    let mut out: Mac = [0u8; 6];
    let mut k: usize = 0;
    while k < 6
        invariant
            k <= 6,
            cleaned@.len() == 12,
            cleaned@ == hex_only(input.spec_bytes()),
            forall|j: int| 0 <= j < cleaned@.len() ==> is_hex_byte(#[trigger] cleaned@[j]),
            forall|j: int|
                0 <= j < k ==> #[trigger] out[j] == hex_value(cleaned@[2 * j]) * 16 + hex_value(
                    cleaned@[2 * j + 1],
                ),
        decreases 6 - k,
    {
        let hi = hex_byte_value(cleaned[2 * k]);
        let lo = hex_byte_value(cleaned[2 * k + 1]);
        out[k] = hi * 16 + lo;
        k += 1;
    }
    Some(out)
}

/// Appends the hexadecimal digits of every byte of `b`.
pub fn push_bytes_hex(s: &mut String, b: &[u8])
    ensures
        final(s)@ == old(s)@ + bytes_hex(b@),
{
    let mut i: usize = 0;
    while i < b.len()
        invariant
            i <= b@.len(),
            s@ == old(s)@ + bytes_hex(b@.subrange(0, i as int)),
        decreases b@.len() - i,
    {
        proof {
            assert(b@.subrange(0, i + 1).drop_last() =~= b@.subrange(0, i as int));
        }
        push_byte_hex(s, b[i]);
        i += 1;
        assert(s@ =~= old(s)@ + bytes_hex(b@.subrange(0, i as int)));
    }
    assert(b@.subrange(0, b@.len() as int) =~= b@);
}

/// The byte of the hexadecimal digit for `n`.
pub open spec fn digit_byte(n: u8) -> u8 {
    hex_digits()[n as int] as u8
}

proof fn lemma_digit_byte(n: u8)
    requires
        n < 16,
    ensures
        is_hex_byte(digit_byte(n)),
        hex_value(digit_byte(n)) == n,
        '\0' <= hex_digits()[n as int] <= '\u{7f}',
{
    if n == 0 {} else if n == 1 {} else if n == 2 {} else if n == 3 {} else if n == 4 {}
    else if n == 5 {} else if n == 6 {} else if n == 7 {} else if n == 8 {} else if n == 9 {}
    else if n == 10 {} else if n == 11 {} else if n == 12 {} else if n == 13 {} else if n == 14 {}
    else {}
}

/// The UTF-8 bytes of `mac_text(m)`.
pub open spec fn mac_bytes(m: Mac) -> Seq<u8> {
    Seq::new(
        17,
        |i: int|
            if i % 3 == 2 {
                58u8
            } else if i % 3 == 0 {
                digit_byte(m[i / 3] / 16)
            } else {
                digit_byte(m[i / 3] % 16)
            },
    )
}

proof fn lemma_mac_text_chars(m: Mac, i: int)
    requires
        0 <= i < 17,
    ensures
        '\0' <= mac_text(m@)[i] <= '\u{7f}',
        mac_text(m@)[i] as u8 == mac_bytes(m)[i],
{
    let j = i / 3;
    lemma_digit_byte(m[j] / 16);
    lemma_digit_byte(m[j] % 16);
    let t = mac_text(m@);
    assert(t.len() == 17);
    if j == 0 {
        assert(t[i] == (byte_hex(m[0]) + seq![':'])[i]);
    } else if j == 1 {
        assert(t[i] == (byte_hex(m[1]) + seq![':'])[i - 3]);
    } else if j == 2 {
        assert(t[i] == (byte_hex(m[2]) + seq![':'])[i - 6]);
    } else if j == 3 {
        assert(t[i] == (byte_hex(m[3]) + seq![':'])[i - 9]);
    } else if j == 4 {
        assert(t[i] == (byte_hex(m[4]) + seq![':'])[i - 12]);
    } else {
        assert(t[i] == byte_hex(m[5])[i - 15]);
    }
}

/// The hexadecimal digits among the first `3k - 1` bytes of `mac_bytes(m)`.
#[verifier::rlimit(50)]
proof fn lemma_mac_digits(m: Mac, k: int)
    requires
        1 <= k <= 6,
    ensures
        hex_only(mac_bytes(m).subrange(0, 3 * k - 1)) == Seq::new(
            (2 * k) as nat,
            |i: int| if i % 2 == 0 { digit_byte(m[i / 2] / 16) } else { digit_byte(m[i / 2] % 16) },
        ),
    decreases k,
{
    let b = mac_bytes(m);
    let j = k - 1;
    lemma_digit_byte(m[j] / 16);
    lemma_digit_byte(m[j] % 16);
    let want = Seq::new(
        (2 * k) as nat,
        |i: int| if i % 2 == 0 { digit_byte(m[i / 2] / 16) } else { digit_byte(m[i / 2] % 16) },
    );
    let x = b.subrange(0, 3 * k - 1);
    let hi = digit_byte(m[j] / 16);
    let lo = digit_byte(m[j] % 16);
    assert((3 * k - 3) % 3 == 0 && (3 * k - 3) / 3 == j);
    assert((3 * k - 2) % 3 == 1 && (3 * k - 2) / 3 == j);
    assert(k == 1 || ((3 * k - 4) % 3 == 2));
    assert(b[3 * k - 3] == hi);
    assert(b[3 * k - 2] == lo);
    assert(k == 1 || b[3 * k - 4] == 58u8);
    let y = b.subrange(0, 3 * k - 4);
    let hy = if k == 1 { Seq::<u8>::empty() } else { hex_only(y) };
    let z = if k == 1 { Seq::<u8>::empty() } else { y.push(58u8) };
    if k > 1 {
        lemma_mac_digits(m, k - 1);
        assert(z.drop_last() =~= y);
        assert(z.last() == 58u8);
        assert(hex_only(z) == hex_only(y));
    } else {
        assert(hex_only(z) == Seq::<u8>::empty());
    }
    let x1 = x.drop_last();
    assert(x1 =~= z.push(hi));
    assert(x1.drop_last() =~= z);
    assert(x1.last() == hi);
    assert(hex_only(x1) == hex_only(z).push(hi));
    assert(x.drop_last() == x1);
    assert(x.last() == lo);
    assert(hex_only(x) == hex_only(x1).push(lo));
    assert forall|i: int| 0 <= i < 2 * k implies #[trigger] hex_only(x)[i] == want[i] by {
        if i < 2 * k - 2 {
            assert(hex_only(x)[i] == hy[i]);
        } else if i == 2 * k - 2 {
            assert(i / 2 == j && i % 2 == 0);
        } else {
            assert(i / 2 == j && i % 2 == 1);
        }
    }
    assert(hex_only(x) =~= want);
}

/// What `format_mac` writes, `parse_mac` reads back.
pub proof fn lemma_mac_text_round_trip(m: Mac, s: &str)
    requires
        s@ == mac_text(m@),
    ensures
        hex_only(s.spec_bytes()).len() == 12,
        mac_of_text(s.spec_bytes(), m),
{
    let c = s@;
    assert forall|i: int| 0 <= i < c.len() implies '\0' <= #[trigger] c[i] <= '\u{7f}' by {
        lemma_mac_text_chars(m, i);
    }
    assert(is_ascii_chars(c));
    vstd::utf8::is_ascii_chars_encode_utf8(c);
    let b = s.spec_bytes();
    assert forall|i: int| 0 <= i < 17 implies b[i] == #[trigger] mac_bytes(m)[i] by {
        lemma_mac_text_chars(m, i);
    }
    assert(b =~= mac_bytes(m));
    lemma_mac_digits(m, 6);
    assert(mac_bytes(m).subrange(0, 17) =~= mac_bytes(m));
    let h = hex_only(b);
    assert forall|i: int| 0 <= i < 6 implies #[trigger] m[i] == hex_value(h[2 * i]) * 16 + hex_value(h[2 * i + 1]) by {
        lemma_digit_byte(m[i] / 16);
        lemma_digit_byte(m[i] % 16);
        assert(h[2 * i] == digit_byte(m[i] / 16));
        assert(h[2 * i + 1] == digit_byte(m[i] % 16));
    }
}

} // verus!
