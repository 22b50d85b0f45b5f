//! Byte-level helpers for the kernel's text files: whitespace trimming and
//! hexadecimal numbers.

use vstd::prelude::*;

verus! {

/// ASCII whitespace: tab, line feed, vertical tab, form feed, carriage return, space.
pub open spec fn is_ws(c: u8) -> bool {
    c == 9 || c == 10 || c == 11 || c == 12 || c == 13 || c == 32
}

/// The bytes without their leading whitespace.
pub open spec fn trim_start(b: Seq<u8>) -> Seq<u8>
    decreases b.len(),
{
    if b.len() > 0 && is_ws(b[0]) {
        trim_start(b.subrange(1, b.len() as int))
    } else {
        b
    }
}

/// The bytes without their trailing whitespace.
pub open spec fn trim_end(b: Seq<u8>) -> Seq<u8>
    decreases b.len(),
{
    if b.len() > 0 && is_ws(b.last()) {
        trim_end(b.drop_last())
    } else {
        b
    }
}

/// The bytes without leading and trailing whitespace.
pub open spec fn trim(b: Seq<u8>) -> Seq<u8> {
    trim_end(trim_start(b))
}

/// The bounds `[s, e)` of the bytes without leading and trailing whitespace.
pub fn trim_bounds(b: &[u8]) -> (r: (usize, usize))
    ensures
        r.0 <= r.1 <= b@.len(),
        b@.subrange(r.0 as int, r.1 as int) == trim(b@),
{
    let mut s: usize = 0;
    assert(b@.subrange(0, b@.len() as int) =~= b@);
    while s < b.len() && is_ws_exec(b[s])
        invariant
            0 <= s <= b@.len(),
            trim_start(b@) == trim_start(b@.subrange(s as int, b@.len() as int)),
        decreases b@.len() - s,
    {
        let ghost t = b@.subrange(s as int, b@.len() as int);
        assert(t.subrange(1, t.len() as int) =~= b@.subrange(s + 1, b@.len() as int));
        s = s + 1;
    }
    let ghost ts = b@.subrange(s as int, b@.len() as int);
    assert(trim_start(ts) == ts);
    let mut e: usize = b.len();
    while e > s && is_ws_exec(b[e - 1])
        invariant
            s <= e <= b@.len(),
            trim_start(b@) == ts,
            ts == b@.subrange(s as int, b@.len() as int),
            trim_end(ts) == trim_end(b@.subrange(s as int, e as int)),
        decreases e,
    {
        let ghost t = b@.subrange(s as int, e as int);
        assert(t.drop_last() =~= b@.subrange(s as int, e - 1));
        e = e - 1;
    }
    (s, e)
}

/// Whether a byte is ASCII whitespace.
pub fn is_ws_exec(c: u8) -> (r: bool)
    ensures
        r == is_ws(c),
{
    c == 9 || c == 10 || c == 11 || c == 12 || c == 13 || c == 32
}

/// The value of a hexadecimal digit (either case), or 16 for another byte.
pub open spec fn hex_digit(c: u8) -> int {
    if 0x30 <= c <= 0x39 {
        c - 0x30
    } else if 0x61 <= c <= 0x66 {
        c - 0x61 + 10
    } else if 0x41 <= c <= 0x46 {
        c - 0x41 + 10
    } else {
        16
    }
}

/// Whether every byte is a hexadecimal digit.
pub open spec fn all_hex(s: Seq<u8>) -> bool {
    forall|i: int| 0 <= i < s.len() ==> hex_digit(#[trigger] s[i]) < 16
}

/// The value of a string of hexadecimal digits, most significant first.
pub open spec fn hex_value(s: Seq<u8>) -> int
    decreases s.len(),
{
    if s.len() == 0 {
        0
    } else {
        hex_value(s.drop_last()) * 16 + hex_digit(s.last())
    }
}

/// A hexadecimal number: one or more digits whose value fits in 64 bits.
pub open spec fn parse_hex(s: Seq<u8>) -> Option<u64> {
    if s.len() > 0 && all_hex(s) && hex_value(s) <= u64::MAX {
        Some(hex_value(s) as u64)
    } else {
        None
    }
}

/// Appending hexadecimal digits never makes the value smaller.
pub proof fn lemma_hex_prefix(s: Seq<u8>, i: int)
    requires
        0 <= i <= s.len(),
        all_hex(s),
    ensures
        0 <= hex_value(s.subrange(0, i)) <= hex_value(s),
    decreases s.len(),
{
    if s.len() > 0 {
        lemma_hex_nonneg(s);
        if i < s.len() {
            assert(s.drop_last().subrange(0, i) =~= s.subrange(0, i));
            lemma_hex_prefix(s.drop_last(), i);
            lemma_hex_nonneg(s.drop_last());
        } else {
            assert(s.subrange(0, i) =~= s);
        }
    } else {
        assert(s.subrange(0, i) =~= s);
    }
}

/// The value of hexadecimal digits is not negative.
pub proof fn lemma_hex_nonneg(s: Seq<u8>)
    requires
        all_hex(s),
    ensures
        hex_value(s) >= 0,
    decreases s.len(),
{
    if s.len() > 0 {
        lemma_hex_nonneg(s.drop_last());
    }
}

/// The value of a hexadecimal digit.
fn hex_digit_exec(c: u8) -> (r: u8)
    ensures
        r == hex_digit(c),
{
    if 0x30 <= c && c <= 0x39 {
        c - 0x30
    } else if 0x61 <= c && c <= 0x66 {
        c - 0x61 + 10
    } else if 0x41 <= c && c <= 0x46 {
        c - 0x41 + 10
    } else {
        16
    }
}

/// Parses the hexadecimal number in `b[s..e)`.
pub fn parse_hex_range(b: &[u8], s: usize, e: usize) -> (r: Option<u64>)
    requires
        s <= e <= b@.len(),
    ensures
        r == parse_hex(b@.subrange(s as int, e as int)),
{
    let ghost t = b@.subrange(s as int, e as int);
    if s == e {
        return None;
    }
    let mut acc: u64 = 0;
    let mut i: usize = s;
    while i < e
        invariant
            s <= i <= e <= b@.len(),
            t == b@.subrange(s as int, e as int),
            all_hex(b@.subrange(s as int, i as int)),
            acc == hex_value(b@.subrange(s as int, i as int)),
        decreases e - i,
    {
        let d = hex_digit_exec(b[i]);
        let ghost pre = b@.subrange(s as int, i as int);
        let ghost next = b@.subrange(s as int, i + 1);
        assert(next.drop_last() =~= pre);
        if d >= 16 {
            assert(!all_hex(t)) by {
                assert(t[i - s] == b@[i as int]);
            }
            return None;
        }
        if acc > (u64::MAX - d as u64) / 16 {
            proof {
                assert(hex_value(next) > u64::MAX);
                if all_hex(t) {
                    assert(t.subrange(0, i + 1 - s) =~= next);
                    lemma_hex_prefix(t, i + 1 - s);
                }
            }
            return None;
        }
        acc = acc * 16 + d as u64;
        i = i + 1;
    }
    Some(acc)
}

/// The value of a decimal digit, or 10 for another byte.
pub open spec fn dec_digit(c: u8) -> int {
    if 0x30 <= c <= 0x39 {
        c - 0x30
    } else {
        10
    }
}

/// Whether every byte is a decimal digit.
pub open spec fn all_dec(s: Seq<u8>) -> bool {
    forall|i: int| 0 <= i < s.len() ==> dec_digit(#[trigger] s[i]) < 10
}

/// The value of a string of decimal digits, most significant first.
pub open spec fn dec_value(s: Seq<u8>) -> int
    decreases s.len(),
{
    if s.len() == 0 {
        0
    } else {
        dec_value(s.drop_last()) * 10 + dec_digit(s.last())
    }
}

/// A decimal number: one or more digits whose value fits in 32 bits.
pub open spec fn parse_dec(s: Seq<u8>) -> Option<u32> {
    if s.len() > 0 && all_dec(s) && dec_value(s) <= u32::MAX {
        Some(dec_value(s) as u32)
    } else {
        None
    }
}

/// Appending decimal digits never makes the value smaller.
pub proof fn lemma_dec_prefix(s: Seq<u8>, i: int)
    requires
        0 <= i <= s.len(),
        all_dec(s),
    ensures
        0 <= dec_value(s.subrange(0, i)) <= dec_value(s),
    decreases s.len(),
{
    if s.len() > 0 {
        lemma_dec_nonneg(s);
        if i < s.len() {
            assert(s.drop_last().subrange(0, i) =~= s.subrange(0, i));
            lemma_dec_prefix(s.drop_last(), i);
            lemma_dec_nonneg(s.drop_last());
        } else {
            assert(s.subrange(0, i) =~= s);
        }
    } else {
        assert(s.subrange(0, i) =~= s);
    }
}

/// The value of decimal digits is not negative.
pub proof fn lemma_dec_nonneg(s: Seq<u8>)
    requires
        all_dec(s),
    ensures
        dec_value(s) >= 0,
    decreases s.len(),
{
    if s.len() > 0 {
        lemma_dec_nonneg(s.drop_last());
    }
}

/// Parses the decimal number in `b[s..e)`.
pub fn parse_dec_range(b: &[u8], s: usize, e: usize) -> (r: Option<u32>)
    requires
        s <= e <= b@.len(),
    ensures
        r == parse_dec(b@.subrange(s as int, e as int)),
{
    let ghost t = b@.subrange(s as int, e as int);
    if s == e {
        return None;
    }
    let mut acc: u32 = 0;
    let mut i: usize = s;
    while i < e
        invariant
            s <= i <= e <= b@.len(),
            t == b@.subrange(s as int, e as int),
            all_dec(b@.subrange(s as int, i as int)),
            acc == dec_value(b@.subrange(s as int, i as int)),
        decreases e - i,
    {
        let c = b[i];
        let ghost pre = b@.subrange(s as int, i as int);
        let ghost next = b@.subrange(s as int, i + 1);
        assert(next.drop_last() =~= pre);
        if c < 0x30 || c > 0x39 {
            assert(!all_dec(t)) by {
                assert(t[i - s] == b@[i as int]);
            }
            return None;
        }
        let d = (c - 0x30) as u32;
        if acc > (u32::MAX - d) / 10 {
            proof {
                assert(dec_value(next) > u32::MAX);
                if all_dec(t) {
                    assert(t.subrange(0, i + 1 - s) =~= next);
                    lemma_dec_prefix(t, i + 1 - s);
                }
            }
            return None;
        }
        acc = acc * 10 + d;
        i = i + 1;
    }
    Some(acc)
}

} // verus!
