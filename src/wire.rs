//! Mathematical model of the wire format: variable-length integers,
//! big-endian 16-bit integers, and in-place writes into a byte buffer.

use vstd::prelude::*;
use vstd::utf8::{
    decode_utf8, encode_utf8, encode_utf8_decode_utf8, encode_utf8_valid_utf8, valid_utf8,
};

verus! {

/// 2^32.
pub open spec fn pow32() -> nat {
    0x1_0000_0000
}

/// 2^64.
pub open spec fn pow64() -> nat {
    0x1_0000_0000_0000_0000
}

/// 128^k.
pub open spec fn pow128(k: nat) -> nat
    decreases k,
{
    if k == 0 {
        1
    } else {
        128 * pow128((k - 1) as nat)
    }
}

/// Varint encoding of a non-negative integer: 7 bits per byte, least
/// significant group first, high bit set on every byte but the last.
pub open spec fn var_encode(v: nat) -> Seq<u8>
    decreases v,
{
    if v < 128 {
        seq![v as u8]
    } else {
        seq![(v % 128 + 128) as u8] + var_encode(v / 128)
    }
}

/// Decodes a varint from the front of `s`, reading at most `max` bytes.
/// Gives the value (every group kept, no truncation) and the number of bytes read.
pub open spec fn var_decode(s: Seq<u8>, max: nat) -> Option<(nat, nat)>
    decreases max,
{
    if max == 0 || s.len() == 0 {
        None
    } else if s[0] < 128 {
        Some((s[0] as nat, 1))
    } else {
        match var_decode(s.drop_first(), (max - 1) as nat) {
            None => None,
            Some((v, n)) => Some((((s[0] - 128) + 128 * v) as nat, n + 1)),
        }
    }
}

/// The two's-complement bit pattern of a 32-bit integer, as an unsigned value.
pub open spec fn i32_bits(i: i32) -> nat {
    if i >= 0 {
        i as nat
    } else {
        (i + pow32()) as nat
    }
}

/// The signed 32-bit integer whose bit pattern is the low 32 bits of `u`.
pub open spec fn i32_of_bits(u: nat) -> i32 {
    let low = u % pow32();
    if low < 0x8000_0000 {
        low as i32
    } else {
        (low - pow32()) as i32
    }
}

/// The two's-complement bit pattern of a 64-bit integer, as an unsigned value.
pub open spec fn i64_bits(i: i64) -> nat {
    if i >= 0 {
        i as nat
    } else {
        (i + pow64()) as nat
    }
}

/// The signed 64-bit integer whose bit pattern is the low 64 bits of `u`.
pub open spec fn i64_of_bits(u: nat) -> i64 {
    let low = u % pow64();
    if low < 0x8000_0000_0000_0000 {
        low as i64
    } else {
        (low - pow64()) as i64
    }
}

/// Wire form of a signed 32-bit varint.
pub open spec fn int_bytes(i: i32) -> Seq<u8> {
    var_encode(i32_bits(i))
}

/// Wire form of a signed 64-bit varint.
pub open spec fn long_bytes(i: i64) -> Seq<u8> {
    var_encode(i64_bits(i))
}

/// Reads a signed 32-bit varint (at most 5 bytes) at `offset` of `s`.
pub open spec fn int_at(s: Seq<u8>, offset: int) -> Option<(i32, usize)> {
    if offset < 0 || offset > s.len() {
        None
    } else {
        match var_decode(s.subrange(offset, s.len() as int), 5) {
            None => None,
            Some((v, n)) => Some((i32_of_bits(v), n as usize)),
        }
    }
}

/// Reads a signed 64-bit varint (at most 10 bytes) at `offset` of `s`.
pub open spec fn long_at(s: Seq<u8>, offset: int) -> Option<(i64, usize)> {
    if offset < 0 || offset > s.len() {
        None
    } else {
        match var_decode(s.subrange(offset, s.len() as int), 10) {
            None => None,
            Some((v, n)) => Some((i64_of_bits(v), n as usize)),
        }
    }
}

/// Wire form of a length-prefixed string: the varint byte count of its
/// UTF-8 encoding, then that encoding.
pub open spec fn string_bytes(s: Seq<char>) -> Seq<u8> {
    int_bytes(encode_utf8(s).len() as i32) + encode_utf8(s)
}

/// Reads a length-prefixed string at `offset` of `s`: the characters (empty
/// where the body is not valid UTF-8) and the number of bytes the string spans.
pub open spec fn string_at(s: Seq<u8>, offset: int) -> Option<(Seq<char>, usize)> {
    match int_at(s, offset) {
        None => None,
        Some((len, n)) => {
            let start = offset + n;
            if len < 0 || start + len > s.len() {
                None
            } else {
                let body = s.subrange(start, start + len);
                let text = if valid_utf8(body) {
                    decode_utf8(body)
                } else {
                    Seq::empty()
                };
                Some((text, (n + len) as usize))
            }
        }
    }
}

/// Big-endian wire form of a 16-bit integer.
pub open spec fn u16_bytes(v: u16) -> Seq<u8> {
    seq![(v / 256) as u8, (v % 256) as u8]
}

/// Reads a big-endian 16-bit integer at `offset` of `s`.
pub open spec fn u16_at(s: Seq<u8>, offset: int) -> Option<u16> {
    if 0 <= offset && offset + 2 <= s.len() {
        Some((s[offset] * 256 + s[offset + 1]) as u16)
    } else {
        None
    }
}

/// `s` with `bytes` written from `offset` on: the buffer grows as needed,
/// and a gap between its old end and `offset` is filled with zeros.
pub open spec fn overwrite(s: Seq<u8>, offset: int, bytes: Seq<u8>) -> Seq<u8> {
    let len = if s.len() >= offset + bytes.len() {
        s.len() as int
    } else {
        offset + bytes.len()
    };
    Seq::new(
        len as nat,
        |i: int|
            if offset <= i < offset + bytes.len() {
                bytes[i - offset]
            } else if i < s.len() {
                s[i]
            } else {
                0u8
            },
    )
}


/// An encoding of a value below 128^k takes at most k bytes.
pub proof fn lemma_var_encode_len(v: nat, k: nat)
    requires
        1 <= k,
        v < pow128(k),
    ensures
        1 <= var_encode(v).len() <= k,
    decreases v,
{
    reveal_with_fuel(pow128, 2);
    if v >= 128 {
        assert(k >= 2) by {
            if k < 2 {
                assert(pow128(0) == 1);
                assert(pow128(1) == 128);
            }
        }
        assert(v / 128 < pow128((k - 1) as nat)) by (nonlinear_arith)
            requires
                v < pow128(k),
                pow128(k) == 128 * pow128((k - 1) as nat),
        ;
        lemma_var_encode_len(v / 128, (k - 1) as nat);
    }
}

/// Two adjacent writes amount to one write of their concatenation.
pub proof fn lemma_overwrite_concat(s: Seq<u8>, offset: int, a: Seq<u8>, b: Seq<u8>)
    requires
        0 <= offset,
    ensures
        overwrite(overwrite(s, offset, a), offset + a.len(), b) == overwrite(s, offset, a + b),
{
    assert(overwrite(overwrite(s, offset, a), offset + a.len(), b) =~= overwrite(s, offset, a + b));
}

/// Writing at the end of a buffer appends.
pub proof fn lemma_overwrite_append(s: Seq<u8>, b: Seq<u8>)
    ensures
        overwrite(s, s.len() as int, b) == s + b,
{
    assert(overwrite(s, s.len() as int, b) =~= s + b);
}

/// Widths of the varint forms.
pub proof fn lemma_bytes_len(i: i32, l: i64)
    ensures
        1 <= int_bytes(i).len() <= 5,
        1 <= long_bytes(l).len() <= 10,
{
    lemma_i32_bits(i);
    lemma_i64_bits(l);
    lemma_pow128_bounds();
    lemma_var_encode_len(i32_bits(i), 5);
    lemma_var_encode_len(i64_bits(l), 10);
}

/// Writing bytes that are already in place changes nothing.
pub proof fn lemma_overwrite_same(s: Seq<u8>, offset: int, b: Seq<u8>)
    requires
        0 <= offset,
        offset + b.len() <= s.len(),
        s.subrange(offset, offset + b.len()) == b,
    ensures
        overwrite(s, offset, b) == s,
{
    assert forall|i: int| offset <= i < offset + b.len() implies b[i - offset] == s[i] by {
        assert(s.subrange(offset, offset + b.len())[i - offset] == s[i]);
    }
    assert(overwrite(s, offset, b) =~= s);
}

/// A decoded varint spans at least one and at most `max` bytes of the input.
pub proof fn lemma_var_decode_len(s: Seq<u8>, max: nat)
    ensures
        var_decode(s, max) matches Some((v, n)) ==> 1 <= n <= max && n <= s.len(),
    decreases max,
{
    if max > 0 && s.len() > 0 && s[0] >= 128 {
        lemma_var_decode_len(s.drop_first(), (max - 1) as nat);
    }
}

/// A varint read at `offset` lies within the buffer.
pub proof fn lemma_int_at_len(s: Seq<u8>, offset: int)
    ensures
        int_at(s, offset) matches Some((v, n)) ==> 1 <= n <= 5 && offset + n <= s.len(),
{
    if 0 <= offset <= s.len() {
        lemma_var_decode_len(s.subrange(offset, s.len() as int), 5);
    }
}

/// A 64-bit varint read at `offset` lies within the buffer.
pub proof fn lemma_long_at_len(s: Seq<u8>, offset: int)
    ensures
        long_at(s, offset) matches Some((v, n)) ==> 1 <= n <= 10 && offset + n <= s.len(),
{
    if 0 <= offset <= s.len() {
        lemma_var_decode_len(s.subrange(offset, s.len() as int), 10);
    }
}

/// A varint that decodes from a buffer decodes the same once more bytes follow.
pub proof fn lemma_var_decode_extend(s: Seq<u8>, t: Seq<u8>, max: nat)
    ensures
        var_decode(s, max) is Some ==> var_decode(s + t, max) == var_decode(s, max),
    decreases max,
{
    if max > 0 && s.len() > 0 {
        assert((s + t)[0] == s[0]);
        if s[0] >= 128 {
            assert((s + t).drop_first() =~= s.drop_first() + t);
            lemma_var_decode_extend(s.drop_first(), t, (max - 1) as nat);
        }
    }
}

/// Decoding reads back exactly what encoding wrote, whatever follows it.
pub proof fn lemma_var_decode_encode(v: nat, rest: Seq<u8>, max: nat)
    requires
        var_encode(v).len() <= max,
    ensures
        var_decode(var_encode(v) + rest, max) == Some((v, var_encode(v).len())),
    decreases v,
{
    let s = var_encode(v) + rest;
    if v < 128 {
        assert(s[0] == v as u8);
    } else {
        let tail = var_encode(v / 128);
        assert(s[0] == (v % 128 + 128) as u8);
        assert(s.drop_first() =~= tail + rest);
        lemma_var_decode_encode(v / 128, rest, (max - 1) as nat);
    }
}

pub proof fn lemma_pow128_mono(a: nat, b: nat)
    requires
        a <= b,
    ensures
        1 <= pow128(a) <= pow128(b),
    decreases b,
{
    if b > 0 {
        if a < b {
            lemma_pow128_mono(a, (b - 1) as nat);
        } else {
            lemma_pow128_mono((a - 1) as nat, (b - 1) as nat);
        }
    }
}

pub proof fn lemma_pow128_bounds()
    ensures
        pow32() < pow128(5),
        pow64() <= pow128(10),
{
    reveal_with_fuel(pow128, 11);
}

pub proof fn lemma_i32_bits(i: i32)
    ensures
        i32_bits(i) < pow32(),
        i32_of_bits(i32_bits(i)) == i,
{
}

pub proof fn lemma_i64_bits(i: i64)
    ensures
        i64_bits(i) < pow64(),
        i64_of_bits(i64_bits(i)) == i,
{
}

/// Writing a 32-bit varint at `offset` and reading it back yields the value
/// and a width equal to the number of bytes written.
pub proof fn lemma_int_round_trip(buf: Seq<u8>, offset: int, i: i32)
    requires
        0 <= offset,
    ensures
        int_bytes(i).len() <= 5,
        int_at(overwrite(buf, offset, int_bytes(i)), offset) == Some((i, int_bytes(i).len() as usize)),
{
    lemma_i32_bits(i);
    lemma_pow128_bounds();
    lemma_var_encode_len(i32_bits(i), 5);
    let w = overwrite(buf, offset, int_bytes(i));
    let tail = w.subrange(offset, w.len() as int);
    let rest = w.subrange(offset + int_bytes(i).len(), w.len() as int);
    assert(tail =~= int_bytes(i) + rest);
    lemma_var_decode_encode(i32_bits(i), rest, 5);
}

/// Writing a 64-bit varint at `offset` and reading it back yields the value
/// and a width equal to the number of bytes written.
pub proof fn lemma_long_round_trip(buf: Seq<u8>, offset: int, i: i64)
    requires
        0 <= offset,
    ensures
        long_bytes(i).len() <= 10,
        long_at(overwrite(buf, offset, long_bytes(i)), offset) == Some((i, long_bytes(i).len() as usize)),
{
    lemma_i64_bits(i);
    lemma_pow128_bounds();
    lemma_var_encode_len(i64_bits(i), 10);
    let w = overwrite(buf, offset, long_bytes(i));
    let tail = w.subrange(offset, w.len() as int);
    let rest = w.subrange(offset + long_bytes(i).len(), w.len() as int);
    assert(tail =~= long_bytes(i) + rest);
    lemma_var_decode_encode(i64_bits(i), rest, 10);
}

/// Writing a big-endian 16-bit integer at `offset` and reading it back yields the value.
pub proof fn lemma_u16_round_trip(buf: Seq<u8>, offset: int, v: u16)
    requires
        0 <= offset,
    ensures
        u16_at(overwrite(buf, offset, u16_bytes(v)), offset) == Some(v),
{
    let w = overwrite(buf, offset, u16_bytes(v));
    assert(w[offset] == (v / 256) as u8);
    assert(w[offset + 1] == (v % 256) as u8);
}


/// Writing a length-prefixed string at `offset` and reading it back yields
/// the same characters and a span equal to the number of bytes written.
pub proof fn lemma_string_round_trip(buf: Seq<u8>, offset: int, s: Seq<char>)
    requires
        0 <= offset,
        encode_utf8(s).len() <= i32::MAX,
    ensures
        string_at(overwrite(buf, offset, string_bytes(s)), offset) == Some(
            (s, string_bytes(s).len() as usize),
        ),
{
    broadcast use encode_utf8_valid_utf8, encode_utf8_decode_utf8;

    let enc = encode_utf8(s);
    let len = enc.len() as i32;
    let prefix = int_bytes(len);
    let w = overwrite(buf, offset, string_bytes(s));
    lemma_overwrite_concat(buf, offset, prefix, enc);
    assert(overwrite(overwrite(buf, offset, prefix), offset + prefix.len(), enc) == w);
    lemma_int_round_trip(overwrite(buf, offset + prefix.len(), enc), offset, len);
    assert(int_at(w, offset) == Some((len, prefix.len() as usize))) by {
        let tail = w.subrange(offset, w.len() as int);
        let rest = w.subrange(offset + prefix.len(), w.len() as int);
        assert(tail =~= prefix + rest);
        lemma_i32_bits(len);
        lemma_pow128_bounds();
        lemma_var_encode_len(i32_bits(len), 5);
        lemma_var_decode_encode(i32_bits(len), rest, 5);
    }
    let start = offset + prefix.len();
    assert(w.subrange(start, start + len) =~= enc);
}

} // verus!
