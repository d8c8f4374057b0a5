//! Reading wire values out of a byte buffer.

use vstd::prelude::*;
use vstd::utf8::{decode_utf8, valid_utf8};

use crate::wire::{
    i32_of_bits, i64_of_bits, int_at, lemma_int_at_len, lemma_pow128_mono, long_at, pow128, string_at, u16_at,
    var_decode,
};

verus! {

/// Reads wire values at a given byte offset, without moving anything.
pub trait VarDataReader {
    /// The bytes that are read.
    spec fn read_source(&self) -> Seq<u8>;

    /// A signed 32-bit varint and the number of bytes it spans.
    fn read_int(&self, offset: usize) -> (r: Option<(i32, usize)>)
        ensures
            r == int_at(self.read_source(), offset as int),
    ;

    /// A signed 64-bit varint and the number of bytes it spans.
    fn read_long(&self, offset: usize) -> (r: Option<(i64, usize)>)
        ensures
            r == long_at(self.read_source(), offset as int),
    ;

    /// A big-endian unsigned 16-bit integer.
    fn read_u16(&self, offset: usize) -> (r: Option<u16>)
        ensures
            r == u16_at(self.read_source(), offset as int),
    ;

    /// A length-prefixed string and the number of bytes it spans.
    fn read_string(&self, offset: usize) -> (r: Option<(String, usize)>)
        ensures
            match string_at(self.read_source(), offset as int) {
                None => r is None,
                Some((text, n)) => r is Some && r.unwrap().0@ == text && r.unwrap().1 == n,
            },
    ;
}

/// Reads wire values one after another from a cursor that each read advances.
pub trait CursoredVarDataReader {
    /// The bytes that are read.
    spec fn read_payload(&self) -> Seq<u8>;

    /// Where the next read starts.
    spec fn read_cursor(&self) -> nat;

    /// Moves the cursor back to the start.
    fn reset_cursor(&mut self)
        ensures
            final(self).read_payload() == old(self).read_payload(),
            final(self).read_cursor() == 0,
    ;

    /// Reads a signed 32-bit varint; on failure the cursor stays.
    fn read_int(&mut self) -> (r: Option<i32>)
        ensures
            final(self).read_payload() == old(self).read_payload(),
            match int_at(old(self).read_payload(), old(self).read_cursor() as int) {
                None => r is None && final(self).read_cursor() == old(self).read_cursor(),
                Some((v, n)) => r == Some(v) && final(self).read_cursor() == old(
                    self,
                ).read_cursor() + n,
            },
    ;

    /// Reads a signed 64-bit varint; on failure the cursor stays.
    fn read_long(&mut self) -> (r: Option<i64>)
        ensures
            final(self).read_payload() == old(self).read_payload(),
            match long_at(old(self).read_payload(), old(self).read_cursor() as int) {
                None => r is None && final(self).read_cursor() == old(self).read_cursor(),
                Some((v, n)) => r == Some(v) && final(self).read_cursor() == old(
                    self,
                ).read_cursor() + n,
            },
    ;

    /// Reads a big-endian unsigned 16-bit integer; on failure the cursor stays.
    fn read_u16(&mut self) -> (r: Option<u16>)
        ensures
            final(self).read_payload() == old(self).read_payload(),
            match u16_at(old(self).read_payload(), old(self).read_cursor() as int) {
                None => r is None && final(self).read_cursor() == old(self).read_cursor(),
                Some(v) => r == Some(v) && final(self).read_cursor() == old(self).read_cursor()
                    + 2,
            },
    ;

    /// Reads a length-prefixed string; on failure the cursor stays.
    fn read_string(&mut self) -> (r: Option<String>)
        ensures
            final(self).read_payload() == old(self).read_payload(),
            match string_at(old(self).read_payload(), old(self).read_cursor() as int) {
                None => r is None && final(self).read_cursor() == old(self).read_cursor(),
                Some((text, n)) => r is Some && r.unwrap()@ == text && final(self).read_cursor()
                    == old(self).read_cursor() + n,
            },
    ;
}

/// Relies on std's `String::from_utf8`: it succeeds exactly on valid UTF-8,
/// and then holds the characters that the bytes encode.
#[verifier::external_body]
pub(crate) fn string_from_utf8(bytes: Vec<u8>) -> (r: Option<String>)
    ensures
        match r {
            Some(s) => valid_utf8(bytes@) && s@ == decode_utf8(bytes@),
            None => !valid_utf8(bytes@),
        },
{
    String::from_utf8(bytes).ok()
}

proof fn lemma_group_step(acc: int, mult: int, low: int, v: int)
    ensures
        acc + mult * (low + 128 * v) == (acc + low * mult) + (mult * 128) * v,
{
    assert(acc + mult * (low + 128 * v) == (acc + low * mult) + (mult * 128) * v)
        by (nonlinear_arith);
}

/// Decodes a varint of at most `max` bytes at `offset`, keeping every group.
fn read_var(bytes: &Vec<u8>, offset: usize, max: usize) -> (r: Option<(u128, usize)>)
    requires
        1 <= max <= 10,
        offset <= bytes@.len(),
    ensures
        match var_decode(bytes@.subrange(offset as int, bytes@.len() as int), max as nat) {
            None => r is None,
            Some((v, n)) => r is Some && r.unwrap().0 == v && r.unwrap().1 == n,
        },
{
    let len = bytes.len();
    let ghost s = bytes@.subrange(offset as int, len as int);
    let mut acc: u128 = 0;
    let mut mult: u128 = 1;
    let mut i: usize = 0;
    proof {
        assert(s.subrange(0, s.len() as int) =~= s);
        reveal_with_fuel(pow128, 1);
    }
    while i < max
        invariant
            0 <= i <= max <= 10,
            offset <= len == bytes@.len(),
            s == bytes@.subrange(offset as int, len as int),
            i <= s.len(),
            mult == pow128(i as nat),
            acc < mult,
            var_decode(s, max as nat) == match var_decode(
                s.subrange(i as int, s.len() as int),
                (max - i) as nat,
            ) {
                None => None,
                Some((v, n)) => Some(((acc + mult * v) as nat, (i + n) as nat)),
            },
        decreases max - i,
    {
        if i >= len - offset {
            return None;
        }
        let b = bytes[offset + i];
        let ghost t = s.subrange(i as int, s.len() as int);
        proof {
            lemma_pow128_mono(i as nat, 10);
            assert(pow128(10) == 0x400000000000000000) by {
                reveal_with_fuel(pow128, 11);
            }
            assert(t[0] == b);
            assert(t.drop_first() =~= s.subrange(i + 1, s.len() as int));
            let m = (max - i) as nat;
            if b < 128 {
                assert(var_decode(t, m) == Some((b as nat, 1nat)));
            } else {
                assert(var_decode(t, m) == match var_decode(t.drop_first(), (m - 1) as nat) {
                    None => None,
                    Some((v, n)) => Some((((b - 128) + 128 * v) as nat, n + 1)),
                });
            }
        }
        let low: u128 = (b % 128) as u128;
        assert(acc + low * mult < 128 * mult) by (nonlinear_arith)
            requires
                acc < mult,
                low < 128,
        ;
        let ghost old_acc = acc;
        acc = acc + low * mult;
        if b < 128 {
            assert(low * mult == mult * b) by (nonlinear_arith)
                requires
                    low == b,
            ;
            return Some((acc, i + 1));
        }
        proof {
            let m = (max - i) as nat;
            match var_decode(s.subrange(i + 1, s.len() as int), (m - 1) as nat) {
                Some((v, n)) => {
                    lemma_group_step(old_acc as int, mult as int, low as int, v as int);
                },
                None => {},
            }
        }
        mult = mult * 128;
        i = i + 1;
    }
    None
}


/// The signed 32-bit integer whose bit pattern is the low 32 bits of `v`.
fn i32_from_bits(v: u128) -> (r: i32)
    ensures
        r == i32_of_bits(v as nat),
{
    let low = (v % 0x1_0000_0000) as u64;
    if low < 0x8000_0000 {
        low as i32
    } else {
        (low as i64 - 0x1_0000_0000) as i32
    }
}

/// The signed 64-bit integer whose bit pattern is the low 64 bits of `v`.
fn i64_from_bits(v: u128) -> (r: i64)
    ensures
        r == i64_of_bits(v as nat),
{
    let low = v % 0x1_0000_0000_0000_0000;
    if low < 0x8000_0000_0000_0000 {
        low as i64
    } else {
        (low as i128 - 0x1_0000_0000_0000_0000) as i64
    }
}

impl VarDataReader for Vec<u8> {
    open spec fn read_source(&self) -> Seq<u8> {
        self@
    }

    fn read_int(&self, offset: usize) -> (r: Option<(i32, usize)>) {
        if offset > self.len() {
            return None;
        }
        match read_var(self, offset, 5) {
            None => None,
            Some((v, n)) => Some((i32_from_bits(v), n)),
        }
    }

    fn read_long(&self, offset: usize) -> (r: Option<(i64, usize)>) {
        if offset > self.len() {
            return None;
        }
        match read_var(self, offset, 10) {
            None => None,
            Some((v, n)) => Some((i64_from_bits(v), n)),
        }
    }

    fn read_u16(&self, offset: usize) -> (r: Option<u16>) {
        if offset <= self.len() && 2 <= self.len() - offset {
            Some((self[offset] as u16) * 256 + self[offset + 1] as u16)
        } else {
            None
        }
    }

    fn read_string(&self, offset: usize) -> (r: Option<(String, usize)>) {
        match self.read_int(offset) {
            None => None,
            Some((str_len, prefix_len)) => {
                proof {
                    lemma_int_at_len(self@, offset as int);
                }
                let len = self.len();
                let start = offset + prefix_len;
                if str_len < 0 || str_len as usize > len - start {
                    return None;
                }
                let end = start + str_len as usize;
                let mut body: Vec<u8> = Vec::new();
                let mut i = start;
                while i < end
                    invariant
                        start <= i <= end <= self@.len(),
                        body@ == self@.subrange(start as int, i as int),
                    decreases end - i,
                {
                    body.push(self[i]);
                    i = i + 1;
                    proof {
                        assert(body@ =~= self@.subrange(start as int, i as int));
                    }
                }
                let total = prefix_len + str_len as usize;
                match string_from_utf8(body) {
                    Some(text) => Some((text, total)),
                    None => Some((String::new(), total)),
                }
            },
        }
    }
}

} // verus!
