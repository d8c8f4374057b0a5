//! Writing wire values into a byte buffer.

use vstd::prelude::*;
use vstd::utf8::encode_utf8;

use crate::wire::{
    i32_bits, i64_bits, int_bytes, lemma_i32_bits, lemma_i64_bits, lemma_overwrite_concat,
    long_bytes, overwrite, string_bytes, u16_bytes, var_encode,
};

verus! {

/// Writes wire values at a given byte offset, overwriting what is there and
/// growing the buffer as needed.
pub trait VarDataWriter {
    /// The bytes that are written.
    spec fn write_target(&self) -> Seq<u8>;

    /// Writes a signed 32-bit varint; returns the number of bytes written.
    fn write_int(&mut self, val: i32, offset: usize) -> (n: usize)
        requires
            offset + 5 <= usize::MAX,
        ensures
            final(self).write_target() == overwrite(
                old(self).write_target(),
                offset as int,
                int_bytes(val),
            ),
            n == int_bytes(val).len(),
            1 <= n <= 5,
    ;

    /// Writes a signed 64-bit varint; returns the number of bytes written.
    fn write_long(&mut self, val: i64, offset: usize) -> (n: usize)
        requires
            offset + 10 <= usize::MAX,
        ensures
            final(self).write_target() == overwrite(
                old(self).write_target(),
                offset as int,
                long_bytes(val),
            ),
            n == long_bytes(val).len(),
            1 <= n <= 10,
    ;

    /// Writes a big-endian unsigned 16-bit integer.
    fn write_u16(&mut self, val: u16, offset: usize)
        requires
            offset + 2 <= usize::MAX,
        ensures
            final(self).write_target() == overwrite(
                old(self).write_target(),
                offset as int,
                u16_bytes(val),
            ),
    ;

    /// Writes a length-prefixed string; returns the number of bytes written.
    fn write_string(&mut self, val: &String, offset: usize) -> (n: usize)
        requires
            encode_utf8(val@).len() <= i32::MAX,
            offset + 5 + encode_utf8(val@).len() <= usize::MAX,
        ensures
            final(self).write_target() == overwrite(
                old(self).write_target(),
                offset as int,
                string_bytes(val@),
            ),
            n == string_bytes(val@).len(),
            n <= 5 + encode_utf8(val@).len(),
    ;
}

/// Writes wire values one after another at a cursor that each write advances.
pub trait CursoredVarDataWriter {
    /// The bytes that are written.
    spec fn write_payload(&self) -> Seq<u8>;

    /// Where the next write starts.
    spec fn write_cursor(&self) -> nat;

    /// How long the written bytes may grow.
    spec fn write_limit(&self) -> nat;

    /// The writer is in a consistent state.
    spec fn write_ready(&self) -> bool;

    /// Moves the cursor back to the start.
    fn reset_cursor(&mut self)
        requires
            old(self).write_ready(),
        ensures
            final(self).write_ready(),
            final(self).write_payload() == old(self).write_payload(),
            final(self).write_limit() == old(self).write_limit(),
            final(self).write_cursor() == 0,
    ;

    /// Writes a signed 32-bit varint.
    fn write_int(&mut self, val: i32)
        requires
            old(self).write_ready(),
            old(self).write_cursor() + 5 <= old(self).write_limit(),
        ensures
            final(self).write_ready(),
            final(self).write_limit() == old(self).write_limit(),
            final(self).write_payload() == overwrite(
                old(self).write_payload(),
                old(self).write_cursor() as int,
                int_bytes(val),
            ),
            final(self).write_cursor() == old(self).write_cursor() + int_bytes(val).len(),
    ;

    /// Writes a signed 64-bit varint.
    fn write_long(&mut self, val: i64)
        requires
            old(self).write_ready(),
            old(self).write_cursor() + 10 <= old(self).write_limit(),
        ensures
            final(self).write_ready(),
            final(self).write_limit() == old(self).write_limit(),
            final(self).write_payload() == overwrite(
                old(self).write_payload(),
                old(self).write_cursor() as int,
                long_bytes(val),
            ),
            final(self).write_cursor() == old(self).write_cursor() + long_bytes(val).len(),
    ;

    /// Writes a big-endian unsigned 16-bit integer.
    fn write_u16(&mut self, val: u16)
        requires
            old(self).write_ready(),
            old(self).write_cursor() + 2 <= old(self).write_limit(),
        ensures
            final(self).write_ready(),
            final(self).write_limit() == old(self).write_limit(),
            final(self).write_payload() == overwrite(
                old(self).write_payload(),
                old(self).write_cursor() as int,
                u16_bytes(val),
            ),
            final(self).write_cursor() == old(self).write_cursor() + 2,
    ;

    /// Writes a length-prefixed string.
    fn write_string(&mut self, val: &String)
        requires
            old(self).write_ready(),
            old(self).write_cursor() + 5 + encode_utf8(val@).len() <= old(self).write_limit(),
        ensures
            final(self).write_ready(),
            final(self).write_limit() == old(self).write_limit(),
            final(self).write_payload() == overwrite(
                old(self).write_payload(),
                old(self).write_cursor() as int,
                string_bytes(val@),
            ),
            final(self).write_cursor() == old(self).write_cursor() + string_bytes(val@).len(),
    ;
}

/// The varint encoding of `v`.
pub fn var_bytes(v: u64) -> (r: Vec<u8>)
    ensures
        r@ == var_encode(v as nat),
{
    let mut out: Vec<u8> = Vec::new();
    let mut rest = v;
    while rest >= 128
        invariant
            out@ + var_encode(rest as nat) == var_encode(v as nat),
        decreases rest,
    {
        proof {
            assert(var_encode(rest as nat) == seq![(rest % 128 + 128) as u8] + var_encode(
                (rest / 128) as nat,
            ));
            assert(out@.push((rest % 128 + 128) as u8) + var_encode((rest / 128) as nat)
                =~= out@ + var_encode(rest as nat));
        }
        out.push((rest % 128 + 128) as u8);
        rest = rest / 128;
    }
    proof {
        assert(out@.push(rest as u8) =~= out@ + var_encode(rest as nat));
    }
    out.push(rest as u8);
    out
}

/// Writes `bytes` into `buf` from `offset` on, padding with zeros up to `offset`.
pub fn write_at(buf: &mut Vec<u8>, offset: usize, bytes: &[u8])
    requires
        offset + bytes@.len() <= usize::MAX,
    ensures
        final(buf)@ == overwrite(old(buf)@, offset as int, bytes@),
{
    let ghost start = buf@;
    while buf.len() < offset
        invariant
            start.len() <= buf@.len() <= offset || buf@ == start,
            buf@.len() >= start.len(),
            forall|i: int|
                0 <= i < buf@.len() ==> buf@[i] == if i < start.len() {
                    start[i]
                } else {
                    0u8
                },
        decreases offset - buf@.len(),
    {
        buf.push(0);
    }
    proof {
        assert(buf@ =~= overwrite(start, offset as int, bytes@.subrange(0, 0)));
    }
    let mut i: usize = 0;
    while i < bytes.len()
        invariant
            i <= bytes@.len(),
            offset + bytes@.len() <= usize::MAX,
            buf@ == overwrite(start, offset as int, bytes@.subrange(0, i as int)),
        decreases bytes@.len() - i,
    {
        if offset + i < buf.len() {
            buf.set(offset + i, bytes[i]);
        } else {
            buf.push(bytes[i]);
        }
        i = i + 1;
        proof {
            assert(buf@ =~= overwrite(start, offset as int, bytes@.subrange(0, i as int)));
        }
    }
    proof {
        assert(bytes@.subrange(0, i as int) =~= bytes@);
    }
}

impl VarDataWriter for Vec<u8> {
    open spec fn write_target(&self) -> Seq<u8> {
        self@
    }

    fn write_int(&mut self, val: i32, offset: usize) -> (n: usize) {
        let bits: u64 = if val >= 0 {
            val as u64
        } else {
            (val as i64 + 0x1_0000_0000) as u64
        };
        let bytes = var_bytes(bits);
        proof {
            assert(bits as nat == i32_bits(val));
            lemma_i32_bits(val);
            crate::wire::lemma_pow128_bounds();
            crate::wire::lemma_var_encode_len(i32_bits(val), 5);
        }
        write_at(self, offset, bytes.as_slice());
        bytes.len()
    }

    fn write_long(&mut self, val: i64, offset: usize) -> (n: usize) {
        let bits: u64 = if val >= 0 {
            val as u64
        } else {
            (val as i128 + 0x1_0000_0000_0000_0000) as u64
        };
        let bytes = var_bytes(bits);
        proof {
            assert(bits as nat == i64_bits(val));
            lemma_i64_bits(val);
            crate::wire::lemma_pow128_bounds();
            crate::wire::lemma_var_encode_len(i64_bits(val), 10);
        }
        write_at(self, offset, bytes.as_slice());
        bytes.len()
    }

    fn write_u16(&mut self, val: u16, offset: usize) {
        let bytes: [u8; 2] = [(val / 256) as u8, (val % 256) as u8];
        proof {
            assert(bytes@ =~= u16_bytes(val));
        }
        write_at(self, offset, bytes.as_slice());
    }

    fn write_string(&mut self, val: &String, offset: usize) -> (n: usize) {
        let ghost before = self@;
        let bytes = val.as_str().as_bytes();
        let prefix_len = self.write_int(bytes.len() as i32, offset);
        proof {
            lemma_overwrite_concat(
                before,
                offset as int,
                int_bytes(bytes@.len() as i32),
                bytes@,
            );
            lemma_i32_bits(bytes@.len() as i32);
            crate::wire::lemma_pow128_bounds();
            crate::wire::lemma_var_encode_len(i32_bits(bytes@.len() as i32), 5);
        }
        write_at(self, offset + prefix_len, bytes);
        prefix_len + bytes.len()
    }
}

} // verus!
