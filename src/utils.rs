//! Text helpers for logging.

use vstd::prelude::*;
use vstd::utf8::{
    encode_utf8, encode_utf8_decode_utf8, encode_utf8_valid_utf8, is_ascii_chars,
    is_ascii_chars_encode_utf8,
};

use crate::reader::string_from_utf8;

verus! {

/// The ASCII code of the lowercase hexadecimal digit `n` (below 16).
pub open spec fn hex_code(n: int) -> u8 {
    if n < 10 {
        (48 + n) as u8
    } else {
        (87 + n) as u8
    }
}

/// The ASCII text of `s`: two lowercase hexadecimal digits per byte, with a
/// single space between bytes.
pub open spec fn hex_line(s: Seq<u8>) -> Seq<u8>
    decreases s.len(),
{
    if s.len() == 0 {
        Seq::empty()
    } else {
        let pair = seq![hex_code(s.last() as int / 16), hex_code(s.last() as int % 16)];
        if s.len() == 1 {
            pair
        } else {
            hex_line(s.drop_last()) + seq![32u8] + pair
        }
    }
}

/// The characters of an ASCII byte sequence.
pub open spec fn ascii_chars(s: Seq<u8>) -> Seq<char> {
    s.map_values(|b: u8| b as char)
}

proof fn lemma_hex_line_ascii(s: Seq<u8>)
    ensures
        forall|i: int| 0 <= i < hex_line(s).len() ==> #[trigger] hex_line(s)[i] < 128,
    decreases s.len(),
{
    if s.len() > 0 {
        let hi = s.last() as int / 16;
        let lo = s.last() as int % 16;
        assert(hex_code(hi) < 128);
        assert(hex_code(lo) < 128);
        let pair = seq![hex_code(hi), hex_code(lo)];
        let h = hex_line(s);
        if s.len() > 1 {
            let a = hex_line(s.drop_last());
            lemma_hex_line_ascii(s.drop_last());
            assert(h == a + seq![32u8] + pair);
            assert forall|i: int| 0 <= i < h.len() implies #[trigger] h[i] < 128 by {
                if i < a.len() {
                    assert(h[i] == a[i]);
                } else if i > a.len() {
                    assert(h[i] == pair[i - a.len() - 1]);
                }
            }
        } else {
            assert(h == pair);
        }
    }
}

/// The bytes as lowercase hexadecimal pairs separated by spaces.
pub fn bytes_as_hex(data: &[u8]) -> (r: String)
    ensures
        r@ == ascii_chars(hex_line(data@)),
{
    let mut out: Vec<u8> = Vec::new();
    let mut i: usize = 0;
    while i < data.len()
        invariant
            i <= data@.len(),
            out@ == hex_line(data@.subrange(0, i as int)),
        decreases data@.len() - i,
    {
        let b = data[i];
        let high = b / 16;
        let low = b % 16;
        if i > 0 {
            out.push(32);
        }
        out.push(if high < 10 { 48 + high } else { 87 + high });
        out.push(if low < 10 { 48 + low } else { 87 + low });
        i = i + 1;
        proof {
            let prefix = data@.subrange(0, i as int);
            assert(prefix.drop_last() =~= data@.subrange(0, i - 1));
            assert(out@ =~= hex_line(prefix));
        }
    }
    proof {
        broadcast use encode_utf8_decode_utf8, encode_utf8_valid_utf8;

        assert(data@.subrange(0, i as int) =~= data@);
        let text = ascii_chars(out@);
        lemma_hex_line_ascii(data@);
        assert(is_ascii_chars(text));
        is_ascii_chars_encode_utf8(text);
        assert(encode_utf8(text) =~= out@);
    }
    match string_from_utf8(out) {
        Some(s) => s,
        None => String::new(),
    }
}

} // verus!
