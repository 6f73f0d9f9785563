//! The executable codec: encoding into a growable byte buffer and decoding
//! from a byte slice.
//!
//! Decoding comes in two tiers, as the format intends: an unchecked tier that
//! requires the caller to guarantee `MAX_LEN` readable bytes and so performs
//! no per-byte bounds test, and the bounds-checked cursor layer built on top
//! of it (see the buffer module).

use crate::model::{decoded_value, encoded_len, encoding, tag_len, MAX_LEN};
use crate::zigzag::{zigzag_decode, zigzag_decoded, zigzag_encode, zigzag_encoded};
use vstd::prelude::*;

verus! {

/// Appends the multi-byte encodings; `encode_prefix_uvarint` peels off the
/// common one-byte case first.
fn encode_prefix_uvarint_slow(v: u64, buf: &mut Vec<u8>) -> (len: usize)
    requires
        v > 0x7f,
    ensures
        final(buf)@ == old(buf)@ + encoding(v),
        len == encoded_len(v),
{
    if v <= 0x3fff {
        let t = v | 0x8000;
        buf.push((t >> 8) as u8);
        buf.push(t as u8);
        assert(buf@ =~= old(buf)@ + encoding(v));
        2
    } else if v <= 0x1fffff {
        let t = v | 0xc00000;
        buf.push((t >> 16) as u8);
        buf.push((t >> 8) as u8);
        buf.push(t as u8);
        assert(buf@ =~= old(buf)@ + encoding(v));
        3
    } else if v <= 0xfffffff {
        let t = v | 0xe0000000;
        buf.push((t >> 24) as u8);
        buf.push((t >> 16) as u8);
        buf.push((t >> 8) as u8);
        buf.push(t as u8);
        assert(buf@ =~= old(buf)@ + encoding(v));
        4
    } else if v <= 0x7ffffffff {
        let t = v | 0xf000000000;
        buf.push((t >> 32) as u8);
        buf.push((t >> 24) as u8);
        buf.push((t >> 16) as u8);
        buf.push((t >> 8) as u8);
        buf.push(t as u8);
        assert(buf@ =~= old(buf)@ + encoding(v));
        5
    } else if v <= 0x3ffffffffff {
        let t = v | 0xf80000000000;
        buf.push((t >> 40) as u8);
        buf.push((t >> 32) as u8);
        buf.push((t >> 24) as u8);
        buf.push((t >> 16) as u8);
        buf.push((t >> 8) as u8);
        buf.push(t as u8);
        assert(buf@ =~= old(buf)@ + encoding(v));
        6
    } else if v <= 0x1ffffffffffff {
        let t = v | 0xfc000000000000;
        buf.push((t >> 48) as u8);
        buf.push((t >> 40) as u8);
        buf.push((t >> 32) as u8);
        buf.push((t >> 24) as u8);
        buf.push((t >> 16) as u8);
        buf.push((t >> 8) as u8);
        buf.push(t as u8);
        assert(buf@ =~= old(buf)@ + encoding(v));
        7
    } else if v <= 0xffffffffffffff {
        let t = v | 0xfe00000000000000;
        buf.push((t >> 56) as u8);
        buf.push((t >> 48) as u8);
        buf.push((t >> 40) as u8);
        buf.push((t >> 32) as u8);
        buf.push((t >> 24) as u8);
        buf.push((t >> 16) as u8);
        buf.push((t >> 8) as u8);
        buf.push(t as u8);
        assert(buf@ =~= old(buf)@ + encoding(v));
        8
    } else {
        buf.push(0xff);
        buf.push((v >> 56) as u8);
        buf.push((v >> 48) as u8);
        buf.push((v >> 40) as u8);
        buf.push((v >> 32) as u8);
        buf.push((v >> 24) as u8);
        buf.push((v >> 16) as u8);
        buf.push((v >> 8) as u8);
        buf.push(v as u8);
        assert(buf@ =~= old(buf)@ + encoding(v));
        9
    }
}

/// The total encoded length that a first byte declares: one more than its
/// number of leading one-bits.
pub fn tag_byte_len(tag: u8) -> (n: usize)
    ensures
        n == tag_len(tag),
        1 <= n <= MAX_LEN,
{
    if tag <= 0x7f {
        1
    } else if tag < 0xc0 {
        2
    } else if tag < 0xe0 {
        3
    } else if tag < 0xf0 {
        4
    } else if tag < 0xf8 {
        5
    } else if tag < 0xfc {
        6
    } else if tag < 0xfe {
        7
    } else if tag == 0xfe {
        8
    } else {
        9
    }
}

/// Appends the encoding of `v` to `buf`, using 1 to `MAX_LEN` bytes, and
/// returns the number of bytes written.
pub fn encode_prefix_uvarint(v: u64, buf: &mut Vec<u8>) -> (len: usize)
    ensures
        final(buf)@ == old(buf)@ + encoding(v),
        len == encoded_len(v),
{
    if v <= 0x7f {
        buf.push(v as u8);
        assert(buf@ =~= old(buf)@ + encoding(v));
        1
    } else {
        encode_prefix_uvarint_slow(v, buf)
    }
}

/// Appends the encoding of the zigzag transform of `v` to `buf` and returns
/// the number of bytes written.
pub fn encode_prefix_varint(v: i64, buf: &mut Vec<u8>) -> (len: usize)
    ensures
        final(buf)@ == old(buf)@ + encoding(zigzag_encoded(v)),
        len == encoded_len(zigzag_encoded(v)),
{
    encode_prefix_uvarint(zigzag_encode(v), buf)
}

/// Reassembles the multi-byte encodings; `decode_prefix_uvarint` peels off
/// the common one-byte case first.
fn decode_prefix_uvarint_slow(buf: &[u8], pos: usize, tag: u8) -> (r: (u64, usize))
    requires
        pos + MAX_LEN <= buf@.len(),
        tag == buf@[pos as int],
        tag > 0x7f,
    ensures
        r.0 == decoded_value(buf@.skip(pos as int)),
        r.1 == tag_len(buf@[pos as int]),
{
    // Binding the length to a usize shows the indices below fit.
    let _n: usize = buf.len();
    let ghost s = buf@.skip(pos as int);
    assert(forall|i: int| 0 <= i < 9 ==> s[i] == buf@[pos + i]);
    if tag < 0xc0 {
        let raw: u64 = (((tag as u64) << 8) | (buf[pos + 1] as u64)) & 0x3fff;
        (raw, 2)
    } else if tag < 0xe0 {
        let raw: u64 = (((tag as u64) << 16) | ((buf[pos + 1] as u64) << 8) | (buf[pos + 2] as u64))
            & 0x1fffff;
        (raw, 3)
    } else if tag < 0xf0 {
        let raw: u64 = (((tag as u64) << 24) | ((buf[pos + 1] as u64) << 16) | ((buf[pos + 2] as u64)
            << 8) | (buf[pos + 3] as u64)) & 0xfffffff;
        (raw, 4)
    } else if tag < 0xf8 {
        let raw: u64 = (((tag as u64) << 32) | ((buf[pos + 1] as u64) << 24) | ((buf[pos + 2] as u64)
            << 16) | ((buf[pos + 3] as u64) << 8) | (buf[pos + 4] as u64)) & 0x7ffffffff;
        (raw, 5)
    } else if tag < 0xfc {
        let raw: u64 = (((tag as u64) << 40) | ((buf[pos + 1] as u64) << 32) | ((buf[pos + 2] as u64)
            << 24) | ((buf[pos + 3] as u64) << 16) | ((buf[pos + 4] as u64) << 8) | (buf[pos
            + 5] as u64)) & 0x3ffffffffff;
        (raw, 6)
    } else if tag < 0xfe {
        let raw: u64 = (((tag as u64) << 48) | ((buf[pos + 1] as u64) << 40) | ((buf[pos + 2] as u64)
            << 32) | ((buf[pos + 3] as u64) << 24) | ((buf[pos + 4] as u64) << 16) | ((buf[pos
            + 5] as u64) << 8) | (buf[pos + 6] as u64)) & 0x1ffffffffffff;
        (raw, 7)
    } else if tag == 0xfe {
        let raw: u64 = (((tag as u64) << 56) | ((buf[pos + 1] as u64) << 48) | ((buf[pos + 2] as u64)
            << 40) | ((buf[pos + 3] as u64) << 32) | ((buf[pos + 4] as u64) << 24) | ((buf[pos
            + 5] as u64) << 16) | ((buf[pos + 6] as u64) << 8) | (buf[pos + 7] as u64))
            & 0xffffffffffffff;
        (raw, 8)
    } else {
        let raw: u64 = ((buf[pos + 1] as u64) << 56) | ((buf[pos + 2] as u64) << 48) | ((buf[pos
            + 3] as u64) << 40) | ((buf[pos + 4] as u64) << 32) | ((buf[pos + 5] as u64) << 24) | (
        (buf[pos + 6] as u64) << 16) | ((buf[pos + 7] as u64) << 8) | (buf[pos + 8] as u64);
        (raw, 9)
    }
}

/// Decodes a prefix uvarint at position `pos` of `buf`, returning the value
/// and the number of bytes consumed.
///
/// This is the unchecked tier: the caller must guarantee that `MAX_LEN` bytes
/// are readable at `pos`, and no per-byte bounds test is made.
pub fn decode_prefix_uvarint(buf: &[u8], pos: usize) -> (r: (u64, usize))
    requires
        pos + MAX_LEN <= buf@.len(),
    ensures
        r.0 == decoded_value(buf@.skip(pos as int)),
        r.1 == tag_len(buf@[pos as int]),
        1 <= r.1 <= MAX_LEN,
{
    let tag: u8 = buf[pos];
    assert(buf@.skip(pos as int)[0] == buf@[pos as int]);
    if tag <= 0x7f {
        (tag as u64, 1)
    } else {
        decode_prefix_uvarint_slow(buf, pos, tag)
    }
}

/// Decodes a prefix varint at position `pos` of `buf`, returning the value
/// and the number of bytes consumed.
///
/// This is the unchecked tier: the caller must guarantee that `MAX_LEN` bytes
/// are readable at `pos`.
pub fn decode_prefix_varint(buf: &[u8], pos: usize) -> (r: (i64, usize))
    requires
        pos + MAX_LEN <= buf@.len(),
    ensures
        r.0 == zigzag_decoded(decoded_value(buf@.skip(pos as int))),
        r.1 == tag_len(buf@[pos as int]),
        1 <= r.1 <= MAX_LEN,
{
    let (v, len) = decode_prefix_uvarint(buf, pos);
    (zigzag_decode(v), len)
}

} // verus!
