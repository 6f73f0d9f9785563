//! The mathematical model of the wire format: what the encoded bytes of a
//! value are, what a byte sequence decodes to, and the laws that relate the
//! two.
//!
//! An encoded value occupies 1 to 9 bytes. The leading run of one-bits of
//! byte 0 is the tag; a tag of `k` one-bits declares a total length of
//! `k + 1` bytes. The value itself sits in the bits of byte 0 below the tag,
//! followed by the remaining bytes in big-endian order. A 9-byte encoding
//! starts with the sentinel byte `0xff` and carries the full value in the
//! following 8 bytes.

use crate::zigzag::{zigzag_decoded, zigzag_encoded};
use vstd::prelude::*;

verus! {

/// Maximum number of bytes a single encoded uvarint will occupy.
pub const MAX_LEN: usize = 9;

/// The largest value representable in an encoding of `len` bytes.
pub open spec fn max_value(len: int) -> u64 {
    if len <= 0 {
        0
    } else if len == 1 {
        0x7f
    } else if len == 2 {
        0x3fff
    } else if len == 3 {
        0x1fffff
    } else if len == 4 {
        0xfffffff
    } else if len == 5 {
        0x7ffffffff
    } else if len == 6 {
        0x3ffffffffff
    } else if len == 7 {
        0x1ffffffffffff
    } else if len == 8 {
        0xffffffffffffff
    } else {
        0xffffffffffffffff
    }
}

/// The tag bits that are folded into the top of a `len`-byte encoding.
pub open spec fn tag_prefix(len: int) -> u64 {
    if len <= 1 {
        0
    } else if len == 2 {
        0x8000
    } else if len == 3 {
        0xc00000
    } else if len == 4 {
        0xe0000000
    } else if len == 5 {
        0xf000000000
    } else if len == 6 {
        0xf80000000000
    } else if len == 7 {
        0xfc000000000000
    } else {
        0xfe00000000000000
    }
}

/// The number of bytes the encoding of `v` occupies: the smallest length
/// whose capacity reaches `v`.
pub open spec fn encoded_len(v: u64) -> int {
    if v <= 0x7f {
        1
    } else if v <= 0x3fff {
        2
    } else if v <= 0x1fffff {
        3
    } else if v <= 0xfffffff {
        4
    } else if v <= 0x7ffffffff {
        5
    } else if v <= 0x3ffffffffff {
        6
    } else if v <= 0x1ffffffffffff {
        7
    } else if v <= 0xffffffffffffff {
        8
    } else {
        9
    }
}

/// The encoded bytes of `v`: the minimal-length big-endian encoding with the
/// unary length tag folded into the top bits of byte 0.
pub open spec fn encoding(v: u64) -> Seq<u8> {
    let n = encoded_len(v);
    if n == 1 {
        seq![v as u8]
    } else if n == 2 {
        let t = v | 0x8000;
        seq![(t >> 8) as u8, t as u8]
    } else if n == 3 {
        let t = v | 0xc00000;
        seq![(t >> 16) as u8, (t >> 8) as u8, t as u8]
    } else if n == 4 {
        let t = v | 0xe0000000;
        seq![(t >> 24) as u8, (t >> 16) as u8, (t >> 8) as u8, t as u8]
    } else if n == 5 {
        let t = v | 0xf000000000;
        seq![(t >> 32) as u8, (t >> 24) as u8, (t >> 16) as u8, (t >> 8) as u8, t as u8]
    } else if n == 6 {
        let t = v | 0xf80000000000;
        seq![
            (t >> 40) as u8,
            (t >> 32) as u8,
            (t >> 24) as u8,
            (t >> 16) as u8,
            (t >> 8) as u8,
            t as u8,
        ]
    } else if n == 7 {
        let t = v | 0xfc000000000000;
        seq![
            (t >> 48) as u8,
            (t >> 40) as u8,
            (t >> 32) as u8,
            (t >> 24) as u8,
            (t >> 16) as u8,
            (t >> 8) as u8,
            t as u8,
        ]
    } else if n == 8 {
        let t = v | 0xfe00000000000000;
        seq![
            (t >> 56) as u8,
            (t >> 48) as u8,
            (t >> 40) as u8,
            (t >> 32) as u8,
            (t >> 24) as u8,
            (t >> 16) as u8,
            (t >> 8) as u8,
            t as u8,
        ]
    } else {
        seq![
            0xffu8,
            (v >> 56) as u8,
            (v >> 48) as u8,
            (v >> 40) as u8,
            (v >> 32) as u8,
            (v >> 24) as u8,
            (v >> 16) as u8,
            (v >> 8) as u8,
            v as u8,
        ]
    }
}

/// The total encoded length that a first byte declares: one more than its
/// number of leading one-bits.
pub open spec fn tag_len(tag: u8) -> int {
    if tag <= 0x7f {
        1
    } else if tag < 0xc0 {
        2
    } else if tag < 0xe0 {
        3
    } else if tag < 0xf0 {
        4
    } else if tag < 0xf8 {
        5
    } else if tag < 0xfc {
        6
    } else if tag < 0xfe {
        7
    } else if tag == 0xfe {
        8
    } else {
        9
    }
}

/// The value held by the first `tag_len(s[0])` bytes of `s`: the big-endian
/// reassembly of those bytes with the tag bits masked off.
pub open spec fn decoded_value(s: Seq<u8>) -> u64
    recommends
        1 <= tag_len(s[0]) <= s.len(),
{
    let tag = s[0] as u64;
    let n = tag_len(s[0]);
    if n == 1 {
        tag
    } else if n == 2 {
        ((tag << 8) | (s[1] as u64)) & 0x3fff
    } else if n == 3 {
        ((tag << 16) | ((s[1] as u64) << 8) | (s[2] as u64)) & 0x1fffff
    } else if n == 4 {
        ((tag << 24) | ((s[1] as u64) << 16) | ((s[2] as u64) << 8) | (s[3] as u64)) & 0xfffffff
    } else if n == 5 {
        ((tag << 32) | ((s[1] as u64) << 24) | ((s[2] as u64) << 16) | ((s[3] as u64) << 8) | (
        s[4] as u64)) & 0x7ffffffff
    } else if n == 6 {
        ((tag << 40) | ((s[1] as u64) << 32) | ((s[2] as u64) << 24) | ((s[3] as u64) << 16) | ((
        s[4] as u64) << 8) | (s[5] as u64)) & 0x3ffffffffff
    } else if n == 7 {
        ((tag << 48) | ((s[1] as u64) << 40) | ((s[2] as u64) << 32) | ((s[3] as u64) << 24) | ((
        s[4] as u64) << 16) | ((s[5] as u64) << 8) | (s[6] as u64)) & 0x1ffffffffffff
    } else if n == 8 {
        ((tag << 56) | ((s[1] as u64) << 48) | ((s[2] as u64) << 40) | ((s[3] as u64) << 32) | ((
        s[4] as u64) << 24) | ((s[5] as u64) << 16) | ((s[6] as u64) << 8) | (s[7] as u64))
            & 0xffffffffffffff
    } else {
        ((s[1] as u64) << 56) | ((s[2] as u64) << 48) | ((s[3] as u64) << 40) | ((s[4] as u64)
            << 32) | ((s[5] as u64) << 24) | ((s[6] as u64) << 16) | ((s[7] as u64) << 8) | (
        s[8] as u64)
    }
}

/// What decoding the head of `s` yields: the value and the number of bytes it
/// occupies, or nothing when `s` is empty or shorter than its first byte
/// declares.
pub open spec fn decode_result(s: Seq<u8>) -> Option<(u64, int)> {
    if s.len() == 0 {
        None
    } else {
        let n = tag_len(s[0]);
        if n <= s.len() {
            Some((decoded_value(s), n))
        } else {
            None
        }
    }
}

/// Decoding inverts encoding: the encoded bytes of `v` declare exactly their
/// own length in their first byte, and reassemble to `v`.
pub proof fn lemma_roundtrip(v: u64)
    ensures
        1 <= encoded_len(v) <= 9,
        encoding(v).len() == encoded_len(v),
        tag_len(encoding(v)[0]) == encoded_len(v),
        decoded_value(encoding(v)) == v,
{
    let s = encoding(v);
    if v <= 0x7f {
        assert((v as u8) <= 0x7f && (v as u8) as u64 == v) by (bit_vector)
            requires
                v <= 0x7f,
        ;
    } else if v <= 0x3fff {
        assert((((v | 0x8000) >> 8) as u8) > 0x7f && (((v | 0x8000) >> 8) as u8) < 0xc0 && (((((v
            | 0x8000) >> 8) as u8 as u64) << 8) | (((v | 0x8000) as u8) as u64)) & 0x3fff == v)
            by (bit_vector)
            requires
                0x7f < v && v <= 0x3fff,
        ;
    } else if v <= 0x1fffff {
        assert((((v | 0xc00000) >> 16) as u8) >= 0xc0 && (((v | 0xc00000) >> 16) as u8) < 0xe0
            && (((((v | 0xc00000) >> 16) as u8 as u64) << 16) | ((((v | 0xc00000) >> 8) as u8
            as u64) << 8) | (((v | 0xc00000) as u8) as u64)) & 0x1fffff == v) by (bit_vector)
            requires
                0x3fff < v && v <= 0x1fffff,
        ;
    } else if v <= 0xfffffff {
        assert((((v | 0xe0000000) >> 24) as u8) >= 0xe0 && (((v | 0xe0000000) >> 24) as u8) < 0xf0
            && (((((v | 0xe0000000) >> 24) as u8 as u64) << 24) | ((((v | 0xe0000000) >> 16) as u8
            as u64) << 16) | ((((v | 0xe0000000) >> 8) as u8 as u64) << 8) | (((v | 0xe0000000)
            as u8) as u64)) & 0xfffffff == v) by (bit_vector)
            requires
                0x1fffff < v && v <= 0xfffffff,
        ;
    } else if v <= 0x7ffffffff {
        assert((((v | 0xf000000000) >> 32) as u8) >= 0xf0 && (((v | 0xf000000000) >> 32) as u8)
            < 0xf8 && (((((v | 0xf000000000) >> 32) as u8 as u64) << 32) | ((((v | 0xf000000000)
            >> 24) as u8 as u64) << 24) | ((((v | 0xf000000000) >> 16) as u8 as u64) << 16) | ((((v
            | 0xf000000000) >> 8) as u8 as u64) << 8) | (((v | 0xf000000000) as u8) as u64))
            & 0x7ffffffff == v) by (bit_vector)
            requires
                0xfffffff < v && v <= 0x7ffffffff,
        ;
    } else if v <= 0x3ffffffffff {
        assert((((v | 0xf80000000000) >> 40) as u8) >= 0xf8 && (((v | 0xf80000000000) >> 40) as u8)
            < 0xfc && (((((v | 0xf80000000000) >> 40) as u8 as u64) << 40) | ((((v
            | 0xf80000000000) >> 32) as u8 as u64) << 32) | ((((v | 0xf80000000000) >> 24) as u8
            as u64) << 24) | ((((v | 0xf80000000000) >> 16) as u8 as u64) << 16) | ((((v
            | 0xf80000000000) >> 8) as u8 as u64) << 8) | (((v | 0xf80000000000) as u8) as u64))
            & 0x3ffffffffff == v) by (bit_vector)
            requires
                0x7ffffffff < v && v <= 0x3ffffffffff,
        ;
    } else if v <= 0x1ffffffffffff {
        assert((((v | 0xfc000000000000) >> 48) as u8) >= 0xfc && (((v | 0xfc000000000000) >> 48)
            as u8) < 0xfe && (((((v | 0xfc000000000000) >> 48) as u8 as u64) << 48) | ((((v
            | 0xfc000000000000) >> 40) as u8 as u64) << 40) | ((((v | 0xfc000000000000) >> 32)
            as u8 as u64) << 32) | ((((v | 0xfc000000000000) >> 24) as u8 as u64) << 24) | ((((v
            | 0xfc000000000000) >> 16) as u8 as u64) << 16) | ((((v | 0xfc000000000000) >> 8) as u8
            as u64) << 8) | (((v | 0xfc000000000000) as u8) as u64)) & 0x1ffffffffffff == v)
            by (bit_vector)
            requires
                0x3ffffffffff < v && v <= 0x1ffffffffffff,
        ;
    } else if v <= 0xffffffffffffff {
        assert((((v | 0xfe00000000000000) >> 56) as u8) == 0xfe && (((((v | 0xfe00000000000000)
            >> 56) as u8 as u64) << 56) | ((((v | 0xfe00000000000000) >> 48) as u8 as u64) << 48)
            | ((((v | 0xfe00000000000000) >> 40) as u8 as u64) << 40) | ((((v | 0xfe00000000000000)
            >> 32) as u8 as u64) << 32) | ((((v | 0xfe00000000000000) >> 24) as u8 as u64) << 24)
            | ((((v | 0xfe00000000000000) >> 16) as u8 as u64) << 16) | ((((v | 0xfe00000000000000)
            >> 8) as u8 as u64) << 8) | (((v | 0xfe00000000000000) as u8) as u64))
            & 0xffffffffffffff == v) by (bit_vector)
            requires
                0x1ffffffffffff < v && v <= 0xffffffffffffff,
        ;
    } else {
        assert(((((v >> 56) as u8) as u64) << 56) | ((((v >> 48) as u8) as u64) << 48) | ((((v
            >> 40) as u8) as u64) << 40) | ((((v >> 32) as u8) as u64) << 32) | ((((v >> 24) as u8)
            as u64) << 24) | ((((v >> 16) as u8) as u64) << 16) | ((((v >> 8) as u8) as u64) << 8)
            | ((v as u8) as u64) == v) by (bit_vector);
        assert(s[0] == 0xffu8);
    }
}

/// Decoding reads only the bytes that the first byte declares: appending
/// anything after a complete encoding changes neither the value nor the
/// consumed length.
pub proof fn lemma_decode_extend(s: Seq<u8>, tail: Seq<u8>)
    requires
        s.len() >= 1,
        tag_len(s[0]) <= s.len(),
    ensures
        decode_result(s + tail) == Some((decoded_value(s), tag_len(s[0]))),
{
    let w = s + tail;
    assert(w[0] == s[0]);
    assert forall|i: int| 0 <= i < s.len() implies w[i] == s[i] by {}
    assert(decoded_value(w) == decoded_value(s));
}

/// Encoding then decoding returns the value and its encoded length, whatever
/// bytes follow the encoding in the stream.
pub proof fn lemma_encode_decode(v: u64, tail: Seq<u8>)
    ensures
        decode_result(encoding(v) + tail) == Some((v, encoded_len(v))),
{
    lemma_roundtrip(v);
    lemma_decode_extend(encoding(v), tail);
}

/// The chosen length is minimal: `v` fits in `encoded_len(v)` bytes and
/// exceeds the capacity of every shorter length.
pub proof fn lemma_minimality(v: u64)
    ensures
        v <= max_value(encoded_len(v)),
        forall|n: int| 1 <= n < encoded_len(v) ==> max_value(n) < v,
{
}

/// Removing the last byte of any encoding leaves too little input to decode,
/// and an empty input never decodes: truncation is always detected.
pub proof fn lemma_truncation_safety(v: u64)
    ensures
        decode_result(encoding(v).drop_last()) is None,
        decode_result(Seq::<u8>::empty()) is None,
{
    lemma_roundtrip(v);
    let s = encoding(v).drop_last();
    if encoded_len(v) > 1 {
        assert(s[0] == encoding(v)[0]);
    }
}

/// Smaller values never encode into more bytes: the encoded length grows
/// with the value.
pub proof fn lemma_encoded_len_monotone(u1: u64, u2: u64)
    requires
        u1 <= u2,
    ensures
        encoded_len(u1) <= encoded_len(u2),
{
}

/// The signed round trip: a value sent through the zigzag transform, the
/// encoder and then the decoder comes back unchanged, whatever bytes follow
/// its encoding in the stream.
pub proof fn lemma_signed_roundtrip(v: i64, tail: Seq<u8>)
    ensures
        ({
            let u = zigzag_encoded(v);
            decode_result(encoding(u) + tail) == Some((u, encoded_len(u))) && zigzag_decoded(u)
                == v
        }),
{
    lemma_encode_decode(zigzag_encoded(v), tail);
    crate::zigzag::lemma_zigzag_roundtrip(v);
}

/// The bytes of a whole sequence of values, encoded one after the other.
pub open spec fn encoding_of_all(vs: Seq<u64>) -> Seq<u8>
    decreases vs.len(),
{
    if vs.len() == 0 {
        Seq::empty()
    } else {
        encoding(vs[0]) + encoding_of_all(vs.skip(1))
    }
}

/// The values obtained by decoding a stream repeatedly until it is empty, or
/// nothing if any step finds truncated input.
pub open spec fn decode_all(s: Seq<u8>) -> Option<Seq<u64>>
    decreases s.len(),
{
    if s.len() == 0 {
        Some(Seq::empty())
    } else {
        let n = tag_len(s[0]);
        if n <= s.len() {
            match decode_all(s.skip(n)) {
                Some(rest) => Some(seq![decoded_value(s)] + rest),
                None => None,
            }
        } else {
            None
        }
    }
}

/// Sequencing: encoding any sequence of values into one stream and decoding
/// the stream back value by value reproduces exactly the original sequence,
/// consuming the whole stream.
pub proof fn lemma_sequencing(vs: Seq<u64>)
    ensures
        decode_all(encoding_of_all(vs)) == Some(vs),
    decreases vs.len(),
{
    if vs.len() == 0 {
        assert(Seq::<u64>::empty() =~= vs);
    } else {
        let v = vs[0];
        let rest = vs.skip(1);
        let tail = encoding_of_all(rest);
        let w = encoding(v) + tail;
        lemma_roundtrip(v);
        lemma_encode_decode(v, tail);
        lemma_sequencing(rest);
        assert(w.skip(encoding(v).len() as int) =~= tail);
        assert(seq![decoded_value(w)] + rest =~= vs);
    }
}

} // verus!
