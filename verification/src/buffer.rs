//! The buffer integration layer: the public sink and cursor surface of the
//! codec.
//!
//! A sink is an append-only byte destination; its view is the bytes written
//! so far. A cursor is a sequential byte source; its view is the bytes still
//! to be read. Reads that find less input than the first byte declares
//! consume the cursor to its end and yield nothing: trailing bytes that
//! cannot form a value are deliberately discarded wholesale rather than left
//! behind a partially consumed tag.

use crate::codec::{decode_prefix_uvarint, encode_prefix_uvarint, tag_byte_len};
use crate::model::{decoded_value, encoding, tag_len, MAX_LEN};
use crate::zigzag::{zigzag_decode, zigzag_decoded, zigzag_encode, zigzag_encoded};
use vstd::prelude::*;

verus! {

/// An append-only byte sink that prefix varint values can be written to. The
/// view is the bytes written so far.
pub trait VarintBufMut: View<V = Seq<u8>> {
    /// Puts `v` into the buffer in a variable length encoding using 1-9
    /// bytes.
    fn put_prefix_uvarint(&mut self, v: u64)
        ensures
            final(self)@ == old(self)@ + encoding(v),
    ;

    /// Puts `v` into the buffer in a variable length encoding using 1-9
    /// bytes, after the zigzag transform.
    fn put_prefix_varint(&mut self, v: i64)
        ensures
            final(self)@ == old(self)@ + encoding(zigzag_encoded(v)),
    ;
}

impl VarintBufMut for Vec<u8> {
    fn put_prefix_uvarint(&mut self, v: u64) {
        encode_prefix_uvarint(v, self);
    }

    fn put_prefix_varint(&mut self, v: i64) {
        encode_prefix_uvarint(zigzag_encode(v), self);
    }
}

/// A sequential byte source that prefix varint values can be read from. The
/// view is the bytes that remain to be read.
pub trait VarintBuf: View<V = Seq<u8>> {
    /// Reads a single prefix uvarint value from the buffer. If the input is
    /// not long enough to produce a value, advances to the end and returns
    /// `None`.
    fn get_prefix_uvarint(&mut self) -> (r: Option<u64>)
        ensures
            ({
                let s = old(self)@;
                if s.len() == 0 {
                    r is None && final(self)@ == s
                } else if tag_len(s[0]) <= s.len() {
                    r == Some(decoded_value(s)) && final(self)@ == s.skip(tag_len(s[0]))
                } else {
                    r is None && final(self)@.len() == 0
                }
            }),
    ;

    /// Reads a single prefix varint value from the buffer. If the input is
    /// not long enough to produce a value, advances to the end and returns
    /// `None`.
    fn get_prefix_varint(&mut self) -> (r: Option<i64>)
        ensures
            ({
                let s = old(self)@;
                if s.len() == 0 {
                    r is None && final(self)@ == s
                } else if tag_len(s[0]) <= s.len() {
                    r == Some(zigzag_decoded(decoded_value(s))) && final(self)@ == s.skip(
                        tag_len(s[0]),
                    )
                } else {
                    r is None && final(self)@.len() == 0
                }
            }),
    ;
}

/// A cursor over an in-memory byte buffer, reading from front to back.
pub struct ByteCursor {
    data: Vec<u8>,
    pos: usize,
}

impl View for ByteCursor {
    type V = Seq<u8>;

    closed spec fn view(&self) -> Seq<u8> {
        self.data@.skip(self.pos as int)
    }
}

impl ByteCursor {
    #[verifier::type_invariant]
    spec fn wf(&self) -> bool {
        self.pos <= self.data@.len()
    }

    /// A cursor positioned at the first byte of `data`.
    pub fn new(data: Vec<u8>) -> (c: Self)
        ensures
            c@ == data@,
    {
        let c = ByteCursor { data, pos: 0 };
        assert(c@ =~= c.data@);
        c
    }

    /// The number of bytes that remain to be read.
    pub fn remaining(&self) -> (n: usize)
        ensures
            n == self@.len(),
    {
        proof {
            use_type_invariant(self);
        }
        self.data.len() - self.pos
    }

    /// Whether any bytes remain to be read.
    pub fn has_remaining(&self) -> (b: bool)
        ensures
            b <==> self@.len() > 0,
    {
        self.remaining() > 0
    }

    /// Moves past the next `cnt` bytes.
    pub fn advance(&mut self, cnt: usize)
        requires
            cnt <= old(self)@.len(),
        ensures
            final(self)@ == old(self)@.skip(cnt as int),
    {
        proof {
            use_type_invariant(&*self);
        }
        // Binding the length to a usize shows the advanced position fits.
        let _total: usize = self.data.len();
        self.pos = self.pos + cnt;
        assert(self@ =~= old(self)@.skip(cnt as int));
    }

    /// Reads the next byte and moves past it.
    pub fn get_u8(&mut self) -> (b: u8)
        requires
            old(self)@.len() > 0,
        ensures
            b == old(self)@[0],
            final(self)@ == old(self)@.skip(1),
    {
        proof {
            use_type_invariant(&*self);
        }
        // Binding the length to a usize shows the advanced position fits.
        let _total: usize = self.data.len();
        let b: u8 = self.data[self.pos];
        self.pos = self.pos + 1;
        assert(self@ =~= old(self)@.skip(1));
        b
    }

    /// Reassembles a value whose tag byte, already consumed, declared more
    /// bytes than one; `get_prefix_uvarint` peels off the one-byte case
    /// first. Consumes the cursor to its end and returns `None` when fewer
    /// bytes remain than the tag declared.
    fn get_prefix_uvarint_slow(&mut self, tag: u8) -> (r: Option<u64>)
        requires
            tag > 0x7f,
        ensures
            ({
                let s = seq![tag] + old(self)@;
                if tag_len(tag) <= s.len() {
                    r == Some(decoded_value(s)) && final(self)@ == old(self)@.skip(
                        tag_len(tag) - 1,
                    )
                } else {
                    r is None && final(self)@.len() == 0
                }
            }),
    {
        let ghost s = seq![tag] + old(self)@;
        assert(s[0] == tag);
        assert(forall|i: int| 1 <= i < s.len() ==> s[i] == old(self)@[i - 1]);
        let more: usize = tag_byte_len(tag) - 1;
        let rem: usize = self.remaining();
        if rem < more {
            self.advance(rem);
            return None;
        }
        let raw: u64 = if more == 1 {
            let b1: u8 = self.get_u8();
            (((tag as u64) << 8) | (b1 as u64)) & 0x3fff
        } else if more == 2 {
            let b1: u8 = self.get_u8();
            let b2: u8 = self.get_u8();
            (((tag as u64) << 16) | ((b1 as u64) << 8) | (b2 as u64)) & 0x1fffff
        } else if more == 3 {
            let b1: u8 = self.get_u8();
            let b2: u8 = self.get_u8();
            let b3: u8 = self.get_u8();
            (((tag as u64) << 24) | ((b1 as u64) << 16) | ((b2 as u64) << 8) | (b3 as u64))
                & 0xfffffff
        } else if more == 4 {
            let b1: u8 = self.get_u8();
            let b2: u8 = self.get_u8();
            let b3: u8 = self.get_u8();
            let b4: u8 = self.get_u8();
            (((tag as u64) << 32) | ((b1 as u64) << 24) | ((b2 as u64) << 16) | ((b3 as u64) << 8)
                | (b4 as u64)) & 0x7ffffffff
        } else if more == 5 {
            let b1: u8 = self.get_u8();
            let b2: u8 = self.get_u8();
            let b3: u8 = self.get_u8();
            let b4: u8 = self.get_u8();
            let b5: u8 = self.get_u8();
            (((tag as u64) << 40) | ((b1 as u64) << 32) | ((b2 as u64) << 24) | ((b3 as u64) << 16)
                | ((b4 as u64) << 8) | (b5 as u64)) & 0x3ffffffffff
        } else if more == 6 {
            let b1: u8 = self.get_u8();
            let b2: u8 = self.get_u8();
            let b3: u8 = self.get_u8();
            let b4: u8 = self.get_u8();
            let b5: u8 = self.get_u8();
            let b6: u8 = self.get_u8();
            (((tag as u64) << 48) | ((b1 as u64) << 40) | ((b2 as u64) << 32) | ((b3 as u64) << 24)
                | ((b4 as u64) << 16) | ((b5 as u64) << 8) | (b6 as u64)) & 0x1ffffffffffff
        } else if more == 7 {
            let b1: u8 = self.get_u8();
            let b2: u8 = self.get_u8();
            let b3: u8 = self.get_u8();
            let b4: u8 = self.get_u8();
            let b5: u8 = self.get_u8();
            let b6: u8 = self.get_u8();
            let b7: u8 = self.get_u8();
            (((tag as u64) << 56) | ((b1 as u64) << 48) | ((b2 as u64) << 40) | ((b3 as u64) << 32)
                | ((b4 as u64) << 24) | ((b5 as u64) << 16) | ((b6 as u64) << 8) | (b7 as u64))
                & 0xffffffffffffff
        } else {
            let b1: u8 = self.get_u8();
            let b2: u8 = self.get_u8();
            let b3: u8 = self.get_u8();
            let b4: u8 = self.get_u8();
            let b5: u8 = self.get_u8();
            let b6: u8 = self.get_u8();
            let b7: u8 = self.get_u8();
            let b8: u8 = self.get_u8();
            ((b1 as u64) << 56) | ((b2 as u64) << 48) | ((b3 as u64) << 40) | ((b4 as u64) << 32)
                | ((b5 as u64) << 24) | ((b6 as u64) << 16) | ((b7 as u64) << 8) | (b8 as u64)
        };
        assert(self@ =~= old(self)@.skip(tag_len(tag) - 1));
        Some(raw)
    }
}

impl VarintBuf for ByteCursor {
    fn get_prefix_uvarint(&mut self) -> (r: Option<u64>) {
        proof {
            use_type_invariant(&*self);
        }
        if self.remaining() >= MAX_LEN {
            // Fast path: enough contiguous input for any encoding, so decode
            // the unchecked way and advance by what was consumed.
            let (value, len) = decode_prefix_uvarint(self.data.as_slice(), self.pos);
            assert(self@ =~= self.data@.skip(self.pos as int));
            self.advance(len);
            Some(value)
        } else if !self.has_remaining() {
            None
        } else {
            let ghost s = self@;
            let tag: u8 = self.get_u8();
            assert(seq![tag] + self@ =~= s);
            if tag <= 0x7f {
                Some(tag as u64)
            } else {
                self.get_prefix_uvarint_slow(tag)
            }
        }
    }

    fn get_prefix_varint(&mut self) -> (r: Option<i64>) {
        match self.get_prefix_uvarint() {
            Some(v) => Some(zigzag_decode(v)),
            None => None,
        }
    }
}

} // verus!
