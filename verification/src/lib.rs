//! A prefix-based variable-length integer coding scheme.
//!
//! Unlike an LEB128-style encoding, this encoding uses a unary prefix code in
//! the first byte of the value to declare how many subsequent bytes need to be
//! read, followed by the big-endian encoding of any remaining bytes.
//!
//! `uvarint` items code `u64` values, with values closer to zero producing
//! smaller output. `varint` items code `i64` values using a zigzag transform
//! so that small negative numbers also produce small output.

pub mod buffer;
pub mod codec;
pub mod model;
pub mod zigzag;

pub use buffer::ByteCursor;
pub use buffer::VarintBuf;
pub use buffer::VarintBufMut;
pub use codec::decode_prefix_uvarint;
pub use codec::decode_prefix_varint;
pub use codec::encode_prefix_uvarint;
pub use codec::encode_prefix_varint;
pub use codec::tag_byte_len;
pub use model::MAX_LEN;
pub use zigzag::zigzag_decode;
pub use zigzag::zigzag_encode;
