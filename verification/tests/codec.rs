use prefix_varint::{
    decode_prefix_uvarint, decode_prefix_varint, encode_prefix_uvarint, encode_prefix_varint,
    tag_byte_len, zigzag_decode, zigzag_encode, ByteCursor, VarintBuf, VarintBufMut, MAX_LEN,
};

/// The largest value representable in each encoded length, 1 to 9 bytes.
const MAX_VALUE: [u64; 9] = [
    0x7f,
    0x3fff,
    0x1fffff,
    0xfffffff,
    0x7ffffffff,
    0x3ffffffffff,
    0x1ffffffffffff,
    0xffffffffffffff,
    0xffffffffffffffff,
];

fn encode_to_vec(v: u64) -> Vec<u8> {
    let mut buf: Vec<u8> = Vec::new();
    encode_prefix_uvarint(v, &mut buf);
    buf
}

#[test]
fn decode_empty_fail() {
    let mut buf = ByteCursor::new(Vec::new());
    assert_eq!(buf.get_prefix_uvarint(), None);
}

#[test]
fn decode_tag_only_fail() {
    let mut tag = u8::MAX;
    while tag != 0 {
        let mut buf = ByteCursor::new(vec![tag]);
        assert_eq!(buf.get_prefix_uvarint(), None, "{:#b}", tag);
        tag <<= 1;
    }
}

#[test]
fn decode_truncated() {
    for v in MAX_VALUE.iter() {
        let mut buf: Vec<u8> = Vec::new();
        buf.put_prefix_uvarint(*v);
        let mut trunc = ByteCursor::new(buf[0..(buf.len() - 1)].to_vec());
        assert_eq!(trunc.get_prefix_uvarint(), None, "{}", *v);
    }
}

#[test]
fn encode_boundary_lengths() {
    let cases: [(u64, usize); 18] = [
        (0x0, 1),
        (0x7f, 1),
        (0x80, 2),
        (0x3fff, 2),
        (0x4000, 3),
        (0x1fffff, 3),
        (0x200000, 4),
        (0xfffffff, 4),
        (0x10000000, 5),
        (0x7ffffffff, 5),
        (0x800000000, 6),
        (0x3ffffffffff, 6),
        (0x40000000000, 7),
        (0x1ffffffffffff, 7),
        (0x2000000000000, 8),
        (0xffffffffffffff, 8),
        (0x100000000000000, 9),
        (0xffffffffffffffff, 9),
    ];
    for (value, size) in cases.iter() {
        let mut buf: Vec<u8> = Vec::new();
        buf.put_prefix_uvarint(*value);
        assert_eq!(*size, buf.len(), "{}", *value);
        let mut cursor = ByteCursor::new(buf);
        assert_eq!(Some(*value), cursor.get_prefix_uvarint(), "{}", *value);
        assert!(!cursor.has_remaining());
    }
}

#[test]
fn wire_format_bytes() {
    assert_eq!(encode_to_vec(0x0), vec![0x00]);
    assert_eq!(encode_to_vec(0x7f), vec![0x7f]);
    assert_eq!(encode_to_vec(0x80), vec![0x80, 0x80]);
    assert_eq!(encode_to_vec(0x3ff), vec![0x83, 0xff]);
    assert_eq!(encode_to_vec(0x4000), vec![0xc0, 0x40, 0x00]);
    assert_eq!(encode_to_vec(0x1fffff), vec![0xdf, 0xff, 0xff]);
    assert_eq!(
        encode_to_vec(0xffffffffffffff),
        vec![0xfe, 0xff, 0xff, 0xff, 0xff, 0xff, 0xff, 0xff]
    );
    assert_eq!(
        encode_to_vec(0x100000000000000),
        vec![0xff, 0x01, 0x00, 0x00, 0x00, 0x00, 0x00, 0x00, 0x00]
    );
    assert_eq!(
        encode_to_vec(0xffffffffffffffff),
        vec![0xff, 0xff, 0xff, 0xff, 0xff, 0xff, 0xff, 0xff, 0xff]
    );
}

#[test]
fn ascending() {
    let expected: [u64; 9] = [
        0x7f,
        0x3ff,
        0x1fffff,
        0xfffffff,
        0x7ffffffff,
        0x3ffffffffff,
        0x1ffffffffffff,
        0xffffffffffffff,
        0xffffffffffffffff,
    ];
    let mut wbuf: Vec<u8> = Vec::new();
    for v in expected {
        wbuf.put_prefix_uvarint(v);
    }

    let mut rbuf = ByteCursor::new(wbuf);
    let mut actual: Vec<u64> = Vec::new();
    while let Some(v) = rbuf.get_prefix_uvarint() {
        actual.push(v);
    }
    assert_eq!(expected.as_slice(), actual);
    assert_eq!(rbuf.remaining(), 0);
}

#[test]
fn descending() {
    let expected: [u64; 9] = [
        0xffffffffffffffff,
        0xffffffffffffff,
        0x1ffffffffffff,
        0x3ffffffffff,
        0x7ffffffff,
        0xfffffff,
        0x1fffff,
        0x3ff,
        0x7f,
    ];
    let mut wbuf: Vec<u8> = Vec::new();
    for v in expected {
        wbuf.put_prefix_uvarint(v);
    }

    let mut rbuf = ByteCursor::new(wbuf);
    let mut actual: Vec<u64> = Vec::new();
    while let Some(v) = rbuf.get_prefix_uvarint() {
        actual.push(v);
    }
    assert_eq!(expected.as_slice(), actual);
    assert_eq!(rbuf.remaining(), 0);
}

#[test]
fn end_to_end_example() {
    let values: [u64; 3] = [0x7f, 0x3ff, 0x1fffff];
    let mut buf: Vec<u8> = Vec::new();
    for v in values {
        buf.put_prefix_uvarint(v);
    }
    assert_eq!(buf.len(), 6);

    let mut cursor = ByteCursor::new(buf);
    assert_eq!(cursor.get_prefix_uvarint(), Some(0x7f));
    assert_eq!(cursor.get_prefix_uvarint(), Some(0x3ff));
    assert_eq!(cursor.get_prefix_uvarint(), Some(0x1fffff));
    assert!(!cursor.has_remaining());
    assert_eq!(cursor.get_prefix_uvarint(), None);
}

#[test]
fn zigzag_order() {
    let inputs: [i64; 5] = [0, -1, 1, -2, 2];
    let expected: [u64; 5] = [0, 1, 2, 3, 4];
    for i in 0..inputs.len() {
        assert_eq!(zigzag_encode(inputs[i]), expected[i]);
        assert_eq!(zigzag_decode(expected[i]), inputs[i]);
    }
}

#[test]
fn zigzag_roundtrip_extremes() {
    let values: [i64; 8] = [0, -1, 1, 63, -64, i64::MIN, i64::MAX, i64::MIN + 1];
    for v in values {
        assert_eq!(zigzag_decode(zigzag_encode(v)), v, "{}", v);
    }
    assert_eq!(zigzag_encode(i64::MAX), u64::MAX - 1);
    assert_eq!(zigzag_encode(i64::MIN), u64::MAX);
}

#[test]
fn varint_roundtrip() {
    let values: [i64; 12] = [
        0,
        -1,
        1,
        -64,
        63,
        -8192,
        8191,
        -1048576,
        1048575,
        i64::MIN,
        i64::MAX,
        42,
    ];
    let mut buf: Vec<u8> = Vec::new();
    for v in values {
        buf.put_prefix_varint(v);
    }
    let mut cursor = ByteCursor::new(buf);
    for v in values {
        assert_eq!(cursor.get_prefix_varint(), Some(v), "{}", v);
    }
    assert!(!cursor.has_remaining());
}

#[test]
fn raw_tier_roundtrip() {
    for v in MAX_VALUE.iter() {
        let mut buf: Vec<u8> = Vec::new();
        let len = encode_prefix_uvarint(*v, &mut buf);
        assert_eq!(len, buf.len());
        // The unchecked tier needs MAX_LEN readable bytes; pad the tail.
        while buf.len() < MAX_LEN {
            buf.push(0);
        }
        let (value, consumed) = decode_prefix_uvarint(&buf, 0);
        assert_eq!(value, *v);
        assert_eq!(consumed, len);
    }
}

#[test]
fn raw_tier_varint() {
    let values: [i64; 4] = [-3, 7, -300000, i64::MIN];
    for v in values {
        let mut buf: Vec<u8> = Vec::new();
        let len = encode_prefix_varint(v, &mut buf);
        while buf.len() < MAX_LEN {
            buf.push(0);
        }
        let (value, consumed) = decode_prefix_varint(&buf, 0);
        assert_eq!(value, v);
        assert_eq!(consumed, len);
    }
}

#[test]
fn tag_lengths() {
    assert_eq!(tag_byte_len(0x00), 1);
    assert_eq!(tag_byte_len(0x7f), 1);
    assert_eq!(tag_byte_len(0x80), 2);
    assert_eq!(tag_byte_len(0xbf), 2);
    assert_eq!(tag_byte_len(0xc0), 3);
    assert_eq!(tag_byte_len(0xe0), 4);
    assert_eq!(tag_byte_len(0xf0), 5);
    assert_eq!(tag_byte_len(0xf8), 6);
    assert_eq!(tag_byte_len(0xfc), 7);
    assert_eq!(tag_byte_len(0xfe), 8);
    assert_eq!(tag_byte_len(0xff), 9);
}

#[test]
fn truncation_discards_partial_tag() {
    // A truncated read consumes the cursor to its end rather than stopping
    // just past the tag byte.
    let mut buf: Vec<u8> = Vec::new();
    buf.put_prefix_uvarint(0x123456789);
    buf.pop();
    buf.pop();
    let mut cursor = ByteCursor::new(buf);
    assert_eq!(cursor.get_prefix_uvarint(), None);
    assert_eq!(cursor.remaining(), 0);
    assert!(!cursor.has_remaining());
}
