use bitcoinrs::buffer::Buffer;
use bitcoinrs::bytes::{Bytes, BytesMut};
use bitcoinrs::commons::{CompactSize, VarStr};
use bitcoinrs::decode::{Decodable, DecodeError};
use bitcoinrs::encode::{Chain, Encodable};
use bitcoinrs::endian::{
    i16_b, i16_l, i32_b, i32_l, i64_b, i64_l, u16_b, u16_l, u32_b, u32_l, u64_b, u64_l,
};

#[test]
fn unsigned_round_trips_every_width_and_endianness() {
    let mut read = Bytes::new(&u16_l::new(0xBEEF).to_vec());
    assert_eq!(read.read::<u16_l>().unwrap().value(), 0xBEEF);
    let mut read = Bytes::new(&u16_b::new(0xBEEF).to_vec());
    assert_eq!(read.read::<u16_b>().unwrap().value(), 0xBEEF);
    let mut read = Bytes::new(&u32_l::new(0xDEADBEEF).to_vec());
    assert_eq!(read.read::<u32_l>().unwrap().value(), 0xDEADBEEF);
    let mut read = Bytes::new(&u32_b::new(0xDEADBEEF).to_vec());
    assert_eq!(read.read::<u32_b>().unwrap().value(), 0xDEADBEEF);
    let mut read = Bytes::new(&u64_l::new(0x0123456789ABCDEF).to_vec());
    assert_eq!(read.read::<u64_l>().unwrap().value(), 0x0123456789ABCDEF);
    let mut read = Bytes::new(&u64_b::new(0x0123456789ABCDEF).to_vec());
    assert_eq!(read.read::<u64_b>().unwrap().value(), 0x0123456789ABCDEF);
}

#[test]
fn signed_round_trips_every_width_and_endianness() {
    let mut read = Bytes::new(&i16_l::new(-2).to_vec());
    assert_eq!(read.read::<i16_l>().unwrap().value(), -2);
    let mut read = Bytes::new(&i16_b::new(-32768).to_vec());
    assert_eq!(read.read::<i16_b>().unwrap().value(), -32768);
    let mut read = Bytes::new(&i32_l::new(-123456).to_vec());
    assert_eq!(read.read::<i32_l>().unwrap().value(), -123456);
    let mut read = Bytes::new(&i32_b::new(2147483647).to_vec());
    assert_eq!(read.read::<i32_b>().unwrap().value(), 2147483647);
    let mut read = Bytes::new(&i64_l::new(-1).to_vec());
    assert_eq!(read.read::<i64_l>().unwrap().value(), -1);
    let mut read = Bytes::new(&i64_b::new(-9007199254740993).to_vec());
    assert_eq!(read.read::<i64_b>().unwrap().value(), -9007199254740993);
}

#[test]
fn endianness_is_explicit_in_the_bytes() {
    assert_eq!(u16_l::new(0x0102).to_vec(), vec![0x02, 0x01]);
    assert_eq!(u16_b::new(0x0102).to_vec(), vec![0x01, 0x02]);
    assert_eq!(u32_l::new(0x01020304).to_vec(), vec![0x04, 0x03, 0x02, 0x01]);
    assert_eq!(u32_b::new(0x01020304).to_vec(), vec![0x01, 0x02, 0x03, 0x04]);
    assert_eq!(i32_l::new(-2).to_vec(), vec![0xFE, 0xFF, 0xFF, 0xFF]);
}

#[test]
fn compact_size_boundary_values_match_the_tier_table() {
    let cases: [(u64, usize); 7] = [
        (0, 1),
        (0xFC, 1),
        (0xFD, 3),
        (0xFFFF, 3),
        (0x10000, 5),
        (0xFFFFFFFF, 5),
        (0x100000000, 9),
    ];
    for (value, expected_len) in cases {
        let encoded = CompactSize(value).to_vec();
        assert_eq!(encoded.len(), expected_len);
        assert_eq!(CompactSize(value).length(), expected_len);
        let mut read = Bytes::new(&encoded);
        let decoded = read.read::<CompactSize>().unwrap();
        assert_eq!(decoded.0, value);
        assert_eq!(read.len(), 0);
    }
}

#[test]
fn compact_size_tier_markers() {
    assert_eq!(CompactSize(0xFC).to_vec(), vec![0xFC]);
    assert_eq!(CompactSize(0xFD).to_vec(), vec![0xFD, 0xFD, 0x00]);
    assert_eq!(CompactSize(0x10000).to_vec(), vec![0xFE, 0x00, 0x00, 0x01, 0x00]);
    assert_eq!(
        CompactSize(0x100000000).to_vec(),
        vec![0xFF, 0x00, 0x00, 0x00, 0x00, 0x01, 0x00, 0x00, 0x00]
    );
}

#[test]
fn var_str_round_trips() {
    let original = VarStr(String::from("bitcoinrs"));
    let encoded = original.to_vec();
    assert_eq!(encoded.len(), 10);
    assert_eq!(encoded[0], 9);
    let mut read = Bytes::new(&encoded);
    let decoded = read.read::<VarStr>().unwrap();
    assert_eq!(decoded, original);
    assert_eq!(read.len(), 0);
}

#[test]
fn var_str_rejects_invalid_utf8() {
    // Length prefix 2, then a lone continuation byte pair.
    let bytes = [2u8, 0xC3, 0x28];
    let mut read = Bytes::new(&bytes[..]);
    assert_eq!(read.read::<VarStr>(), Err(DecodeError::InvalidBytes));
}

#[test]
fn var_str_short_buffer_is_short_length() {
    // Length prefix says 5 bytes but only 2 follow.
    let bytes = [5u8, b'a', b'b'];
    let mut read = Bytes::new(&bytes[..]);
    assert_eq!(read.read::<VarStr>(), Err(DecodeError::ShortLength));
}

#[test]
fn decode_short_buffer_is_short_length() {
    let bytes = [1u8];
    let mut read = Bytes::new(&bytes[..]);
    assert_eq!(read.read::<u32_l>(), Err(DecodeError::ShortLength));
}

#[test]
fn chain_writes_both_values_in_one_go() {
    let chained = Chain::new(u16_l::new(0x0102), u8::from(0xAAu8));
    assert_eq!(chained.length(), 3);
    assert_eq!(chained.to_vec(), vec![0x02, 0x01, 0xAA]);
}

#[test]
fn bytes_mut_write_reserves_and_appends() {
    let mut buf = BytesMut::with_buffer(16);
    assert_eq!(buf.len(), 0);
    buf.write(u32_l::new(0xDDCCBBAA));
    buf.write(u16_b::new(0x0102));
    assert_eq!(buf.len(), 6);
    assert_eq!(buf.as_slice(), &[0xAA, 0xBB, 0xCC, 0xDD, 0x01, 0x02][..]);
    let mut reader = buf.bytes();
    assert_eq!(reader.read::<u32_l>().unwrap().value(), 0xDDCCBBAA);
}

#[test]
fn buffer_write_appends_at_the_end() {
    let mut buffer = Buffer::new();
    buffer.write(u16_l::new(0x0102));
    buffer.write(u8::from(7u8));
    assert_eq!(buffer.as_slice(), &[0x02, 0x01, 0x07][..]);
}
