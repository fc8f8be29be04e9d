use bitcoinrs::buffer::Buffer;
use bitcoinrs::bytes::{Bytes, BytesMut};
use bitcoinrs::decode::ReadBuf;
use bitcoinrs::encode::WriteBuf;

#[test]
fn buf_write_zeros() {
    let mut vec: Vec<u8> = Vec::new();
    vec.write_zeros(100);
    assert_eq!(vec.as_slice(), &[0u8; 100][..]);
}

#[test]
fn buf_write_bytes() {
    let mut vec: Vec<u8> = Vec::new();
    let bytes = [1, 2, 3, 4, 5, 6];
    vec.write_bytes(&bytes[0..3]);
    vec.write_bytes(&bytes[3..5]);
    assert_eq!(vec.as_slice(), &bytes[0..5])
}

#[test]
fn buf_read_bytes() {
    let bytes: [u8; 6] = [0, 1, 2, 3, 4, 5];
    let mut read = Bytes::new(&bytes[..]);
    let buf = read.read_bytes(3).unwrap();
    let buf2 = read.read_bytes(3).unwrap();
    assert_eq!(buf.as_slice(), &[0, 1, 2]);
    assert_eq!(buf2.as_slice(), &[3, 4, 5]);
}

#[test]
fn bytes_write_zeros() {
    let mut bytes = BytesMut::new();
    bytes.write_zeros(100);
    assert_eq!(bytes.as_slice(), &[0u8; 100][..]);
}

#[test]
fn bytes_write_bytes() {
    let mut vec = BytesMut::new();
    let bytes = [1, 2, 3, 4, 5, 6];
    vec.write_bytes(&bytes[0..3]);
    vec.write_bytes(&bytes[3..5]);
    assert_eq!(vec.as_slice(), &bytes[0..5])
}

#[test]
fn bytes_read_bytes() {
    let bytes: [u8; 6] = [0, 1, 2, 3, 4, 5];
    let mut read = Bytes::new(&bytes[..]);
    let buf = read.read_bytes(3).unwrap();
    let buf2 = read.read_bytes(3).unwrap();
    assert_eq!(buf.as_slice(), &[0, 1, 2]);
    assert_eq!(buf2.as_slice(), &[3, 4, 5]);
}

#[test]
fn drop_front() {
    let mut buffer = Buffer::new();
    let bytes = [1, 2, 3, 4, 5];
    let zeros_64 = [0; 64];
    buffer.write_bytes(&bytes[..]);
    assert!(&buffer.as_slice()[0..5] == &bytes[0..5]);

    buffer.drop_front(3);
    assert!(&buffer.as_slice()[0..2] == &bytes[3..5]);

    buffer.write_bytes(&zeros_64[..]);
    buffer.write_bytes(&bytes[..]);
    buffer.drop_front(64);
    assert_eq!(&buffer.as_slice()[0..5], &[0, 0, 1, 2, 3][..]);
}

#[test]
fn drop_front_compacts_past_threshold() {
    let mut buffer = Buffer::new();
    let zeros_200 = [0u8; 200];
    buffer.write_bytes(&zeros_200[..]);
    buffer.write_bytes(&[7, 8, 9][..]);
    buffer.drop_front(200);
    assert_eq!(buffer.len(), 3);
    assert_eq!(buffer.as_slice(), &[7, 8, 9][..]);
}

#[test]
fn bytes_peek_does_not_consume() {
    let bytes = [9u8, 8, 7, 6];
    let read = Bytes::new(&bytes[..]);
    let peeked = read.peek(2);
    assert_eq!(peeked.as_slice(), &[9, 8]);
    assert_eq!(read.len(), 4);
}

#[test]
fn read_bytes_past_end_is_short_length() {
    let bytes = [1u8, 2];
    let mut read = Bytes::new(&bytes[..]);
    assert_eq!(read.read_bytes(3), Err(bitcoinrs::decode::DecodeError::ShortLength));
    // The failed read consumed nothing.
    assert_eq!(read.read_bytes(2).unwrap().as_slice(), &[1, 2]);
}
