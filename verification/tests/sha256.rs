use bitcoinrs::sha2::{checksum, sha256};

fn hex(bytes: &[u8]) -> String {
    let mut s = String::new();
    for b in bytes {
        s.push_str(&format!("{:02x}", b));
    }
    s
}

#[test]
fn sha256_test() {
    assert_hash(
        "hoge".as_bytes(),
        "ecb666d778725ec97307044d642bf4d160aabb76f56c0069c71ea25b1e926825",
    );

    // A deterministic 1000-byte input, long enough to span many blocks.
    let mut buf: Vec<u8> = Vec::with_capacity(1000);
    for i in 0..1000usize {
        buf.push(((i * 7 + 3) % 256) as u8);
    }
    assert_hash(
        buf.as_slice(),
        "1e9bc38cbf860b9ec31918b065f9b52476c549a782e0e7990bed8ce3868d2371",
    );
}

fn assert_hash(msg: &[u8], expected: &str) {
    let hashed = sha256(msg);
    assert_eq!(hex(hashed.as_slice()), expected);
}

#[test]
fn sha256_empty_string_digest() {
    assert_hash(
        b"",
        "e3b0c44298fc1c149afbf4c8996fb92427ae41e4649b934ca495991b7852b855",
    );
}

#[test]
fn sha256_abc_digest() {
    assert_hash(
        b"abc",
        "ba7816bf8f01cfea414140de5dae2223b00361a396177a9cb410ff61f20015ad",
    );
}

#[test]
fn sha256_padding_boundaries() {
    // 55 bytes: the last length that still fits one block with its padding.
    let fifty_five = [b'a'; 55];
    assert_hash(
        &fifty_five[..],
        "9f4390f8d30c2dd92ec9f095b65e2b9ae9b0a925a5258e241c9f1e910f734318",
    );
    // 64 bytes: exactly one block of input, padding forces a second block.
    let sixty_four = [b'a'; 64];
    assert_hash(
        &sixty_four[..],
        "ffe054fe7ae0cb6dc65c3af9b61d5209f439851db43d0ba5997337df154668eb",
    );
}

#[test]
fn empty_payload_checksum() {
    let ck = checksum(b"");
    assert_eq!(ck.as_slice(), &[0x5d, 0xf6, 0xe0, 0xe2][..]);
}
