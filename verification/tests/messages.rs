use bitcoinrs::addr::AddrPayload;
use bitcoinrs::buffer::Buffer;
use bitcoinrs::bytes::BytesMut;
use bitcoinrs::commons::{
    ipv4_mapped_ipv6, NetAddr, NetAddrForVersionMsg, Service, Services, Timestamp, VarStr,
};
use bitcoinrs::decode::DecodeError;
use bitcoinrs::encode::{Encodable, WriteBuf};
use bitcoinrs::get_addr::encode_get_addr_msg;
use bitcoinrs::message::{
    decode_message, encode_message, encode_message_checked, payload_encoded_len, Command, Message,
};
use bitcoinrs::verack::VerackMsgPayload;
use bitcoinrs::version::VersionMsgPayload;
use bitcoinrs::NetworkType;

fn verack_frame() -> Vec<u8> {
    let msg = Message::new(NetworkType::Main, Command::Verack);
    let mut dst = BytesMut::new();
    encode_message(&msg, &mut dst);
    dst.to_vec()
}

fn sample_version_payload() -> VersionMsgPayload {
    let remote = NetAddrForVersionMsg::new(
        Services::new(&[Service::Network, Service::Witness]),
        ipv4_mapped_ipv6(10, 0, 0, 1),
        8333,
    );
    let local = NetAddrForVersionMsg::new(
        Services::new(&[Service::Network]),
        ipv4_mapped_ipv6(192, 168, 1, 2),
        18333,
    );
    let mut payload = VersionMsgPayload::new(remote, local);
    payload.set_timestamp(Timestamp::from_secs(1_500_000_000));
    payload.set_nonce(0x1122334455667788);
    payload.set_user_agent(String::from("/bitcoinrs:0.1/"));
    payload.set_start_height(481_824);
    payload.set_relay(true);
    payload
}

#[test]
fn verack_message_is_the_well_known_24_bytes() {
    let bytes = verack_frame();
    let expected: [u8; 24] = [
        0xF9, 0xBE, 0xB4, 0xD9, // mainnet magic
        b'v', b'e', b'r', b'a', b'c', b'k', 0, 0, 0, 0, 0, 0, // command
        0x00, 0x00, 0x00, 0x00, // zero payload length
        0x5D, 0xF6, 0xE0, 0xE2, // checksum of the empty payload
    ];
    assert_eq!(bytes.len(), 24);
    assert_eq!(bytes.as_slice(), &expected[..]);
}

#[test]
fn partial_header_reports_incomplete_then_decodes() {
    let frame = verack_frame();
    let mut buffer = Buffer::new();
    buffer.write_bytes(&frame[0..10]);
    assert!(matches!(decode_message(&mut buffer), Ok(None)));
    assert_eq!(buffer.len(), 10);

    buffer.write_bytes(&frame[10..24]);
    let decoded = decode_message(&mut buffer).unwrap().unwrap();
    assert_eq!(decoded.net_type(), NetworkType::Main);
    assert!(matches!(decoded.command(), Command::Verack));
    // The watermark advanced by exactly the 24 frame bytes.
    assert_eq!(buffer.len(), 0);
}

#[test]
fn two_concatenated_frames_decode_in_sequence() {
    let verack = verack_frame();
    let mut dst = BytesMut::new();
    encode_get_addr_msg(NetworkType::Main, &mut dst);
    let get_addr = dst.to_vec();

    let mut buffer = Buffer::new();
    let mut both = verack.clone();
    both.extend_from_slice(&get_addr);
    buffer.write_bytes(&both);

    let first = decode_message(&mut buffer).unwrap().unwrap();
    assert!(matches!(first.command(), Command::Verack));
    assert_eq!(buffer.len(), get_addr.len());

    let second = decode_message(&mut buffer).unwrap().unwrap();
    assert!(matches!(second.command(), Command::GetAddr));
    assert_eq!(buffer.len(), 0);

    assert!(matches!(decode_message(&mut buffer), Ok(None)));
}

#[test]
fn tampered_payload_fails_with_invalid_bytes() {
    let msg = Message::new(NetworkType::Main, Command::Version(sample_version_payload()));
    let mut dst = BytesMut::new();
    encode_message(&msg, &mut dst);
    let mut bytes = dst.to_vec();
    // Flip one payload byte, leaving header and length intact.
    let last = bytes.len() - 1;
    bytes[last] ^= 0xFF;

    let mut buffer = Buffer::new();
    buffer.write_bytes(&bytes);
    assert_eq!(decode_message(&mut buffer), Err(DecodeError::InvalidBytes));
    // The corrupt frame was still consumed.
    assert_eq!(buffer.len(), 0);
}

#[test]
fn version_payload_round_trips_every_field() {
    let payload = sample_version_payload();
    let msg = Message::new(NetworkType::Main, Command::Version(payload));
    let mut dst = BytesMut::new();
    encode_message(&msg, &mut dst);
    let bytes = dst.to_vec();

    let mut buffer = Buffer::new();
    buffer.write_bytes(&bytes);
    let decoded = decode_message(&mut buffer).unwrap().unwrap();
    assert_eq!(decoded.net_type(), NetworkType::Main);
    match decoded.command() {
        Command::Version(p) => {
            let expected = sample_version_payload();
            assert_eq!(p.version(), expected.version());
            assert_eq!(p.services(), expected.services());
            assert_eq!(p.timestamp(), expected.timestamp());
            assert_eq!(p.remote_addr(), expected.remote_addr());
            assert_eq!(p.local_addr(), expected.local_addr());
            assert_eq!(p.nonce(), expected.nonce());
            assert_eq!(p.user_agent(), expected.user_agent());
            assert_eq!(p.start_height(), expected.start_height());
            assert_eq!(p.relay(), expected.relay());
            assert_eq!(p, &expected);
        },
        other => panic!("decoded the wrong command: {:?}", other),
    }
}

#[test]
fn addr_payload_round_trips() {
    let records = vec![
        NetAddr::new(
            1_500_000_000,
            Services::new(&[Service::Network]),
            ipv4_mapped_ipv6(10, 0, 0, 1),
            8333,
        ),
        NetAddr::new(
            1_500_000_100,
            Services::new(&[Service::Network, Service::Bloom]),
            ipv4_mapped_ipv6(172, 16, 5, 9),
            18333,
        ),
    ];
    let payload = AddrPayload::new(records);
    // One CompactSize byte plus two 30-byte records.
    assert_eq!(payload.to_vec().len(), 61);

    let msg = Message::new(NetworkType::Testnet3, Command::Addr(payload));
    let mut dst = BytesMut::new();
    encode_message(&msg, &mut dst);

    let mut buffer = Buffer::new();
    buffer.write_bytes(&dst.to_vec());
    let decoded = decode_message(&mut buffer).unwrap().unwrap();
    assert_eq!(decoded.net_type(), NetworkType::Testnet3);
    match decoded.command() {
        Command::Addr(a) => {
            assert_eq!(a.addrs.len(), 2);
            assert_eq!(a.addrs[0].time(), 1_500_000_000);
            assert_eq!(a.addrs[0].port(), 8333);
            assert_eq!(a.addrs[1].services(), Services::new(&[Service::Network, Service::Bloom]));
            assert_eq!(a.addrs[1].ip().as_slice(), ipv4_mapped_ipv6(172, 16, 5, 9).as_slice());
        },
        other => panic!("decoded the wrong command: {:?}", other),
    }
}

#[test]
fn unknown_magic_is_invalid_bytes() {
    let mut bytes = verack_frame();
    bytes[0] = 0x00;
    let mut buffer = Buffer::new();
    buffer.write_bytes(&bytes);
    assert_eq!(decode_message(&mut buffer), Err(DecodeError::InvalidBytes));
}

#[test]
fn unknown_command_is_invalid_bytes() {
    let mut bytes = verack_frame();
    bytes[4] = b'x';
    let mut buffer = Buffer::new();
    buffer.write_bytes(&bytes);
    assert_eq!(decode_message(&mut buffer), Err(DecodeError::InvalidBytes));
}

#[test]
fn wrong_checksum_is_invalid_bytes() {
    let mut bytes = verack_frame();
    bytes[20] ^= 0x01;
    let mut buffer = Buffer::new();
    buffer.write_bytes(&bytes);
    assert_eq!(decode_message(&mut buffer), Err(DecodeError::InvalidBytes));
}

#[test]
fn get_addr_free_functions() {
    let (name, payload) = bitcoinrs::get_addr::command_name_and_payload();
    assert_eq!(name.as_slice(), b"getaddr\0\0\0\0\0");
    assert!(payload.is_empty());
    assert!(bitcoinrs::get_addr::encode().is_empty());
}

#[test]
fn addr_free_functions_round_trip() {
    let payload = AddrPayload::new(vec![NetAddr::new(
        7,
        Services::empty(),
        ipv4_mapped_ipv6(127, 0, 0, 1),
        8333,
    )]);
    let bytes = bitcoinrs::addr::encode(&payload);
    let decoded = bitcoinrs::addr::decode(bitcoinrs::bytes::Bytes::new(&bytes)).unwrap();
    assert_eq!(decoded, payload);
}

#[test]
fn verack_payload_is_empty() {
    let payload = VerackMsgPayload::new();
    assert_eq!(payload.length(), 0);
    assert!(payload.to_vec().is_empty());
}

#[test]
fn network_magic_numbers_round_trip() {
    for net in [NetworkType::Main, NetworkType::Testnet3, NetworkType::Regtest] {
        assert_eq!(NetworkType::from_magic_num(net.magic_num()), Some(net));
    }
    assert_eq!(NetworkType::from_magic_num(0xDEADBEEF), None);
}

#[test]
fn start_strings_match_the_wire_table() {
    assert_eq!(NetworkType::Main.start_string(), vec![0xF9, 0xBE, 0xB4, 0xD9]);
    assert_eq!(NetworkType::Testnet3.start_string(), vec![0x0B, 0x11, 0x09, 0x07]);
    assert_eq!(NetworkType::Regtest.start_string(), vec![0xFA, 0xBF, 0xB5, 0xDA]);
}

#[test]
fn xorshift32_is_deterministic() {
    let a = bitcoinrs::rand::xorshift32(2463534242);
    let b = bitcoinrs::rand::xorshift32(2463534242);
    assert_eq!(a, b);
    assert_ne!(a, 2463534242);
}

#[test]
fn timestamp_and_services_accessors() {
    let ts = Timestamp::from_secs(42);
    assert_eq!(ts.secs(), 42);
    let mut services = Services::empty();
    assert_eq!(services.mask(), 0);
    services.add(Service::NetworkLimited);
    assert_eq!(services.mask(), 1024);
    assert_eq!(Services::new(&[Service::Getutxo, Service::Witness]).mask(), 2 | 8);
    assert_eq!(Service::Bloom.bit(), 4);
}

#[test]
fn var_str_payload_in_version_defaults() {
    let remote = NetAddrForVersionMsg::new(Services::empty(), ipv4_mapped_ipv6(0, 0, 0, 0), 0);
    let local = NetAddrForVersionMsg::new(Services::empty(), ipv4_mapped_ipv6(0, 0, 0, 0), 0);
    let payload = VersionMsgPayload::new(remote, local);
    assert_eq!(payload.version(), 70015);
    assert_eq!(payload.user_agent(), &VarStr(String::from("bitcoinrs")));
    assert_eq!(payload.nonce(), 0);
    assert_eq!(payload.start_height(), 0);
    assert!(!payload.relay());
}

#[test]
fn encoded_len_matches_the_real_encoding() {
    let payload = sample_version_payload();
    let encoded = payload.to_vec();
    assert_eq!(payload.encoded_len(), Some(encoded.len() as u64));

    let addr = AddrPayload::new(vec![NetAddr::new(
        7,
        Services::empty(),
        ipv4_mapped_ipv6(127, 0, 0, 1),
        8333,
    )]);
    let addr_encoded = addr.to_vec();
    assert_eq!(addr.encoded_len(), Some(addr_encoded.len() as u64));

    let msg = Message::new(NetworkType::Main, Command::Verack);
    assert_eq!(payload_encoded_len(msg.command()), Some(0));
}

#[test]
fn encode_message_checked_accepts_ordinary_messages() {
    let msg = Message::new(NetworkType::Main, Command::Version(sample_version_payload()));
    let mut dst = BytesMut::new();
    assert!(encode_message_checked(&msg, &mut dst));

    let mut plain = BytesMut::new();
    encode_message(&msg, &mut plain);
    assert_eq!(dst.to_vec(), plain.to_vec());
}
