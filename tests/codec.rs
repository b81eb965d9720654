use lightnode::types::{NetAddr, VersionMessage};
use lightnode::factory::Message;
use lightnode::wire::{decode_varint, encode_varint, WireError};

fn hex(b: &[u8]) -> String {
    b.iter().map(|x| format!("{:02x}", x)).collect::<Vec<String>>().join("")
}

fn mapped(a: u8, b: u8, c: u8, d: u8) -> [u8; 16] {
    [0, 0, 0, 0, 0, 0, 0, 0, 0, 0, 0xff, 0xff, a, b, c, d]
}

fn sample() -> VersionMessage {
    VersionMessage::new(
        70015,
        0,
        1690000000,
        NetAddr::new(0, mapped(192, 168, 0, 1), 8333),
        NetAddr::new(0, mapped(0, 0, 0, 0), 8333),
        0x1122334455667788,
        "/test:0.1/",
        0,
        true,
    )
}

#[test]
fn fixed_input_serializes_to_recorded_bytes() {
    let expected = "7f1101000000000000000000805abb64000000000000000000000000000000000000\
                    00000000ffffc0a80001208d000000000000000000000000000000000000ffff0000\
                    0000208d88776655443322110a2f746573743a302e312f0000000001";
    let bytes = sample().serialize();
    assert_eq!(bytes.len(), 96);
    assert_eq!(hex(&bytes), expected);
    assert_eq!(hex(&sample().serialize()), expected);
}

#[test]
fn version_round_trip_with_relay() {
    let m = sample();
    let back = VersionMessage::deserialize(&m.serialize()).unwrap();
    assert_eq!(back, m);
    assert_eq!(back.user_agent, b"/test:0.1/".to_vec());
    assert_eq!(back.relay, Some(true));
}

#[test]
fn version_round_trip_without_relay() {
    let m = VersionMessage::new(
        60002,
        1,
        -5,
        NetAddr::new(9, [7u8; 16], 1),
        NetAddr::new(u64::MAX, [0u8; 16], 65535),
        0,
        "",
        -1,
        true,
    );
    assert_eq!(m.relay, None);
    let bytes = m.serialize();
    assert_eq!(bytes.len(), 85);
    assert_eq!(VersionMessage::deserialize(&bytes).unwrap(), m);
}

#[test]
fn version_round_trip_long_user_agent() {
    let ua = "x".repeat(300);
    let m = VersionMessage::new(
        70016,
        5,
        7,
        NetAddr::new(1, mapped(1, 2, 3, 4), 18333),
        NetAddr::new(2, mapped(5, 6, 7, 8), 8333),
        42,
        &ua,
        800000,
        false,
    );
    let bytes = m.serialize();
    assert_eq!(bytes[80], 0xfd);
    assert_eq!(bytes[81], 0x2c);
    assert_eq!(bytes[82], 0x01);
    let back = VersionMessage::deserialize(&bytes).unwrap();
    assert_eq!(back, m);
    assert_eq!(back.relay, Some(false));
}

#[test]
fn version_decode_truncated_fixed_fields() {
    let bytes = sample().serialize();
    assert_eq!(VersionMessage::deserialize(&bytes[..79]), Err(WireError::TruncatedPayload));
    assert_eq!(VersionMessage::deserialize(&[]), Err(WireError::TruncatedPayload));
    // the relay byte is missing
    assert_eq!(VersionMessage::deserialize(&bytes[..95]), Err(WireError::TruncatedPayload));
    // the start height is cut
    assert_eq!(VersionMessage::deserialize(&bytes[..93]), Err(WireError::TruncatedPayload));
}

#[test]
fn version_decode_length_prefix_too_long() {
    let mut bytes = sample().serialize();
    bytes[80] = 0xfc;
    assert_eq!(VersionMessage::deserialize(&bytes), Err(WireError::InvalidLengthPrefix));
}

#[test]
fn version_decode_truncated_length_prefix() {
    let mut bytes = sample().serialize()[..81].to_vec();
    bytes[80] = 0xfe;
    assert_eq!(VersionMessage::deserialize(&bytes), Err(WireError::TruncatedPayload));
}

#[test]
fn port_is_big_endian() {
    let a = NetAddr::new(1, mapped(10, 0, 0, 1), 8333);
    let b = a.serialize();
    assert_eq!(b.len(), 26);
    assert_eq!(&b[0..8], &[1, 0, 0, 0, 0, 0, 0, 0]);
    assert_eq!(&b[24..26], &[0x20, 0x8d]);
}

#[test]
fn address_round_trip_ipv4_mapped() {
    let a = NetAddr::from_ipv4(0x0409, [192, 168, 0, 1], 8333);
    assert_eq!(a.ip_address, mapped(192, 168, 0, 1));
    assert_eq!(NetAddr::deserialize(&a.serialize()), Ok(a));
}

#[test]
fn address_round_trip_native() {
    let ip = [0x20, 0x01, 0x0d, 0xb8, 1, 2, 3, 4, 5, 6, 7, 8, 9, 10, 11, 12];
    let a = NetAddr::new(u64::MAX, ip, 1);
    let mut b = a.serialize();
    assert_eq!(&b[8..24], &ip);
    b.push(0xaa);
    assert_eq!(NetAddr::deserialize(&b), Ok(a));
}

#[test]
fn address_too_short() {
    let a = NetAddr::new(0, [0u8; 16], 8333).serialize();
    assert_eq!(NetAddr::deserialize(&a[..25]), Err(WireError::MalformedAddress));
}

#[test]
fn varint_widths_round_trip() {
    let cases: [(u64, usize, u8); 7] = [
        (0, 1, 0),
        (252, 1, 252),
        (253, 3, 0xfd),
        (65535, 3, 0xfd),
        (65536, 5, 0xfe),
        (4294967295, 5, 0xfe),
        (4294967296, 9, 0xff),
    ];
    for (v, len, first) in cases {
        let b = encode_varint(v);
        assert_eq!(b.len(), len);
        assert_eq!(b[0], first);
        assert_eq!(decode_varint(&b), Ok((v, len)));
    }
    assert_eq!(encode_varint(253), vec![0xfd, 0xfd, 0x00]);
    assert_eq!(encode_varint(65536), vec![0xfe, 0x00, 0x00, 0x01, 0x00]);
    assert_eq!(decode_varint(&encode_varint(u64::MAX)), Ok((u64::MAX, 9)));
}

#[test]
fn varint_rejects_missing_bytes() {
    assert_eq!(decode_varint(&[]), Err(WireError::TruncatedPayload));
    assert_eq!(decode_varint(&[0xfd, 0x01]), Err(WireError::TruncatedPayload));
    assert_eq!(decode_varint(&[0xff, 0, 0, 0, 0, 1, 0, 0]), Err(WireError::TruncatedPayload));
}

#[test]
fn varint_reads_longer_forms() {
    assert_eq!(decode_varint(&[0xfd, 0x10, 0x00]), Ok((16, 3)));
    assert_eq!(decode_varint(&[0xfe, 0xff, 0xff, 0, 0]), Ok((65535, 5)));
}
