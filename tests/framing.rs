use lightnode::factory::{
    checksum, Message, MessageFactory, MessageHeader, MessageType, Payload, VerackMessage,
};
use lightnode::types::VersionMessage;
use lightnode::wire::WireError;

const MAGIC: u32 = 0xD9B4BEF9;

#[test]
fn checksum_of_empty_payload() {
    assert_eq!(checksum(&[]), [0x5d, 0xf6, 0xe0, 0xe2]);
    assert_eq!(checksum(&[]), checksum(&[]));
}

#[test]
fn checksum_flips_on_single_bit() {
    let p = b"hello world".to_vec();
    let mut q = p.clone();
    q[3] ^= 0x01;
    assert_ne!(checksum(&p), checksum(&q));
    let h = MessageHeader::from_payload(MAGIC, "ping", &p).unwrap();
    assert_eq!(h.verify(&q), Err(WireError::ChecksumMismatch));
    assert_eq!(h.verify(&p), Ok(()));
}

#[test]
fn verify_length_mismatch() {
    let p = vec![1u8, 2, 3];
    let mut h = MessageHeader::from_payload(MAGIC, "ping", &p).unwrap();
    assert_eq!(h.length, 3);
    h.length = 4;
    assert_eq!(h.verify(&p), Err(WireError::LengthMismatch));
}

#[test]
fn header_layout_and_parse() {
    let h = MessageHeader::new(MAGIC, "verack", &VerackMessage).unwrap();
    let b = h.serialize();
    assert_eq!(
        b,
        vec![
            0xf9, 0xbe, 0xb4, 0xd9, b'v', b'e', b'r', b'a', b'c', b'k', 0, 0, 0, 0, 0, 0, 0, 0, 0,
            0, 0x5d, 0xf6, 0xe0, 0xe2
        ]
    );
    assert_eq!(MessageHeader::parse(&b), Ok(h));
    assert_eq!(MessageHeader::parse(&b[..23]), Err(WireError::ShortRead));
    assert_eq!(MessageType::from_command(&h.command), Some(MessageType::Verack));
}

#[test]
fn command_too_long() {
    assert_eq!(
        MessageHeader::from_payload(MAGIC, "thirteenchars", &[]),
        Err(WireError::CommandTooLong)
    );
    assert_eq!(MessageFactory::build(MAGIC, "thirteenchars", &[]), Err(WireError::CommandTooLong));
    assert!(MessageFactory::build(MAGIC, "twelve_chars", &[]).is_ok());
}

#[test]
fn build_frames_version_payload() {
    let m = VersionMessage::with_defaults(1690000000, 7).with_addr_recv([43, 159, 49, 47]);
    let frame = MessageFactory::new_serialized_message(MAGIC, "version", &m).unwrap();
    let payload = m.serialize();
    assert_eq!(frame.len(), 24 + payload.len());
    let h = MessageHeader::parse(&frame[..24]).unwrap();
    assert_eq!(h.magic, MAGIC);
    assert_eq!(h.length as usize, payload.len());
    assert_eq!(h.checksum, checksum(&payload));
    assert_eq!(MessageType::from_command(&h.command), Some(MessageType::Version));
    assert_eq!(h.verify(&frame[24..]), Ok(()));
    assert_eq!(&frame[24..], &payload[..]);
    match MessageFactory::from_raw(&frame, MessageType::Version) {
        Ok(Payload::Version(back)) => assert_eq!(back, m),
        other => panic!("unexpected {:?}", other),
    }
}

#[test]
fn defaults_and_addresses() {
    let m = VersionMessage::with_defaults(5, 9)
        .with_addr_recv([1, 2, 3, 4])
        .with_addr_from([5, 6, 7, 8]);
    assert_eq!(m.version, 70015);
    assert_eq!(m.nonce, 9);
    assert_eq!(m.addr_recv.port, 8333);
    assert_eq!(m.addr_recv.ip_address[12..], [1, 2, 3, 4]);
    assert_eq!(m.addr_from.ip_address[10..], [0xff, 0xff, 5, 6, 7, 8]);
    let p = MessageFactory::new_version_payload(Some([9, 9, 9, 9]), 11);
    assert_eq!(p.timestamp, 11);
    assert_eq!(p.addr_recv.ip_address[12..], [9, 9, 9, 9]);
    assert_eq!(p.relay, Some(true));
}

#[test]
fn unknown_command_and_truncated_version() {
    assert_eq!(MessageType::from_command(b"ping\0\0\0\0\0\0\0\0"), None);
    assert_eq!(
        MessageFactory::from_raw(&[1, 2, 3], MessageType::Version),
        Err(WireError::ShortRead)
    );
    assert_eq!(MessageFactory::from_raw(&[], MessageType::Verack), Err(WireError::ShortRead));
    let verack = MessageFactory::build(MAGIC, "verack", &[]).unwrap();
    assert_eq!(MessageFactory::from_raw(&verack[..23], MessageType::Verack), Err(WireError::ShortRead));
    assert_eq!(MessageFactory::from_raw(&verack, MessageType::Verack), Ok(Payload::Verack));
    // a framed payload too short to be a version
    let short = MessageFactory::build(MAGIC, "version", &[1, 2, 3]).unwrap();
    assert_eq!(
        MessageFactory::from_raw(&short, MessageType::Version),
        Err(WireError::TruncatedPayload)
    );
}

#[test]
fn from_raw_refuses_flipped_payload_bit() {
    let m = VersionMessage::with_defaults(1690000000, 7);
    let frame = MessageFactory::new_serialized_message(MAGIC, "version", &m).unwrap();
    let mut bad = frame.clone();
    bad[40] ^= 0x08;
    assert_eq!(
        MessageFactory::from_raw(&bad, MessageType::Version),
        Err(WireError::ChecksumMismatch)
    );
    let mut verack = MessageFactory::build(MAGIC, "verack", &[]).unwrap();
    verack[20] ^= 0x01;
    assert_eq!(MessageFactory::from_raw(&verack, MessageType::Verack), Err(WireError::ChecksumMismatch));
}

#[test]
fn from_raw_refuses_length_mismatch() {
    let mut frame = MessageFactory::build(MAGIC, "verack", &[]).unwrap();
    frame[16] = 1;
    assert_eq!(MessageFactory::from_raw(&frame, MessageType::Verack), Err(WireError::LengthMismatch));
}

#[test]
fn checksum_is_prefix_of_double_digest() {
    // double SHA-256 of "hello" starts 95 95 c9 df
    assert_eq!(checksum(b"hello"), [0x95, 0x95, 0xc9, 0xdf]);
}
