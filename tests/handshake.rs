use lightnode::factory::MessageFactory;
use lightnode::handshake::{
    Action, FailReason, HandshakeConfig, HandshakeSession, HandshakeState,
};
use lightnode::types::NetAddr;
use lightnode::wire::WireError;

const MAGIC: u32 = 0xD9B4BEF9;

fn config(version: i32, strict: bool) -> HandshakeConfig {
    HandshakeConfig {
        magic: MAGIC,
        protocol_version: version,
        services: 0,
        start_height: 0,
        relay: true,
        min_peer_version: 209,
        timeout_ms: 2000,
        strict,
    }
}

fn peer_addr() -> NetAddr {
    NetAddr::from_ipv4(0, [127, 0, 0, 1], 8333)
}

fn start(s: &mut HandshakeSession) -> Vec<u8> {
    match s.start(1690000000, peer_addr(), None, "/test:0.1/") {
        Action::Send(b) => b,
        other => panic!("expected a send, got {:?}", other),
    }
}

fn feed(s: &mut HandshakeSession, frame: &[u8]) -> Action {
    s.on_frame(&frame[..24], &frame[24..])
}

fn verack() -> Vec<u8> {
    MessageFactory::build(MAGIC, "verack", &[]).unwrap()
}

#[test]
fn both_sessions_establish_version_first() {
    let mut a = HandshakeSession::new(config(70015, false), 1);
    let mut b = HandshakeSession::new(config(70012, false), 2);
    let va = start(&mut a);
    let vb = start(&mut b);
    assert_eq!(a.state, HandshakeState::VersionSent);
    let ack_from_b = match feed(&mut b, &va) {
        Action::Send(x) => x,
        other => panic!("expected verack, got {:?}", other),
    };
    assert_eq!(ack_from_b, verack());
    let ack_from_a = match feed(&mut a, &vb) {
        Action::Send(x) => x,
        other => panic!("expected verack, got {:?}", other),
    };
    assert_eq!(feed(&mut a, &ack_from_b), Action::Wait);
    assert_eq!(feed(&mut b, &ack_from_a), Action::Wait);
    assert!(a.is_established());
    assert!(b.is_established());
    assert_eq!(a.negotiated_version, Some(70012));
    assert_eq!(b.negotiated_version, Some(70012));
    assert_eq!(a.peer_nonce, Some(2));
    assert_eq!(b.peer_nonce, Some(1));
}

#[test]
fn establishes_with_verack_before_version() {
    let mut a = HandshakeSession::new(config(70015, false), 10);
    let mut b = HandshakeSession::new(config(70015, false), 20);
    let _va = start(&mut a);
    let vb = start(&mut b);
    assert_eq!(feed(&mut a, &verack()), Action::Wait);
    assert!(a.peer_verack_received);
    assert!(!a.is_established());
    assert!(matches!(feed(&mut a, &vb), Action::Send(_)));
    assert!(a.is_established());
    assert_eq!(a.negotiated_version, Some(70015));
}

#[test]
fn identical_nonces_are_a_self_connection() {
    let mut a = HandshakeSession::new(config(70015, false), 77);
    let mut b = HandshakeSession::new(config(70015, false), 77);
    let _ = start(&mut a);
    let vb = start(&mut b);
    assert_eq!(feed(&mut a, &vb), Action::Close);
    assert_eq!(a.state, HandshakeState::Failed(FailReason::SelfConnection));
    assert_eq!(a.peer_nonce, None);
    assert!(!a.peer_version_received);
    assert!(!a.local_verack_sent);
}

#[test]
fn timeout_while_waiting_for_version() {
    let mut a = HandshakeSession::new(config(70015, false), 1);
    let _ = start(&mut a);
    assert_eq!(a.on_timeout(), Action::Close);
    assert_eq!(a.state, HandshakeState::Failed(FailReason::HandshakeTimeout));
    assert_eq!(a.on_timeout(), Action::Wait);
}

#[test]
fn silence_past_the_timeout_fails() {
    let mut a = HandshakeSession::new(config(70015, false), 1);
    let _ = start(&mut a);
    assert_eq!(a.on_elapsed(2000), Action::Wait);
    assert_eq!(a.state, HandshakeState::VersionSent);
    assert_eq!(a.on_elapsed(2001), Action::Close);
    assert_eq!(a.state, HandshakeState::Failed(FailReason::HandshakeTimeout));
    let mut b = HandshakeSession::new(config(70015, false), 2);
    let vb = start(&mut b);
    assert_eq!(feed(&mut a, &vb), Action::Wait);
    assert_eq!(feed(&mut a, &verack()), Action::Wait);
    assert!(!a.is_established());
    assert_eq!(a.on_elapsed(5000), Action::Wait);
}

#[test]
fn transport_failure_closes() {
    let mut a = HandshakeSession::new(config(70015, false), 1);
    let _ = start(&mut a);
    assert_eq!(a.on_transport_error(), Action::Close);
    assert_eq!(a.state, HandshakeState::Failed(FailReason::TransportFailure));
    assert_eq!(a.on_transport_error(), Action::Wait);
}

#[test]
fn wrong_network_is_refused() {
    let mut a = HandshakeSession::new(config(70015, false), 1);
    let _ = start(&mut a);
    let other = MessageFactory::build(0x0709110B, "verack", &[]).unwrap();
    assert_eq!(feed(&mut a, &other), Action::Close);
    assert_eq!(a.state, HandshakeState::Failed(FailReason::NetworkMismatch));
}

#[test]
fn corrupted_payload_fails() {
    let mut a = HandshakeSession::new(config(70015, false), 1);
    let mut b = HandshakeSession::new(config(70015, false), 2);
    let _ = start(&mut a);
    let mut vb = start(&mut b);
    let last = vb.len() - 1;
    vb[last] ^= 0x01;
    assert_eq!(feed(&mut a, &vb), Action::Close);
    assert_eq!(
        a.state,
        HandshakeState::Failed(FailReason::Malformed(WireError::ChecksumMismatch))
    );
}

#[test]
fn short_header_fails() {
    let mut a = HandshakeSession::new(config(70015, false), 1);
    let _ = start(&mut a);
    assert_eq!(a.on_frame(&[0u8; 10], &[]), Action::Close);
    assert_eq!(a.state, HandshakeState::Failed(FailReason::Malformed(WireError::ShortRead)));
}

#[test]
fn other_commands_are_kept_until_established() {
    let mut a = HandshakeSession::new(config(70015, false), 1);
    let mut b = HandshakeSession::new(config(70015, false), 2);
    let _ = start(&mut a);
    let vb = start(&mut b);
    let ping = MessageFactory::build(MAGIC, "ping", &[1, 2, 3, 4, 5, 6, 7, 8]).unwrap();
    assert_eq!(feed(&mut a, &ping), Action::Wait);
    assert_eq!(a.take_buffered().len(), 0);
    let _ = feed(&mut a, &vb);
    let _ = feed(&mut a, &verack());
    assert!(a.is_established());
    let kept = a.take_buffered();
    assert_eq!(kept.len(), 1);
    assert_eq!(&kept[0].command[..4], b"ping");
    assert_eq!(kept[0].payload, vec![1, 2, 3, 4, 5, 6, 7, 8]);
    assert_eq!(a.take_buffered().len(), 0);
}

#[test]
fn strict_mode_refuses_other_commands() {
    let mut a = HandshakeSession::new(config(70015, true), 1);
    let _ = start(&mut a);
    let ping = MessageFactory::build(MAGIC, "ping", &[]).unwrap();
    assert_eq!(feed(&mut a, &ping), Action::Close);
    assert_eq!(a.state, HandshakeState::Failed(FailReason::UnexpectedMessage));
}

#[test]
fn old_peer_version_is_refused() {
    let mut a = HandshakeSession::new(config(70015, false), 1);
    let mut b = HandshakeSession::new(config(106, false), 2);
    let _ = start(&mut a);
    let vb = start(&mut b);
    assert_eq!(feed(&mut a, &vb), Action::Close);
    assert_eq!(a.state, HandshakeState::Failed(FailReason::UnsupportedVersion));
}

#[test]
fn second_version_is_unexpected() {
    let mut a = HandshakeSession::new(config(70015, false), 1);
    let mut b = HandshakeSession::new(config(70015, false), 2);
    let _ = start(&mut a);
    let vb = start(&mut b);
    assert!(matches!(feed(&mut a, &vb), Action::Send(_)));
    assert_eq!(feed(&mut a, &vb), Action::Close);
    assert_eq!(a.state, HandshakeState::Failed(FailReason::UnexpectedMessage));
}

#[test]
fn cancel_is_idempotent() {
    let mut a = HandshakeSession::new(config(70015, false), 1);
    let _ = start(&mut a);
    assert_eq!(a.cancel(), Action::Close);
    assert_eq!(a.state, HandshakeState::Failed(FailReason::Cancelled));
    assert_eq!(a.cancel(), Action::Wait);
    assert_eq!(a.state, HandshakeState::Failed(FailReason::Cancelled));
}

#[test]
fn start_only_once_and_unspecified_local_address() {
    let mut a = HandshakeSession::new(config(70015, false), 5);
    let frame = start(&mut a);
    // addr_from follows addr_recv at payload offset 46
    assert_eq!(&frame[24 + 46..24 + 72], &[0u8; 26]);
    assert_eq!(a.start(1, peer_addr(), None, ""), Action::Wait);
    let r = HandshakeSession::new_random(config(70015, false));
    assert_eq!(r.state, HandshakeState::Init);
}
