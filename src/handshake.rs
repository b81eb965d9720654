//! The handshake state machine: one session per connection, driven by the
//! caller, which performs each returned action on the transport and hands
//! back each inbound message, each timeout and each cancellation.
use crate::factory::{
    checksum_of, command_field, frame_bytes, header_seq, lemma_header_seq_fields, message_type_of,
    random_nonce, verack_name, version_name, Message, MessageFactory, MessageHeader, MessageType,
};
use crate::types::{
    lemma_version_bytes_len, lemma_version_round_trip, version_bytes, version_parse, NetAddr, NetAddrView, VersionMessage, VersionView,
    RELAY_MIN_VERSION,
};
use crate::wire::WireError;
use vstd::bytes::*;
use vstd::prelude::*;
use vstd::slice::slice_to_vec;
use vstd::string::StringSliceAdditionalSpecFns;

verus! {

/// Why a handshake failed.
#[derive(Debug, Clone, Copy, PartialEq, Eq, Structural)]
pub enum FailReason {
    /// A message failed to decode or to match its header.
    Malformed(WireError),
    /// A message carried another network's magic.
    NetworkMismatch,
    /// The peer announced our own nonce: we are connected to ourselves.
    SelfConnection,
    /// A second version, or, in strict mode, a command other than version
    /// and verack.
    UnexpectedMessage,
    /// The peer announced a version below the configured minimum.
    UnsupportedVersion,
    /// The peer went silent for longer than the configured timeout.
    HandshakeTimeout,
    /// The caller aborted the handshake.
    Cancelled,
    /// The transport failed to read or write; a new connection may retry.
    TransportFailure,
}

#[derive(Debug, Clone, Copy, PartialEq, Eq, Structural)]
pub enum HandshakeState {
    Init,
    VersionSent,
    Established,
    Failed(FailReason),
}

/// What a session announces and accepts.
#[derive(Debug, Clone, Copy, PartialEq, Eq, Structural)]
pub struct HandshakeConfig {
    /// The network's magic; messages with another are refused.
    pub magic: u32,
    pub protocol_version: i32,
    pub services: u64,
    pub start_height: i32,
    pub relay: bool,
    /// The lowest version a peer may announce.
    pub min_peer_version: i32,
    /// How long, in milliseconds, the handshake may take in all.
    pub timeout_ms: u64,
    /// Refuse commands other than version and verack before the handshake
    /// completes, instead of keeping them for later.
    pub strict: bool,
}

/// What the caller does next on the transport.
#[derive(Debug, Clone, PartialEq, Eq)]
pub enum Action {
    /// Write these bytes.
    Send(Vec<u8>),
    /// Wait for the next message.
    Wait,
    /// Close the transport.
    Close,
}

/// A message of another command kept for after the handshake.
#[derive(Debug, Clone, PartialEq, Eq)]
pub struct BufferedMessage {
    pub command: [u8; 12],
    pub payload: Vec<u8>,
}

/// The state of one handshake.
#[derive(Debug)]
pub struct HandshakeSession {
    pub config: HandshakeConfig,
    pub local_nonce: u64,
    pub peer_nonce: Option<u64>,
    pub local_verack_sent: bool,
    pub peer_verack_received: bool,
    pub peer_version_received: bool,
    pub negotiated_version: Option<i32>,
    pub state: HandshakeState,
    pub buffered: Vec<BufferedMessage>,
}

pub struct SessionView {
    pub config: HandshakeConfig,
    pub local_nonce: u64,
    pub peer_nonce: Option<u64>,
    pub local_verack_sent: bool,
    pub peer_verack_received: bool,
    pub peer_version_received: bool,
    pub negotiated_version: Option<i32>,
    pub state: HandshakeState,
    /// Each kept message as its command field and its payload.
    pub buffered: Seq<(Seq<u8>, Seq<u8>)>,
}

impl View for HandshakeSession {
    type V = SessionView;

    open spec fn view(&self) -> SessionView {
        SessionView {
            config: self.config,
            local_nonce: self.local_nonce,
            peer_nonce: self.peer_nonce,
            local_verack_sent: self.local_verack_sent,
            peer_verack_received: self.peer_verack_received,
            peer_version_received: self.peer_version_received,
            negotiated_version: self.negotiated_version,
            state: self.state,
            buffered: self.buffered@.map_values(
                |m: BufferedMessage| (m.command@, m.payload@),
            ),
        }
    }
}

impl SessionView {
    /// The verack goes out with the peer's version, whose nonce and
    /// negotiated version are recorded with it; nothing is heard before the
    /// version is sent; and a session is established exactly when its
    /// three legs are done.
    pub open spec fn wf(self) -> bool {
        &&& self.local_verack_sent == self.peer_version_received
        &&& (self.peer_nonce is Some <==> self.peer_version_received)
        &&& (self.negotiated_version is Some <==> self.peer_version_received)
        &&& (self.state == HandshakeState::Init ==> !self.peer_version_received
            && !self.peer_verack_received && self.buffered.len() == 0)
        &&& (self.state == HandshakeState::Established <==> (self.peer_version_received
            && self.local_verack_sent && self.peer_verack_received))
    }
}

/// A fresh session that will announce `nonce`.
pub open spec fn initial(config: HandshakeConfig, nonce: u64) -> SessionView {
    SessionView {
        config,
        local_nonce: nonce,
        peer_nonce: None,
        local_verack_sent: false,
        peer_verack_received: false,
        peer_version_received: false,
        negotiated_version: None,
        state: HandshakeState::Init,
        buffered: Seq::empty(),
    }
}

/// A session still waiting for its handshake to finish.
pub open spec fn is_open(state: HandshakeState) -> bool {
    state == HandshakeState::Init || state == HandshakeState::VersionSent
}

pub open spec fn fail(s: SessionView, reason: FailReason) -> SessionView {
    SessionView { state: HandshakeState::Failed(reason), ..s }
}

/// Promotes a session whose three legs are all done.
pub open spec fn complete(s: SessionView) -> SessionView {
    if s.peer_version_received && s.local_verack_sent && s.peer_verack_received {
        SessionView { state: HandshakeState::Established, ..s }
    } else {
        s
    }
}

pub open spec fn min_i32(a: i32, b: i32) -> i32 {
    if a < b {
        a
    } else {
        b
    }
}

/// The payload a session announces.
pub open spec fn local_version(
    config: HandshakeConfig,
    nonce: u64,
    timestamp: i64,
    addr_recv: NetAddrView,
    addr_from: NetAddrView,
    user_agent: Seq<u8>,
) -> VersionView {
    VersionView {
        version: config.protocol_version,
        services: config.services,
        timestamp,
        addr_recv,
        addr_from,
        nonce,
        user_agent,
        start_height: config.start_height,
        relay: if config.protocol_version >= RELAY_MIN_VERSION {
            Some(config.relay)
        } else {
            None
        },
    }
}

/// The unspecified address `::` on port 0, announced when the local
/// address is unknown.
pub open spec fn unspecified_addr() -> NetAddrView {
    NetAddrView { services: 0, ip_address: Seq::new(16, |i: int| 0u8), port: 0 }
}

/// A session taking in the peer's version `v`.
pub open spec fn receive_version(s: SessionView, v: VersionView) -> SessionView {
    if v.nonce == s.local_nonce {
        fail(s, FailReason::SelfConnection)
    } else if v.version < s.config.min_peer_version {
        fail(s, FailReason::UnsupportedVersion)
    } else {
        complete(
            SessionView {
                peer_nonce: Some(v.nonce),
                peer_version_received: true,
                local_verack_sent: true,
                negotiated_version: Some(min_i32(s.config.protocol_version, v.version)),
                ..s
            },
        )
    }
}

/// A session taking in the message with header bytes `header` and payload
/// `payload`. Only a session that has sent its version listens; the header
/// is checked for its network, then the checksum and the length; a version
/// is decoded and checked for our own nonce; other commands are kept, or
/// refused in strict mode.
pub open spec fn receive(s: SessionView, header: Seq<u8>, payload: Seq<u8>) -> SessionView {
    if s.state != HandshakeState::VersionSent {
        s
    } else if header.len() < 24 {
        fail(s, FailReason::Malformed(WireError::ShortRead))
    } else if spec_u32_from_le_bytes(header.subrange(0, 4)) != s.config.magic {
        fail(s, FailReason::NetworkMismatch)
    } else if header.subrange(20, 24) != checksum_of(payload) {
        fail(s, FailReason::Malformed(WireError::ChecksumMismatch))
    } else if spec_u32_from_le_bytes(header.subrange(16, 20)) != payload.len() {
        fail(s, FailReason::Malformed(WireError::LengthMismatch))
    } else {
        let command = header.subrange(4, 16);
        match message_type_of(command) {
            Some(MessageType::Version) => {
                if s.peer_version_received {
                    fail(s, FailReason::UnexpectedMessage)
                } else {
                    match version_parse(payload) {
                        Err(e) => fail(s, FailReason::Malformed(e)),
                        Ok(v) => receive_version(s, v),
                    }
                }
            },
            Some(MessageType::Verack) => complete(SessionView { peer_verack_received: true, ..s }),
            None => {
                if s.config.strict {
                    fail(s, FailReason::UnexpectedMessage)
                } else {
                    SessionView { buffered: s.buffered.push((command, payload)), ..s }
                }
            },
        }
    }
}

/// A session told that `elapsed_ms` milliseconds have passed since it
/// started: past the configured timeout an open handshake fails.
pub open spec fn elapse(s: SessionView, elapsed_ms: u64) -> SessionView {
    if is_open(s.state) && elapsed_ms > s.config.timeout_ms {
        fail(s, FailReason::HandshakeTimeout)
    } else {
        s
    }
}

/// A failed session stays failed, whatever arrives and however long it
/// waits: it never becomes established.
pub proof fn lemma_failure_is_final(
    s: SessionView,
    header: Seq<u8>,
    payload: Seq<u8>,
    elapsed_ms: u64,
)
    requires
        s.state is Failed,
    ensures
        receive(s, header, payload) == s,
        elapse(s, elapsed_ms) == s,
{
}

/// The action owed after a step from `old` to `new`: close on a failure,
/// send the verack when it becomes due, else wait.
pub open spec fn action_after(old: SessionView, new: SessionView, r: Action) -> bool {
    if is_open(old.state) && new.state is Failed {
        r == Action::Close
    } else if new.peer_version_received && !old.peer_version_received {
        r matches Action::Send(b) && b@ == frame_bytes(new.config.magic, verack_name(), Seq::empty())
    } else {
        r == Action::Wait
    }
}

/// A session that has sent its version and heard nothing yet.
pub open spec fn just_started(s: SessionView) -> bool {
    s == (SessionView { state: HandshakeState::VersionSent, ..initial(s.config, s.local_nonce) })
}

/// The header of a version message carrying `v` on the network `magic`.
pub open spec fn version_header(magic: u32, v: VersionView) -> Seq<u8> {
    header_seq(magic, command_field(version_name()), version_bytes(v))
}

/// The header of a verack message on the network `magic`.
pub open spec fn verack_header(magic: u32) -> Seq<u8> {
    header_seq(magic, command_field(verack_name()), Seq::empty())
}

proof fn lemma_known_commands()
    ensures
        message_type_of(command_field(version_name())) == Some(MessageType::Version),
        message_type_of(command_field(verack_name())) == Some(MessageType::Verack),
{
    assert(command_field(version_name())[3] != command_field(verack_name())[3]);
}

/// Once a session has sent its version, the peer's version and verack,
/// in either order, establish it, at the lower of the two versions; the
/// verack is sent exactly when the peer's version arrives.
pub proof fn lemma_established_in_either_order(s: SessionView, v: VersionView)
    requires
        just_started(s),
        v.wf(),
        v.user_agent.len() <= 0xffff_0000,
        v.nonce != s.local_nonce,
        v.version >= s.config.min_peer_version,
    ensures
        ({
            let after_version = receive(s, version_header(s.config.magic, v), version_bytes(v));
            let both = receive(after_version, verack_header(s.config.magic), Seq::empty());
            &&& after_version.local_verack_sent
            &&& after_version.state == HandshakeState::VersionSent
            &&& both.state == HandshakeState::Established
            &&& both.negotiated_version == Some(min_i32(s.config.protocol_version, v.version))
            &&& both.peer_nonce == Some(v.nonce)
        }),
        ({
            let after_verack = receive(s, verack_header(s.config.magic), Seq::empty());
            let both = receive(after_verack, version_header(s.config.magic, v), version_bytes(v));
            &&& !after_verack.local_verack_sent
            &&& after_verack.state == HandshakeState::VersionSent
            &&& both.state == HandshakeState::Established
            &&& both.negotiated_version == Some(min_i32(s.config.protocol_version, v.version))
            &&& both.peer_nonce == Some(v.nonce)
        }),
{
    lemma_known_commands();
    lemma_version_round_trip(v);
    lemma_version_bytes_len(v);
    lemma_header_seq_fields(s.config.magic, command_field(version_name()), version_bytes(v));
    lemma_header_seq_fields(s.config.magic, command_field(verack_name()), Seq::empty());
}

/// A peer that announces our own nonce is detected as ourselves, whatever
/// else its version says, before the handshake completes.
pub proof fn lemma_self_connection_detected(s: SessionView, v: VersionView)
    requires
        s.state == HandshakeState::VersionSent,
        !s.peer_version_received,
        !s.local_verack_sent,
        v.wf(),
        v.user_agent.len() <= 0xffff_0000,
        v.nonce == s.local_nonce,
    ensures
        ({
            let after = receive(s, version_header(s.config.magic, v), version_bytes(v));
            &&& after.state == HandshakeState::Failed(FailReason::SelfConnection)
            &&& !after.peer_version_received
            &&& !after.local_verack_sent
            &&& after.peer_nonce == s.peer_nonce
        }),
{
    lemma_known_commands();
    lemma_version_round_trip(v);
    lemma_version_bytes_len(v);
    lemma_header_seq_fields(s.config.magic, command_field(version_name()), version_bytes(v));
}

impl HandshakeSession {
    /// A fresh session that will announce `local_nonce`.
    pub fn new(config: HandshakeConfig, local_nonce: u64) -> (r: HandshakeSession)
        ensures
            r@ == initial(config, local_nonce),
            r@.wf(),
    {
        let r = HandshakeSession {
            config,
            local_nonce,
            peer_nonce: None,
            local_verack_sent: false,
            peer_verack_received: false,
            peer_version_received: false,
            negotiated_version: None,
            state: HandshakeState::Init,
            buffered: Vec::new(),
        };
        assert(r@.buffered =~= Seq::<(Seq<u8>, Seq<u8>)>::empty());
        r
    }

    pub fn is_established(&self) -> (r: bool)
        ensures
            r == (self.state == HandshakeState::Established),
    {
        matches!(self.state, HandshakeState::Established)
    }

    pub fn is_failed(&self) -> (r: bool)
        ensures
            r == (self.state is Failed),
    {
        matches!(self.state, HandshakeState::Failed(_))
    }

    fn fail_with(&mut self, reason: FailReason) -> (r: Action)
        ensures
            final(self)@ == fail(old(self)@, reason),
            r == Action::Close,
    {
        self.state = HandshakeState::Failed(reason);
        Action::Close
    }

    fn promote(&mut self)
        ensures
            final(self)@ == complete(old(self)@),
    {
        if self.peer_version_received && self.local_verack_sent && self.peer_verack_received {
            self.state = HandshakeState::Established;
        }
    }

    /// A fresh session that will announce a random nonce.
    pub fn new_random(config: HandshakeConfig) -> (r: HandshakeSession)
        ensures
            r@ == initial(config, r.local_nonce),
            r@.wf(),
    {
        HandshakeSession::new(config, random_nonce())
    }

    /// Sends the local version: from a fresh session only, and once. Where
    /// the local address is unknown the unspecified address stands in.
    pub fn start(
        &mut self,
        timestamp: i64,
        addr_recv: NetAddr,
        local_addr: Option<NetAddr>,
        user_agent: &str,
    ) -> (r: Action)
        requires
            user_agent.spec_bytes().len() <= 0xffff_0000,
        ensures
            old(self).state == HandshakeState::Init ==> {
                &&& final(self)@ == (SessionView { state: HandshakeState::VersionSent, ..old(self)@ })
                &&& r matches Action::Send(b) && b@ == frame_bytes(
                    old(self).config.magic,
                    version_name(),
                    version_bytes(
                        local_version(
                            old(self).config,
                            old(self).local_nonce,
                            timestamp,
                            addr_recv@,
                            match local_addr {
                                Some(a) => a@,
                                None => unspecified_addr(),
                            },
                            user_agent.spec_bytes(),
                        ),
                    ),
                )
            },
            old(self).state != HandshakeState::Init ==> final(self)@ == old(self)@ && r
                == Action::Wait,
            old(self)@.wf() ==> final(self)@.wf(),
    {
        if !matches!(self.state, HandshakeState::Init) {
            return Action::Wait;
        }
        let addr_from = match local_addr {
            Some(a) => a,
            None => {
                let zero: [u8; 16] = [0u8, 0, 0, 0, 0, 0, 0, 0, 0, 0, 0, 0, 0, 0, 0, 0];
                assert(zero@ =~= unspecified_addr().ip_address);
                NetAddr::new(0, zero, 0)
            },
        };
        assert(addr_from@ =~= match local_addr {
            Some(a) => a@,
            None => unspecified_addr(),
        });
        let payload = VersionMessage::new(
            self.config.protocol_version,
            self.config.services,
            timestamp,
            addr_recv,
            addr_from,
            self.local_nonce,
            user_agent,
            self.config.start_height,
            self.config.relay,
        );
        let bytes = payload.serialize();
        proof {
            lemma_version_bytes_len(payload@);
        }
        let frame = MessageFactory::frame(self.config.magic, MessageType::Version, bytes.as_slice());
        self.state = HandshakeState::VersionSent;
        Action::Send(frame)
    }

    /// Takes in one message: the bytes of its header and of its payload.
    pub fn on_frame(&mut self, header: &[u8], payload: &[u8]) -> (r: Action)
        ensures
            final(self)@ == receive(old(self)@, header@, payload@),
            action_after(old(self)@, final(self)@, r),
            old(self)@.wf() ==> final(self)@.wf(),
    {
        if !matches!(self.state, HandshakeState::VersionSent) {
            return Action::Wait;
        }
        let h = match MessageHeader::parse(header) {
            Err(e) => {
                return self.fail_with(FailReason::Malformed(e));
            },
            Ok(h) => h,
        };
        if h.magic != self.config.magic {
            return self.fail_with(FailReason::NetworkMismatch);
        }
        match h.verify(payload) {
            Err(e) => {
                return self.fail_with(FailReason::Malformed(e));
            },
            Ok(()) => {},
        }
        match MessageType::from_command(&h.command) {
            Some(MessageType::Version) => {
                if self.peer_version_received {
                    return self.fail_with(FailReason::UnexpectedMessage);
                }
                match VersionMessage::deserialize(payload) {
                    Err(e) => self.fail_with(FailReason::Malformed(e)),
                    Ok(v) => {
                        if v.nonce == self.local_nonce {
                            return self.fail_with(FailReason::SelfConnection);
                        }
                        if v.version < self.config.min_peer_version {
                            return self.fail_with(FailReason::UnsupportedVersion);
                        }
                        let local = self.config.protocol_version;
                        self.peer_nonce = Some(v.nonce);
                        self.peer_version_received = true;
                        self.local_verack_sent = true;
                        self.negotiated_version = Some(
                            if local < v.version {
                                local
                            } else {
                                v.version
                            },
                        );
                        self.promote();
                        let empty: Vec<u8> = Vec::new();
                        let verack = MessageFactory::frame(
                            self.config.magic,
                            MessageType::Verack,
                            empty.as_slice(),
                        );
                        Action::Send(verack)
                    },
                }
            },
            Some(MessageType::Verack) => {
                self.peer_verack_received = true;
                self.promote();
                Action::Wait
            },
            None => {
                if self.config.strict {
                    return self.fail_with(FailReason::UnexpectedMessage);
                }
                let kept = BufferedMessage { command: h.command, payload: slice_to_vec(payload) };
                self.buffered.push(kept);
                assert(self@.buffered =~= old(self)@.buffered.push((h.command@, payload@)));
                Action::Wait
            },
        }
    }

    /// The peer stayed silent past the configured timeout: an open
    /// handshake fails and the transport is closed.
    pub fn on_timeout(&mut self) -> (r: Action)
        ensures
            is_open(old(self).state) ==> final(self)@ == fail(
                old(self)@,
                FailReason::HandshakeTimeout,
            ) && r == Action::Close,
            !is_open(old(self).state) ==> final(self)@ == old(self)@ && r == Action::Wait,
            old(self)@.wf() ==> final(self)@.wf(),
    {
        match self.state {
            HandshakeState::Init | HandshakeState::VersionSent => self.fail_with(
                FailReason::HandshakeTimeout,
            ),
            _ => Action::Wait,
        }
    }

    /// Tells the session how many milliseconds have passed since it
    /// started; past the configured timeout an open handshake fails and the
    /// transport is closed.
    pub fn on_elapsed(&mut self, elapsed_ms: u64) -> (r: Action)
        ensures
            final(self)@ == elapse(old(self)@, elapsed_ms),
            r == if final(self).state != old(self).state {
                Action::Close
            } else {
                Action::Wait
            },
            old(self)@.wf() ==> final(self)@.wf(),
    {
        if elapsed_ms > self.config.timeout_ms {
            self.on_timeout()
        } else {
            Action::Wait
        }
    }

    /// The transport failed to read or write: an open handshake fails and
    /// the transport is closed.
    pub fn on_transport_error(&mut self) -> (r: Action)
        ensures
            is_open(old(self).state) ==> final(self)@ == fail(
                old(self)@,
                FailReason::TransportFailure,
            ) && r == Action::Close,
            !is_open(old(self).state) ==> final(self)@ == old(self)@ && r == Action::Wait,
            old(self)@.wf() ==> final(self)@.wf(),
    {
        match self.state {
            HandshakeState::Init | HandshakeState::VersionSent => self.fail_with(
                FailReason::TransportFailure,
            ),
            _ => Action::Wait,
        }
    }

    /// Aborts an open handshake: the kept messages are dropped and the
    /// transport is closed. Cancelling a finished session does nothing.
    pub fn cancel(&mut self) -> (r: Action)
        ensures
            is_open(old(self).state) ==> final(self)@ == (SessionView {
                state: HandshakeState::Failed(FailReason::Cancelled),
                buffered: Seq::empty(),
                ..old(self)@
            }) && r == Action::Close,
            !is_open(old(self).state) ==> final(self)@ == old(self)@ && r == Action::Wait,
            old(self)@.wf() ==> final(self)@.wf(),
    {
        match self.state {
            HandshakeState::Init | HandshakeState::VersionSent => {
                self.buffered = Vec::new();
                assert(self@.buffered =~= Seq::<(Seq<u8>, Seq<u8>)>::empty());
                self.fail_with(FailReason::Cancelled)
            },
            _ => Action::Wait,
        }
    }

    /// Hands over the messages kept during the handshake, once it is
    /// established; before that nothing is handed over.
    pub fn take_buffered(&mut self) -> (r: Vec<BufferedMessage>)
        ensures
            old(self).state == HandshakeState::Established ==> {
                &&& r@ == old(self).buffered@
                &&& final(self)@ == (SessionView { buffered: Seq::empty(), ..old(self)@ })
            },
            old(self).state != HandshakeState::Established ==> r@ == Seq::<BufferedMessage>::empty()
                && final(self)@ == old(self)@,
            old(self)@.wf() ==> final(self)@.wf(),
    {
        if !matches!(self.state, HandshakeState::Established) {
            return Vec::new();
        }
        let mut r: Vec<BufferedMessage> = Vec::new();
        r.append(&mut self.buffered);
        assert(self@.buffered =~= Seq::<(Seq<u8>, Seq<u8>)>::empty());
        r
    }
}

} // verus!
