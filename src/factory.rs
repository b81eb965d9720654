//! Message framing: the 24-byte header with its network magic, command
//! name, payload length and double-hash checksum.
use crate::types::{
    lemma_version_bytes_len, lemma_version_round_trip, version_bytes,
    default_version, ipv4_mapped, version_parse, NetAddrView, VersionMessage, VersionView,
    DEFAULT_PORT,
};
use crate::wire::{push_bytes, push_u32_le, read_u32_le, WireError};
use sha2::Digest;
use vstd::bytes::*;
use vstd::prelude::*;
use vstd::slice::slice_subrange;
use vstd::string::StringSliceAdditionalSpecFns;

verus! {

/// Size in bytes of a message header.
pub const HEADER_LEN: usize = 24;

/// Size in bytes of the command field.
pub const COMMAND_LEN: usize = 12;

/// A payload that can be framed: its encoding as a spec value, and the
/// function that writes it.
pub trait Message {
    spec fn wire_bytes(&self) -> Seq<u8>;

    fn serialize(&self) -> (r: Vec<u8>)
        ensures
            r@ == self.wire_bytes(),
    ;
}

/// The acknowledgement of a peer's version: an empty payload.
#[derive(Debug, Clone, Copy, PartialEq, Eq)]
pub struct VerackMessage;

impl Message for VerackMessage {
    open spec fn wire_bytes(&self) -> Seq<u8> {
        Seq::empty()
    }

    fn serialize(&self) -> (r: Vec<u8>) {
        Vec::new()
    }
}

/// The SHA-256 digest of a byte string.
pub uninterp spec fn sha256_of(data: Seq<u8>) -> Seq<u8>;

/// Relies on sha2's `Sha256::digest`: the SHA-256 digest of `data`, whose
/// output size is 32 bytes.
#[verifier::external_body]
fn sha256(data: &[u8]) -> (r: Vec<u8>)
    ensures
        r@ == sha256_of(data@),
        r@.len() == 32,
{
    sha2::Sha256::digest(data).to_vec()
}

/// The checksum of a payload: the first 4 bytes of SHA-256 applied twice.
pub open spec fn checksum_of(payload: Seq<u8>) -> Seq<u8> {
    let h = sha256_of(sha256_of(payload));
    seq![h[0], h[1], h[2], h[3]]
}

/// The checksum of `payload`: always 4 bytes, and the same bytes for the
/// same payload; they are the first 4 of the 32-byte double digest.
pub fn checksum(payload: &[u8]) -> (r: [u8; 4])
    ensures
        r@ == checksum_of(payload@),
        r@.len() == 4,
        sha256_of(sha256_of(payload@)).len() == 32,
        r@ == sha256_of(sha256_of(payload@)).subrange(0, 4),
{
    let first = sha256(payload);
    let second = sha256(first.as_slice());
    let r: [u8; 4] = [second[0], second[1], second[2], second[3]];
    assert(r@ =~= checksum_of(payload@));
    r
}

/// The command field: the name's bytes, then zeros up to 12 bytes.
pub open spec fn command_field(name: Seq<u8>) -> Seq<u8> {
    name + Seq::new((12 - name.len()) as nat, |i: int| 0u8)
}

/// The header's fields; `command` and `checksum` have 12 and 4 bytes.
#[derive(Debug, Clone, Copy, PartialEq, Eq)]
pub struct MessageHeader {
    pub magic: u32,
    pub command: [u8; 12],
    pub length: u32,
    pub checksum: [u8; 4],
}

/// The 24-byte header: magic, command, length and checksum, the integers
/// little-endian.
pub open spec fn header_bytes(h: MessageHeader) -> Seq<u8> {
    spec_u32_to_le_bytes(h.magic) + h.command@ + spec_u32_to_le_bytes(h.length) + h.checksum@
}

/// The header that the first 24 bytes of `b` spell.
pub open spec fn header_at(b: Seq<u8>, h: MessageHeader) -> bool {
    &&& h.magic == spec_u32_from_le_bytes(b.subrange(0, 4))
    &&& h.command@ == b.subrange(4, 16)
    &&& h.length == spec_u32_from_le_bytes(b.subrange(16, 20))
    &&& h.checksum@ == b.subrange(20, 24)
}

/// The header that frames `payload` under `magic` and command `name`.
pub open spec fn header_for(magic: u32, name: Seq<u8>, payload: Seq<u8>, h: MessageHeader) -> bool {
    &&& h.magic == magic
    &&& h.command@ == command_field(name)
    &&& h.length == payload.len()
    &&& h.checksum@ == checksum_of(payload)
}

/// The checks on a whole message `data` before its payload is trusted: a
/// header of 24 bytes, then the payload's checksum, then its length.
pub open spec fn raw_check(data: Seq<u8>) -> Result<(), WireError> {
    if data.len() < 24 {
        Err(WireError::ShortRead)
    } else if data.subrange(20, 24) != checksum_of(data.subrange(24, data.len() as int)) {
        Err(WireError::ChecksumMismatch)
    } else if spec_u32_from_le_bytes(data.subrange(16, 20)) != data.len() - 24 {
        Err(WireError::LengthMismatch)
    } else {
        Ok(())
    }
}

/// The payload of a whole message: what follows its header.
pub open spec fn body_of(data: Seq<u8>) -> Seq<u8> {
    data.subrange(24, data.len() as int)
}

/// The header of a message with the padded command field `command`.
pub open spec fn header_seq(magic: u32, command: Seq<u8>, payload: Seq<u8>) -> Seq<u8> {
    spec_u32_to_le_bytes(magic) + command + spec_u32_to_le_bytes(payload.len() as u32)
        + checksum_of(payload)
}

/// A complete message: header, then payload.
pub open spec fn frame_bytes(magic: u32, name: Seq<u8>, payload: Seq<u8>) -> Seq<u8> {
    header_seq(magic, command_field(name), payload) + payload
}

/// The fields of a header read back as written.
pub proof fn lemma_header_seq_fields(magic: u32, command: Seq<u8>, payload: Seq<u8>)
    requires
        command.len() == 12,
        payload.len() <= u32::MAX,
    ensures
        header_seq(magic, command, payload).len() == 24,
        spec_u32_from_le_bytes(header_seq(magic, command, payload).subrange(0, 4)) == magic,
        header_seq(magic, command, payload).subrange(4, 16) == command,
        spec_u32_from_le_bytes(header_seq(magic, command, payload).subrange(16, 20))
            == payload.len(),
        header_seq(magic, command, payload).subrange(20, 24) == checksum_of(payload),
{
    lemma_auto_spec_u32_to_from_le_bytes();
    let len = payload.len() as u32;
    let b = header_seq(magic, command, payload);
    assert(spec_u32_to_le_bytes(magic).len() == 4);
    assert(spec_u32_to_le_bytes(len).len() == 4);
    assert(b.subrange(0, 4) =~= spec_u32_to_le_bytes(magic));
    assert(b.subrange(4, 16) =~= command);
    assert(b.subrange(16, 20) =~= spec_u32_to_le_bytes(len));
    assert(b.subrange(20, 24) =~= checksum_of(payload));
}

/// Whether `payload` may be framed under the header `h`: the checksum is
/// checked first, then the length.
pub open spec fn verify_result(h: MessageHeader, payload: Seq<u8>) -> Result<(), WireError> {
    if h.checksum@ != checksum_of(payload) {
        Err(WireError::ChecksumMismatch)
    } else if h.length != payload.len() {
        Err(WireError::LengthMismatch)
    } else {
        Ok(())
    }
}

/// A checksum has 4 bytes, and a payload passes its header's check exactly
/// when both the checksum and the length match.
pub proof fn lemma_verify_ok_iff(h: MessageHeader, payload: Seq<u8>)
    ensures
        checksum_of(payload).len() == 4,
        verify_result(h, payload) is Ok <==> (h.checksum@ == checksum_of(payload) && h.length
            == payload.len()),
{
}

/// A framed version message passes the checks and reads back as the
/// payload it carries, field for field.
pub proof fn lemma_framed_version_round_trip(magic: u32, v: VersionView)
    requires
        v.wf(),
        v.user_agent.len() <= 0xffff_0000,
    ensures
        raw_check(frame_bytes(magic, version_name(), version_bytes(v))) == Ok::<(), WireError>(()),
        body_of(frame_bytes(magic, version_name(), version_bytes(v))) == version_bytes(v),
        version_parse(body_of(frame_bytes(magic, version_name(), version_bytes(v)))) == Ok::<
            VersionView,
            WireError,
        >(v),
{
    let p = version_bytes(v);
    let name = command_field(version_name());
    lemma_version_bytes_len(v);
    lemma_version_round_trip(v);
    lemma_header_seq_fields(magic, name, p);
    let f = frame_bytes(magic, version_name(), p);
    let h = header_seq(magic, name, p);
    assert(f.subrange(0, 24) =~= h);
    assert(f.subrange(20, 24) =~= h.subrange(20, 24));
    assert(f.subrange(16, 20) =~= h.subrange(16, 20));
    assert(body_of(f) =~= p);
}

/// A header reads back as itself.
pub proof fn lemma_header_round_trip(h: MessageHeader, rest: Seq<u8>)
    ensures
        header_bytes(h).len() == HEADER_LEN,
        header_at(header_bytes(h) + rest, h),
{
    lemma_auto_spec_u32_to_from_le_bytes();
    let b = header_bytes(h) + rest;
    assert(spec_u32_to_le_bytes(h.magic).len() == 4);
    assert(spec_u32_to_le_bytes(h.length).len() == 4);
    assert(b.subrange(0, 4) =~= spec_u32_to_le_bytes(h.magic));
    assert(b.subrange(4, 16) =~= h.command@);
    assert(b.subrange(16, 20) =~= spec_u32_to_le_bytes(h.length));
    assert(b.subrange(20, 24) =~= h.checksum@);
}

impl MessageHeader {
    /// The header that frames the bytes `payload`; a command name over 12
    /// bytes is refused.
    pub fn from_payload(magic: u32, cmd: &str, payload: &[u8]) -> (r: Result<
        MessageHeader,
        WireError,
    >)
        requires
            payload@.len() <= u32::MAX,
        ensures
            cmd.spec_bytes().len() > 12 ==> r == Err::<MessageHeader, WireError>(
                WireError::CommandTooLong,
            ),
            cmd.spec_bytes().len() <= 12 ==> r is Ok && header_for(magic, cmd.spec_bytes(), payload@, r->Ok_0),
    {
        let name = cmd.as_bytes();
        if name.len() > COMMAND_LEN {
            return Err(WireError::CommandTooLong);
        }
        let mut command = [0u8; 12];
        let mut i: usize = 0;
        assert(command@.len() == 12);
        while i < name.len()
            invariant
                0 <= i <= name@.len() <= 12,
                forall|j: int| 0 <= j < i ==> command@[j] == name@[j],
                forall|j: int| i <= j < 12 ==> command@[j] == 0u8,
            decreases name@.len() - i,
        {
            command[i] = name[i];
            i = i + 1;
        }
        assert(command@ =~= command_field(name@));
        Ok(MessageHeader::with_command(magic, command, payload))
    }

    /// The header that frames `payload` under `magic` and the padded
    /// command field `command`.
    pub fn with_command(magic: u32, command: [u8; 12], payload: &[u8]) -> (r: MessageHeader)
        requires
            payload@.len() <= u32::MAX,
        ensures
            r.magic == magic,
            r.command == command,
            r.length == payload@.len(),
            r.checksum@ == checksum_of(payload@),
            header_bytes(r) == header_seq(magic, command@, payload@),
    {
        MessageHeader { magic, command, length: payload.len() as u32, checksum: checksum(payload) }
    }

    /// The header that frames `payload`; a command name over 12 bytes is
    /// refused.
    pub fn new<T: Message>(magic: u32, cmd: &str, payload: &T) -> (r: Result<
        MessageHeader,
        WireError,
    >)
        requires
            payload.wire_bytes().len() <= u32::MAX,
        ensures
            cmd.spec_bytes().len() > 12 ==> r == Err::<MessageHeader, WireError>(
                WireError::CommandTooLong,
            ),
            cmd.spec_bytes().len() <= 12 ==> r is Ok && header_for(magic, cmd.spec_bytes(), payload.wire_bytes(), r->Ok_0),
    {
        let bytes = payload.serialize();
        MessageHeader::from_payload(magic, cmd, bytes.as_slice())
    }

    /// The 24-byte encoding of this header.
    pub fn serialize(&self) -> (r: Vec<u8>)
        ensures
            r@ == header_bytes(*self),
            r@.len() == HEADER_LEN,
    {
        let mut out: Vec<u8> = Vec::new();
        push_u32_le(&mut out, self.magic);
        push_bytes(&mut out, self.command.as_slice());
        push_u32_le(&mut out, self.length);
        push_bytes(&mut out, self.checksum.as_slice());
        proof {
            lemma_header_round_trip(*self, Seq::empty());
        }
        assert(out@ =~= header_bytes(*self));
        out
    }

    /// Reads a header at the start of `b`; fewer than 24 bytes are refused.
    pub fn parse(b: &[u8]) -> (r: Result<MessageHeader, WireError>)
        ensures
            b@.len() < 24 ==> r == Err::<MessageHeader, WireError>(WireError::ShortRead),
            b@.len() >= 24 ==> r is Ok && header_at(b@, r->Ok_0),
    {
        if b.len() < HEADER_LEN {
            return Err(WireError::ShortRead);
        }
        let magic = read_u32_le(b, 0);
        let length = read_u32_le(b, 16);
        let command: [u8; 12] = [b[4], b[5], b[6], b[7], b[8], b[9], b[10], b[11], b[12], b[13], b[14], b[15]];
        let checksum: [u8; 4] = [b[20], b[21], b[22], b[23]];
        assert(command@ =~= b@.subrange(4, 16));
        assert(checksum@ =~= b@.subrange(20, 24));
        Ok(MessageHeader { magic, command, length, checksum })
    }

    /// Checks `payload` against this header: its checksum, then its length.
    pub fn verify(&self, payload: &[u8]) -> (r: Result<(), WireError>)
        ensures
            r == verify_result(*self, payload@),
    {
        let c = checksum(payload);
        if !(c[0] == self.checksum[0] && c[1] == self.checksum[1] && c[2] == self.checksum[2]
            && c[3] == self.checksum[3]) {
            return Err(WireError::ChecksumMismatch);
        }
        assert(c@ =~= self.checksum@);
        if payload.len() as u64 != self.length as u64 {
            return Err(WireError::LengthMismatch);
        }
        Ok(())
    }
}

/// The command name `version`.
pub open spec fn version_name() -> Seq<u8> {
    seq![0x76u8, 0x65, 0x72, 0x73, 0x69, 0x6f, 0x6e]
}

/// The command name `verack`.
pub open spec fn verack_name() -> Seq<u8> {
    seq![0x76u8, 0x65, 0x72, 0x61, 0x63, 0x6b]
}

/// The commands the handshake knows.
#[derive(Debug, Clone, Copy, PartialEq, Eq, Structural)]
pub enum MessageType {
    Version,
    Verack,
}

/// The known command whose padded field is `command`, if any.
pub open spec fn message_type_of(command: Seq<u8>) -> Option<MessageType> {
    if command == command_field(version_name()) {
        Some(MessageType::Version)
    } else if command == command_field(verack_name()) {
        Some(MessageType::Verack)
    } else {
        None
    }
}

impl MessageType {
    /// The padded command field of this command.
    pub fn command(&self) -> (r: [u8; 12])
        ensures
            *self == MessageType::Version ==> r@ == command_field(version_name()),
            *self == MessageType::Verack ==> r@ == command_field(verack_name()),
    {
        match self {
            MessageType::Version => {
                let v: [u8; 12] = [0x76u8, 0x65, 0x72, 0x73, 0x69, 0x6f, 0x6e, 0, 0, 0, 0, 0];
                assert(v@ =~= command_field(version_name()));
                v
            },
            MessageType::Verack => {
                let a: [u8; 12] = [0x76u8, 0x65, 0x72, 0x61, 0x63, 0x6b, 0, 0, 0, 0, 0, 0];
                assert(a@ =~= command_field(verack_name()));
                a
            },
        }
    }

    /// The command this field names, if it is a known one.
    pub fn from_command(command: &[u8; 12]) -> (r: Option<MessageType>)
        ensures
            r == message_type_of(command@),
    {
        let v = MessageType::Version.command();
        let a = MessageType::Verack.command();
        let mut is_v = true;
        let mut is_a = true;
        let mut i: usize = 0;
        while i < 12
            invariant
                0 <= i <= 12,
                is_v == (forall|j: int| 0 <= j < i ==> command@[j] == v@[j]),
                is_a == (forall|j: int| 0 <= j < i ==> command@[j] == a@[j]),
            decreases 12 - i,
        {
            is_v = is_v && command[i] == v[i];
            is_a = is_a && command[i] == a[i];
            i = i + 1;
        }
        if is_v {
            assert(command@ =~= v@);
        }
        if is_a {
            assert(command@ =~= a@);
        }
        if is_v {
            Some(MessageType::Version)
        } else if is_a {
            Some(MessageType::Verack)
        } else {
            None
        }
    }
}

/// A decoded payload of a known command.
#[derive(Debug, Clone, PartialEq, Eq)]
pub enum Payload {
    Version(VersionMessage),
    Verack,
}

/// Relies on rand's `random::<u64>`: a value from the thread-local
/// generator, of which nothing is promised.
#[verifier::external_body]
pub(crate) fn random_nonce() -> u64 {
    rand::random::<u64>()
}

/// Builds and reads the messages of the handshake.
pub struct MessageFactory;

impl MessageFactory {
    /// Reads a whole message `data` of type `msg_type`: its header, the
    /// checks of the payload against it, then the payload.
    pub fn from_raw(data: &[u8], msg_type: MessageType) -> (r: Result<Payload, WireError>)
        ensures
            raw_check(data@) is Err ==> r == Err::<Payload, WireError>(raw_check(data@)->Err_0),
            raw_check(data@) is Ok && msg_type == MessageType::Verack ==> r == Ok::<
                Payload,
                WireError,
            >(Payload::Verack),
            raw_check(data@) is Ok && msg_type == MessageType::Version ==> match r {
                Ok(Payload::Version(m)) => version_parse(body_of(data@)) == Ok::<
                    VersionView,
                    WireError,
                >(m@),
                Ok(Payload::Verack) => false,
                Err(e) => version_parse(body_of(data@)) == Err::<VersionView, WireError>(e),
            },
    {
        let h = match MessageHeader::parse(data) {
            Err(e) => {
                return Err(e);
            },
            Ok(h) => h,
        };
        let body = slice_subrange(data, HEADER_LEN, data.len());
        match h.verify(body) {
            Err(e) => {
                return Err(e);
            },
            Ok(()) => {},
        }
        match msg_type {
            MessageType::Version => match VersionMessage::deserialize(body) {
                Ok(m) => Ok(Payload::Version(m)),
                Err(e) => Err(e),
            },
            MessageType::Verack => Ok(Payload::Verack),
        }
    }

    /// The default payload at `timestamp` with a fresh random nonce,
    /// addressed to `ipv4_recv` where one is given.
    pub fn new_version_payload(ipv4_recv: Option<[u8; 4]>, timestamp: i64) -> (r: VersionMessage)
        ensures
            r@.wf(),
            ipv4_recv is None ==> r@ == default_version(timestamp, r.nonce),
            ipv4_recv is Some ==> r@ == (VersionView {
                addr_recv: NetAddrView {
                    services: 0,
                    ip_address: ipv4_mapped(ipv4_recv->Some_0@),
                    port: DEFAULT_PORT,
                },
                ..default_version(timestamp, r.nonce)
            }),
    {
        let nonce = random_nonce();
        match ipv4_recv {
            Some(ip) => VersionMessage::with_defaults(timestamp, nonce).with_addr_recv(ip),
            None => VersionMessage::with_defaults(timestamp, nonce),
        }
    }

    /// A complete message of a known command carrying `payload`.
    pub fn frame(magic: u32, msg_type: MessageType, payload: &[u8]) -> (r: Vec<u8>)
        requires
            payload@.len() <= u32::MAX,
        ensures
            msg_type == MessageType::Version ==> r@ == frame_bytes(magic, version_name(), payload@),
            msg_type == MessageType::Verack ==> r@ == frame_bytes(magic, verack_name(), payload@),
    {
        let h = MessageHeader::with_command(magic, msg_type.command(), payload);
        let mut out = h.serialize();
        push_bytes(&mut out, payload);
        out
    }

    /// A complete message: the header for `payload` under `magic` and
    /// `command`, then `payload`. A command name over 12 bytes is refused.
    pub fn build(magic: u32, command: &str, payload: &[u8]) -> (r: Result<Vec<u8>, WireError>)
        requires
            payload@.len() <= u32::MAX,
        ensures
            command.spec_bytes().len() > 12 ==> r == Err::<Vec<u8>, WireError>(
                WireError::CommandTooLong,
            ),
            command.spec_bytes().len() <= 12 ==> r is Ok && r->Ok_0@ == frame_bytes(magic, command.spec_bytes(), payload@),
    {
        match MessageHeader::from_payload(magic, command, payload) {
            Err(e) => Err(e),
            Ok(h) => {
                let mut out = h.serialize();
                push_bytes(&mut out, payload);
                assert(out@ =~= frame_bytes(magic, command.spec_bytes(), payload@));
                Ok(out)
            },
        }
    }

    /// A complete message carrying `payload` under `magic` and `command`.
    pub fn new_serialized_message<T: Message>(magic: u32, command: &str, payload: &T) -> (r: Result<
        Vec<u8>,
        WireError,
    >)
        requires
            payload.wire_bytes().len() <= u32::MAX,
        ensures
            command.spec_bytes().len() > 12 ==> r == Err::<Vec<u8>, WireError>(
                WireError::CommandTooLong,
            ),
            command.spec_bytes().len() <= 12 ==> r is Ok && r->Ok_0@ == frame_bytes(magic, command.spec_bytes(), payload.wire_bytes()),
    {
        let bytes = payload.serialize();
        MessageFactory::build(magic, command, bytes.as_slice())
    }
}

} // verus!
