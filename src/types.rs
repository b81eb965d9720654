//! The peer-address record and the connection-announcement ("version")
//! payload, with their wire encodings.
use crate::factory::Message;
use crate::wire::{
    decode_varint, push_bytes, push_i32_le, push_i64_le, push_varint, read_i32_le, read_i64_le,
    be_u16, from_be_u16, lemma_i32_round_trip, lemma_i64_round_trip, lemma_varint_round_trip, from_le_i32, from_le_i64, le_i32, le_i64, varint_bytes, varint_parse, lemma_be_u16_round_trip, push_u16_be, push_u64_le, read_u16_be,
    read_u64_le, WireError,
};
use vstd::bytes::*;
use vstd::prelude::*;
use vstd::string::StringSliceAdditionalSpecFns;
use vstd::slice::{slice_subrange, slice_to_vec};

verus! {

/// The port every address built by this library announces.
pub const DEFAULT_PORT: u16 = 8333;

/// The protocol version from which the payload carries a relay flag.
pub const RELAY_MIN_VERSION: i32 = 70001;

/// The protocol version this library announces.
pub const PROTOCOL_VERSION: i32 = 70015;

/// Size in bytes of an encoded address.
pub const NET_ADDR_LEN: usize = 26;

/// A peer address: a capability bitmask, a 128-bit address in network byte
/// order (IPv4 as an IPv4-mapped address) and a port.
#[derive(Debug, Clone, Copy, PartialEq, Eq)]
pub struct NetAddr {
    pub services: u64,
    pub ip_address: [u8; 16],
    pub port: u16,
}

pub struct NetAddrView {
    pub services: u64,
    pub ip_address: Seq<u8>,
    pub port: u16,
}

impl View for NetAddr {
    type V = NetAddrView;

    open spec fn view(&self) -> NetAddrView {
        NetAddrView { services: self.services, ip_address: self.ip_address@, port: self.port }
    }
}

impl NetAddrView {
    pub open spec fn wf(self) -> bool {
        self.ip_address.len() == 16
    }
}

/// The IPv4-mapped form `::ffff:a.b.c.d` of an IPv4 address.
pub open spec fn ipv4_mapped(octets: Seq<u8>) -> Seq<u8> {
    seq![0u8, 0, 0, 0, 0, 0, 0, 0, 0, 0, 0xff, 0xff] + octets
}

/// Encoded address: services little-endian, the 16 address bytes as they
/// are, the port most significant byte first.
pub open spec fn net_addr_bytes(a: NetAddrView) -> Seq<u8> {
    spec_u64_to_le_bytes(a.services) + a.ip_address + be_u16(a.port)
}

/// The address whose encoding starts `b`, which holds at least 26 bytes.
pub open spec fn net_addr_at(b: Seq<u8>) -> NetAddrView {
    NetAddrView {
        services: spec_u64_from_le_bytes(b.subrange(0, 8)),
        ip_address: b.subrange(8, 24),
        port: from_be_u16(b.subrange(24, 26)),
    }
}

pub open spec fn net_addr_parse(b: Seq<u8>) -> Result<NetAddrView, WireError> {
    if b.len() < 26 {
        Err(WireError::MalformedAddress)
    } else {
        Ok(net_addr_at(b))
    }
}

/// An address reads back as itself, whatever follows its encoding.
pub proof fn lemma_net_addr_round_trip(a: NetAddrView, rest: Seq<u8>)
    requires
        a.wf(),
    ensures
        net_addr_bytes(a).len() == 26,
        net_addr_parse(net_addr_bytes(a) + rest) == Ok::<NetAddrView, WireError>(a),
{
    lemma_auto_spec_u64_to_from_le_bytes();
    lemma_be_u16_round_trip(a.port);
    let b = net_addr_bytes(a) + rest;
    assert(spec_u64_to_le_bytes(a.services).len() == 8);
    assert(b.subrange(0, 8) =~= spec_u64_to_le_bytes(a.services));
    assert(b.subrange(8, 24) =~= a.ip_address);
    assert(b.subrange(24, 26) =~= be_u16(a.port));
}

impl NetAddr {
    pub fn new(services: u64, ip_address: [u8; 16], port: u16) -> (r: NetAddr)
        ensures
            r.services == services,
            r.ip_address == ip_address,
            r.port == port,
    {
        NetAddr { services, ip_address, port }
    }

    /// The address of an IPv4 host, in its IPv4-mapped form.
    pub fn from_ipv4(services: u64, octets: [u8; 4], port: u16) -> (r: NetAddr)
        ensures
            r.services == services,
            r.ip_address@ == ipv4_mapped(octets@),
            r.port == port,
    {
        let ip_address: [u8; 16] = [
            0u8, 0, 0, 0, 0, 0, 0, 0, 0, 0, 0xff, 0xff,
            octets[0], octets[1], octets[2], octets[3],
        ];
        assert(ip_address@ =~= ipv4_mapped(octets@));
        NetAddr { services, ip_address, port }
    }

    /// Appends the 26-byte encoding of this address.
    pub fn serialize_into(&self, out: &mut Vec<u8>)
        ensures
            final(out)@ == old(out)@ + net_addr_bytes(self@),
    {
        push_u64_le(out, self.services);
        let mut i: usize = 0;
        while i < 16
            invariant
                0 <= i <= 16,
                out@ == old(out)@ + spec_u64_to_le_bytes(self.services)
                    + self.ip_address@.subrange(0, i as int),
            decreases 16 - i,
        {
            out.push(self.ip_address[i]);
            i = i + 1;
            assert(self.ip_address@.subrange(0, i as int) =~= self.ip_address@.subrange(
                0,
                i - 1,
            ).push(self.ip_address@[i - 1]));
        }
        assert(self.ip_address@.subrange(0, 16) =~= self.ip_address@);
        push_u16_be(out, self.port);
        assert(out@ =~= old(out)@ + net_addr_bytes(self@));
    }

    /// The 26-byte encoding of this address.
    pub fn serialize(&self) -> (r: Vec<u8>)
        ensures
            r@ == net_addr_bytes(self@),
            r@.len() == NET_ADDR_LEN,
    {
        let mut out: Vec<u8> = Vec::new();
        self.serialize_into(&mut out);
        proof {
            lemma_auto_spec_u64_to_from_le_bytes();
            assert(spec_u64_to_le_bytes(self.services).len() == 8);
        }
        assert(out@ =~= net_addr_bytes(self@));
        out
    }

    /// Reads the address encoded at `at`; the caller has checked that 26
    /// bytes are there.
    pub fn read_at(b: &[u8], at: usize) -> (r: NetAddr)
        requires
            at + 26 <= b@.len(),
        ensures
            r@ == net_addr_at(b@.subrange(at as int, b@.len() as int)),
    {
        let n = b.len();
        let services = read_u64_le(b, at);
        let mut ip_address = [0u8; 16];
        let mut i: usize = 0;
        while i < 16
            invariant
                0 <= i <= 16,
                at + 26 <= b@.len(),
                n == b@.len(),
                forall|j: int| 0 <= j < i ==> ip_address@[j] == b@[at + 8 + j],
            decreases 16 - i,
        {
            ip_address[i] = b[at + 8 + i];
            i = i + 1;
        }
        let port = read_u16_be(b, at + 24);
        let r = NetAddr { services, ip_address, port };
        let ghost rest = b@.subrange(at as int, b@.len() as int);
        assert(rest.subrange(0, 8) =~= b@.subrange(at as int, at + 8));
        assert(rest.subrange(8, 24) =~= ip_address@);
        assert(rest.subrange(24, 26) =~= b@.subrange(at + 24, at + 26));
        r
    }

    /// Reads the address at the start of `b`.
    pub fn deserialize(b: &[u8]) -> (r: Result<NetAddr, WireError>)
        ensures
            match r {
                Ok(a) => net_addr_parse(b@) == Ok::<NetAddrView, WireError>(a@),
                Err(e) => net_addr_parse(b@) == Err::<NetAddrView, WireError>(e),
            },
    {
        if b.len() < NET_ADDR_LEN {
            Err(WireError::MalformedAddress)
        } else {
            let a = NetAddr::read_at(b, 0);
            assert(b@.subrange(0, b@.len() as int) =~= b@);
            Ok(a)
        }
    }
}

/// The connection-announcement payload.
#[derive(Debug, Clone, PartialEq, Eq)]
pub struct VersionMessage {
    pub version: i32,
    pub services: u64,
    pub timestamp: i64,
    pub addr_recv: NetAddr,
    pub addr_from: NetAddr,
    pub nonce: u64,
    /// UTF-8 text, as bytes.
    pub user_agent: Vec<u8>,
    pub start_height: i32,
    /// Present exactly when `version` is at least 70001.
    pub relay: Option<bool>,
}

pub struct VersionView {
    pub version: i32,
    pub services: u64,
    pub timestamp: i64,
    pub addr_recv: NetAddrView,
    pub addr_from: NetAddrView,
    pub nonce: u64,
    pub user_agent: Seq<u8>,
    pub start_height: i32,
    pub relay: Option<bool>,
}

impl View for VersionMessage {
    type V = VersionView;

    open spec fn view(&self) -> VersionView {
        VersionView {
            version: self.version,
            services: self.services,
            timestamp: self.timestamp,
            addr_recv: self.addr_recv@,
            addr_from: self.addr_from@,
            nonce: self.nonce,
            user_agent: self.user_agent@,
            start_height: self.start_height,
            relay: self.relay,
        }
    }
}

impl VersionView {
    /// Addresses of 16 bytes, a user agent whose length a 64-bit count can
    /// hold, and a relay flag exactly when the version carries one.
    pub open spec fn wf(self) -> bool {
        &&& self.user_agent.len() <= u64::MAX
        &&& self.addr_recv.wf()
        &&& self.addr_from.wf()
        &&& (self.relay is Some <==> self.version >= RELAY_MIN_VERSION)
    }
}

/// The relay byte: present from version 70001 on, 1 for a relay flag that
/// is set and 0 otherwise.
pub open spec fn relay_bytes(v: VersionView) -> Seq<u8> {
    if v.version >= RELAY_MIN_VERSION {
        seq![if v.relay == Some(true) { 1u8 } else { 0u8 }]
    } else {
        Seq::empty()
    }
}

/// The encoded payload: each field in order, the user agent after its
/// variable-length byte count.
pub open spec fn version_bytes(v: VersionView) -> Seq<u8> {
    le_i32(v.version) + spec_u64_to_le_bytes(v.services) + le_i64(v.timestamp) + net_addr_bytes(
        v.addr_recv,
    ) + net_addr_bytes(v.addr_from) + spec_u64_to_le_bytes(v.nonce) + varint_bytes(
        v.user_agent.len() as u64,
    ) + v.user_agent + le_i32(v.start_height) + relay_bytes(v)
}

/// Offset of the user agent's length prefix: the fixed fields before it.
pub const USER_AGENT_AT: usize = 80;

/// Reading a payload at the start of `b`. The fields up to the nonce take
/// fixed places; the user agent follows its length prefix; then the start
/// height and, from version 70001 on, the relay byte. Bytes after that are
/// not looked at.
pub open spec fn version_parse(b: Seq<u8>) -> Result<VersionView, WireError> {
    if b.len() < 80 {
        Err(WireError::TruncatedPayload)
    } else {
        match varint_parse(b.subrange(80, b.len() as int)) {
            Err(e) => Err(e),
            Ok((n, k)) => {
                let ua_at: int = 80 + k;
                if n > b.len() - ua_at {
                    Err(WireError::InvalidLengthPrefix)
                } else {
                    let ua_end: int = ua_at + n;
                    let version = from_le_i32(b.subrange(0, 4));
                    let tail = if version >= RELAY_MIN_VERSION { 5int } else { 4int };
                    if b.len() < ua_end + tail {
                        Err(WireError::TruncatedPayload)
                    } else {
                        Ok(
                            VersionView {
                                version,
                                services: spec_u64_from_le_bytes(b.subrange(4, 12)),
                                timestamp: from_le_i64(b.subrange(12, 20)),
                                addr_recv: net_addr_at(b.subrange(20, b.len() as int)),
                                addr_from: net_addr_at(b.subrange(46, b.len() as int)),
                                nonce: spec_u64_from_le_bytes(b.subrange(72, 80)),
                                user_agent: b.subrange(ua_at, ua_end),
                                start_height: from_le_i32(b.subrange(ua_end, ua_end + 4)),
                                relay: if version >= RELAY_MIN_VERSION {
                                    Some(b[ua_end + 4] != 0)
                                } else {
                                    None
                                },
                            },
                        )
                    }
                }
            },
        }
    }
}

/// Every well-formed payload reads back as itself, field for field.
pub proof fn lemma_version_round_trip(v: VersionView)
    requires
        v.wf(),
    ensures
        version_parse(version_bytes(v)) == Ok::<VersionView, WireError>(v),
{
    lemma_auto_spec_u64_to_from_le_bytes();
    lemma_i32_round_trip(v.version);
    lemma_i32_round_trip(v.start_height);
    lemma_i64_round_trip(v.timestamp);
    let n = v.user_agent.len() as u64;
    lemma_varint_round_trip(n, v.user_agent + le_i32(v.start_height) + relay_bytes(v));
    let b = version_bytes(v);
    let head = le_i32(v.version) + spec_u64_to_le_bytes(v.services) + le_i64(v.timestamp)
        + net_addr_bytes(v.addr_recv) + net_addr_bytes(v.addr_from) + spec_u64_to_le_bytes(
        v.nonce,
    );
    let after_recv = net_addr_bytes(v.addr_from) + spec_u64_to_le_bytes(v.nonce) + varint_bytes(n)
        + v.user_agent + le_i32(v.start_height) + relay_bytes(v);
    let after_from = spec_u64_to_le_bytes(v.nonce) + varint_bytes(n) + v.user_agent + le_i32(
        v.start_height,
    ) + relay_bytes(v);
    let after_head = varint_bytes(n) + v.user_agent + le_i32(v.start_height) + relay_bytes(v);
    assert(spec_u64_to_le_bytes(v.services).len() == 8);
    assert(spec_u64_to_le_bytes(v.nonce).len() == 8);
    lemma_net_addr_round_trip(v.addr_recv, after_recv);
    lemma_net_addr_round_trip(v.addr_from, after_from);
    assert(head.len() == 80);
    assert(b =~= head + after_head);
    let k: int = varint_bytes(n).len() as int;
    assert(b.subrange(0, 4) =~= le_i32(v.version));
    assert(b.subrange(4, 12) =~= spec_u64_to_le_bytes(v.services));
    assert(b.subrange(12, 20) =~= le_i64(v.timestamp));
    assert(b.subrange(20, b.len() as int) =~= net_addr_bytes(v.addr_recv) + after_recv);
    assert(b.subrange(46, b.len() as int) =~= net_addr_bytes(v.addr_from) + after_from);
    assert(b.subrange(72, 80) =~= spec_u64_to_le_bytes(v.nonce));
    assert(b.subrange(80, b.len() as int) =~= varint_bytes(n) + (v.user_agent + le_i32(
        v.start_height,
    ) + relay_bytes(v)));
    let ua_at: int = 80 + k;
    let ua_end: int = ua_at + n;
    assert(b.subrange(ua_at, ua_end) =~= v.user_agent);
    assert(b.subrange(ua_end, ua_end + 4) =~= le_i32(v.start_height));
    if v.version >= RELAY_MIN_VERSION {
        assert(b[ua_end + 4] == relay_bytes(v)[0]);
    }
    assert(version_parse(b) is Ok);
    let r = version_parse(b)->Ok_0;
    assert(r.version == v.version);
    assert(r.services == v.services);
    assert(r.timestamp == v.timestamp);
    assert(r.nonce == v.nonce);
    assert(r.user_agent == v.user_agent);
    assert(r.start_height == v.start_height);
    assert(r.relay == v.relay);
    assert(r.addr_recv =~= v.addr_recv);
    assert(r.addr_from =~= v.addr_from);
    assert(r =~= v);
}

/// The size of an encoded payload: 94 bytes of fixed fields and prefix at
/// most, one more for the relay flag, and the user agent.
pub proof fn lemma_version_bytes_len(v: VersionView)
    requires
        v.addr_recv.wf(),
        v.addr_from.wf(),
        v.user_agent.len() <= u64::MAX,
    ensures
        version_bytes(v).len() <= 95 + v.user_agent.len(),
{
    lemma_auto_spec_u64_to_from_le_bytes();
    lemma_i32_round_trip(v.version);
    lemma_i32_round_trip(v.start_height);
    lemma_i64_round_trip(v.timestamp);
    lemma_varint_round_trip(v.user_agent.len() as u64, Seq::empty());
    lemma_net_addr_round_trip(v.addr_recv, Seq::empty());
    lemma_net_addr_round_trip(v.addr_from, Seq::empty());
    assert(spec_u64_to_le_bytes(v.services).len() == 8);
    assert(spec_u64_to_le_bytes(v.nonce).len() == 8);
}

impl VersionMessage {
    /// Reads a payload at the start of `b`.
    pub fn deserialize(b: &[u8]) -> (r: Result<VersionMessage, WireError>)
        ensures
            match r {
                Ok(m) => version_parse(b@) == Ok::<VersionView, WireError>(m@) && m@.wf(),
                Err(e) => version_parse(b@) == Err::<VersionView, WireError>(e),
            },
    {
        let len = b.len();
        if len < USER_AGENT_AT {
            return Err(WireError::TruncatedPayload);
        }
        let prefix = slice_subrange(b, USER_AGENT_AT, len);
        match decode_varint(prefix) {
            Err(e) => Err(e),
            Ok((n, k)) => {
                let ua_at = USER_AGENT_AT + k;
                if n > (len - ua_at) as u64 {
                    Err(WireError::InvalidLengthPrefix)
                } else {
                    let ua_end = ua_at + n as usize;
                    let version = read_i32_le(b, 0);
                    let tail: usize = if version >= RELAY_MIN_VERSION {
                        5
                    } else {
                        4
                    };
                    if len - ua_end < tail {
                        Err(WireError::TruncatedPayload)
                    } else {
                        let relay = if version >= RELAY_MIN_VERSION {
                            Some(b[ua_end + 4] != 0)
                        } else {
                            None
                        };
                        let m = VersionMessage {
                            version,
                            services: read_u64_le(b, 4),
                            timestamp: read_i64_le(b, 12),
                            addr_recv: NetAddr::read_at(b, 20),
                            addr_from: NetAddr::read_at(b, 46),
                            nonce: read_u64_le(b, 72),
                            user_agent: slice_to_vec(slice_subrange(b, ua_at, ua_end)),
                            start_height: read_i32_le(b, ua_end),
                            relay,
                        };
                        assert(m.addr_recv@ =~= net_addr_at(b@.subrange(20, b@.len() as int)));
                        assert(m.addr_from@ =~= net_addr_at(b@.subrange(46, b@.len() as int)));
                        assert(m@ =~= version_parse(b@)->Ok_0);
                        Ok(m)
                    }
                }
            },
        }
    }
}

/// The loopback address `::1`.
pub open spec fn loopback() -> Seq<u8> {
    seq![0u8, 0, 0, 0, 0, 0, 0, 0, 0, 0, 0, 0, 0, 0, 0, 1]
}

/// The payload this library announces by default at `timestamp` with
/// `nonce`: version 70015, no services, both addresses `::1` on port 8333,
/// an empty user agent, height 0 and the relay flag set.
pub open spec fn default_version(timestamp: i64, nonce: u64) -> VersionView {
    let lo = NetAddrView { services: 0, ip_address: loopback(), port: DEFAULT_PORT };
    VersionView {
        version: PROTOCOL_VERSION,
        services: 0,
        timestamp,
        addr_recv: lo,
        addr_from: lo,
        nonce,
        user_agent: Seq::empty(),
        start_height: 0,
        relay: Some(true),
    }
}

impl VersionMessage {
    /// A payload with the given fields; the relay flag is kept only where
    /// `version` carries one.
    pub fn new(
        version: i32,
        services: u64,
        timestamp: i64,
        addr_recv: NetAddr,
        addr_from: NetAddr,
        nonce: u64,
        user_agent: &str,
        start_height: i32,
        relay: bool,
    ) -> (r: VersionMessage)
        ensures
            r@ == (VersionView {
                version,
                services,
                timestamp,
                addr_recv: addr_recv@,
                addr_from: addr_from@,
                nonce,
                user_agent: user_agent.spec_bytes(),
                start_height,
                relay: if version >= RELAY_MIN_VERSION {
                    Some(relay)
                } else {
                    None
                },
            }),
            r@.wf(),
    {
        let relay = if version >= RELAY_MIN_VERSION {
            Some(relay)
        } else {
            None
        };
        let user_agent = slice_to_vec(user_agent.as_bytes());
        proof {
            assert(user_agent@.len() == user_agent.len());
        }
        VersionMessage {
            version,
            services,
            timestamp,
            addr_recv,
            addr_from,
            nonce,
            user_agent,
            start_height,
            relay,
        }
    }

    /// The default payload at `timestamp` with `nonce`.
    pub fn with_defaults(timestamp: i64, nonce: u64) -> (r: VersionMessage)
        ensures
            r@ == default_version(timestamp, nonce),
            r@.wf(),
    {
        let lo: [u8; 16] = [0u8, 0, 0, 0, 0, 0, 0, 0, 0, 0, 0, 0, 0, 0, 0, 1];
        let addr = NetAddr::new(0, lo, DEFAULT_PORT);
        let r = VersionMessage {
            version: PROTOCOL_VERSION,
            services: 0,
            timestamp,
            addr_recv: addr,
            addr_from: addr,
            nonce,
            user_agent: Vec::new(),
            start_height: 0,
            relay: Some(true),
        };
        assert(r@.addr_recv.ip_address =~= loopback());
        assert(r@.user_agent =~= Seq::<u8>::empty());
        r
    }

    /// The same payload, addressed to the IPv4 host `ipv4_recv` on port 8333
    /// with no services.
    pub fn with_addr_recv(self, ipv4_recv: [u8; 4]) -> (r: VersionMessage)
        ensures
            r@ == (VersionView {
                addr_recv: NetAddrView {
                    services: 0,
                    ip_address: ipv4_mapped(ipv4_recv@),
                    port: DEFAULT_PORT,
                },
                ..self@
            }),
    {
        let mut m = self;
        m.addr_recv = NetAddr::from_ipv4(0, ipv4_recv, DEFAULT_PORT);
        m
    }

    /// The same payload, sent from the IPv4 host `ipv4_from` on port 8333
    /// with no services.
    pub fn with_addr_from(self, ipv4_from: [u8; 4]) -> (r: VersionMessage)
        ensures
            r@ == (VersionView {
                addr_from: NetAddrView {
                    services: 0,
                    ip_address: ipv4_mapped(ipv4_from@),
                    port: DEFAULT_PORT,
                },
                ..self@
            }),
    {
        let mut m = self;
        m.addr_from = NetAddr::from_ipv4(0, ipv4_from, DEFAULT_PORT);
        m
    }
}

impl Message for VersionMessage {
    open spec fn wire_bytes(&self) -> Seq<u8> {
        version_bytes(self@)
    }

    fn serialize(&self) -> (r: Vec<u8>) {
        let mut out: Vec<u8> = Vec::new();
        push_i32_le(&mut out, self.version);
        push_u64_le(&mut out, self.services);
        push_i64_le(&mut out, self.timestamp);
        self.addr_recv.serialize_into(&mut out);
        self.addr_from.serialize_into(&mut out);
        push_u64_le(&mut out, self.nonce);
        push_varint(&mut out, self.user_agent.len() as u64);
        push_bytes(&mut out, self.user_agent.as_slice());
        push_i32_le(&mut out, self.start_height);
        if self.version >= RELAY_MIN_VERSION {
            let flag: u8 = match self.relay {
                Some(true) => 1,
                _ => 0,
            };
            out.push(flag);
        }
        assert(out@ =~= version_bytes(self@));
        out
    }
}

} // verus!
