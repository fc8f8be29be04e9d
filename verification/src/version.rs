//! The `version` payload: the opening half of the handshake, announcing a
//! node's protocol version, services, clock, both endpoints' address
//! records, a nonce, its user agent, its best block height and its relay
//! preference.

use vstd::bytes::{
    lemma_auto_spec_u32_to_from_le_bytes, lemma_auto_spec_u64_to_from_le_bytes,
    spec_u32_to_le_bytes, spec_u64_to_le_bytes,
};
use vstd::prelude::*;
use vstd::utf8::encode_utf8;

use crate::commons::{
    spec_net_addr_version_enc, spec_var_str_enc, NetAddrForVersionMsg, NetAddrForVersionMsgView,
    Service, Services, Timestamp, VarStr,
};
use crate::decode::{Decodable, DecodeError, ReadBuf};
use crate::encode::{Encodable, WriteBuf};
use crate::endian::{i32_l, u32_of_i32, u64_l};

verus! {

broadcast use vstd::std_specs::vec::group_vec_axioms;

/// The protocol version a fresh payload announces.
pub const DEFAULT_VERSION: i32 = 70015;

/// The fields of a `version` payload, as plain values.
pub ghost struct VersionView {
    pub version: i32,
    pub services: u64,
    pub timestamp: u64,
    pub remote_addr: NetAddrForVersionMsgView,
    pub local_addr: NetAddrForVersionMsgView,
    pub nonce: u64,
    pub user_agent: Seq<char>,
    pub start_height: i32,
    pub relay: bool,
}

/// The wire encoding of a `version` payload: each field in order, address
/// records in their timestamp-less 26-byte form.
pub open spec fn spec_version_enc(v: VersionView) -> Seq<u8> {
    spec_u32_to_le_bytes(u32_of_i32(v.version)) + spec_u64_to_le_bytes(v.services)
        + spec_u64_to_le_bytes(v.timestamp) + spec_net_addr_version_enc(v.remote_addr)
        + spec_net_addr_version_enc(v.local_addr) + spec_u64_to_le_bytes(v.nonce)
        + spec_var_str_enc(v.user_agent) + spec_u32_to_le_bytes(u32_of_i32(v.start_height)) + seq![
        if v.relay {
            1u8
        } else {
            0u8
        },
    ]
}

/// What parsing a `version` payload yields: the fields in order, and how
/// many bytes they occupied.
pub open spec fn spec_version_parse(s: Seq<u8>) -> Result<(VersionView, int), DecodeError> {
    match i32_l::parse(s) {
        Err(e) => Err(e),
        Ok((version, _)) => match Services::parse(s.skip(4)) {
            Err(e) => Err(e),
            Ok((services, _)) => match Timestamp::parse(s.skip(12)) {
                Err(e) => Err(e),
                Ok((timestamp, _)) => match NetAddrForVersionMsg::parse(s.skip(20)) {
                    Err(e) => Err(e),
                    Ok((remote_addr, _)) => match NetAddrForVersionMsg::parse(s.skip(46)) {
                        Err(e) => Err(e),
                        Ok((local_addr, _)) => match u64_l::parse(s.skip(72)) {
                            Err(e) => Err(e),
                            Ok((nonce, _)) => match VarStr::parse(s.skip(80)) {
                                Err(e) => Err(e),
                                Ok((user_agent, nu)) => match i32_l::parse(s.skip(80 + nu)) {
                                    Err(e) => Err(e),
                                    Ok((start_height, _)) => match u8::parse(s.skip(84 + nu)) {
                                        Err(e) => Err(e),
                                        Ok((relay, _)) => Ok(
                                            (
                                                VersionView {
                                                    version,
                                                    services,
                                                    timestamp,
                                                    remote_addr,
                                                    local_addr,
                                                    nonce,
                                                    user_agent,
                                                    start_height,
                                                    relay: relay == 1,
                                                },
                                                85 + nu,
                                            ),
                                        ),
                                    },
                                },
                            },
                        },
                    },
                },
            },
        },
    }
}

/// The `version` payload.
#[derive(Debug, PartialEq, Eq)]
pub struct VersionMsgPayload {
    version: i32,
    services: Services,
    timestamp: Timestamp,
    remote_addr: NetAddrForVersionMsg,
    local_addr: NetAddrForVersionMsg,
    nonce: u64,
    user_agent: VarStr,
    start_height: i32,
    relay: bool,
}

impl View for VersionMsgPayload {
    type V = VersionView;

    closed spec fn view(&self) -> VersionView {
        VersionView {
            version: self.version,
            services: self.services@,
            timestamp: self.timestamp@,
            remote_addr: self.remote_addr@,
            local_addr: self.local_addr@,
            nonce: self.nonce,
            user_agent: self.user_agent@,
            start_height: self.start_height,
            relay: self.relay,
        }
    }
}

impl VersionMsgPayload {
    /// A fresh payload for the given endpoints. The version, services,
    /// nonce, user agent, start height and relay flag take their
    /// defaults; the timestamp is read from the wall clock, so nothing is
    /// promised of it.
    pub fn new(remote_addr: NetAddrForVersionMsg, local_addr: NetAddrForVersionMsg) -> (r:
        VersionMsgPayload)
        ensures
            r@.version == DEFAULT_VERSION,
            r@.services == Service::Network.spec_bit(),
            r@.remote_addr == remote_addr@,
            r@.local_addr == local_addr@,
            r@.nonce == 0,
            r@.user_agent == "bitcoinrs"@,
            r@.start_height == 0,
            r@.relay == false,
    {
        let mut services = Services::empty();
        services.add(Service::Network);
        proof {
            assert(0u64 | 1u64 == 1u64) by (bit_vector);
        }
        VersionMsgPayload {
            version: DEFAULT_VERSION,
            services,
            timestamp: Timestamp::now(),
            remote_addr,
            local_addr,
            nonce: 0,
            user_agent: VarStr("bitcoinrs".to_owned()),
            start_height: 0,
            relay: false,
        }
    }

    /// Set the announced protocol version.
    pub fn set_version(&mut self, ver: i32)
        ensures
            final(self)@ == (VersionView { version: ver, ..old(self)@ }),
    {
        self.version = ver;
    }

    /// Set the announced services.
    pub fn set_services(&mut self, services: Services)
        ensures
            final(self)@ == (VersionView { services: services@, ..old(self)@ }),
    {
        self.services = services;
    }

    /// Set the announced timestamp.
    pub fn set_timestamp(&mut self, timestamp: Timestamp)
        ensures
            final(self)@ == (VersionView { timestamp: timestamp@, ..old(self)@ }),
    {
        self.timestamp = timestamp;
    }

    /// Set the connection nonce. A zero nonce is ignored by peers.
    pub fn set_nonce(&mut self, nonce: u64)
        ensures
            final(self)@ == (VersionView { nonce, ..old(self)@ }),
    {
        self.nonce = nonce;
    }

    /// Set the announced user agent.
    pub fn set_user_agent(&mut self, ua: String)
        ensures
            final(self)@ == (VersionView { user_agent: ua@, ..old(self)@ }),
    {
        self.user_agent = VarStr(ua);
    }

    /// Set the announced best block height.
    pub fn set_start_height(&mut self, n: i32)
        ensures
            final(self)@ == (VersionView { start_height: n, ..old(self)@ }),
    {
        self.start_height = n;
    }

    /// Set the transaction relay flag.
    pub fn set_relay(&mut self, relay: bool)
        ensures
            final(self)@ == (VersionView { relay, ..old(self)@ }),
    {
        self.relay = relay;
    }

    /// The announced protocol version.
    pub fn version(&self) -> (n: i32)
        ensures
            n == self@.version,
    {
        self.version
    }

    /// The announced services.
    pub fn services(&self) -> (s: Services)
        ensures
            s@ == self@.services,
    {
        self.services
    }

    /// The announced timestamp.
    pub fn timestamp(&self) -> (t: Timestamp)
        ensures
            t@ == self@.timestamp,
    {
        self.timestamp
    }

    /// The receiver's address record.
    pub fn remote_addr(&self) -> (r: &NetAddrForVersionMsg)
        ensures
            r@ == self@.remote_addr,
    {
        &self.remote_addr
    }

    /// The sender's address record.
    pub fn local_addr(&self) -> (r: &NetAddrForVersionMsg)
        ensures
            r@ == self@.local_addr,
    {
        &self.local_addr
    }

    /// The connection nonce.
    pub fn nonce(&self) -> (n: u64)
        ensures
            n == self@.nonce,
    {
        self.nonce
    }

    /// The announced user agent.
    pub fn user_agent(&self) -> (r: &VarStr)
        ensures
            r@ == self@.user_agent,
    {
        &self.user_agent
    }

    /// The announced best block height.
    pub fn start_height(&self) -> (n: i32)
        ensures
            n == self@.start_height,
    {
        self.start_height
    }

    /// The transaction relay flag.
    pub fn relay(&self) -> (b: bool)
        ensures
            b == self@.relay,
    {
        self.relay
    }
}

impl Encodable for VersionMsgPayload {
    open spec fn enc(&self) -> Seq<u8> {
        spec_version_enc(self@)
    }

    fn length(&self) -> (n: usize) {
        proof {
            lemma_auto_spec_u32_to_from_le_bytes();
            lemma_auto_spec_u64_to_from_le_bytes();
            vstd::bytes::lemma_auto_spec_u16_to_from_le_bytes();
            use_type_invariant(&self.remote_addr);
            use_type_invariant(&self.local_addr);
            NetAddrForVersionMsg::lemma_wf_ip(self.remote_addr);
            NetAddrForVersionMsg::lemma_wf_ip(self.local_addr);
        }
        let ua_len = self.user_agent.length();
        85 + ua_len
    }

    fn encode<W: WriteBuf>(&self, buf: &mut W) {
        proof {
            lemma_auto_spec_u32_to_from_le_bytes();
            lemma_auto_spec_u64_to_from_le_bytes();
            vstd::bytes::lemma_auto_spec_u16_to_from_le_bytes();
            use_type_invariant(&self.remote_addr);
            use_type_invariant(&self.local_addr);
            NetAddrForVersionMsg::lemma_wf_ip(self.remote_addr);
            NetAddrForVersionMsg::lemma_wf_ip(self.local_addr);
        }
        let ghost pre = buf.contents();
        i32_l::new(self.version).encode(buf);
        self.services.encode(buf);
        self.timestamp.encode(buf);
        self.remote_addr.encode(buf);
        self.local_addr.encode(buf);
        u64_l::new(self.nonce).encode(buf);
        self.user_agent.encode(buf);
        i32_l::new(self.start_height).encode(buf);
        let relay_byte: u8 = if self.relay {
            1
        } else {
            0
        };
        relay_byte.encode(buf);
        proof {
            assert(buf.contents() =~= pre + spec_version_enc(self@));
        }
    }

    fn to_vec(&self) -> (v: Vec<u8>) {
        let mut v: Vec<u8> = Vec::new();
        self.encode(&mut v);
        v
    }
}

impl Decodable for VersionMsgPayload {
    open spec fn parse(s: Seq<u8>) -> Result<(VersionView, int), DecodeError> {
        spec_version_parse(s)
    }

    proof fn lemma_parse_len(s: Seq<u8>) {
        if spec_version_parse(s) is Ok {
            VarStr::lemma_parse_len(s.skip(80));
        }
    }

    fn decode<R: ReadBuf>(buf: &mut R) -> (r: Result<Self, DecodeError>) {
        let ghost s = buf.rem();
        let version = match i32_l::decode(buf) {
            Ok(v) => v,
            Err(e) => {
                return Err(e);
            },
        };
        let services = match Services::decode(buf) {
            Ok(v) => v,
            Err(e) => {
                return Err(e);
            },
        };
        proof {
            assert(s.skip(4).skip(8) =~= s.skip(12));
        }
        let timestamp = match Timestamp::decode(buf) {
            Ok(v) => v,
            Err(e) => {
                return Err(e);
            },
        };
        proof {
            assert(s.skip(12).skip(8) =~= s.skip(20));
        }
        let remote_addr = match NetAddrForVersionMsg::decode(buf) {
            Ok(v) => v,
            Err(e) => {
                return Err(e);
            },
        };
        proof {
            assert(s.skip(20).skip(26) =~= s.skip(46));
        }
        let local_addr = match NetAddrForVersionMsg::decode(buf) {
            Ok(v) => v,
            Err(e) => {
                return Err(e);
            },
        };
        proof {
            assert(s.skip(46).skip(26) =~= s.skip(72));
        }
        let nonce = match u64_l::decode(buf) {
            Ok(v) => v,
            Err(e) => {
                return Err(e);
            },
        };
        proof {
            assert(s.skip(72).skip(8) =~= s.skip(80));
        }
        let user_agent = match VarStr::decode(buf) {
            Ok(v) => v,
            Err(e) => {
                return Err(e);
            },
        };
        proof {
            VarStr::lemma_parse_len(s.skip(80));
            let nu = spec_version_nu(s);
            assert(s.skip(80).skip(nu) =~= s.skip(80 + nu));
        }
        let start_height = match i32_l::decode(buf) {
            Ok(v) => v,
            Err(e) => {
                return Err(e);
            },
        };
        proof {
            let nu = spec_version_nu(s);
            assert(s.skip(80 + nu).skip(4) =~= s.skip(84 + nu));
        }
        let relay_byte = match u8::decode(buf) {
            Ok(v) => v,
            Err(e) => {
                return Err(e);
            },
        };
        proof {
            let nu = spec_version_nu(s);
            assert(s.skip(84 + nu).skip(1) =~= s.skip(85 + nu));
        }
        Ok(
            VersionMsgPayload {
                version: version.value(),
                services,
                timestamp,
                remote_addr,
                local_addr,
                nonce: nonce.value(),
                user_agent,
                start_height: start_height.value(),
                relay: relay_byte == 1,
            },
        )
    }
}

/// How many bytes the user-agent field of the payload at `s` occupies.
pub open spec fn spec_version_nu(s: Seq<u8>) -> int {
    VarStr::parse(s.skip(80))->Ok_0.1
}

/// Decoding the encoding of any `version` payload, with any trailing
/// bytes after it, gives back every field exactly — nonce, user agent and
/// both address records included — and consumes exactly its bytes.
#[verifier::rlimit(100)]
#[verifier::spinoff_prover]
pub proof fn lemma_version_round_trip(v: VersionView, rest: Seq<u8>)
    requires
        v.remote_addr.ip.len() == 16,
        v.local_addr.ip.len() == 16,
        encode_utf8(v.user_agent).len() <= u64::MAX,
    ensures
        spec_version_parse(spec_version_enc(v) + rest) == Ok::<(VersionView, int), DecodeError>(
            (v, spec_version_enc(v).len() as int),
        ),
{
    lemma_auto_spec_u32_to_from_le_bytes();
    lemma_auto_spec_u64_to_from_le_bytes();
    vstd::bytes::lemma_auto_spec_u16_to_from_le_bytes();
    let p1 = spec_u32_to_le_bytes(u32_of_i32(v.version));
    let p2 = spec_u64_to_le_bytes(v.services);
    let p3 = spec_u64_to_le_bytes(v.timestamp);
    let p4 = spec_net_addr_version_enc(v.remote_addr);
    let p5 = spec_net_addr_version_enc(v.local_addr);
    let p6 = spec_u64_to_le_bytes(v.nonce);
    let p7 = spec_var_str_enc(v.user_agent);
    let p8 = spec_u32_to_le_bytes(u32_of_i32(v.start_height));
    let p9 = seq![
        if v.relay {
            1u8
        } else {
            0u8
        },
    ];
    let s = spec_version_enc(v) + rest;
    assert(vstd::bytes::spec_u16_to_le_bytes(v.remote_addr.port).reverse().reverse()
        =~= vstd::bytes::spec_u16_to_le_bytes(v.remote_addr.port));
    assert(vstd::bytes::spec_u16_to_le_bytes(v.local_addr.port).reverse().reverse()
        =~= vstd::bytes::spec_u16_to_le_bytes(v.local_addr.port));
    assert(p4.len() == 26);
    assert(p5.len() == 26);
    let nu = p7.len() as int;
    crate::endian::lemma_i32_l_round_trip(v.version, p2 + p3 + p4 + p5 + p6 + p7 + p8 + p9 + rest);
    assert(s =~= p1 + (p2 + p3 + p4 + p5 + p6 + p7 + p8 + p9 + rest));
    assert(s.skip(4).take(8) =~= p2);
    assert(s.skip(12).take(8) =~= p3);
    crate::commons::lemma_net_addr_version_round_trip(
        v.remote_addr,
        p5 + p6 + p7 + p8 + p9 + rest,
    );
    assert(s.skip(20) =~= p4 + (p5 + p6 + p7 + p8 + p9 + rest));
    crate::commons::lemma_net_addr_version_round_trip(v.local_addr, p6 + p7 + p8 + p9 + rest);
    assert(s.skip(46) =~= p5 + (p6 + p7 + p8 + p9 + rest));
    assert(s.skip(72).take(8) =~= p6);
    crate::commons::lemma_var_str_round_trip(v.user_agent, p8 + p9 + rest);
    assert(s.skip(80) =~= p7 + (p8 + p9 + rest));
    crate::endian::lemma_i32_l_round_trip(v.start_height, p9 + rest);
    assert(s.skip(80 + nu) =~= p8 + (p9 + rest));
    assert(s.skip(84 + nu) =~= p9 + rest);
    assert(s.skip(84 + nu)[0] == p9[0]);
    assert(spec_version_enc(v).len() == 85 + nu);
}

impl VersionMsgPayload {
    /// The exact number of bytes this payload encodes to, or `None` in
    /// the degenerate case where even that count overflows `u64`. Unlike
    /// `length`, this needs nothing from the caller, so it can be used to
    /// check a payload against a size limit before encoding it.
    pub fn encoded_len(&self) -> (r: Option<u64>)
        ensures
            match r {
                Some(n) => n == spec_version_enc(self@).len(),
                None => spec_version_enc(self@).len() > u64::MAX,
            },
    {
        proof {
            lemma_auto_spec_u32_to_from_le_bytes();
            lemma_auto_spec_u64_to_from_le_bytes();
            vstd::bytes::lemma_auto_spec_u16_to_from_le_bytes();
            use_type_invariant(&self.remote_addr);
            use_type_invariant(&self.local_addr);
            NetAddrForVersionMsg::lemma_wf_ip(self.remote_addr);
            NetAddrForVersionMsg::lemma_wf_ip(self.local_addr);
        }
        let bl = self.user_agent.byte_len();
        let prefix: u64 = if bl < 0xFD {
            1
        } else if bl <= 0xFFFF {
            3
        } else if (bl as u64) <= 0xFFFF_FFFF {
            5
        } else {
            9
        };
        if (bl as u64) > u64::MAX - 85 - prefix {
            return None;
        }
        Some(85 + prefix + (bl as u64))
    }
}

} // verus!
