//! Protocol-wide value types: timestamps, the CompactSize variable-length
//! integer, length-prefixed strings, service bitmasks and network address
//! records.

use vstd::bytes::{
    lemma_auto_spec_u16_to_from_le_bytes, lemma_auto_spec_u32_to_from_le_bytes,
    lemma_auto_spec_u64_to_from_le_bytes, spec_u16_to_le_bytes, spec_u32_from_le_bytes,
    spec_u32_to_le_bytes, spec_u64_from_le_bytes, spec_u64_to_le_bytes, u32_to_le_bytes,
    u64_from_le_bytes, u64_to_le_bytes,
};
use vstd::prelude::*;
use vstd::utf8::{decode_utf8, encode_utf8, valid_utf8};

use crate::decode::{Decodable, DecodeError, ReadBuf};
use crate::encode::{Encodable, EncodableSized, WriteBuf};
use crate::endian::{
    spec_u16_from_be_bytes, spec_u16_to_be_bytes, u16_b, u16_l, u32_l, u64_l,
};

verus! {

broadcast use vstd::std_specs::vec::group_vec_axioms;

/// A point in time as whole seconds since the Unix epoch, encoded as 8
/// little-endian bytes.
#[derive(Clone, Copy, Debug, PartialEq, Eq, PartialOrd, Ord, Structural)]
pub struct Timestamp(u64);

impl View for Timestamp {
    type V = u64;

    closed spec fn view(&self) -> u64 {
        self.0
    }
}

/// Relies on `std::time::SystemTime::now` and
/// `SystemTime::duration_since`: the wall clock, read as seconds since the
/// Unix epoch (zero if the clock is set before the epoch). Nothing can be
/// promised of the value.
#[verifier::external_body]
fn now_unix_secs() -> u64 {
    std::time::SystemTime::now()
        .duration_since(std::time::UNIX_EPOCH)
        .map(|d| d.as_secs())
        .unwrap_or(0)
}

impl Timestamp {
    /// The current time. The value depends on the wall clock, so nothing is
    /// promised of it.
    pub fn now() -> Timestamp {
        Timestamp(now_unix_secs())
    }

    /// A timestamp holding the given number of seconds since the Unix
    /// epoch.
    pub fn from_secs(secs: u64) -> (r: Timestamp)
        ensures
            r@ == secs,
    {
        Timestamp(secs)
    }

    /// Seconds since the Unix epoch.
    pub fn secs(&self) -> (n: u64)
        ensures
            n == self@,
    {
        self.0
    }
}

impl EncodableSized for Timestamp {
    open spec fn senc(&self) -> Seq<u8> {
        spec_u64_to_le_bytes(self@)
    }

    fn size(&self) -> (n: usize) {
        proof {
            lemma_auto_spec_u64_to_from_le_bytes();
        }
        8
    }

    fn bytes(&self) -> (v: Vec<u8>) {
        u64_to_le_bytes(self.0)
    }
}

impl Decodable for Timestamp {
    open spec fn parse(s: Seq<u8>) -> Result<(u64, int), DecodeError> {
        if s.len() < 8 {
            Err(DecodeError::ShortLength)
        } else {
            Ok((spec_u64_from_le_bytes(s.take(8)), 8))
        }
    }

    proof fn lemma_parse_len(s: Seq<u8>) {
    }

    fn decode<R: ReadBuf>(buf: &mut R) -> (r: Result<Self, DecodeError>) {
        let ghost s = buf.rem();
        match buf.read_bytes(8) {
            Ok(v) => {
                let x = u64_from_le_bytes(v.as_slice());
                proof {
                    assert(Timestamp::parse(s) == Ok::<(u64, int), DecodeError>((x, 8)));
                    assert(buf.rem() == s.skip(8));
                }
                Ok(Timestamp(x))
            },
            Err(e) => {
                proof {
                    assert(Timestamp::parse(s) == Err::<(u64, int), DecodeError>(
                        DecodeError::ShortLength,
                    ));
                }
                Err(e)
            },
        }
    }
}

/// A single service a node can advertise, one bit of the service bitmask.
#[derive(Clone, Copy, Debug, PartialEq, Eq, Structural)]
pub enum Service {
    Network,
    Getutxo,
    Bloom,
    Witness,
    NetworkLimited,
}

impl Service {
    /// The bit this service occupies in the bitmask.
    pub open spec fn spec_bit(self) -> u64 {
        match self {
            Service::Network => 1,
            Service::Getutxo => 2,
            Service::Bloom => 4,
            Service::Witness => 8,
            Service::NetworkLimited => 1024,
        }
    }

    /// The bit this service occupies in the bitmask.
    pub fn bit(&self) -> (n: u64)
        ensures
            n == self.spec_bit(),
    {
        match *self {
            Service::Network => 1,
            Service::Getutxo => 2,
            Service::Bloom => 4,
            Service::Witness => 8,
            Service::NetworkLimited => 1024,
        }
    }
}

/// The bitmask holding all the services in the given sequence.
pub open spec fn spec_services_of(s: Seq<Service>) -> u64
    decreases s.len(),
{
    if s.len() == 0 {
        0u64
    } else {
        spec_services_of(s.drop_last()) | s.last().spec_bit()
    }
}

/// A service bitmask, encoded as 8 little-endian bytes.
#[derive(Clone, Copy, Debug, PartialEq, Eq, Structural)]
pub struct Services(u64);

impl View for Services {
    type V = u64;

    closed spec fn view(&self) -> u64 {
        self.0
    }
}

impl Services {
    /// The empty bitmask: no services advertised.
    pub fn empty() -> (r: Services)
        ensures
            r@ == 0,
    {
        Services(0)
    }

    /// The bitmask holding exactly the given services.
    pub fn new(services: &[Service]) -> (r: Services)
        ensures
            r@ == spec_services_of(services@),
    {
        let n = services.len();
        let mut srvs = Services::empty();
        let mut i: usize = 0;
        while i < n
            invariant
                i <= n,
                n == services@.len(),
                srvs@ == spec_services_of(services@.take(i as int)),
            decreases n - i,
        {
            let service = *vstd::slice::slice_index_get(services, i);
            srvs.add(service);
            proof {
                assert(services@.take(i + 1).drop_last() =~= services@.take(i as int));
                assert(services@.take(i + 1).last() == services@[i as int]);
            }
            i = i + 1;
        }
        proof {
            assert(services@.take(n as int) =~= services@);
        }
        srvs
    }

    /// Set the given service's bit in the bitmask.
    pub fn add(&mut self, service: Service)
        ensures
            final(self)@ == old(self)@ | service.spec_bit(),
    {
        self.0 = self.0 | service.bit();
    }

    /// The raw bitmask value.
    pub fn mask(&self) -> (n: u64)
        ensures
            n == self@,
    {
        self.0
    }

    /// The bitmask holding the given raw value.
    pub fn from_mask(mask: u64) -> (r: Services)
        ensures
            r@ == mask,
    {
        Services(mask)
    }
}

impl EncodableSized for Services {
    open spec fn senc(&self) -> Seq<u8> {
        spec_u64_to_le_bytes(self@)
    }

    fn size(&self) -> (n: usize) {
        proof {
            lemma_auto_spec_u64_to_from_le_bytes();
        }
        8
    }

    fn bytes(&self) -> (v: Vec<u8>) {
        u64_to_le_bytes(self.0)
    }
}

impl Decodable for Services {
    open spec fn parse(s: Seq<u8>) -> Result<(u64, int), DecodeError> {
        if s.len() < 8 {
            Err(DecodeError::ShortLength)
        } else {
            Ok((spec_u64_from_le_bytes(s.take(8)), 8))
        }
    }

    proof fn lemma_parse_len(s: Seq<u8>) {
    }

    fn decode<R: ReadBuf>(buf: &mut R) -> (r: Result<Self, DecodeError>) {
        let ghost s = buf.rem();
        match buf.read_bytes(8) {
            Ok(v) => {
                let x = u64_from_le_bytes(v.as_slice());
                proof {
                    assert(Services::parse(s) == Ok::<(u64, int), DecodeError>((x, 8)));
                    assert(buf.rem() == s.skip(8));
                }
                Ok(Services(x))
            },
            Err(e) => {
                proof {
                    assert(Services::parse(s) == Err::<(u64, int), DecodeError>(
                        DecodeError::ShortLength,
                    ));
                }
                Err(e)
            },
        }
    }
}

/// The tiered minimal-width encoding of a non-negative count: one byte for
/// values below `0xFD`, otherwise a one-byte marker followed by the value
/// in 2, 4 or 8 little-endian bytes, always in the smallest tier that can
/// represent it.
pub open spec fn spec_compact_size_enc(n: u64) -> Seq<u8> {
    if n < 0xFD {
        seq![n as u8]
    } else if n <= 0xFFFF {
        seq![0xFDu8] + spec_u16_to_le_bytes(n as u16)
    } else if n <= 0xFFFF_FFFF {
        seq![0xFEu8] + spec_u32_to_le_bytes(n as u32)
    } else {
        seq![0xFFu8] + spec_u64_to_le_bytes(n)
    }
}

/// What decoding a CompactSize yields: the first byte picks the tier, the
/// trailing width is read little-endian. Non-minimal encodings are
/// accepted, as the wire format's readers conventionally do; whether to
/// reject them is a policy choice this codec leaves to its callers.
pub open spec fn spec_compact_size_parse(s: Seq<u8>) -> Result<(u64, int), DecodeError> {
    match u8::parse(s) {
        Err(e) => Err(e),
        Ok((first, n0)) => {
            if first < 0xFD {
                Ok((first as u64, 1))
            } else if first == 0xFD {
                match u16_l::parse(s.skip(1)) {
                    Ok((v, n)) => Ok((v as u64, 1 + n)),
                    Err(e) => Err(e),
                }
            } else if first == 0xFE {
                match u32_l::parse(s.skip(1)) {
                    Ok((v, n)) => Ok((v as u64, 1 + n)),
                    Err(e) => Err(e),
                }
            } else {
                match u64_l::parse(s.skip(1)) {
                    Ok((v, n)) => Ok((v, 1 + n)),
                    Err(e) => Err(e),
                }
            }
        },
    }
}

/// A non-negative count in the tiered minimal-width wire encoding.
#[derive(Clone, Copy, Debug, PartialEq, Eq, PartialOrd, Ord, Structural)]
pub struct CompactSize(pub u64);

impl View for CompactSize {
    type V = u64;

    open spec fn view(&self) -> u64 {
        self.0
    }
}

impl Encodable for CompactSize {
    open spec fn enc(&self) -> Seq<u8> {
        spec_compact_size_enc(self@)
    }

    fn length(&self) -> (n: usize) {
        proof {
            lemma_auto_spec_u16_to_from_le_bytes();
            lemma_auto_spec_u32_to_from_le_bytes();
            lemma_auto_spec_u64_to_from_le_bytes();
        }
        if self.0 < 0xFD {
            1
        } else if self.0 <= 0xFFFF {
            3
        } else if self.0 <= 0xFFFF_FFFF {
            5
        } else {
            9
        }
    }

    fn encode<W: WriteBuf>(&self, buf: &mut W) {
        if self.0 < 0xFD {
            let b: u8 = self.0 as u8;
            b.encode(buf);
        } else if self.0 <= 0xFFFF {
            let ghost pre = buf.contents();
            let m: u8 = 0xFD;
            m.encode(buf);
            u16_l::new(self.0 as u16).encode(buf);
            proof {
                assert(pre + (seq![0xFDu8] + spec_u16_to_le_bytes(self@ as u16)) =~= (pre + seq![
                    0xFDu8,
                ]) + spec_u16_to_le_bytes(self@ as u16));
            }
        } else if self.0 <= 0xFFFF_FFFF {
            let ghost pre = buf.contents();
            let m: u8 = 0xFE;
            m.encode(buf);
            u32_l::new(self.0 as u32).encode(buf);
            proof {
                assert(pre + (seq![0xFEu8] + spec_u32_to_le_bytes(self@ as u32)) =~= (pre + seq![
                    0xFEu8,
                ]) + spec_u32_to_le_bytes(self@ as u32));
            }
        } else {
            let ghost pre = buf.contents();
            let m: u8 = 0xFF;
            m.encode(buf);
            u64_l::new(self.0).encode(buf);
            proof {
                assert(pre + (seq![0xFFu8] + spec_u64_to_le_bytes(self@)) =~= (pre + seq![0xFFu8])
                    + spec_u64_to_le_bytes(self@));
            }
        }
    }

    fn to_vec(&self) -> (v: Vec<u8>) {
        let mut v: Vec<u8> = Vec::new();
        self.encode(&mut v);
        v
    }
}

impl Decodable for CompactSize {
    open spec fn parse(s: Seq<u8>) -> Result<(u64, int), DecodeError> {
        spec_compact_size_parse(s)
    }

    proof fn lemma_parse_len(s: Seq<u8>) {
    }

    fn decode<R: ReadBuf>(buf: &mut R) -> (r: Result<Self, DecodeError>) {
        let ghost s = buf.rem();
        let first = match u8::decode(buf) {
            Ok(b) => b,
            Err(e) => {
                return Err(e);
            },
        };
        if first < 0xFD {
            Ok(CompactSize(first as u64))
        } else if first == 0xFD {
            match u16_l::decode(buf) {
                Ok(v) => {
                    proof {
                        assert(s.skip(1).skip(2) =~= s.skip(3));
                    }
                    Ok(CompactSize(v.value() as u64))
                },
                Err(e) => Err(e),
            }
        } else if first == 0xFE {
            match u32_l::decode(buf) {
                Ok(v) => {
                    proof {
                        assert(s.skip(1).skip(4) =~= s.skip(5));
                    }
                    Ok(CompactSize(v.value() as u64))
                },
                Err(e) => Err(e),
            }
        } else {
            match u64_l::decode(buf) {
                Ok(v) => {
                    proof {
                        assert(s.skip(1).skip(8) =~= s.skip(9));
                    }
                    Ok(CompactSize(v.value()))
                },
                Err(e) => Err(e),
            }
        }
    }
}

/// The byte length of the CompactSize encoding, by tier: 1 below `0xFD`,
/// 3 up to `0xFFFF`, 5 up to `0xFFFFFFFF`, 9 above.
pub open spec fn spec_compact_size_len(n: u64) -> int {
    if n < 0xFD {
        1
    } else if n <= 0xFFFF {
        3
    } else if n <= 0xFFFF_FFFF {
        5
    } else {
        9
    }
}

/// The CompactSize encoding of any value is exactly as long as the tier
/// table says, and decoding it, with any trailing bytes after it, gives
/// back exactly that value and consumes exactly the tier's bytes.
pub proof fn lemma_compact_size_round_trip(x: u64, rest: Seq<u8>)
    ensures
        spec_compact_size_enc(x).len() == spec_compact_size_len(x),
        CompactSize::parse(spec_compact_size_enc(x) + rest) == Ok::<(u64, int), DecodeError>(
            (x, spec_compact_size_len(x)),
        ),
{
    lemma_auto_spec_u16_to_from_le_bytes();
    lemma_auto_spec_u32_to_from_le_bytes();
    lemma_auto_spec_u64_to_from_le_bytes();
    let s = spec_compact_size_enc(x) + rest;
    if x < 0xFD {
    } else if x <= 0xFFFF {
        assert(s.skip(1) =~= spec_u16_to_le_bytes(x as u16) + rest);
        crate::endian::lemma_u16_l_round_trip(x as u16, rest);
    } else if x <= 0xFFFF_FFFF {
        assert(s.skip(1) =~= spec_u32_to_le_bytes(x as u32) + rest);
        crate::endian::lemma_u32_l_round_trip(x as u32, rest);
    } else {
        assert(s.skip(1) =~= spec_u64_to_le_bytes(x) + rest);
        crate::endian::lemma_u64_l_round_trip(x, rest);
    }
}

/// The wire encoding of a length-prefixed string: the CompactSize byte
/// count of its UTF-8 encoding, then those UTF-8 bytes.
pub open spec fn spec_var_str_enc(s: Seq<char>) -> Seq<u8> {
    spec_compact_size_enc(encode_utf8(s).len() as u64) + encode_utf8(s)
}

/// Relies on `str::from_utf8` and `str::to_owned`: returns `Some` exactly
/// when the bytes are valid UTF-8, and then the characters those bytes
/// encode.
#[verifier::external_body]
fn utf8_to_string(v: &[u8]) -> (r: Option<String>)
    ensures
        match r {
            Some(s) => valid_utf8(v@) && s@ == decode_utf8(v@),
            None => !valid_utf8(v@),
        },
{
    match std::str::from_utf8(v) {
        Ok(s) => Some(s.to_owned()),
        Err(_) => None,
    }
}

/// Relies on `str::len`: the byte length of a string slice, which is the
/// length of its UTF-8 encoding and always fits `usize`, since the bytes
/// are in memory.
#[verifier::external_body]
fn str_byte_len(s: &str) -> (n: usize)
    ensures
        n == encode_utf8(s@).len(),
{
    s.len()
}

/// A length-prefixed UTF-8 string: a CompactSize byte count followed by
/// that many UTF-8 bytes.
#[derive(Debug, Clone, PartialEq, Eq)]
pub struct VarStr(pub String);

impl View for VarStr {
    type V = Seq<char>;

    open spec fn view(&self) -> Seq<char> {
        self.0@
    }
}

impl VarStr {
    /// How many bytes the string itself (without the length prefix)
    /// occupies on the wire.
    pub fn byte_len(&self) -> (n: usize)
        ensures
            n == encode_utf8(self@).len(),
    {
        str_byte_len(self.0.as_str())
    }
}

impl Encodable for VarStr {
    open spec fn enc(&self) -> Seq<u8> {
        spec_var_str_enc(self@)
    }

    fn length(&self) -> (n: usize) {
        let bytes_len = self.0.as_str().len();
        let prefix_len = CompactSize(bytes_len as u64).length();
        prefix_len + bytes_len
    }

    fn encode<W: WriteBuf>(&self, buf: &mut W) {
        let ghost pre = buf.contents();
        let bytes_len = self.0.as_str().len();
        CompactSize(bytes_len as u64).encode(buf);
        buf.write_bytes(self.0.as_str().as_bytes());
        proof {
            assert(pre + spec_var_str_enc(self@) =~= (pre + spec_compact_size_enc(
                encode_utf8(self@).len() as u64,
            )) + encode_utf8(self@));
        }
    }

    fn to_vec(&self) -> (v: Vec<u8>) {
        let mut v: Vec<u8> = Vec::new();
        self.encode(&mut v);
        v
    }
}

impl Decodable for VarStr {
    open spec fn parse(s: Seq<u8>) -> Result<(Seq<char>, int), DecodeError> {
        match spec_compact_size_parse(s) {
            Err(e) => Err(e),
            Ok((len, n1)) => {
                if s.len() - n1 < len {
                    Err(DecodeError::ShortLength)
                } else {
                    let bs = s.subrange(n1, n1 + len);
                    if valid_utf8(bs) {
                        Ok((decode_utf8(bs), n1 + len))
                    } else {
                        Err(DecodeError::InvalidBytes)
                    }
                }
            },
        }
    }

    proof fn lemma_parse_len(s: Seq<u8>) {
        CompactSize::lemma_parse_len(s);
    }

    fn decode<R: ReadBuf>(buf: &mut R) -> (r: Result<Self, DecodeError>) {
        let ghost s = buf.rem();
        let prefix = match CompactSize::decode(buf) {
            Ok(c) => c,
            Err(e) => {
                return Err(e);
            },
        };
        proof {
            CompactSize::lemma_parse_len(s);
        }
        let len64: u64 = prefix.0;
        let avail = buf.remaining();
        if (avail as u64) < len64 {
            return Err(DecodeError::ShortLength);
        }
        let len: usize = len64 as usize;
        let ghost n1 = spec_compact_size_parse(s)->Ok_0.1;
        let v = match buf.read_bytes(len) {
            Ok(v) => v,
            Err(e) => {
                return Err(e);
            },
        };
        proof {
            assert(v@ =~= s.subrange(n1, n1 + len64));
            assert(s.skip(n1).skip(len as int) =~= s.skip(n1 + len64));
        }
        match utf8_to_string(v.as_slice()) {
            Some(st) => Ok(VarStr(st)),
            None => Err(DecodeError::InvalidBytes),
        }
    }
}

/// Decoding the encoding of any length-prefixed string, with any trailing
/// bytes after it, gives back exactly its characters and consumes exactly
/// the prefix plus the UTF-8 bytes.
pub proof fn lemma_var_str_round_trip(s: Seq<char>, rest: Seq<u8>)
    requires
        encode_utf8(s).len() <= u64::MAX,
    ensures
        VarStr::parse(spec_var_str_enc(s) + rest) == Ok::<(Seq<char>, int), DecodeError>(
            (s, spec_var_str_enc(s).len() as int),
        ),
{
    broadcast use vstd::utf8::encode_utf8_valid_utf8, vstd::utf8::encode_utf8_decode_utf8;

    let bs = encode_utf8(s);
    let len = bs.len() as u64;
    let whole = spec_var_str_enc(s) + rest;
    assert(whole =~= spec_compact_size_enc(len) + (bs + rest));
    lemma_compact_size_round_trip(len, bs + rest);
    let n1 = spec_compact_size_len(len);
    assert(whole.subrange(n1, n1 + len) =~= bs);
}

/// The 16-byte IPv4-mapped-IPv6 form of an IPv4 address `a.b.c.d`.
pub fn ipv4_mapped_ipv6(a: u8, b: u8, c: u8, d: u8) -> (r: Vec<u8>)
    ensures
        r@ == seq![0u8, 0, 0, 0, 0, 0, 0, 0, 0, 0, 0xff, 0xff, a, b, c, d],
{
    let mut v: Vec<u8> = Vec::new();
    let mut i: usize = 0;
    while i < 10
        invariant
            i <= 10,
            v@ == Seq::new(i as nat, |j: int| 0u8),
        decreases 10 - i,
    {
        v.push(0u8);
        proof {
            assert(Seq::new((i + 1) as nat, |j: int| 0u8) =~= Seq::new(
                i as nat,
                |j: int| 0u8,
            ).push(0u8));
        }
        i = i + 1;
    }
    v.push(0xff);
    v.push(0xff);
    v.push(a);
    v.push(b);
    v.push(c);
    v.push(d);
    proof {
        assert(v@ =~= seq![0u8, 0, 0, 0, 0, 0, 0, 0, 0, 0, 0xff, 0xff, a, b, c, d]);
    }
    v
}

/// The fields of a standalone network address record, as plain values.
pub ghost struct NetAddrView {
    pub time: u32,
    pub services: u64,
    pub ip: Seq<u8>,
    pub port: u16,
}

/// The 30-byte wire encoding of a standalone address record: 4-byte
/// little-endian time, 8-byte little-endian services, 16 raw IPv6 bytes,
/// 2-byte big-endian port.
pub open spec fn spec_net_addr_enc(v: NetAddrView) -> Seq<u8> {
    spec_u32_to_le_bytes(v.time) + spec_u64_to_le_bytes(v.services) + v.ip + spec_u16_to_be_bytes(
        v.port,
    )
}

/// A standalone network address record: when it was last seen, the
/// services it advertises, its 16-byte IPv6 address (IPv4 addresses in the
/// IPv4-mapped-IPv6 form) and its port.
#[derive(Debug, PartialEq, Eq)]
pub struct NetAddr {
    time: u32,
    services: Services,
    ip: Vec<u8>,
    port: u16,
}

impl NetAddr {
    /// Every record carries a full 16-byte IP.
    #[verifier::type_invariant]
    pub closed spec fn wf(self) -> bool {
        self.ip@.len() == 16
    }

    /// What well-formedness says of the view: the IP is 16 bytes.
    pub proof fn lemma_wf_ip(a: NetAddr)
        requires
            a.wf(),
        ensures
            a@.ip.len() == 16,
    {
    }
}

impl View for NetAddr {
    type V = NetAddrView;

    closed spec fn view(&self) -> NetAddrView {
        NetAddrView {
            time: self.time,
            services: self.services@,
            ip: self.ip@,
            port: self.port,
        }
    }
}

impl NetAddr {
    /// Build a record from its fields. The IP must be the full 16-byte
    /// IPv6 form.
    pub fn new(time: u32, services: Services, ip: Vec<u8>, port: u16) -> (r: NetAddr)
        requires
            ip@.len() == 16,
        ensures
            r@ == (NetAddrView { time, services: services@, ip: ip@, port }),
    {
        NetAddr { time, services, ip, port }
    }

    /// Seconds since the Unix epoch when this peer was last seen.
    pub fn time(&self) -> (n: u32)
        ensures
            n == self@.time,
    {
        self.time
    }

    /// The services this peer advertises.
    pub fn services(&self) -> (s: Services)
        ensures
            s@ == self@.services,
    {
        self.services
    }

    /// The 16 bytes of the peer's IPv6 address.
    pub fn ip(&self) -> (r: &Vec<u8>)
        ensures
            r@ == self@.ip,
            r@.len() == 16,
    {
        proof {
            use_type_invariant(self);
        }
        &self.ip
    }

    /// The peer's port.
    pub fn port(&self) -> (n: u16)
        ensures
            n == self@.port,
    {
        self.port
    }
}

impl EncodableSized for NetAddr {
    open spec fn senc(&self) -> Seq<u8> {
        spec_net_addr_enc(self@)
    }

    fn size(&self) -> (n: usize) {
        proof {
            use_type_invariant(self);
            lemma_auto_spec_u16_to_from_le_bytes();
            lemma_auto_spec_u32_to_from_le_bytes();
            lemma_auto_spec_u64_to_from_le_bytes();
        }
        30
    }

    fn bytes(&self) -> (v: Vec<u8>) {
        let mut v = u32_to_le_bytes(self.time);
        let mut services = u64_to_le_bytes(self.services.mask());
        v.append(&mut services);
        v.extend_from_slice(self.ip.as_slice());
        let mut port = u16_b::new(self.port).bytes();
        v.append(&mut port);
        proof {
            assert(v@ =~= spec_net_addr_enc(self@));
        }
        v
    }
}

impl Decodable for NetAddr {
    open spec fn parse(s: Seq<u8>) -> Result<(NetAddrView, int), DecodeError> {
        if s.len() < 30 {
            Err(DecodeError::ShortLength)
        } else {
            Ok(
                (
                    NetAddrView {
                        time: spec_u32_from_le_bytes(s.subrange(0, 4)),
                        services: spec_u64_from_le_bytes(s.subrange(4, 12)),
                        ip: s.subrange(12, 28),
                        port: spec_u16_from_be_bytes(s.subrange(28, 30)),
                    },
                    30,
                ),
            )
        }
    }

    proof fn lemma_parse_len(s: Seq<u8>) {
    }

    fn decode<R: ReadBuf>(buf: &mut R) -> (r: Result<Self, DecodeError>) {
        let ghost s = buf.rem();
        let time = match u32_l::decode(buf) {
            Ok(v) => v,
            Err(e) => {
                return Err(e);
            },
        };
        let services = match Services::decode(buf) {
            Ok(v) => v,
            Err(e) => {
                return Err(e);
            },
        };
        let ip = match buf.read_bytes(16) {
            Ok(v) => v,
            Err(e) => {
                return Err(e);
            },
        };
        let port = match u16_b::decode(buf) {
            Ok(v) => v,
            Err(e) => {
                return Err(e);
            },
        };
        proof {
            assert(s.take(4) =~= s.subrange(0, 4));
            assert(s.skip(4).take(8) =~= s.subrange(4, 12));
            assert(s.skip(4).skip(8).take(16) =~= s.subrange(12, 28));
            assert(s.skip(4).skip(8).skip(16).take(2) =~= s.subrange(28, 30));
            assert(s.skip(4).skip(8).skip(16).skip(2) =~= s.skip(30));
        }
        Ok(NetAddr { time: time.value(), services, ip, port: port.value() })
    }
}

/// Decoding the 30-byte encoding of any standalone address record, with
/// any trailing bytes after it, gives back exactly its fields and consumes
/// exactly its 30 bytes.
pub proof fn lemma_net_addr_round_trip(v: NetAddrView, rest: Seq<u8>)
    requires
        v.ip.len() == 16,
    ensures
        NetAddr::parse(spec_net_addr_enc(v) + rest) == Ok::<(NetAddrView, int), DecodeError>(
            (v, 30),
        ),
{
    lemma_auto_spec_u16_to_from_le_bytes();
    lemma_auto_spec_u32_to_from_le_bytes();
    lemma_auto_spec_u64_to_from_le_bytes();
    let s = spec_net_addr_enc(v) + rest;
    assert(spec_u16_to_le_bytes(v.port).reverse().reverse() =~= spec_u16_to_le_bytes(v.port));
    assert(s.subrange(0, 4) =~= spec_u32_to_le_bytes(v.time));
    assert(s.subrange(4, 12) =~= spec_u64_to_le_bytes(v.services));
    assert(s.subrange(12, 28) =~= v.ip);
    assert(s.subrange(28, 30) =~= spec_u16_to_be_bytes(v.port));
}

/// The fields of the timestamp-less address record used inside a version
/// payload, as plain values.
pub ghost struct NetAddrForVersionMsgView {
    pub services: u64,
    pub ip: Seq<u8>,
    pub port: u16,
}

/// The 26-byte wire encoding of a version-payload address record: 8-byte
/// little-endian services, 16 raw IPv6 bytes, 2-byte big-endian port.
pub open spec fn spec_net_addr_version_enc(v: NetAddrForVersionMsgView) -> Seq<u8> {
    spec_u64_to_le_bytes(v.services) + v.ip + spec_u16_to_be_bytes(v.port)
}

/// The timestamp-less address record carried inside a version payload:
/// services, 16-byte IPv6 address and port.
#[derive(Debug, PartialEq, Eq)]
pub struct NetAddrForVersionMsg {
    services: Services,
    ip: Vec<u8>,
    port: u16,
}

impl NetAddrForVersionMsg {
    /// Every record carries a full 16-byte IP.
    #[verifier::type_invariant]
    pub closed spec fn wf(self) -> bool {
        self.ip@.len() == 16
    }

    /// What well-formedness says of the view: the IP is 16 bytes.
    pub proof fn lemma_wf_ip(a: NetAddrForVersionMsg)
        requires
            a.wf(),
        ensures
            a@.ip.len() == 16,
    {
    }
}

impl View for NetAddrForVersionMsg {
    type V = NetAddrForVersionMsgView;

    closed spec fn view(&self) -> NetAddrForVersionMsgView {
        NetAddrForVersionMsgView { services: self.services@, ip: self.ip@, port: self.port }
    }
}

impl NetAddrForVersionMsg {
    /// Build a record from its fields. The IP must be the full 16-byte
    /// IPv6 form.
    pub fn new(services: Services, ip: Vec<u8>, port: u16) -> (r: NetAddrForVersionMsg)
        requires
            ip@.len() == 16,
        ensures
            r@ == (NetAddrForVersionMsgView { services: services@, ip: ip@, port }),
    {
        NetAddrForVersionMsg { services, ip, port }
    }

    /// The services this peer advertises.
    pub fn services(&self) -> (s: Services)
        ensures
            s@ == self@.services,
    {
        self.services
    }

    /// The 16 bytes of the peer's IPv6 address.
    pub fn ip(&self) -> (r: &Vec<u8>)
        ensures
            r@ == self@.ip,
            r@.len() == 16,
    {
        proof {
            use_type_invariant(self);
        }
        &self.ip
    }

    /// The peer's port.
    pub fn port(&self) -> (n: u16)
        ensures
            n == self@.port,
    {
        self.port
    }
}

impl EncodableSized for NetAddrForVersionMsg {
    open spec fn senc(&self) -> Seq<u8> {
        spec_net_addr_version_enc(self@)
    }

    fn size(&self) -> (n: usize) {
        proof {
            use_type_invariant(self);
            lemma_auto_spec_u16_to_from_le_bytes();
            lemma_auto_spec_u64_to_from_le_bytes();
        }
        26
    }

    fn bytes(&self) -> (v: Vec<u8>) {
        let mut v = u64_to_le_bytes(self.services.mask());
        v.extend_from_slice(self.ip.as_slice());
        let mut port = u16_b::new(self.port).bytes();
        v.append(&mut port);
        proof {
            assert(v@ =~= spec_net_addr_version_enc(self@));
        }
        v
    }
}

impl Decodable for NetAddrForVersionMsg {
    open spec fn parse(s: Seq<u8>) -> Result<(NetAddrForVersionMsgView, int), DecodeError> {
        if s.len() < 26 {
            Err(DecodeError::ShortLength)
        } else {
            Ok(
                (
                    NetAddrForVersionMsgView {
                        services: spec_u64_from_le_bytes(s.subrange(0, 8)),
                        ip: s.subrange(8, 24),
                        port: spec_u16_from_be_bytes(s.subrange(24, 26)),
                    },
                    26,
                ),
            )
        }
    }

    proof fn lemma_parse_len(s: Seq<u8>) {
    }

    fn decode<R: ReadBuf>(buf: &mut R) -> (r: Result<Self, DecodeError>) {
        let ghost s = buf.rem();
        let services = match Services::decode(buf) {
            Ok(v) => v,
            Err(e) => {
                return Err(e);
            },
        };
        let ip = match buf.read_bytes(16) {
            Ok(v) => v,
            Err(e) => {
                return Err(e);
            },
        };
        let port = match u16_b::decode(buf) {
            Ok(v) => v,
            Err(e) => {
                return Err(e);
            },
        };
        proof {
            assert(s.take(8) =~= s.subrange(0, 8));
            assert(s.skip(8).take(16) =~= s.subrange(8, 24));
            assert(s.skip(8).skip(16).take(2) =~= s.subrange(24, 26));
            assert(s.skip(8).skip(16).skip(2) =~= s.skip(26));
        }
        Ok(NetAddrForVersionMsg { services, ip, port: port.value() })
    }
}

/// Decoding the 26-byte encoding of any version-payload address record,
/// with any trailing bytes after it, gives back exactly its fields and
/// consumes exactly its 26 bytes.
pub proof fn lemma_net_addr_version_round_trip(v: NetAddrForVersionMsgView, rest: Seq<u8>)
    requires
        v.ip.len() == 16,
    ensures
        NetAddrForVersionMsg::parse(spec_net_addr_version_enc(v) + rest) == Ok::<
            (NetAddrForVersionMsgView, int),
            DecodeError,
        >((v, 26)),
{
    lemma_auto_spec_u16_to_from_le_bytes();
    lemma_auto_spec_u64_to_from_le_bytes();
    let s = spec_net_addr_version_enc(v) + rest;
    assert(spec_u16_to_le_bytes(v.port).reverse().reverse() =~= spec_u16_to_le_bytes(v.port));
    assert(s.subrange(0, 8) =~= spec_u64_to_le_bytes(v.services));
    assert(s.subrange(8, 24) =~= v.ip);
    assert(s.subrange(24, 26) =~= spec_u16_to_be_bytes(v.port));
}

} // verus!
