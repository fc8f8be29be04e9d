//! The `addr` payload: a CompactSize count followed by that many 30-byte
//! standalone network address records.

use vstd::prelude::*;

use crate::bytes::Bytes;
use crate::commons::{
    spec_compact_size_enc, spec_compact_size_parse, spec_net_addr_enc, CompactSize, NetAddr,
    NetAddrView,
};
use crate::decode::{Decodable, DecodeError, ReadBuf};
use crate::encode::{Encodable, EncodableSized, WriteBuf};

verus! {

broadcast use vstd::std_specs::vec::group_vec_axioms;

/// The concatenated encodings of a list of address records, in order.
pub open spec fn spec_addr_list_enc(l: Seq<NetAddrView>) -> Seq<u8>
    decreases l.len(),
{
    if l.len() == 0 {
        Seq::empty()
    } else {
        spec_addr_list_enc(l.drop_last()) + spec_net_addr_enc(l.last())
    }
}

/// Each record with a 16-byte IP encodes to 30 bytes, so the list encodes
/// to exactly 30 bytes per record.
pub proof fn lemma_addr_list_enc_len(l: Seq<NetAddrView>)
    requires
        forall|i: int| 0 <= i < l.len() ==> (#[trigger] l[i]).ip.len() == 16,
    ensures
        spec_addr_list_enc(l).len() == 30 * l.len(),
    decreases l.len(),
{
    vstd::bytes::lemma_auto_spec_u16_to_from_le_bytes();
    vstd::bytes::lemma_auto_spec_u32_to_from_le_bytes();
    vstd::bytes::lemma_auto_spec_u64_to_from_le_bytes();
    if l.len() > 0 {
        lemma_addr_list_enc_len(l.drop_last());
    }
}

/// The wire encoding of an `addr` payload: the record count as a
/// CompactSize, then the records back to back.
pub open spec fn spec_addr_payload_enc(l: Seq<NetAddrView>) -> Seq<u8> {
    spec_compact_size_enc(l.len() as u64) + spec_addr_list_enc(l)
}

/// What parsing `count` records off the front of `s` yields.
pub open spec fn spec_addr_list_parse(s: Seq<u8>, count: int) -> Result<
    (Seq<NetAddrView>, int),
    DecodeError,
>
    decreases count,
{
    if count <= 0 {
        Ok((Seq::empty(), 0))
    } else {
        match spec_addr_list_parse(s, count - 1) {
            Err(e) => Err(e),
            Ok((l, n)) => match NetAddr::parse(s.skip(n)) {
                Err(e) => Err(e),
                Ok((a, m)) => Ok((l.push(a), n + m)),
            },
        }
    }
}

/// What parsing an `addr` payload yields: the count, then that many
/// records.
pub open spec fn spec_addr_payload_parse(s: Seq<u8>) -> Result<(Seq<NetAddrView>, int), DecodeError> {
    match spec_compact_size_parse(s) {
        Err(e) => Err(e),
        Ok((count, n1)) => match spec_addr_list_parse(s.skip(n1), count as int) {
            Err(e) => Err(e),
            Ok((l, n2)) => Ok((l, n1 + n2)),
        },
    }
}

/// The `addr` payload: the list of known peer addresses a node shares.
#[derive(Debug, PartialEq, Eq)]
pub struct AddrPayload {
    pub addrs: Vec<NetAddr>,
}

impl View for AddrPayload {
    type V = Seq<NetAddrView>;

    open spec fn view(&self) -> Seq<NetAddrView> {
        Seq::new(self.addrs@.len(), |i: int| self.addrs@[i]@)
    }
}

impl AddrPayload {
    /// Wrap a list of address records as an `addr` payload.
    pub fn new(addrs: Vec<NetAddr>) -> (r: AddrPayload)
        ensures
            r@ == Seq::new(addrs@.len(), |i: int| addrs@[i]@),
    {
        AddrPayload { addrs }
    }
}

/// A prefix of a record list never encodes to more bytes than the whole
/// list.
pub proof fn lemma_addr_list_enc_len_mono(l: Seq<NetAddrView>, j: int)
    requires
        0 <= j <= l.len(),
    ensures
        spec_addr_list_enc(l.take(j)).len() <= spec_addr_list_enc(l).len(),
    decreases l.len() - j,
{
    if j < l.len() {
        lemma_addr_list_enc_len_mono(l, j + 1);
        assert(l.take(j + 1).drop_last() =~= l.take(j));
    } else {
        assert(l.take(j) =~= l);
    }
}

impl Encodable for AddrPayload {
    open spec fn enc(&self) -> Seq<u8> {
        spec_addr_payload_enc(self@)
    }

    fn length(&self) -> (n: usize) {
        let count = self.addrs.len();
        proof {
            vstd::bytes::lemma_auto_spec_u16_to_from_le_bytes();
            vstd::bytes::lemma_auto_spec_u32_to_from_le_bytes();
            vstd::bytes::lemma_auto_spec_u64_to_from_le_bytes();
        }
        let prefix_len = CompactSize(count as u64).length();
        let mut total: usize = prefix_len;
        proof {
            assert(self@.take(0) =~= Seq::<NetAddrView>::empty());
        }
        let mut i: usize = 0;
        while i < count
            invariant
                i <= count,
                count == self.addrs@.len(),
                self.enc().len() <= usize::MAX,
                total == spec_compact_size_enc(count as u64).len() + spec_addr_list_enc(
                    self@.take(i as int),
                ).len(),
            decreases count - i,
        {
            let a = &self.addrs[i];
            proof {
                use_type_invariant(a);
                NetAddr::lemma_wf_ip(*a);
                vstd::bytes::lemma_auto_spec_u16_to_from_le_bytes();
                vstd::bytes::lemma_auto_spec_u32_to_from_le_bytes();
                vstd::bytes::lemma_auto_spec_u64_to_from_le_bytes();
                assert(self@.take(i + 1).drop_last() =~= self@.take(i as int));
                assert(self@.take(i + 1).last() == self@[i as int]);
                lemma_addr_list_enc_len_mono(self@, i + 1);
                assert(self@.take(self@.len() as int) =~= self@);
            }
            let sz = a.size();
            total = total + sz;
            i = i + 1;
        }
        proof {
            assert(self@.take(count as int) =~= self@);
        }
        total
    }

    fn encode<W: WriteBuf>(&self, buf: &mut W) {
        let ghost pre = buf.contents();
        let count = self.addrs.len();
        proof {
            vstd::bytes::lemma_auto_spec_u16_to_from_le_bytes();
            vstd::bytes::lemma_auto_spec_u32_to_from_le_bytes();
            vstd::bytes::lemma_auto_spec_u64_to_from_le_bytes();
        }
        CompactSize(count as u64).encode(buf);
        proof {
            assert(self@.take(0) =~= Seq::<NetAddrView>::empty());
        }
        let mut i: usize = 0;
        while i < count
            invariant
                i <= count,
                count == self.addrs@.len(),
                buf.contents() == pre + spec_compact_size_enc(count as u64) + spec_addr_list_enc(
                    self@.take(i as int),
                ),
            decreases count - i,
        {
            let a = &self.addrs[i];
            proof {
                use_type_invariant(a);
                NetAddr::lemma_wf_ip(*a);
                vstd::bytes::lemma_auto_spec_u16_to_from_le_bytes();
                vstd::bytes::lemma_auto_spec_u32_to_from_le_bytes();
                vstd::bytes::lemma_auto_spec_u64_to_from_le_bytes();
            }
            a.encode(buf);
            proof {
                assert(self@.take(i + 1).drop_last() =~= self@.take(i as int));
                assert(self@.take(i + 1).last() == self@[i as int]);
                assert(pre + spec_compact_size_enc(count as u64) + spec_addr_list_enc(
                    self@.take(i + 1),
                ) =~= (pre + spec_compact_size_enc(count as u64) + spec_addr_list_enc(
                    self@.take(i as int),
                )) + spec_net_addr_enc(self@[i as int]));
            }
            i = i + 1;
        }
        proof {
            assert(self@.take(count as int) =~= self@);
            assert(pre + spec_addr_payload_enc(self@) =~= pre + spec_compact_size_enc(
                count as u64,
            ) + spec_addr_list_enc(self@));
        }
    }

    fn to_vec(&self) -> (v: Vec<u8>) {
        let mut v: Vec<u8> = Vec::new();
        self.encode(&mut v);
        v
    }
}

impl Decodable for AddrPayload {
    open spec fn parse(s: Seq<u8>) -> Result<(Seq<NetAddrView>, int), DecodeError> {
        spec_addr_payload_parse(s)
    }

    proof fn lemma_parse_len(s: Seq<u8>) {
        CompactSize::lemma_parse_len(s);
        if spec_compact_size_parse(s) is Ok {
            let (count, n1) = spec_compact_size_parse(s)->Ok_0;
            lemma_addr_list_parse_len(s.skip(n1), count as int);
        }
    }

    fn decode<R: ReadBuf>(buf: &mut R) -> (r: Result<Self, DecodeError>) {
        let ghost s = buf.rem();
        let prefix = match CompactSize::decode(buf) {
            Ok(c) => c,
            Err(e) => {
                return Err(e);
            },
        };
        proof {
            CompactSize::lemma_parse_len(s);
        }
        let count = prefix.0;
        let ghost n1 = spec_compact_size_parse(s)->Ok_0.1;
        let ghost tail = s.skip(n1);
        let mut addrs: Vec<NetAddr> = Vec::new();
        let mut i: u64 = 0;
        while i < count
            invariant
                i <= count,
                s == old(buf).rem(),
                spec_compact_size_parse(s) == Ok::<(u64, int), DecodeError>((count, n1)),
                tail == s.skip(n1),
                buf.rem() == tail.skip(spec_addr_list_parse(tail, i as int)->Ok_0.1),
                spec_addr_list_parse(tail, i as int) matches Ok((l, n)) && l == Seq::new(
                    addrs@.len(),
                    |j: int| addrs@[j]@,
                ) && addrs@.len() == i,
            decreases count - i,
        {
            let ghost done = spec_addr_list_parse(tail, i as int)->Ok_0;
            let a = match NetAddr::decode(buf) {
                Ok(a) => a,
                Err(e) => {
                    proof {
                        lemma_addr_list_parse_err(tail, i as int, count as int);
                        assert(AddrPayload::parse(s) == Err::<
                            (Seq<NetAddrView>, int),
                            DecodeError,
                        >(e));
                    }
                    return Err(e);
                },
            };
            proof {
                lemma_addr_list_parse_len(tail, i as int);
                NetAddr::lemma_parse_len(tail.skip(done.1));
                assert(tail.skip(done.1).skip(30) =~= tail.skip(done.1 + 30));
                assert(Seq::new(addrs@.len() + 1, |j: int| addrs@.push(a)[j]@) =~= Seq::new(
                    addrs@.len(),
                    |j: int| addrs@[j]@,
                ).push(a@));
            }
            addrs.push(a);
            i = i + 1;
        }
        let r = AddrPayload { addrs };
        proof {
            CompactSize::lemma_parse_len(s);
            lemma_addr_list_parse_len(tail, count as int);
            assert(r@ =~= spec_addr_list_parse(tail, count as int)->Ok_0.0);
            let n2 = spec_addr_list_parse(tail, count as int)->Ok_0.1;
            assert(s.skip(n1).skip(n2) =~= s.skip(n1 + n2));
            assert(AddrPayload::parse(s) == Ok::<(Seq<NetAddrView>, int), DecodeError>(
                (spec_addr_list_parse(tail, count as int)->Ok_0.0, n1 + n2),
            ));
        }
        Ok(r)
    }
}

/// Parsing a record list consumes between zero and all of the input.
pub proof fn lemma_addr_list_parse_len(s: Seq<u8>, count: int)
    ensures
        spec_addr_list_parse(s, count) matches Ok((l, n)) ==> 0 <= n <= s.len(),
    decreases count,
{
    if count > 0 {
        lemma_addr_list_parse_len(s, count - 1);
        if spec_addr_list_parse(s, count - 1) is Ok {
            let n = spec_addr_list_parse(s, count - 1)->Ok_0.1;
            NetAddr::lemma_parse_len(s.skip(n));
        }
    }
}

/// Once one record fails to parse, asking for any larger count fails with
/// the same error.
pub proof fn lemma_addr_list_parse_err(s: Seq<u8>, i: int, count: int)
    requires
        0 <= i < count,
        spec_addr_list_parse(s, i) is Ok,
        NetAddr::parse(s.skip(spec_addr_list_parse(s, i)->Ok_0.1)) is Err,
    ensures
        spec_addr_list_parse(s, count) == Err::<(Seq<NetAddrView>, int), DecodeError>(
            NetAddr::parse(s.skip(spec_addr_list_parse(s, i)->Ok_0.1))->Err_0,
        ),
    decreases count,
{
    if i + 1 < count {
        lemma_addr_list_parse_err(s, i, count - 1);
    }
}

/// Decoding the encoding of any record list, with any trailing bytes after
/// it, gives back exactly those records and consumes exactly their bytes.
pub proof fn lemma_addr_list_round_trip(l: Seq<NetAddrView>, rest: Seq<u8>)
    requires
        forall|i: int| 0 <= i < l.len() ==> (#[trigger] l[i]).ip.len() == 16,
    ensures
        spec_addr_list_parse(spec_addr_list_enc(l) + rest, l.len() as int) == Ok::<
            (Seq<NetAddrView>, int),
            DecodeError,
        >((l, spec_addr_list_enc(l).len() as int)),
    decreases l.len(),
{
    lemma_addr_list_enc_len(l);
    if l.len() == 0 {
        assert(spec_addr_list_parse(spec_addr_list_enc(l) + rest, 0) == Ok::<
            (Seq<NetAddrView>, int),
            DecodeError,
        >((Seq::empty(), 0)));
        assert(l =~= Seq::<NetAddrView>::empty());
    } else {
        let front = l.drop_last();
        let last = l.last();
        lemma_addr_list_enc_len(front);
        let s = spec_addr_list_enc(l) + rest;
        assert(s =~= spec_addr_list_enc(front) + (spec_net_addr_enc(last) + rest));
        lemma_addr_list_round_trip(front, spec_net_addr_enc(last) + rest);
        let n = spec_addr_list_enc(front).len() as int;
        assert(s.skip(n) =~= spec_net_addr_enc(last) + rest);
        crate::commons::lemma_net_addr_round_trip(last, rest);
        assert(front.push(last) =~= l);
    }
}

/// Decoding the encoding of any `addr` payload, with any trailing bytes
/// after it, gives back exactly its records and consumes exactly its
/// bytes.
pub proof fn lemma_addr_payload_round_trip(l: Seq<NetAddrView>, rest: Seq<u8>)
    requires
        forall|i: int| 0 <= i < l.len() ==> (#[trigger] l[i]).ip.len() == 16,
        l.len() <= u64::MAX,
    ensures
        AddrPayload::parse(spec_addr_payload_enc(l) + rest) == Ok::<
            (Seq<NetAddrView>, int),
            DecodeError,
        >((l, spec_addr_payload_enc(l).len() as int)),
{
    lemma_addr_list_enc_len(l);
    let s = spec_addr_payload_enc(l) + rest;
    assert(s =~= spec_compact_size_enc(l.len() as u64) + (spec_addr_list_enc(l) + rest));
    crate::commons::lemma_compact_size_round_trip(l.len() as u64, spec_addr_list_enc(l) + rest);
    let n1 = crate::commons::spec_compact_size_len(l.len() as u64);
    assert(s.skip(n1) =~= spec_addr_list_enc(l) + rest);
    lemma_addr_list_round_trip(l, rest);
}

/// Parse an `addr` payload from the front of the given bytes.
pub fn decode(payload: Bytes) -> (r: Result<AddrPayload, DecodeError>)
    ensures
        match AddrPayload::parse(payload@) {
            Ok((v, n)) => r matches Ok(x) && x@ == v,
            Err(e) => r matches Err(e2) && e2 == e,
        },
{
    let mut b = payload;
    AddrPayload::decode(&mut b)
}

/// Serialize an `addr` payload to its wire bytes.
pub fn encode(addr: &AddrPayload) -> (r: Vec<u8>)
    requires
        addr.enc().len() <= usize::MAX,
    ensures
        r@ == addr.enc(),
{
    addr.to_vec()
}

impl AddrPayload {
    /// The exact number of bytes this payload encodes to, or `None` in
    /// the degenerate case where even that count overflows `u64`. Unlike
    /// `length`, this needs nothing from the caller, so it can be used to
    /// check a payload against a size limit before encoding it.
    pub fn encoded_len(&self) -> (r: Option<u64>)
        ensures
            match r {
                Some(n) => n == spec_addr_payload_enc(self@).len(),
                None => spec_addr_payload_enc(self@).len() > u64::MAX,
            },
    {
        let count = self.addrs.len();
        let mut i: usize = 0;
        while i < count
            invariant
                i <= count,
                count == self.addrs@.len(),
                forall|j: int| 0 <= j < i ==> (#[trigger] self@[j]).ip.len() == 16,
            decreases count - i,
        {
            let a = &self.addrs[i];
            proof {
                use_type_invariant(a);
                NetAddr::lemma_wf_ip(*a);
            }
            i = i + 1;
        }
        proof {
            vstd::bytes::lemma_auto_spec_u16_to_from_le_bytes();
            vstd::bytes::lemma_auto_spec_u32_to_from_le_bytes();
            vstd::bytes::lemma_auto_spec_u64_to_from_le_bytes();
            lemma_addr_list_enc_len(self@);
        }
        let prefix: u64 = if count < 0xFD {
            1
        } else if count <= 0xFFFF {
            3
        } else if (count as u64) <= 0xFFFF_FFFF {
            5
        } else {
            9
        };
        if (count as u64) > (u64::MAX - 9) / 30 {
            proof {
                vstd::arithmetic::div_mod::lemma_fundamental_div_mod((u64::MAX - 9) as int, 30);
            }
            return None;
        }
        Some(prefix + 30 * (count as u64))
    }
}

} // verus!
