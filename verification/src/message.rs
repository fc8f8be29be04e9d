//! The message envelope and the streaming frame decoder. A frame is a
//! 24-byte header — magic number, 12-byte NUL-padded command name,
//! little-endian payload length, checksum — followed by the payload; the
//! checksum is the first 4 bytes of the double SHA-256 of the payload. The
//! streaming decoder turns an arbitrarily-chunked receive buffer into
//! complete messages, telling "not enough bytes yet" apart from
//! corruption.

use vstd::bytes::{
    lemma_auto_spec_u32_to_from_le_bytes, spec_u32_from_le_bytes, spec_u32_to_le_bytes,
    u32_from_le_bytes,
};
use vstd::prelude::*;

use crate::addr::{spec_addr_payload_enc, AddrPayload};
use crate::buffer::Buffer;
use crate::bytes::Bytes;
use crate::decode::{Decodable, DecodeError, ReadBuf};
use crate::encode::{Encodable, WriteBuf};
use crate::endian::u32_l;
use crate::sha2::{checksum, spec_checksum};
use crate::version::{spec_version_enc, VersionMsgPayload, VersionView};
use crate::NetworkType;

verus! {

broadcast use vstd::std_specs::vec::group_vec_axioms;

/// Every frame starts with a header of this many bytes.
pub const SIZE_OF_HEADER: usize = 24;

/// The payload of a message, tagged by its command. The protocol has a
/// small, fixed set of message kinds, so the payload universe is a closed
/// sum keyed by the 12-byte command constant.
#[derive(Debug, PartialEq, Eq)]
pub enum Command {
    Version(VersionMsgPayload),
    Verack,
    Addr(AddrPayload),
    GetAddr,
}

/// The payload of a message, as plain values.
pub ghost enum CommandView {
    Version(VersionView),
    Verack,
    Addr(Seq<crate::commons::NetAddrView>),
    GetAddr,
}

impl View for Command {
    type V = CommandView;

    open spec fn view(&self) -> CommandView {
        match self {
            Command::Version(p) => CommandView::Version(p@),
            Command::Verack => CommandView::Verack,
            Command::Addr(a) => CommandView::Addr(a@),
            Command::GetAddr => CommandView::GetAddr,
        }
    }
}

/// The 12 NUL-padded ASCII bytes naming the `version` command.
pub open spec fn spec_command_version() -> Seq<u8> {
    seq![0x76u8, 0x65, 0x72, 0x73, 0x69, 0x6f, 0x6e, 0, 0, 0, 0, 0]
}

/// The 12 NUL-padded ASCII bytes naming the `verack` command.
pub open spec fn spec_command_verack() -> Seq<u8> {
    seq![0x76u8, 0x65, 0x72, 0x61, 0x63, 0x6b, 0, 0, 0, 0, 0, 0]
}

/// The 12 NUL-padded ASCII bytes naming the `addr` command.
pub open spec fn spec_command_addr() -> Seq<u8> {
    seq![0x61u8, 0x64, 0x64, 0x72, 0, 0, 0, 0, 0, 0, 0, 0]
}

/// The 12 NUL-padded ASCII bytes naming the `getaddr` command.
pub open spec fn spec_command_get_addr() -> Seq<u8> {
    seq![0x67u8, 0x65, 0x74, 0x61, 0x64, 0x64, 0x72, 0, 0, 0, 0, 0]
}

/// The command name a payload is framed under.
pub open spec fn spec_command_bytes(c: CommandView) -> Seq<u8> {
    match c {
        CommandView::Version(_) => spec_command_version(),
        CommandView::Verack => spec_command_verack(),
        CommandView::Addr(_) => spec_command_addr(),
        CommandView::GetAddr => spec_command_get_addr(),
    }
}

/// The payload bytes a command serializes to.
pub open spec fn spec_payload_enc(c: CommandView) -> Seq<u8> {
    match c {
        CommandView::Version(v) => spec_version_enc(v),
        CommandView::Verack => Seq::empty(),
        CommandView::Addr(l) => spec_addr_payload_enc(l),
        CommandView::GetAddr => Seq::empty(),
    }
}

/// A message: a network and a command-tagged payload.
#[derive(Debug, PartialEq, Eq)]
pub struct Message {
    network_type: NetworkType,
    command: Command,
}

/// A message, as plain values.
pub ghost struct MessageView {
    pub network: NetworkType,
    pub command: CommandView,
}

impl View for Message {
    type V = MessageView;

    closed spec fn view(&self) -> MessageView {
        MessageView { network: self.network_type, command: self.command@ }
    }
}

impl Message {
    /// Wrap a payload for the given network.
    pub fn new(network_type: NetworkType, command: Command) -> (r: Message)
        ensures
            r@ == (MessageView { network: network_type, command: command@ }),
    {
        Message { network_type, command }
    }

    /// The network this message belongs to.
    pub fn net_type(&self) -> (n: NetworkType)
        ensures
            n == self@.network,
    {
        self.network_type
    }

    /// The command-tagged payload.
    pub fn command(&self) -> (c: &Command)
        ensures
            c@ == self@.command,
    {
        &self.command
    }
}

/// The full wire encoding of a message: magic, command name, payload
/// length, checksum, payload.
pub open spec fn spec_message_enc(m: MessageView) -> Seq<u8> {
    let payload = spec_payload_enc(m.command);
    spec_u32_to_le_bytes(m.network.spec_magic_num()) + spec_command_bytes(m.command)
        + spec_u32_to_le_bytes(payload.len() as u32) + spec_checksum(payload) + payload
}

/// What parsing a frame yields. The header must be complete; the magic
/// must name a known network and the command a known message kind, else
/// the frame is corrupt; the payload must be complete; the stored checksum
/// must match the payload's double SHA-256; and the payload itself must
/// parse under its command.
pub open spec fn spec_message_parse(s: Seq<u8>) -> Result<(MessageView, int), DecodeError> {
    if s.len() < 24 {
        Err(DecodeError::ShortLength)
    } else {
        let magic = spec_u32_from_le_bytes(s.subrange(0, 4));
        let cmd = s.subrange(4, 16);
        match NetworkType::spec_from_magic_num(magic) {
            None => Err(DecodeError::InvalidBytes),
            Some(network) => {
                if cmd != spec_command_version() && cmd != spec_command_verack() && cmd
                    != spec_command_addr() && cmd != spec_command_get_addr() {
                    Err(DecodeError::InvalidBytes)
                } else {
                    let plen = spec_u32_from_le_bytes(s.subrange(16, 20)) as int;
                    if s.len() < 24 + plen {
                        Err(DecodeError::ShortLength)
                    } else {
                        let cksum = s.subrange(20, 24);
                        let payload = s.subrange(24, 24 + plen);
                        if cksum != spec_checksum(payload) {
                            Err(DecodeError::InvalidBytes)
                        } else if cmd == spec_command_version() {
                            match crate::version::spec_version_parse(payload) {
                                Err(e) => Err(e),
                                Ok((v, _)) => Ok(
                                    (
                                        MessageView {
                                            network,
                                            command: CommandView::Version(v),
                                        },
                                        24 + plen,
                                    ),
                                ),
                            }
                        } else if cmd == spec_command_verack() {
                            Ok((MessageView { network, command: CommandView::Verack }, 24 + plen))
                        } else if cmd == spec_command_addr() {
                            match crate::addr::spec_addr_payload_parse(payload) {
                                Err(e) => Err(e),
                                Ok((l, _)) => Ok(
                                    (
                                        MessageView { network, command: CommandView::Addr(l) },
                                        24 + plen,
                                    ),
                                ),
                            }
                        } else {
                            Ok((MessageView { network, command: CommandView::GetAddr }, 24 + plen))
                        }
                    }
                }
            },
        }
    }
}

/// Whether two byte slices hold the same bytes.
fn bytes_eq(a: &[u8], b: &[u8]) -> (r: bool)
    ensures
        r == (a@ == b@),
{
    let n = a.len();
    if n != b.len() {
        proof {
            assert(a@.len() != b@.len());
        }
        return false;
    }
    let mut i: usize = 0;
    while i < n
        invariant
            i <= n,
            n == a@.len(),
            n == b@.len(),
            forall|j: int| 0 <= j < i ==> a@[j] == b@[j],
        decreases n - i,
    {
        if *vstd::slice::slice_index_get(a, i) != *vstd::slice::slice_index_get(b, i) {
            return false;
        }
        i = i + 1;
    }
    proof {
        assert(a@ =~= b@);
    }
    true
}

/// The `version` command name, as 12 bytes.
fn command_version_bytes() -> (v: Vec<u8>)
    ensures
        v@ == spec_command_version(),
        v@.len() == 12,
{
    let mut v: Vec<u8> = Vec::with_capacity(12);
    v.push(0x76);
    v.push(0x65);
    v.push(0x72);
    v.push(0x73);
    v.push(0x69);
    v.push(0x6f);
    v.push(0x6e);
    v.push(0);
    v.push(0);
    v.push(0);
    v.push(0);
    v.push(0);
    proof {
        assert(v@ =~= spec_command_version());
    }
    v
}

/// The `verack` command name, as 12 bytes.
fn command_verack_bytes() -> (v: Vec<u8>)
    ensures
        v@ == spec_command_verack(),
        v@.len() == 12,
{
    let mut v: Vec<u8> = Vec::with_capacity(12);
    v.push(0x76);
    v.push(0x65);
    v.push(0x72);
    v.push(0x61);
    v.push(0x63);
    v.push(0x6b);
    v.push(0);
    v.push(0);
    v.push(0);
    v.push(0);
    v.push(0);
    v.push(0);
    proof {
        assert(v@ =~= spec_command_verack());
    }
    v
}

/// The `addr` command name, as 12 bytes.
fn command_addr_bytes() -> (v: Vec<u8>)
    ensures
        v@ == spec_command_addr(),
        v@.len() == 12,
{
    let mut v: Vec<u8> = Vec::with_capacity(12);
    v.push(0x61);
    v.push(0x64);
    v.push(0x64);
    v.push(0x72);
    v.push(0);
    v.push(0);
    v.push(0);
    v.push(0);
    v.push(0);
    v.push(0);
    v.push(0);
    v.push(0);
    proof {
        assert(v@ =~= spec_command_addr());
    }
    v
}

/// The `getaddr` command name, as 12 bytes.
pub fn command_get_addr_bytes() -> (v: Vec<u8>)
    ensures
        v@ == spec_command_get_addr(),
        v@.len() == 12,
{
    let mut v: Vec<u8> = Vec::with_capacity(12);
    v.push(0x67);
    v.push(0x65);
    v.push(0x74);
    v.push(0x61);
    v.push(0x64);
    v.push(0x64);
    v.push(0x72);
    v.push(0);
    v.push(0);
    v.push(0);
    v.push(0);
    v.push(0);
    proof {
        assert(v@ =~= spec_command_get_addr());
    }
    v
}

/// The command name of a payload, as 12 bytes.
fn command_bytes_of(c: &Command) -> (v: Vec<u8>)
    ensures
        v@ == spec_command_bytes(c@),
        v@.len() == 12,
{
    match c {
        Command::Version(_) => command_version_bytes(),
        Command::Verack => command_verack_bytes(),
        Command::Addr(_) => command_addr_bytes(),
        Command::GetAddr => command_get_addr_bytes(),
    }
}

/// The payload bytes of a command.
fn payload_to_vec(c: &Command) -> (v: Vec<u8>)
    requires
        spec_payload_enc(c@).len() <= usize::MAX,
    ensures
        v@ == spec_payload_enc(c@),
{
    match c {
        Command::Version(p) => p.to_vec(),
        Command::Verack => {
            let v: Vec<u8> = Vec::new();
            proof {
                assert(v@ =~= Seq::<u8>::empty());
            }
            v
        },
        Command::Addr(a) => a.to_vec(),
        Command::GetAddr => {
            let v: Vec<u8> = Vec::new();
            proof {
                assert(v@ =~= Seq::<u8>::empty());
            }
            v
        },
    }
}

/// Serialize a message into the write buffer: magic, command name,
/// payload length, the payload's double-SHA-256 checksum, then the
/// payload itself.
pub fn encode_message(msg: &Message, dst: &mut crate::bytes::BytesMut)
    requires
        spec_payload_enc(msg@.command).len() <= u32::MAX,
    ensures
        final(dst)@ == old(dst)@ + spec_message_enc(msg@),
{
    proof {
        lemma_auto_spec_u32_to_from_le_bytes();
    }
    let ghost pre = dst@;
    let payload = payload_to_vec(&msg.command);
    let magic = u32_l::new(msg.network_type.magic_num());
    let name = command_bytes_of(&msg.command);
    let plen = u32_l::new(payload.len() as u32);
    let cksum = checksum(payload.as_slice());
    dst.reserve_buffer(24);
    dst.reserve_buffer(payload.len());
    magic.encode(dst);
    dst.write_bytes(name.as_slice());
    plen.encode(dst);
    dst.write_bytes(cksum.as_slice());
    dst.write_bytes(payload.as_slice());
    proof {
        assert(dst@ =~= pre + spec_message_enc(msg@));
    }
}

impl Decodable for Message {
    open spec fn parse(s: Seq<u8>) -> Result<(MessageView, int), DecodeError> {
        spec_message_parse(s)
    }

    proof fn lemma_parse_len(s: Seq<u8>) {
    }

    fn decode<R: ReadBuf>(buf: &mut R) -> (r: Result<Self, DecodeError>) {
        proof {
            lemma_auto_spec_u32_to_from_le_bytes();
        }
        let ghost s = buf.rem();
        if buf.remaining() < 24 {
            return Err(DecodeError::ShortLength);
        }
        let magic_bytes = match buf.read_bytes(4) {
            Ok(v) => v,
            Err(e) => {
                return Err(e);
            },
        };
        let magic = u32_from_le_bytes(magic_bytes.as_slice());
        proof {
            assert(s.take(4) =~= s.subrange(0, 4));
        }
        let network_type = match NetworkType::from_magic_num(magic) {
            Some(n) => n,
            None => {
                return Err(DecodeError::InvalidBytes);
            },
        };
        let cmd = match buf.read_bytes(12) {
            Ok(v) => v,
            Err(e) => {
                return Err(e);
            },
        };
        proof {
            assert(s.skip(4).take(12) =~= s.subrange(4, 16));
            assert(s.skip(4).skip(12) =~= s.skip(16));
        }
        let is_version = bytes_eq(cmd.as_slice(), command_version_bytes().as_slice());
        let is_verack = bytes_eq(cmd.as_slice(), command_verack_bytes().as_slice());
        let is_addr = bytes_eq(cmd.as_slice(), command_addr_bytes().as_slice());
        let is_get_addr = bytes_eq(cmd.as_slice(), command_get_addr_bytes().as_slice());
        if !is_version && !is_verack && !is_addr && !is_get_addr {
            return Err(DecodeError::InvalidBytes);
        }
        let len_bytes = match buf.read_bytes(4) {
            Ok(v) => v,
            Err(e) => {
                return Err(e);
            },
        };
        let plen_u32 = u32_from_le_bytes(len_bytes.as_slice());
        proof {
            assert(s.skip(16).take(4) =~= s.subrange(16, 20));
            assert(s.skip(16).skip(4) =~= s.skip(20));
        }
        let stored_cksum = match buf.read_bytes(4) {
            Ok(v) => v,
            Err(e) => {
                return Err(e);
            },
        };
        proof {
            assert(s.skip(20).take(4) =~= s.subrange(20, 24));
            assert(s.skip(20).skip(4) =~= s.skip(24));
        }
        let avail = buf.remaining();
        if (avail as u64) < (plen_u32 as u64) {
            return Err(DecodeError::ShortLength);
        }
        let plen = plen_u32 as usize;
        let payload = match buf.read_bytes(plen) {
            Ok(v) => v,
            Err(e) => {
                return Err(e);
            },
        };
        proof {
            assert(s.skip(24).take(plen_u32 as int) =~= s.subrange(24, 24 + plen_u32 as int));
            assert(s.skip(24).skip(plen_u32 as int) =~= s.skip(24 + plen_u32 as int));
            assert(payload@.len() * 8 <= u64::MAX);
        }
        let computed = checksum(payload.as_slice());
        if !bytes_eq(computed.as_slice(), stored_cksum.as_slice()) {
            return Err(DecodeError::InvalidBytes);
        }
        let mut pb = Bytes::new(payload.as_slice());
        let command = if is_version {
            match VersionMsgPayload::decode(&mut pb) {
                Ok(p) => Command::Version(p),
                Err(e) => {
                    return Err(e);
                },
            }
        } else if is_verack {
            Command::Verack
        } else if is_addr {
            match AddrPayload::decode(&mut pb) {
                Ok(a) => Command::Addr(a),
                Err(e) => {
                    return Err(e);
                },
            }
        } else {
            Command::GetAddr
        };
        Ok(Message { network_type, command })
    }
}

/// The payload length a complete header declares, read little-endian at
/// its fixed offset.
pub open spec fn spec_frame_payload_len(s: Seq<u8>) -> int
    recommends
        s.len() >= 24,
{
    spec_u32_from_le_bytes(s.subrange(16, 20)) as int
}

/// How many bytes the frame at the front of `s` occupies: the header plus
/// its declared payload.
pub open spec fn spec_frame_size(s: Seq<u8>) -> int
    recommends
        s.len() >= 24,
{
    24 + spec_frame_payload_len(s)
}

/// Whether the buffer holds at least one complete frame: the whole header
/// and the whole declared payload.
pub open spec fn spec_frame_ready(s: Seq<u8>) -> bool {
    s.len() >= 24 && s.len() >= spec_frame_size(s)
}

/// Extract one message from the front of the accumulating receive buffer,
/// if a complete frame has arrived.
///
/// With less than a complete frame buffered, nothing is consumed and the
/// result is `Ok(None)`: keep reading. Once the frame is complete, exactly
/// its bytes are removed from the front of the buffer — the one and only
/// consuming operation — and the frame is decoded: a well-formed frame
/// yields `Ok(Some(message))`, and any decode failure on the
/// already-complete frame (bad magic, unknown command, checksum mismatch,
/// malformed payload) is corruption, reported as `InvalidBytes` and fatal
/// for the connection. A short read is never misreported as corruption,
/// and a corrupt frame never as a short read.
pub fn decode_message(src: &mut Buffer) -> (r: Result<Option<Message>, DecodeError>)
    ensures
        !spec_frame_ready(old(src)@) ==> {
            &&& r matches Ok(m) && m is None
            &&& final(src)@ == old(src)@
        },
        spec_frame_ready(old(src)@) ==> {
            &&& final(src)@ == old(src)@.skip(spec_frame_size(old(src)@))
            &&& match Message::parse(old(src)@.take(spec_frame_size(old(src)@))) {
                Ok((mv, n)) => r matches Ok(m) && m matches Some(msg) && msg@ == mv,
                Err(e) => r matches Err(e2) && e2 == DecodeError::InvalidBytes,
            }
        },
{
    proof {
        lemma_auto_spec_u32_to_from_le_bytes();
    }
    let n = src.len();
    if n < 24 {
        return Ok(None);
    }
    let plen_u32 = {
        let sl = src.as_slice();
        let len_slice = vstd::slice::slice_subrange(sl, 16, 20);
        proof {
            assert(len_slice@ =~= src@.subrange(16, 20));
        }
        u32_from_le_bytes(len_slice)
    };
    if ((n as u64) - 24) < (plen_u32 as u64) {
        return Ok(None);
    }
    let total = 24 + (plen_u32 as usize);
    let mut frame = {
        let sl = src.as_slice();
        let frame_slice = vstd::slice::slice_subrange(sl, 0, total);
        proof {
            assert(frame_slice@ =~= src@.take(total as int));
        }
        Bytes::new(frame_slice)
    };
    src.drop_front(total);
    match Message::decode(&mut frame) {
        Ok(m) => Ok(Some(m)),
        Err(_) => Err(DecodeError::InvalidBytes),
    }
}

/// The four command constants are pairwise distinct.
pub proof fn lemma_commands_distinct()
    ensures
        spec_command_version() != spec_command_verack(),
        spec_command_version() != spec_command_addr(),
        spec_command_version() != spec_command_get_addr(),
        spec_command_verack() != spec_command_addr(),
        spec_command_verack() != spec_command_get_addr(),
        spec_command_addr() != spec_command_get_addr(),
{
    assert(spec_command_version()[3] == 0x73);
    assert(spec_command_verack()[3] == 0x61);
    assert(spec_command_addr()[0] == 0x61);
    assert(spec_command_version()[0] == 0x76);
    assert(spec_command_get_addr()[0] == 0x67);
    assert(spec_command_addr()[2] == 0x64);
    assert(spec_command_verack()[2] == 0x72);
}

/// The side conditions under which a message view is encodable at all:
/// each address record carries a full 16-byte IP, a user agent's UTF-8
/// form fits the CompactSize prefix, an address list's count fits its
/// prefix, and the payload fits the header's 32-bit length field.
pub open spec fn spec_message_wf(m: MessageView) -> bool {
    &&& match m.command {
        CommandView::Version(v) => {
            &&& v.remote_addr.ip.len() == 16
            &&& v.local_addr.ip.len() == 16
            &&& vstd::utf8::encode_utf8(v.user_agent).len() <= u64::MAX
        },
        CommandView::Addr(l) => {
            &&& forall|i: int| 0 <= i < l.len() ==> (#[trigger] l[i]).ip.len() == 16
            &&& l.len() <= u64::MAX
        },
        CommandView::Verack => true,
        CommandView::GetAddr => true,
    }
    &&& spec_payload_enc(m.command).len() <= u32::MAX
}

/// Parsing the encoding of any well-formed message gives back exactly
/// that message — network, command and every payload field — and consumes
/// exactly its bytes: the envelope codec round-trips.
#[verifier::rlimit(100)]
#[verifier::spinoff_prover]
pub proof fn lemma_message_round_trip(m: MessageView)
    requires
        spec_message_wf(m),
    ensures
        spec_message_parse(spec_message_enc(m)) == Ok::<(MessageView, int), DecodeError>(
            (m, spec_message_enc(m).len() as int),
        ),
{
    lemma_auto_spec_u32_to_from_le_bytes();
    lemma_commands_distinct();
    let payload = spec_payload_enc(m.command);
    let plen = payload.len() as int;
    let s = spec_message_enc(m);
    assert(s.len() == 24 + plen);
    assert(s.subrange(0, 4) =~= spec_u32_to_le_bytes(m.network.spec_magic_num()));
    assert(s.subrange(4, 16) =~= spec_command_bytes(m.command));
    assert(s.subrange(16, 20) =~= spec_u32_to_le_bytes(payload.len() as u32));
    assert(s.subrange(20, 24) =~= spec_checksum(payload));
    assert(s.subrange(24, 24 + plen) =~= payload);
    assert(NetworkType::spec_from_magic_num(m.network.spec_magic_num()) == Some(m.network));
    match m.command {
        CommandView::Version(v) => {
            crate::version::lemma_version_round_trip(v, Seq::empty());
            assert(spec_version_enc(v) + Seq::<u8>::empty() =~= spec_version_enc(v));
        },
        CommandView::Addr(l) => {
            crate::addr::lemma_addr_payload_round_trip(l, Seq::empty());
            assert(spec_addr_payload_enc(l) + Seq::<u8>::empty() =~= spec_addr_payload_enc(l));
        },
        CommandView::Verack => {},
        CommandView::GetAddr => {},
    }
}

/// The exact byte length of a command's payload, or `None` in the
/// degenerate case where even that count overflows `u64`.
pub fn payload_encoded_len(c: &Command) -> (r: Option<u64>)
    ensures
        match r {
            Some(n) => n == spec_payload_enc(c@).len(),
            None => spec_payload_enc(c@).len() > u64::MAX,
        },
{
    match c {
        Command::Version(p) => p.encoded_len(),
        Command::Addr(a) => a.encoded_len(),
        Command::Verack => Some(0),
        Command::GetAddr => Some(0),
    }
}

/// Serialize a message after checking that its payload fits the header's
/// 32-bit length field. Returns whether it fit; when it did not, the
/// buffer is left untouched.
pub fn encode_message_checked(msg: &Message, dst: &mut crate::bytes::BytesMut) -> (ok: bool)
    ensures
        ok == (spec_payload_enc(msg@.command).len() <= u32::MAX),
        ok ==> final(dst)@ == old(dst)@ + spec_message_enc(msg@),
        !ok ==> final(dst)@ == old(dst)@,
{
    let fits = match payload_encoded_len(&msg.command) {
        Some(n) => n <= 0xFFFF_FFFF,
        None => false,
    };
    if fits {
        encode_message(msg, dst);
        true
    } else {
        false
    }
}

/// The streaming decoder, given a buffer starting with the encoding of
/// any well-formed message, sees a complete frame of exactly that
/// encoding's size, and parsing that frame gives back exactly that
/// message. Together with the contract of `decode_message`, this pins the
/// whole outbound-then-inbound path: each encoded frame is consumed from
/// the front of the stream, one call per frame, whatever bytes follow it.
#[verifier::rlimit(100)]
#[verifier::spinoff_prover]
pub proof fn lemma_stream_round_trip(m: MessageView, rest: Seq<u8>)
    requires
        spec_message_wf(m),
    ensures
        spec_frame_ready(spec_message_enc(m) + rest),
        spec_frame_size(spec_message_enc(m) + rest) == spec_message_enc(m).len(),
        Message::parse((spec_message_enc(m) + rest).take(spec_message_enc(m).len() as int)) == Ok::<
            (MessageView, int),
            DecodeError,
        >((m, spec_message_enc(m).len() as int)),
{
    lemma_auto_spec_u32_to_from_le_bytes();
    lemma_message_round_trip(m);
    let enc = spec_message_enc(m);
    let payload = spec_payload_enc(m.command);
    let s = enc + rest;
    assert(enc.len() == 24 + payload.len());
    assert(s.subrange(16, 20) =~= enc.subrange(16, 20));
    assert(enc.subrange(16, 20) =~= spec_u32_to_le_bytes(payload.len() as u32));
    assert(s.take(enc.len() as int) =~= enc);
}

} // verus!
