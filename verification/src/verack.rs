//! The `verack` payload: the acknowledgement half of the handshake. It
//! carries no bytes at all; the message consists of the envelope alone.

use vstd::prelude::*;

use crate::decode::{Decodable, DecodeError, ReadBuf};
use crate::encode::{Encodable, WriteBuf};

verus! {

/// The empty `verack` payload.
#[derive(Clone, Copy, Debug, PartialEq, Eq, Structural)]
pub struct VerackMsgPayload;

impl VerackMsgPayload {
    /// The one value of this payload.
    pub fn new() -> (r: VerackMsgPayload)
        ensures
            r == VerackMsgPayload,
    {
        VerackMsgPayload
    }
}

impl View for VerackMsgPayload {
    type V = ();

    open spec fn view(&self) -> () {
        ()
    }
}

impl Encodable for VerackMsgPayload {
    open spec fn enc(&self) -> Seq<u8> {
        Seq::empty()
    }

    fn length(&self) -> (n: usize) {
        0
    }

    fn encode<W: WriteBuf>(&self, buf: &mut W) {
        proof {
            assert(old(buf).contents() + Seq::<u8>::empty() =~= old(buf).contents());
        }
    }

    fn to_vec(&self) -> (v: Vec<u8>) {
        let v: Vec<u8> = Vec::new();
        proof {
            assert(v@ =~= Seq::<u8>::empty());
        }
        v
    }
}

impl Decodable for VerackMsgPayload {
    open spec fn parse(s: Seq<u8>) -> Result<((), int), DecodeError> {
        Ok(((), 0))
    }

    proof fn lemma_parse_len(s: Seq<u8>) {
    }

    fn decode<R: ReadBuf>(buf: &mut R) -> (r: Result<Self, DecodeError>) {
        proof {
            assert(old(buf).rem().skip(0) =~= old(buf).rem());
        }
        Ok(VerackMsgPayload)
    }
}

} // verus!
