//! The `getaddr` message: a request for known peer addresses. Its payload
//! is empty; the message is the envelope alone.

use vstd::prelude::*;

use crate::bytes::BytesMut;
use crate::message::{
    command_get_addr_bytes, encode_message, spec_command_get_addr, spec_message_enc, Command,
    CommandView, Message, MessageView,
};
use crate::NetworkType;

verus! {

/// The `getaddr` command name together with its payload bytes: the
/// 12-byte NUL-padded name and an empty payload.
pub fn command_name_and_payload() -> (r: (Vec<u8>, Vec<u8>))
    ensures
        r.0@ == spec_command_get_addr(),
        r.1@ == Seq::<u8>::empty(),
{
    let name = command_get_addr_bytes();
    let payload: Vec<u8> = Vec::new();
    proof {
        assert(payload@ =~= Seq::<u8>::empty());
    }
    (name, payload)
}

/// The payload bytes of a `getaddr` message: there are none.
pub fn encode() -> (r: Vec<u8>)
    ensures
        r@ == Seq::<u8>::empty(),
{
    let r: Vec<u8> = Vec::new();
    proof {
        assert(r@ =~= Seq::<u8>::empty());
    }
    r
}

/// Serialize a whole `getaddr` message for the given network into the
/// write buffer.
pub fn encode_get_addr_msg(net_type: NetworkType, dst: &mut BytesMut)
    ensures
        final(dst)@ == old(dst)@ + spec_message_enc(
            MessageView { network: net_type, command: CommandView::GetAddr },
        ),
{
    let msg = Message::new(net_type, Command::GetAddr);
    encode_message(&msg, dst);
}

} // verus!
