//! Wire-level codec for a Bitcoin-style peer-to-peer binary messaging
//! protocol: byte buffers, endian-aware primitive codecs, the CompactSize
//! variable-length integer, a from-scratch SHA-256 engine, the 24-byte
//! message envelope with its double-SHA-256 checksum, and a streaming frame
//! decoder that turns an accumulating receive buffer into complete messages.

use vstd::prelude::*;

pub mod addr;
pub mod buffer;
pub mod bytes;
pub mod commons;
pub mod decode;
pub mod encode;
pub mod endian;
pub mod get_addr;
pub mod message;
pub mod rand;
pub mod sha2;
pub mod verack;
pub mod version;

verus! {

/// Magic number identifying the main network, as a little-endian `u32`.
pub const MAGIC_MAIN: u32 = 0xd9b4bef9;

/// Magic number identifying the Testnet3 network.
pub const MAGIC_TEST3: u32 = 0x0709110b;

/// Magic number identifying the regression-test network.
pub const MAGIC_REGTEST: u32 = 0xdab5bffa;

/// The network a message belongs to. Every message envelope starts with the
/// network's magic number, so a decoder can reject messages from the wrong
/// network before looking at anything else.
#[derive(Clone, Copy, Debug, PartialEq, Eq, Structural)]
pub enum NetworkType {
    Main,
    Testnet3,
    Regtest,
}

impl NetworkType {
    /// The magic number of this network.
    pub fn magic_num(&self) -> (n: u32)
        ensures
            n == self.spec_magic_num(),
    {
        match *self {
            NetworkType::Main => MAGIC_MAIN,
            NetworkType::Testnet3 => MAGIC_TEST3,
            NetworkType::Regtest => MAGIC_REGTEST,
        }
    }

    /// The magic number of this network, as a specification-level value.
    pub open spec fn spec_magic_num(self) -> u32 {
        match self {
            NetworkType::Main => MAGIC_MAIN,
            NetworkType::Testnet3 => MAGIC_TEST3,
            NetworkType::Regtest => MAGIC_REGTEST,
        }
    }

    /// The network a magic number belongs to, if any.
    pub open spec fn spec_from_magic_num(magic: u32) -> Option<NetworkType> {
        if magic == MAGIC_MAIN {
            Some(NetworkType::Main)
        } else if magic == MAGIC_TEST3 {
            Some(NetworkType::Testnet3)
        } else if magic == MAGIC_REGTEST {
            Some(NetworkType::Regtest)
        } else {
            None
        }
    }

    /// The 4 bytes that open every frame of this network: the magic
    /// number in its little-endian wire order.
    pub fn start_string(&self) -> (r: Vec<u8>)
        ensures
            r@ == vstd::bytes::spec_u32_to_le_bytes(self.spec_magic_num()),
    {
        vstd::bytes::u32_to_le_bytes(self.magic_num())
    }

    /// Map a magic number back to its network; `None` for an unrecognized
    /// value.
    pub fn from_magic_num(magic: u32) -> (r: Option<NetworkType>)
        ensures
            r == NetworkType::spec_from_magic_num(magic),
    {
        if magic == MAGIC_MAIN {
            Some(NetworkType::Main)
        } else if magic == MAGIC_TEST3 {
            Some(NetworkType::Testnet3)
        } else if magic == MAGIC_REGTEST {
            Some(NetworkType::Regtest)
        } else {
            None
        }
    }
}

} // verus!
