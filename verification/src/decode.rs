//! The decoding half of the codec capability framework: the `Decodable`
//! trait, the `ReadBuf` abstraction over cursor-style byte readers, and the
//! error kind that tells "not enough bytes yet" apart from "corrupt bytes".

use vstd::prelude::*;

verus! {

/// Why a decode failed.
///
/// `ShortLength` means the input ended before the value was complete; the
/// caller may retry once more bytes have arrived. `InvalidBytes` means the
/// bytes were present but semantically wrong (bad UTF-8, bad magic number,
/// checksum mismatch); the value can never be recovered by waiting.
#[derive(Clone, Copy, Debug, PartialEq, Eq, Structural)]
pub enum DecodeError {
    ShortLength,
    InvalidBytes,
}

/// A cursor-style reader over a byte sequence. The remaining bytes are
/// `self.rem()`; reading consumes from the front and only ever moves
/// forward.
pub trait ReadBuf {
    /// The bytes not yet consumed.
    spec fn rem(&self) -> Seq<u8>;

    /// How many bytes remain to be read.
    fn remaining(&self) -> (n: usize)
        ensures
            n == self.rem().len(),
    ;

    /// Read and consume exactly `n` bytes, or fail with `ShortLength` and
    /// consume nothing when fewer than `n` remain.
    fn read_bytes(&mut self, n: usize) -> (r: Result<Vec<u8>, DecodeError>)
        ensures
            match r {
                Ok(v) => {
                    &&& n <= old(self).rem().len()
                    &&& v@ == old(self).rem().take(n as int)
                    &&& final(self).rem() == old(self).rem().skip(n as int)
                },
                Err(e) => {
                    &&& e == DecodeError::ShortLength
                    &&& old(self).rem().len() < n
                    &&& final(self).rem() == old(self).rem()
                },
            },
    ;

}

/// A value that can be parsed back out of a byte sequence.
///
/// The whole behaviour of `decode` is pinned by the specification function
/// `parse`: on the abstract level, `parse` either yields the decoded value's
/// view together with the exact number of bytes consumed, or the error the
/// decoder must report.
pub trait Decodable: Sized + View {
    /// What decoding yields on the given bytes: the decoded value's view and
    /// the number of bytes consumed, or the error.
    spec fn parse(s: Seq<u8>) -> Result<(Self::V, int), DecodeError>;

    /// A successful parse consumes between zero and all of the input bytes.
    proof fn lemma_parse_len(s: Seq<u8>)
        ensures
            Self::parse(s) matches Ok((v, n)) ==> 0 <= n <= s.len(),
    ;

    /// Decode a value from the front of `buf`, consuming exactly the bytes
    /// `parse` accounts for. On failure the cursor position is unspecified;
    /// the caller must discard the whole read attempt.
    fn decode<R: ReadBuf>(buf: &mut R) -> (r: Result<Self, DecodeError>)
        ensures
            match Self::parse(old(buf).rem()) {
                Ok((v, n)) => {
                    &&& r matches Ok(x) && x@ == v
                    &&& final(buf).rem() == old(buf).rem().skip(n)
                },
                Err(e) => r matches Err(e2) && e2 == e,
            },
    ;
}

} // verus!
