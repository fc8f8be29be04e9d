//! Concrete byte buffers: `Bytes`, an immutable read view with a
//! forward-only cursor, and `BytesMut`, an owned growable write buffer.

use vstd::prelude::*;

use crate::decode::{Decodable, DecodeError, ReadBuf};
use vstd::std_specs::vec::spec_vec_len;
use crate::encode::{Encodable, WriteBuf};

verus! {

broadcast use vstd::std_specs::vec::group_vec_axioms;

/// An immutable byte sequence with a read cursor. Peeking does not advance
/// the cursor; reading does, and the cursor only ever moves forward. The
/// view `self@` is the sequence of bytes not yet consumed.
#[derive(Debug, PartialEq, Eq)]
pub struct Bytes {
    data: Vec<u8>,
    pos: usize,
}

impl Bytes {
    #[verifier::type_invariant]
    spec fn wf(self) -> bool {
        self.pos <= self.data@.len()
    }
}

impl View for Bytes {
    type V = Seq<u8>;

    closed spec fn view(&self) -> Seq<u8> {
        self.data@.skip(self.pos as int)
    }
}

impl Bytes {
    /// Create a read view over a copy of the given bytes.
    pub fn new(bytes: &[u8]) -> (r: Bytes)
        ensures
            r@ == bytes@,
    {
        let data = vstd::slice::slice_to_vec(bytes);
        let r = Bytes { data, pos: 0 };
        proof {
            assert(r@ =~= bytes@);
        }
        r
    }

    /// How many bytes remain to be read.
    pub fn len(&self) -> (n: usize)
        ensures
            n == self@.len(),
    {
        proof {
            use_type_invariant(self);
        }
        self.data.len() - self.pos
    }

    /// Copy out the next `n` bytes without consuming them.
    pub fn peek(&self, n: usize) -> (r: Vec<u8>)
        requires
            n <= self@.len(),
        ensures
            r@ == self@.take(n as int),
    {
        proof {
            use_type_invariant(self);
            assert(self.data@.len() <= usize::MAX) by {
                assert(spec_vec_len(&self.data) == self.data@.len());
            }
            assert(self@.len() == self.data@.len() - self.pos);
        }
        let s = vstd::slice::slice_subrange(self.data.as_slice(), self.pos, self.pos + n);
        let r = vstd::slice::slice_to_vec(s);
        proof {
            assert(r@ =~= self@.take(n as int));
        }
        r
    }

    /// Consume `size` bytes, advancing the cursor past them.
    pub fn consume(&mut self, size: usize)
        requires
            size <= old(self)@.len(),
        ensures
            final(self)@ == old(self)@.skip(size as int),
    {
        proof {
            use_type_invariant(&*self);
            assert(self.data@.len() <= usize::MAX) by {
                assert(spec_vec_len(&self.data) == self.data@.len());
            }
            assert(self@.len() == self.data@.len() - self.pos);
        }
        self.pos = self.pos + size;
        proof {
            assert(self@ =~= old(self)@.skip(size as int));
        }
    }

    /// The remaining bytes as a slice.
    pub fn as_slice(&self) -> (r: &[u8])
        ensures
            r@ == self@,
    {
        proof {
            use_type_invariant(self);
        }
        vstd::slice::slice_subrange(self.data.as_slice(), self.pos, self.data.len())
    }

    /// Read a decodable value from the front of this view.
    pub fn read<D: Decodable>(&mut self) -> (r: Result<D, DecodeError>)
        ensures
            match D::parse(old(self)@) {
                Ok((v, n)) => {
                    &&& r matches Ok(x) && x@ == v
                    &&& final(self)@ == old(self)@.skip(n)
                },
                Err(e) => r matches Err(e2) && e2 == e,
            },
    {
        D::decode(self)
    }
}

impl ReadBuf for Bytes {
    open spec fn rem(&self) -> Seq<u8> {
        self@
    }

    fn remaining(&self) -> (n: usize) {
        self.len()
    }

    fn read_bytes(&mut self, n: usize) -> (r: Result<Vec<u8>, DecodeError>) {
        let remaining = self.len();
        if remaining < n {
            Err(DecodeError::ShortLength)
        } else {
            let v = self.peek(n);
            self.consume(n);
            Ok(v)
        }
    }
}

/// An owned, growable write buffer. Bytes can be appended but never
/// discarded. The view `self@` is the bytes written so far.
#[derive(Clone, Debug, PartialEq, Eq)]
pub struct BytesMut {
    data: Vec<u8>,
}

impl View for BytesMut {
    type V = Seq<u8>;

    closed spec fn view(&self) -> Seq<u8> {
        self.data@
    }
}

impl BytesMut {
    /// Create an empty write buffer.
    pub fn new() -> (r: BytesMut)
        ensures
            r@ == Seq::<u8>::empty(),
    {
        let r = BytesMut { data: Vec::new() };
        proof {
            assert(r@ =~= Seq::<u8>::empty());
        }
        r
    }

    /// Create an empty write buffer with room for `size` bytes.
    pub fn with_buffer(size: usize) -> (r: BytesMut)
        ensures
            r@ == Seq::<u8>::empty(),
    {
        let r = BytesMut { data: Vec::with_capacity(size) };
        proof {
            assert(r@ =~= Seq::<u8>::empty());
        }
        r
    }

    /// How many bytes have been written so far.
    pub fn len(&self) -> (n: usize)
        ensures
            n == self@.len(),
    {
        self.data.len()
    }

    /// The filled bytes, as a fresh read view.
    pub fn bytes(&self) -> (r: Bytes)
        ensures
            r@ == self@,
    {
        Bytes::new(self.data.as_slice())
    }

    /// The filled bytes as a slice.
    pub fn as_slice(&self) -> (r: &[u8])
        ensures
            r@ == self@,
    {
        self.data.as_slice()
    }

    /// Reserve room for at least `additional` more bytes.
    pub fn reserve_buffer(&mut self, additional: usize)
        ensures
            final(self)@ == old(self)@,
    {
        self.data.reserve(additional);
    }

    /// Write an encodable value, reserving its exact length first.
    pub fn write<E: Encodable>(&mut self, e: E)
        requires
            e.enc().len() <= usize::MAX,
        ensures
            final(self)@ == old(self)@ + e.enc(),
    {
        let n = e.length();
        self.reserve_buffer(n);
        e.encode(self);
    }

    /// Give up the buffer as a plain byte vector, without copying.
    pub fn to_vec(self) -> (v: Vec<u8>)
        ensures
            v@ == self@,
    {
        self.data
    }
}

impl WriteBuf for BytesMut {
    open spec fn contents(&self) -> Seq<u8> {
        self@
    }

    fn reserve(&mut self, additional: usize) {
        self.data.reserve(additional);
    }

    fn write_bytes(&mut self, bytes: &[u8]) {
        self.data.extend_from_slice(bytes);
    }

    fn write_zeros(&mut self, size: usize) {
        let ghost start = self.data@;
        let mut i: usize = 0;
        while i < size
            invariant
                i <= size,
                self.data@ == start + Seq::new(i as nat, |j: int| 0u8),
            decreases size - i,
        {
            self.data.push(0u8);
            proof {
                assert(start + Seq::new((i + 1) as nat, |j: int| 0u8) =~= (start + Seq::new(
                    i as nat,
                    |j: int| 0u8,
                )).push(0u8));
            }
            i = i + 1;
        }
    }
}

} // verus!
