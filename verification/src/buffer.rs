//! The receive-side accumulation buffer: bytes are appended as they arrive
//! from the transport and discarded from the front once a frame has been
//! consumed. Front removal only advances a watermark; the bytes are
//! physically compacted once enough have accumulated, so the amortized cost
//! of discarding stays constant.

use vstd::prelude::*;

use crate::encode::{Encodable, WriteBuf};

verus! {

broadcast use vstd::std_specs::vec::group_vec_axioms;

/// Once more than this many bytes have been logically discarded, the next
/// `drop_front` physically removes them.
pub const DROP_THRESHOLD: usize = 128;

/// A growable byte buffer whose front can be discarded. The view `self@`
/// is the live bytes: everything written and not yet dropped.
#[derive(Debug, PartialEq, Eq)]
pub struct Buffer {
    bytes: Vec<u8>,
    discarded: usize,
}

impl Buffer {
    #[verifier::type_invariant]
    spec fn wf(self) -> bool {
        self.discarded <= self.bytes@.len()
    }
}

impl View for Buffer {
    type V = Seq<u8>;

    closed spec fn view(&self) -> Seq<u8> {
        self.bytes@.skip(self.discarded as int)
    }
}

impl Buffer {
    /// Create an empty buffer.
    pub fn new() -> (r: Buffer)
        ensures
            r@ == Seq::<u8>::empty(),
    {
        let r = Buffer { bytes: Vec::new(), discarded: 0 };
        proof {
            assert(r@ =~= Seq::<u8>::empty());
        }
        r
    }

    /// How many live bytes the buffer holds.
    pub fn len(&self) -> (n: usize)
        ensures
            n == self@.len(),
    {
        proof {
            use_type_invariant(self);
        }
        self.bytes.len() - self.discarded
    }

    /// The live bytes as a slice.
    pub fn as_slice(&self) -> (r: &[u8])
        ensures
            r@ == self@,
    {
        proof {
            use_type_invariant(self);
        }
        vstd::slice::slice_subrange(self.bytes.as_slice(), self.discarded, self.bytes.len())
    }

    /// Discard `size` bytes from the front. Usually this only advances the
    /// watermark; once more than `DROP_THRESHOLD` bytes are pending they
    /// are physically removed.
    pub fn drop_front(&mut self, size: usize)
        requires
            size <= old(self)@.len(),
        ensures
            final(self)@ == old(self)@.skip(size as int),
    {
        proof {
            use_type_invariant(&*self);
            assert(vstd::std_specs::vec::spec_vec_len(&self.bytes) == self.bytes@.len());
        }
        self.discarded = self.discarded + size;
        if DROP_THRESHOLD < self.discarded {
            let ghost pre = self.bytes@;
            let tail = vstd::slice::slice_to_vec(
                vstd::slice::slice_subrange(self.bytes.as_slice(), self.discarded, self.bytes.len()),
            );
            self.discarded = 0;
            self.bytes = tail;
            proof {
                assert(self@ =~= pre.skip(old(self).discarded + size));
            }
        }
        proof {
            assert(self@ =~= old(self)@.skip(size as int));
        }
    }

    /// Write an encodable value at the end of the buffer.
    pub fn write<E: Encodable>(&mut self, e: E)
        requires
            e.enc().len() <= usize::MAX,
        ensures
            final(self)@ == old(self)@ + e.enc(),
    {
        let n = e.length();
        self.reserve(n);
        e.encode(self);
    }
}

impl WriteBuf for Buffer {
    open spec fn contents(&self) -> Seq<u8> {
        self@
    }

    fn reserve(&mut self, additional: usize) {
        proof {
            use_type_invariant(&*self);
        }
        let d = self.discarded;
        self.discarded = 0;
        let mut b: Vec<u8> = Vec::new();
        core::mem::swap(&mut b, &mut self.bytes);
        b.reserve(additional);
        core::mem::swap(&mut b, &mut self.bytes);
        self.discarded = d;
    }

    fn write_bytes(&mut self, bytes: &[u8]) {
        proof {
            use_type_invariant(&*self);
        }
        let ghost pre = self@;
        let d = self.discarded;
        self.discarded = 0;
        let mut b: Vec<u8> = Vec::new();
        core::mem::swap(&mut b, &mut self.bytes);
        b.extend_from_slice(bytes);
        core::mem::swap(&mut b, &mut self.bytes);
        self.discarded = d;
        proof {
            assert(self@ =~= pre + bytes@);
        }
    }

    fn write_zeros(&mut self, size: usize) {
        proof {
            use_type_invariant(&*self);
        }
        let ghost start = self@;
        let d = self.discarded;
        self.discarded = 0;
        let mut b: Vec<u8> = Vec::new();
        core::mem::swap(&mut b, &mut self.bytes);
        let ghost whole = b@;
        let mut i: usize = 0;
        while i < size
            invariant
                i <= size,
                b@ == whole + Seq::new(i as nat, |j: int| 0u8),
            decreases size - i,
        {
            b.push(0u8);
            proof {
                assert(whole + Seq::new((i + 1) as nat, |j: int| 0u8) =~= (whole + Seq::new(
                    i as nat,
                    |j: int| 0u8,
                )).push(0u8));
            }
            i = i + 1;
        }
        core::mem::swap(&mut b, &mut self.bytes);
        self.discarded = d;
        proof {
            assert(self@ =~= start + Seq::new(size as nat, |j: int| 0u8));
        }
    }
}

} // verus!
