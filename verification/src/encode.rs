//! The encoding half of the codec capability framework: the `Encodable` and
//! `EncodableSized` traits, the `WriteBuf` abstraction over growable byte
//! sinks, and the `Chain` combinator that fuses two encodables into one.

use vstd::prelude::*;

verus! {

/// A growable byte sink. The bytes written so far are `self.contents()`;
/// writing only ever appends.
pub trait WriteBuf {
    /// The bytes written so far.
    spec fn contents(&self) -> Seq<u8>;

    /// Reserve room for at least `additional` more bytes. Purely an
    /// allocation hint: the contents are unchanged.
    fn reserve(&mut self, additional: usize)
        ensures
            final(self).contents() == old(self).contents(),
    ;

    /// Append the given bytes verbatim.
    fn write_bytes(&mut self, bytes: &[u8])
        ensures
            final(self).contents() == old(self).contents() + bytes@,
    ;

    /// Append `size` zero bytes.
    fn write_zeros(&mut self, size: usize)
        ensures
            final(self).contents() == old(self).contents() + Seq::new(
                size as nat,
                |i: int| 0u8,
            ),
    ;

}

/// A value with a deterministic serialization into bytes.
///
/// The encoding is pinned by the specification function `enc`: `length`
/// returns exactly `enc().len()` and `encode` appends exactly `enc()`, so a
/// caller may pre-reserve capacity once per composite write.
pub trait Encodable {
    /// The exact bytes this value serializes to.
    spec fn enc(&self) -> Seq<u8>;

    /// The number of bytes `encode` will append.
    fn length(&self) -> (n: usize)
        requires
            self.enc().len() <= usize::MAX,
        ensures
            n == self.enc().len(),
    ;

    /// Append this value's encoding to the buffer.
    fn encode<W: WriteBuf>(&self, buf: &mut W)
        requires
            self.enc().len() <= usize::MAX,
        ensures
            final(buf).contents() == old(buf).contents() + self.enc(),
    ;

    /// This value's encoding as a fresh byte vector.
    fn to_vec(&self) -> (v: Vec<u8>) where Self: Sized
        requires
            self.enc().len() <= usize::MAX,
        ensures
            v@ == self.enc(),
    ;
}

/// A value whose encoding has a size known up front, as a byte array
/// independent of any buffer. Every such value is `Encodable` through the
/// blanket implementation below.
pub trait EncodableSized {
    /// The exact bytes this value serializes to.
    spec fn senc(&self) -> Seq<u8>;

    /// The number of bytes in the encoding.
    fn size(&self) -> (n: usize)
        requires
            self.senc().len() <= usize::MAX,
        ensures
            n == self.senc().len(),
    ;

    /// The encoding as a byte vector.
    fn bytes(&self) -> (v: Vec<u8>)
        requires
            self.senc().len() <= usize::MAX,
        ensures
            v@ == self.senc(),
    ;
}

impl<T: EncodableSized> Encodable for T {
    open spec fn enc(&self) -> Seq<u8> {
        self.senc()
    }

    fn length(&self) -> (n: usize) {
        self.size()
    }

    fn encode<W: WriteBuf>(&self, buf: &mut W) {
        let b = self.bytes();
        buf.write_bytes(b.as_slice());
    }

    fn to_vec(&self) -> (v: Vec<u8>) {
        self.bytes()
    }
}

/// Two encodable values fused into one, written back to back with a single
/// `write` call (and a single capacity reservation).
pub struct Chain<E1, E2> {
    pub e1: E1,
    pub e2: E2,
}

impl<E1: Encodable, E2: Encodable> Chain<E1, E2> {
    /// Fuse two encodable values into one.
    pub fn new(e1: E1, e2: E2) -> (r: Chain<E1, E2>)
        ensures
            r.enc() == e1.enc() + e2.enc(),
    {
        Chain { e1, e2 }
    }
}

impl<E1: Encodable, E2: Encodable> Encodable for Chain<E1, E2> {
    open spec fn enc(&self) -> Seq<u8> {
        self.e1.enc() + self.e2.enc()
    }

    fn length(&self) -> (n: usize) {
        let n1 = self.e1.length();
        let n2 = self.e2.length();
        n1 + n2
    }

    fn encode<W: WriteBuf>(&self, buf: &mut W) {
        self.e1.encode(buf);
        self.e2.encode(buf);
    }

    fn to_vec(&self) -> (v: Vec<u8>) {
        let mut v: Vec<u8> = Vec::new();
        self.encode(&mut v);
        v
    }
}

impl WriteBuf for Vec<u8> {
    open spec fn contents(&self) -> Seq<u8> {
        self@
    }

    fn reserve(&mut self, additional: usize) {
        Vec::reserve(self, additional);
    }

    fn write_bytes(&mut self, bytes: &[u8]) {
        self.extend_from_slice(bytes);
    }


    fn write_zeros(&mut self, size: usize) {
        let ghost start = self@;
        let mut i: usize = 0;
        while i < size
            invariant
                i <= size,
                self@ == start + Seq::new(i as nat, |j: int| 0u8),
            decreases size - i,
        {
            self.push(0u8);
            proof {
                assert(start + Seq::new((i + 1) as nat, |j: int| 0u8) =~= (start + Seq::new(
                    i as nat,
                    |j: int| 0u8,
                )).push(0u8));
            }
            i = i + 1;
        }
    }
}

} // verus!
