//! Endian-aware fixed-width integer codecs. The wire protocol mixes both
//! byte orders in a single message (payload lengths are little-endian,
//! address ports big-endian), so every width gets two independent wrapper
//! types: `<width>_l` for little-endian and `<width>_b` for big-endian.
//!
//! All byte extraction is done by explicit byte-order conversion, never by
//! reinterpreting memory, so the encodings are identical on every
//! architecture.

#![allow(non_camel_case_types)]

use vstd::bytes::{
    lemma_auto_spec_u16_to_from_le_bytes, lemma_auto_spec_u32_to_from_le_bytes,
    lemma_auto_spec_u64_to_from_le_bytes, spec_u16_from_le_bytes, spec_u16_to_le_bytes,
    spec_u32_from_le_bytes, spec_u32_to_le_bytes, spec_u64_from_le_bytes, spec_u64_to_le_bytes,
    u16_from_le_bytes, u16_to_le_bytes, u32_from_le_bytes, u32_to_le_bytes, u64_from_le_bytes,
    u64_to_le_bytes,
};
use vstd::prelude::*;

use crate::decode::{Decodable, DecodeError, ReadBuf};
use crate::encode::EncodableSized;

verus! {

broadcast use vstd::std_specs::vec::group_vec_axioms;

/// The bytes of `v` in reverse order.
fn reversed(v: &[u8]) -> (r: Vec<u8>)
    ensures
        r@ == v@.reverse(),
{
    let n = v.len();
    let mut r: Vec<u8> = Vec::new();
    let mut i: usize = 0;
    while i < n
        invariant
            i <= n,
            n == v@.len(),
            r@.len() == i,
            forall|j: int| 0 <= j < i ==> r@[j] == v@[n - 1 - j],
        decreases n - i,
    {
        let b = *vstd::slice::slice_index_get(v, n - 1 - i);
        r.push(b);
        i = i + 1;
    }
    proof {
        assert(r@ =~= v@.reverse());
    }
    r
}

/// Big-endian encoding of a `u16`: the little-endian bytes reversed.
pub open spec fn spec_u16_to_be_bytes(x: u16) -> Seq<u8> {
    spec_u16_to_le_bytes(x).reverse()
}

/// The `u16` encoded big-endian in a 2-byte sequence.
pub open spec fn spec_u16_from_be_bytes(s: Seq<u8>) -> u16
    recommends
        s.len() == 2,
{
    spec_u16_from_le_bytes(s.reverse())
}

/// Big-endian encoding of a `u32`.
pub open spec fn spec_u32_to_be_bytes(x: u32) -> Seq<u8> {
    spec_u32_to_le_bytes(x).reverse()
}

/// The `u32` encoded big-endian in a 4-byte sequence.
pub open spec fn spec_u32_from_be_bytes(s: Seq<u8>) -> u32
    recommends
        s.len() == 4,
{
    spec_u32_from_le_bytes(s.reverse())
}

/// Big-endian encoding of a `u64`.
pub open spec fn spec_u64_to_be_bytes(x: u64) -> Seq<u8> {
    spec_u64_to_le_bytes(x).reverse()
}

/// The `u64` encoded big-endian in an 8-byte sequence.
pub open spec fn spec_u64_from_be_bytes(s: Seq<u8>) -> u64
    recommends
        s.len() == 8,
{
    spec_u64_from_le_bytes(s.reverse())
}

/// The two's-complement image of an `i16` as a `u16`.
pub open spec fn u16_of_i16(x: i16) -> u16 {
    if x >= 0 {
        x as u16
    } else {
        (x + 0x10000) as u16
    }
}

/// The `i16` whose two's-complement image is the given `u16`.
pub open spec fn i16_of_u16(x: u16) -> i16 {
    if x < 0x8000 {
        x as i16
    } else {
        (x - 0x10000) as i16
    }
}

/// The two's-complement image of an `i32` as a `u32`.
pub open spec fn u32_of_i32(x: i32) -> u32 {
    if x >= 0 {
        x as u32
    } else {
        (x + 0x1_0000_0000) as u32
    }
}

/// The `i32` whose two's-complement image is the given `u32`.
pub open spec fn i32_of_u32(x: u32) -> i32 {
    if x < 0x8000_0000 {
        x as i32
    } else {
        (x - 0x1_0000_0000) as i32
    }
}

/// The two's-complement image of an `i64` as a `u64`.
pub open spec fn u64_of_i64(x: i64) -> u64 {
    if x >= 0 {
        x as u64
    } else {
        (x + 0x1_0000_0000_0000_0000) as u64
    }
}

/// The `i64` whose two's-complement image is the given `u64`.
pub open spec fn i64_of_u64(x: u64) -> i64 {
    if x < 0x8000_0000_0000_0000 {
        x as i64
    } else {
        (x - 0x1_0000_0000_0000_0000) as i64
    }
}

fn i16_to_image(x: i16) -> (r: u16)
    ensures
        r == u16_of_i16(x),
{
    if x >= 0 {
        x as u16
    } else {
        ((x as i32) + 0x10000) as u16
    }
}

fn i16_from_image(x: u16) -> (r: i16)
    ensures
        r == i16_of_u16(x),
{
    if x < 0x8000 {
        x as i16
    } else {
        ((x as i32) - 0x10000) as i16
    }
}

fn i32_to_image(x: i32) -> (r: u32)
    ensures
        r == u32_of_i32(x),
{
    if x >= 0 {
        x as u32
    } else {
        ((x as i64) + 0x1_0000_0000) as u32
    }
}

fn i32_from_image(x: u32) -> (r: i32)
    ensures
        r == i32_of_u32(x),
{
    if x < 0x8000_0000 {
        x as i32
    } else {
        ((x as i64) - 0x1_0000_0000) as i32
    }
}

fn i64_to_image(x: i64) -> (r: u64)
    ensures
        r == u64_of_i64(x),
{
    if x >= 0 {
        x as u64
    } else {
        ((x as i128) + 0x1_0000_0000_0000_0000) as u64
    }
}

fn i64_from_image(x: u64) -> (r: i64)
    ensures
        r == i64_of_u64(x),
{
    if x < 0x8000_0000_0000_0000 {
        x as i64
    } else {
        ((x as i128) - 0x1_0000_0000_0000_0000) as i64
    }
}

/// A `u16` encoded as 2 little-endian bytes.
#[derive(Clone, Copy, Debug, PartialEq, Eq, Structural)]
pub struct u16_l(u16);

impl View for u16_l {
    type V = u16;

    closed spec fn view(&self) -> u16 {
        self.0
    }
}

impl u16_l {
    /// Wrap a value for little-endian encoding.
    pub fn new(n: u16) -> (r: u16_l)
        ensures
            r@ == n,
    {
        u16_l(n)
    }

    /// The wrapped value.
    pub fn value(&self) -> (n: u16)
        ensures
            n == self@,
    {
        self.0
    }
}

impl EncodableSized for u16_l {
    open spec fn senc(&self) -> Seq<u8> {
        spec_u16_to_le_bytes(self@)
    }

    fn size(&self) -> (n: usize) {
        proof {
            lemma_auto_spec_u16_to_from_le_bytes();
        }
        2
    }

    fn bytes(&self) -> (v: Vec<u8>) {
        u16_to_le_bytes(self.0)
    }
}

impl Decodable for u16_l {
    open spec fn parse(s: Seq<u8>) -> Result<(u16, int), DecodeError> {
        if s.len() < 2 {
            Err(DecodeError::ShortLength)
        } else {
            Ok((spec_u16_from_le_bytes(s.take(2)), 2))
        }
    }

    proof fn lemma_parse_len(s: Seq<u8>) {
    }

    fn decode<R: ReadBuf>(buf: &mut R) -> (r: Result<Self, DecodeError>) {
        let ghost s = buf.rem();
        match buf.read_bytes(2) {
            Ok(v) => {
                let x = u16_from_le_bytes(v.as_slice());
                proof {
                    assert(u16_l::parse(s) == Ok::<(u16, int), DecodeError>((
                        x,
                        2,
                    )));
                    assert(buf.rem() == s.skip(2));
                }
                Ok(u16_l(x))
            },
            Err(e) => {
                proof {
                    assert(u16_l::parse(s) == Err::<(u16, int), DecodeError>(
                        DecodeError::ShortLength,
                    ));
                }
                Err(e)
            },
        }
    }
}

/// Decoding the little-endian encoding of any `u16`, with any trailing
/// bytes after it, gives back exactly that value and consumes exactly its
/// two bytes.
pub proof fn lemma_u16_l_round_trip(x: u16, rest: Seq<u8>)
    ensures
        u16_l::parse(spec_u16_to_le_bytes(x) + rest) == Ok::<(u16, int), DecodeError>((x, 2)),
{
    lemma_auto_spec_u16_to_from_le_bytes();
    assert((spec_u16_to_le_bytes(x) + rest).take(2) =~= spec_u16_to_le_bytes(x));
}

/// A `u16` encoded as 2 big-endian bytes.
#[derive(Clone, Copy, Debug, PartialEq, Eq, Structural)]
pub struct u16_b(u16);

impl View for u16_b {
    type V = u16;

    closed spec fn view(&self) -> u16 {
        self.0
    }
}

impl u16_b {
    /// Wrap a value for big-endian encoding.
    pub fn new(n: u16) -> (r: u16_b)
        ensures
            r@ == n,
    {
        u16_b(n)
    }

    /// The wrapped value.
    pub fn value(&self) -> (n: u16)
        ensures
            n == self@,
    {
        self.0
    }
}

impl EncodableSized for u16_b {
    open spec fn senc(&self) -> Seq<u8> {
        spec_u16_to_be_bytes(self@)
    }

    fn size(&self) -> (n: usize) {
        proof {
            lemma_auto_spec_u16_to_from_le_bytes();
        }
        2
    }

    fn bytes(&self) -> (v: Vec<u8>) {
        let le = u16_to_le_bytes(self.0);
        reversed(le.as_slice())
    }
}

impl Decodable for u16_b {
    open spec fn parse(s: Seq<u8>) -> Result<(u16, int), DecodeError> {
        if s.len() < 2 {
            Err(DecodeError::ShortLength)
        } else {
            Ok((spec_u16_from_be_bytes(s.take(2)), 2))
        }
    }

    proof fn lemma_parse_len(s: Seq<u8>) {
    }

    #[verifier::spinoff_prover]
    fn decode<R: ReadBuf>(buf: &mut R) -> (r: Result<Self, DecodeError>) {
        let ghost s = buf.rem();
        match buf.read_bytes(2) {
            Ok(v) => {
                let rev = reversed(v.as_slice());
                proof {
                    assert(rev@ == s.take(2).reverse());
                }
                let x = u16_from_le_bytes(rev.as_slice());
                proof {
                    assert(x == spec_u16_from_be_bytes(s.take(2)));
                    assert(u16_b::parse(s) == Ok::<(u16, int), DecodeError>((x, 2)));
                    assert(buf.rem() == s.skip(2));
                }
                Ok(u16_b(x))
            },
            Err(e) => {
                proof {
                    assert(s.len() < 2);
                    assert(u16_b::parse(s) == Err::<(u16, int), DecodeError>(
                        DecodeError::ShortLength,
                    ));
                }
                Err(e)
            },
        }
    }
}

/// Decoding the big-endian encoding of any `u16`, with any trailing bytes
/// after it, gives back exactly that value and consumes exactly its two
/// bytes.
pub proof fn lemma_u16_b_round_trip(x: u16, rest: Seq<u8>)
    ensures
        u16_b::parse(spec_u16_to_be_bytes(x) + rest) == Ok::<(u16, int), DecodeError>((x, 2)),
{
    lemma_auto_spec_u16_to_from_le_bytes();
    assert((spec_u16_to_be_bytes(x) + rest).take(2) =~= spec_u16_to_be_bytes(x));
    assert(spec_u16_to_le_bytes(x).reverse().reverse() =~= spec_u16_to_le_bytes(x));
}

/// A `u32` encoded as 4 little-endian bytes.
#[derive(Clone, Copy, Debug, PartialEq, Eq, Structural)]
pub struct u32_l(u32);

impl View for u32_l {
    type V = u32;

    closed spec fn view(&self) -> u32 {
        self.0
    }
}

impl u32_l {
    /// Wrap a value for little-endian encoding.
    pub fn new(n: u32) -> (r: u32_l)
        ensures
            r@ == n,
    {
        u32_l(n)
    }

    /// The wrapped value.
    pub fn value(&self) -> (n: u32)
        ensures
            n == self@,
    {
        self.0
    }
}

impl EncodableSized for u32_l {
    open spec fn senc(&self) -> Seq<u8> {
        spec_u32_to_le_bytes(self@)
    }

    fn size(&self) -> (n: usize) {
        proof {
            lemma_auto_spec_u32_to_from_le_bytes();
        }
        4
    }

    fn bytes(&self) -> (v: Vec<u8>) {
        u32_to_le_bytes(self.0)
    }
}

impl Decodable for u32_l {
    open spec fn parse(s: Seq<u8>) -> Result<(u32, int), DecodeError> {
        if s.len() < 4 {
            Err(DecodeError::ShortLength)
        } else {
            Ok((spec_u32_from_le_bytes(s.take(4)), 4))
        }
    }

    proof fn lemma_parse_len(s: Seq<u8>) {
    }

    fn decode<R: ReadBuf>(buf: &mut R) -> (r: Result<Self, DecodeError>) {
        let ghost s = buf.rem();
        match buf.read_bytes(4) {
            Ok(v) => {
                let x = u32_from_le_bytes(v.as_slice());
                proof {
                    assert(u32_l::parse(s) == Ok::<(u32, int), DecodeError>((
                        x,
                        4,
                    )));
                    assert(buf.rem() == s.skip(4));
                }
                Ok(u32_l(x))
            },
            Err(e) => {
                proof {
                    assert(u32_l::parse(s) == Err::<(u32, int), DecodeError>(
                        DecodeError::ShortLength,
                    ));
                }
                Err(e)
            },
        }
    }
}

/// Decoding the little-endian encoding of any `u32`, with any trailing
/// bytes after it, gives back exactly that value and consumes exactly its
/// 4 bytes.
pub proof fn lemma_u32_l_round_trip(x: u32, rest: Seq<u8>)
    ensures
        u32_l::parse(spec_u32_to_le_bytes(x) + rest) == Ok::<(u32, int), DecodeError>((x, 4)),
{
    lemma_auto_spec_u32_to_from_le_bytes();
    assert((spec_u32_to_le_bytes(x) + rest).take(4) =~= spec_u32_to_le_bytes(x));
}

/// A `u32` encoded as 4 big-endian bytes.
#[derive(Clone, Copy, Debug, PartialEq, Eq, Structural)]
pub struct u32_b(u32);

impl View for u32_b {
    type V = u32;

    closed spec fn view(&self) -> u32 {
        self.0
    }
}

impl u32_b {
    /// Wrap a value for big-endian encoding.
    pub fn new(n: u32) -> (r: u32_b)
        ensures
            r@ == n,
    {
        u32_b(n)
    }

    /// The wrapped value.
    pub fn value(&self) -> (n: u32)
        ensures
            n == self@,
    {
        self.0
    }
}

impl EncodableSized for u32_b {
    open spec fn senc(&self) -> Seq<u8> {
        spec_u32_to_be_bytes(self@)
    }

    fn size(&self) -> (n: usize) {
        proof {
            lemma_auto_spec_u32_to_from_le_bytes();
        }
        4
    }

    fn bytes(&self) -> (v: Vec<u8>) {
        let le = u32_to_le_bytes(self.0);
        reversed(le.as_slice())
    }
}

impl Decodable for u32_b {
    open spec fn parse(s: Seq<u8>) -> Result<(u32, int), DecodeError> {
        if s.len() < 4 {
            Err(DecodeError::ShortLength)
        } else {
            Ok((spec_u32_from_be_bytes(s.take(4)), 4))
        }
    }

    proof fn lemma_parse_len(s: Seq<u8>) {
    }

    fn decode<R: ReadBuf>(buf: &mut R) -> (r: Result<Self, DecodeError>) {
        let ghost s = buf.rem();
        match buf.read_bytes(4) {
            Ok(v) => {
                let rev = reversed(v.as_slice());
                proof {
                    assert(rev@ == s.take(4).reverse());
                }
                let x = u32_from_le_bytes(rev.as_slice());
                proof {
                    assert(x == spec_u32_from_be_bytes(s.take(4)));
                    assert(u32_b::parse(s) == Ok::<(u32, int), DecodeError>((x, 4)));
                    assert(buf.rem() == s.skip(4));
                }
                Ok(u32_b(x))
            },
            Err(e) => {
                proof {
                    assert(u32_b::parse(s) == Err::<(u32, int), DecodeError>(
                        DecodeError::ShortLength,
                    ));
                }
                Err(e)
            },
        }
    }
}

/// Decoding the big-endian encoding of any `u32`, with any trailing
/// bytes after it, gives back exactly that value and consumes exactly its
/// 4 bytes.
pub proof fn lemma_u32_b_round_trip(x: u32, rest: Seq<u8>)
    ensures
        u32_b::parse(spec_u32_to_be_bytes(x) + rest) == Ok::<(u32, int), DecodeError>((x, 4)),
{
    lemma_auto_spec_u32_to_from_le_bytes();
    assert((spec_u32_to_be_bytes(x) + rest).take(4) =~= spec_u32_to_be_bytes(x));
    assert(spec_u32_to_le_bytes(x).reverse().reverse() =~= spec_u32_to_le_bytes(x));
}

/// A `u64` encoded as 8 little-endian bytes.
#[derive(Clone, Copy, Debug, PartialEq, Eq, Structural)]
pub struct u64_l(u64);

impl View for u64_l {
    type V = u64;

    closed spec fn view(&self) -> u64 {
        self.0
    }
}

impl u64_l {
    /// Wrap a value for little-endian encoding.
    pub fn new(n: u64) -> (r: u64_l)
        ensures
            r@ == n,
    {
        u64_l(n)
    }

    /// The wrapped value.
    pub fn value(&self) -> (n: u64)
        ensures
            n == self@,
    {
        self.0
    }
}

impl EncodableSized for u64_l {
    open spec fn senc(&self) -> Seq<u8> {
        spec_u64_to_le_bytes(self@)
    }

    fn size(&self) -> (n: usize) {
        proof {
            lemma_auto_spec_u64_to_from_le_bytes();
        }
        8
    }

    fn bytes(&self) -> (v: Vec<u8>) {
        u64_to_le_bytes(self.0)
    }
}

impl Decodable for u64_l {
    open spec fn parse(s: Seq<u8>) -> Result<(u64, int), DecodeError> {
        if s.len() < 8 {
            Err(DecodeError::ShortLength)
        } else {
            Ok((spec_u64_from_le_bytes(s.take(8)), 8))
        }
    }

    proof fn lemma_parse_len(s: Seq<u8>) {
    }

    fn decode<R: ReadBuf>(buf: &mut R) -> (r: Result<Self, DecodeError>) {
        let ghost s = buf.rem();
        match buf.read_bytes(8) {
            Ok(v) => {
                let x = u64_from_le_bytes(v.as_slice());
                proof {
                    assert(u64_l::parse(s) == Ok::<(u64, int), DecodeError>((
                        x,
                        8,
                    )));
                    assert(buf.rem() == s.skip(8));
                }
                Ok(u64_l(x))
            },
            Err(e) => {
                proof {
                    assert(u64_l::parse(s) == Err::<(u64, int), DecodeError>(
                        DecodeError::ShortLength,
                    ));
                }
                Err(e)
            },
        }
    }
}

/// Decoding the little-endian encoding of any `u64`, with any trailing
/// bytes after it, gives back exactly that value and consumes exactly its
/// 8 bytes.
pub proof fn lemma_u64_l_round_trip(x: u64, rest: Seq<u8>)
    ensures
        u64_l::parse(spec_u64_to_le_bytes(x) + rest) == Ok::<(u64, int), DecodeError>((x, 8)),
{
    lemma_auto_spec_u64_to_from_le_bytes();
    assert((spec_u64_to_le_bytes(x) + rest).take(8) =~= spec_u64_to_le_bytes(x));
}

/// A `u64` encoded as 8 big-endian bytes.
#[derive(Clone, Copy, Debug, PartialEq, Eq, Structural)]
pub struct u64_b(u64);

impl View for u64_b {
    type V = u64;

    closed spec fn view(&self) -> u64 {
        self.0
    }
}

impl u64_b {
    /// Wrap a value for big-endian encoding.
    pub fn new(n: u64) -> (r: u64_b)
        ensures
            r@ == n,
    {
        u64_b(n)
    }

    /// The wrapped value.
    pub fn value(&self) -> (n: u64)
        ensures
            n == self@,
    {
        self.0
    }
}

impl EncodableSized for u64_b {
    open spec fn senc(&self) -> Seq<u8> {
        spec_u64_to_be_bytes(self@)
    }

    fn size(&self) -> (n: usize) {
        proof {
            lemma_auto_spec_u64_to_from_le_bytes();
        }
        8
    }

    fn bytes(&self) -> (v: Vec<u8>) {
        let le = u64_to_le_bytes(self.0);
        reversed(le.as_slice())
    }
}

impl Decodable for u64_b {
    open spec fn parse(s: Seq<u8>) -> Result<(u64, int), DecodeError> {
        if s.len() < 8 {
            Err(DecodeError::ShortLength)
        } else {
            Ok((spec_u64_from_be_bytes(s.take(8)), 8))
        }
    }

    proof fn lemma_parse_len(s: Seq<u8>) {
    }

    fn decode<R: ReadBuf>(buf: &mut R) -> (r: Result<Self, DecodeError>) {
        let ghost s = buf.rem();
        match buf.read_bytes(8) {
            Ok(v) => {
                let rev = reversed(v.as_slice());
                proof {
                    assert(rev@ == s.take(8).reverse());
                }
                let x = u64_from_le_bytes(rev.as_slice());
                proof {
                    assert(x == spec_u64_from_be_bytes(s.take(8)));
                    assert(u64_b::parse(s) == Ok::<(u64, int), DecodeError>((x, 8)));
                    assert(buf.rem() == s.skip(8));
                }
                Ok(u64_b(x))
            },
            Err(e) => {
                proof {
                    assert(u64_b::parse(s) == Err::<(u64, int), DecodeError>(
                        DecodeError::ShortLength,
                    ));
                }
                Err(e)
            },
        }
    }
}

/// Decoding the big-endian encoding of any `u64`, with any trailing
/// bytes after it, gives back exactly that value and consumes exactly its
/// 8 bytes.
pub proof fn lemma_u64_b_round_trip(x: u64, rest: Seq<u8>)
    ensures
        u64_b::parse(spec_u64_to_be_bytes(x) + rest) == Ok::<(u64, int), DecodeError>((x, 8)),
{
    lemma_auto_spec_u64_to_from_le_bytes();
    assert((spec_u64_to_be_bytes(x) + rest).take(8) =~= spec_u64_to_be_bytes(x));
    assert(spec_u64_to_le_bytes(x).reverse().reverse() =~= spec_u64_to_le_bytes(x));
}

/// An `i16` encoded as 2 little-endian bytes of its
/// two's-complement image.
#[derive(Clone, Copy, Debug, PartialEq, Eq, Structural)]
pub struct i16_l(i16);

impl View for i16_l {
    type V = i16;

    closed spec fn view(&self) -> i16 {
        self.0
    }
}

impl i16_l {
    /// Wrap a value for little-endian encoding.
    pub fn new(n: i16) -> (r: i16_l)
        ensures
            r@ == n,
    {
        i16_l(n)
    }

    /// The wrapped value.
    pub fn value(&self) -> (n: i16)
        ensures
            n == self@,
    {
        self.0
    }
}

impl EncodableSized for i16_l {
    open spec fn senc(&self) -> Seq<u8> {
        spec_u16_to_le_bytes(u16_of_i16(self@))
    }

    fn size(&self) -> (n: usize) {
        proof {
            lemma_auto_spec_u16_to_from_le_bytes();
        }
        2
    }

    fn bytes(&self) -> (v: Vec<u8>) {
        u16_to_le_bytes(i16_to_image(self.0))
    }
}

impl Decodable for i16_l {
    open spec fn parse(s: Seq<u8>) -> Result<(i16, int), DecodeError> {
        if s.len() < 2 {
            Err(DecodeError::ShortLength)
        } else {
            Ok((i16_of_u16(spec_u16_from_le_bytes(s.take(2))), 2))
        }
    }

    proof fn lemma_parse_len(s: Seq<u8>) {
    }

    fn decode<R: ReadBuf>(buf: &mut R) -> (r: Result<Self, DecodeError>) {
        let ghost s = buf.rem();
        match buf.read_bytes(2) {
            Ok(v) => {
                let y = i16_from_image(u16_from_le_bytes(v.as_slice()));
                proof {
                    assert(i16_l::parse(s) == Ok::<(i16, int), DecodeError>((y, 2)));
                    assert(buf.rem() == s.skip(2));
                }
                Ok(i16_l(y))
            },
            Err(e) => {
                proof {
                    assert(i16_l::parse(s) == Err::<(i16, int), DecodeError>(
                        DecodeError::ShortLength,
                    ));
                }
                Err(e)
            },
        }
    }
}

/// Decoding the little-endian encoding of any `i16`, with any trailing
/// bytes after it, gives back exactly that value and consumes exactly its
/// 2 bytes.
pub proof fn lemma_i16_l_round_trip(x: i16, rest: Seq<u8>)
    ensures
        i16_l::parse(spec_u16_to_le_bytes(u16_of_i16(x)) + rest) == Ok::<(i16, int), DecodeError>((
            x,
            2,
        )),
{
    lemma_auto_spec_u16_to_from_le_bytes();
    assert((spec_u16_to_le_bytes(u16_of_i16(x)) + rest).take(2) =~= spec_u16_to_le_bytes(u16_of_i16(x)));
}

/// An `i16` encoded as 2 big-endian bytes of its
/// two's-complement image.
#[derive(Clone, Copy, Debug, PartialEq, Eq, Structural)]
pub struct i16_b(i16);

impl View for i16_b {
    type V = i16;

    closed spec fn view(&self) -> i16 {
        self.0
    }
}

impl i16_b {
    /// Wrap a value for big-endian encoding.
    pub fn new(n: i16) -> (r: i16_b)
        ensures
            r@ == n,
    {
        i16_b(n)
    }

    /// The wrapped value.
    pub fn value(&self) -> (n: i16)
        ensures
            n == self@,
    {
        self.0
    }
}

impl EncodableSized for i16_b {
    open spec fn senc(&self) -> Seq<u8> {
        spec_u16_to_be_bytes(u16_of_i16(self@))
    }

    fn size(&self) -> (n: usize) {
        proof {
            lemma_auto_spec_u16_to_from_le_bytes();
        }
        2
    }

    fn bytes(&self) -> (v: Vec<u8>) {
        let le = u16_to_le_bytes(i16_to_image(self.0));
        reversed(le.as_slice())
    }
}

impl Decodable for i16_b {
    open spec fn parse(s: Seq<u8>) -> Result<(i16, int), DecodeError> {
        if s.len() < 2 {
            Err(DecodeError::ShortLength)
        } else {
            Ok((i16_of_u16(spec_u16_from_be_bytes(s.take(2))), 2))
        }
    }

    proof fn lemma_parse_len(s: Seq<u8>) {
    }

    fn decode<R: ReadBuf>(buf: &mut R) -> (r: Result<Self, DecodeError>) {
        let ghost s = buf.rem();
        match buf.read_bytes(2) {
            Ok(v) => {
                let rev = reversed(v.as_slice());
                proof {
                    assert(rev@ == s.take(2).reverse());
                }
                let y = i16_from_image(u16_from_le_bytes(rev.as_slice()));
                proof {
                    assert(i16_b::parse(s) == Ok::<(i16, int), DecodeError>((y, 2)));
                    assert(buf.rem() == s.skip(2));
                }
                Ok(i16_b(y))
            },
            Err(e) => {
                proof {
                    assert(i16_b::parse(s) == Err::<(i16, int), DecodeError>(
                        DecodeError::ShortLength,
                    ));
                }
                Err(e)
            },
        }
    }
}

/// Decoding the big-endian encoding of any `i16`, with any trailing
/// bytes after it, gives back exactly that value and consumes exactly its
/// 2 bytes.
pub proof fn lemma_i16_b_round_trip(x: i16, rest: Seq<u8>)
    ensures
        i16_b::parse(spec_u16_to_be_bytes(u16_of_i16(x)) + rest) == Ok::<(i16, int), DecodeError>((
            x,
            2,
        )),
{
    lemma_auto_spec_u16_to_from_le_bytes();
    assert((spec_u16_to_be_bytes(u16_of_i16(x)) + rest).take(2) =~= spec_u16_to_be_bytes(u16_of_i16(x)));
    assert(spec_u16_to_le_bytes(u16_of_i16(x)).reverse().reverse() =~= spec_u16_to_le_bytes(u16_of_i16(x)));
}

/// An `i32` encoded as 4 little-endian bytes of its
/// two's-complement image.
#[derive(Clone, Copy, Debug, PartialEq, Eq, Structural)]
pub struct i32_l(i32);

impl View for i32_l {
    type V = i32;

    closed spec fn view(&self) -> i32 {
        self.0
    }
}

impl i32_l {
    /// Wrap a value for little-endian encoding.
    pub fn new(n: i32) -> (r: i32_l)
        ensures
            r@ == n,
    {
        i32_l(n)
    }

    /// The wrapped value.
    pub fn value(&self) -> (n: i32)
        ensures
            n == self@,
    {
        self.0
    }
}

impl EncodableSized for i32_l {
    open spec fn senc(&self) -> Seq<u8> {
        spec_u32_to_le_bytes(u32_of_i32(self@))
    }

    fn size(&self) -> (n: usize) {
        proof {
            lemma_auto_spec_u32_to_from_le_bytes();
        }
        4
    }

    fn bytes(&self) -> (v: Vec<u8>) {
        u32_to_le_bytes(i32_to_image(self.0))
    }
}

impl Decodable for i32_l {
    open spec fn parse(s: Seq<u8>) -> Result<(i32, int), DecodeError> {
        if s.len() < 4 {
            Err(DecodeError::ShortLength)
        } else {
            Ok((i32_of_u32(spec_u32_from_le_bytes(s.take(4))), 4))
        }
    }

    proof fn lemma_parse_len(s: Seq<u8>) {
    }

    fn decode<R: ReadBuf>(buf: &mut R) -> (r: Result<Self, DecodeError>) {
        let ghost s = buf.rem();
        match buf.read_bytes(4) {
            Ok(v) => {
                let y = i32_from_image(u32_from_le_bytes(v.as_slice()));
                proof {
                    assert(i32_l::parse(s) == Ok::<(i32, int), DecodeError>((y, 4)));
                    assert(buf.rem() == s.skip(4));
                }
                Ok(i32_l(y))
            },
            Err(e) => {
                proof {
                    assert(i32_l::parse(s) == Err::<(i32, int), DecodeError>(
                        DecodeError::ShortLength,
                    ));
                }
                Err(e)
            },
        }
    }
}

/// Decoding the little-endian encoding of any `i32`, with any trailing
/// bytes after it, gives back exactly that value and consumes exactly its
/// 4 bytes.
pub proof fn lemma_i32_l_round_trip(x: i32, rest: Seq<u8>)
    ensures
        i32_l::parse(spec_u32_to_le_bytes(u32_of_i32(x)) + rest) == Ok::<(i32, int), DecodeError>((
            x,
            4,
        )),
{
    lemma_auto_spec_u32_to_from_le_bytes();
    assert((spec_u32_to_le_bytes(u32_of_i32(x)) + rest).take(4) =~= spec_u32_to_le_bytes(u32_of_i32(x)));
}

/// An `i32` encoded as 4 big-endian bytes of its
/// two's-complement image.
#[derive(Clone, Copy, Debug, PartialEq, Eq, Structural)]
pub struct i32_b(i32);

impl View for i32_b {
    type V = i32;

    closed spec fn view(&self) -> i32 {
        self.0
    }
}

impl i32_b {
    /// Wrap a value for big-endian encoding.
    pub fn new(n: i32) -> (r: i32_b)
        ensures
            r@ == n,
    {
        i32_b(n)
    }

    /// The wrapped value.
    pub fn value(&self) -> (n: i32)
        ensures
            n == self@,
    {
        self.0
    }
}

impl EncodableSized for i32_b {
    open spec fn senc(&self) -> Seq<u8> {
        spec_u32_to_be_bytes(u32_of_i32(self@))
    }

    fn size(&self) -> (n: usize) {
        proof {
            lemma_auto_spec_u32_to_from_le_bytes();
        }
        4
    }

    fn bytes(&self) -> (v: Vec<u8>) {
        let le = u32_to_le_bytes(i32_to_image(self.0));
        reversed(le.as_slice())
    }
}

impl Decodable for i32_b {
    open spec fn parse(s: Seq<u8>) -> Result<(i32, int), DecodeError> {
        if s.len() < 4 {
            Err(DecodeError::ShortLength)
        } else {
            Ok((i32_of_u32(spec_u32_from_be_bytes(s.take(4))), 4))
        }
    }

    proof fn lemma_parse_len(s: Seq<u8>) {
    }

    fn decode<R: ReadBuf>(buf: &mut R) -> (r: Result<Self, DecodeError>) {
        let ghost s = buf.rem();
        match buf.read_bytes(4) {
            Ok(v) => {
                let rev = reversed(v.as_slice());
                proof {
                    assert(rev@ == s.take(4).reverse());
                }
                let y = i32_from_image(u32_from_le_bytes(rev.as_slice()));
                proof {
                    assert(i32_b::parse(s) == Ok::<(i32, int), DecodeError>((y, 4)));
                    assert(buf.rem() == s.skip(4));
                }
                Ok(i32_b(y))
            },
            Err(e) => {
                proof {
                    assert(i32_b::parse(s) == Err::<(i32, int), DecodeError>(
                        DecodeError::ShortLength,
                    ));
                }
                Err(e)
            },
        }
    }
}

/// Decoding the big-endian encoding of any `i32`, with any trailing
/// bytes after it, gives back exactly that value and consumes exactly its
/// 4 bytes.
pub proof fn lemma_i32_b_round_trip(x: i32, rest: Seq<u8>)
    ensures
        i32_b::parse(spec_u32_to_be_bytes(u32_of_i32(x)) + rest) == Ok::<(i32, int), DecodeError>((
            x,
            4,
        )),
{
    lemma_auto_spec_u32_to_from_le_bytes();
    assert((spec_u32_to_be_bytes(u32_of_i32(x)) + rest).take(4) =~= spec_u32_to_be_bytes(u32_of_i32(x)));
    assert(spec_u32_to_le_bytes(u32_of_i32(x)).reverse().reverse() =~= spec_u32_to_le_bytes(u32_of_i32(x)));
}

/// An `i64` encoded as 8 little-endian bytes of its
/// two's-complement image.
#[derive(Clone, Copy, Debug, PartialEq, Eq, Structural)]
pub struct i64_l(i64);

impl View for i64_l {
    type V = i64;

    closed spec fn view(&self) -> i64 {
        self.0
    }
}

impl i64_l {
    /// Wrap a value for little-endian encoding.
    pub fn new(n: i64) -> (r: i64_l)
        ensures
            r@ == n,
    {
        i64_l(n)
    }

    /// The wrapped value.
    pub fn value(&self) -> (n: i64)
        ensures
            n == self@,
    {
        self.0
    }
}

impl EncodableSized for i64_l {
    open spec fn senc(&self) -> Seq<u8> {
        spec_u64_to_le_bytes(u64_of_i64(self@))
    }

    fn size(&self) -> (n: usize) {
        proof {
            lemma_auto_spec_u64_to_from_le_bytes();
        }
        8
    }

    fn bytes(&self) -> (v: Vec<u8>) {
        u64_to_le_bytes(i64_to_image(self.0))
    }
}

impl Decodable for i64_l {
    open spec fn parse(s: Seq<u8>) -> Result<(i64, int), DecodeError> {
        if s.len() < 8 {
            Err(DecodeError::ShortLength)
        } else {
            Ok((i64_of_u64(spec_u64_from_le_bytes(s.take(8))), 8))
        }
    }

    proof fn lemma_parse_len(s: Seq<u8>) {
    }

    fn decode<R: ReadBuf>(buf: &mut R) -> (r: Result<Self, DecodeError>) {
        let ghost s = buf.rem();
        match buf.read_bytes(8) {
            Ok(v) => {
                let y = i64_from_image(u64_from_le_bytes(v.as_slice()));
                proof {
                    assert(i64_l::parse(s) == Ok::<(i64, int), DecodeError>((y, 8)));
                    assert(buf.rem() == s.skip(8));
                }
                Ok(i64_l(y))
            },
            Err(e) => {
                proof {
                    assert(i64_l::parse(s) == Err::<(i64, int), DecodeError>(
                        DecodeError::ShortLength,
                    ));
                }
                Err(e)
            },
        }
    }
}

/// Decoding the little-endian encoding of any `i64`, with any trailing
/// bytes after it, gives back exactly that value and consumes exactly its
/// 8 bytes.
pub proof fn lemma_i64_l_round_trip(x: i64, rest: Seq<u8>)
    ensures
        i64_l::parse(spec_u64_to_le_bytes(u64_of_i64(x)) + rest) == Ok::<(i64, int), DecodeError>((
            x,
            8,
        )),
{
    lemma_auto_spec_u64_to_from_le_bytes();
    assert((spec_u64_to_le_bytes(u64_of_i64(x)) + rest).take(8) =~= spec_u64_to_le_bytes(u64_of_i64(x)));
}

/// An `i64` encoded as 8 big-endian bytes of its
/// two's-complement image.
#[derive(Clone, Copy, Debug, PartialEq, Eq, Structural)]
pub struct i64_b(i64);

impl View for i64_b {
    type V = i64;

    closed spec fn view(&self) -> i64 {
        self.0
    }
}

impl i64_b {
    /// Wrap a value for big-endian encoding.
    pub fn new(n: i64) -> (r: i64_b)
        ensures
            r@ == n,
    {
        i64_b(n)
    }

    /// The wrapped value.
    pub fn value(&self) -> (n: i64)
        ensures
            n == self@,
    {
        self.0
    }
}

impl EncodableSized for i64_b {
    open spec fn senc(&self) -> Seq<u8> {
        spec_u64_to_be_bytes(u64_of_i64(self@))
    }

    fn size(&self) -> (n: usize) {
        proof {
            lemma_auto_spec_u64_to_from_le_bytes();
        }
        8
    }

    fn bytes(&self) -> (v: Vec<u8>) {
        let le = u64_to_le_bytes(i64_to_image(self.0));
        reversed(le.as_slice())
    }
}

impl Decodable for i64_b {
    open spec fn parse(s: Seq<u8>) -> Result<(i64, int), DecodeError> {
        if s.len() < 8 {
            Err(DecodeError::ShortLength)
        } else {
            Ok((i64_of_u64(spec_u64_from_be_bytes(s.take(8))), 8))
        }
    }

    proof fn lemma_parse_len(s: Seq<u8>) {
    }

    fn decode<R: ReadBuf>(buf: &mut R) -> (r: Result<Self, DecodeError>) {
        let ghost s = buf.rem();
        match buf.read_bytes(8) {
            Ok(v) => {
                let rev = reversed(v.as_slice());
                proof {
                    assert(rev@ == s.take(8).reverse());
                }
                let y = i64_from_image(u64_from_le_bytes(rev.as_slice()));
                proof {
                    assert(i64_b::parse(s) == Ok::<(i64, int), DecodeError>((y, 8)));
                    assert(buf.rem() == s.skip(8));
                }
                Ok(i64_b(y))
            },
            Err(e) => {
                proof {
                    assert(i64_b::parse(s) == Err::<(i64, int), DecodeError>(
                        DecodeError::ShortLength,
                    ));
                }
                Err(e)
            },
        }
    }
}

/// Decoding the big-endian encoding of any `i64`, with any trailing
/// bytes after it, gives back exactly that value and consumes exactly its
/// 8 bytes.
pub proof fn lemma_i64_b_round_trip(x: i64, rest: Seq<u8>)
    ensures
        i64_b::parse(spec_u64_to_be_bytes(u64_of_i64(x)) + rest) == Ok::<(i64, int), DecodeError>((
            x,
            8,
        )),
{
    lemma_auto_spec_u64_to_from_le_bytes();
    assert((spec_u64_to_be_bytes(u64_of_i64(x)) + rest).take(8) =~= spec_u64_to_be_bytes(u64_of_i64(x)));
    assert(spec_u64_to_le_bytes(u64_of_i64(x)).reverse().reverse() =~= spec_u64_to_le_bytes(u64_of_i64(x)));
}

/// The two's-complement image of an `i8` as a `u8`.
pub open spec fn u8_of_i8(x: i8) -> u8 {
    if x >= 0 {
        x as u8
    } else {
        (x + 0x100) as u8
    }
}

/// The `i8` whose two's-complement image is the given `u8`.
pub open spec fn i8_of_u8(x: u8) -> i8 {
    if x < 0x80 {
        x as i8
    } else {
        (x - 0x100) as i8
    }
}

fn i8_to_image(x: i8) -> (r: u8)
    ensures
        r == u8_of_i8(x),
{
    if x >= 0 {
        x as u8
    } else {
        ((x as i16) + 0x100) as u8
    }
}

fn i8_from_image(x: u8) -> (r: i8)
    ensures
        r == i8_of_u8(x),
{
    if x < 0x80 {
        x as i8
    } else {
        ((x as i16) - 0x100) as i8
    }
}

impl EncodableSized for u8 {
    open spec fn senc(&self) -> Seq<u8> {
        seq![*self]
    }

    fn size(&self) -> (n: usize) {
        1
    }

    fn bytes(&self) -> (v: Vec<u8>) {
        let mut v: Vec<u8> = Vec::new();
        v.push(*self);
        proof {
            assert(v@ =~= seq![*self]);
        }
        v
    }
}

impl Decodable for u8 {
    open spec fn parse(s: Seq<u8>) -> Result<(u8, int), DecodeError> {
        if s.len() < 1 {
            Err(DecodeError::ShortLength)
        } else {
            Ok((s[0], 1))
        }
    }

    proof fn lemma_parse_len(s: Seq<u8>) {
    }

    fn decode<R: ReadBuf>(buf: &mut R) -> (r: Result<Self, DecodeError>) {
        let ghost s = buf.rem();
        match buf.read_bytes(1) {
            Ok(v) => {
                let x = v[0];
                proof {
                    assert(u8::parse(s) == Ok::<(u8, int), DecodeError>((x, 1)));
                    assert(buf.rem() == s.skip(1));
                }
                Ok(x)
            },
            Err(e) => {
                proof {
                    assert(u8::parse(s) == Err::<(u8, int), DecodeError>(DecodeError::ShortLength));
                }
                Err(e)
            },
        }
    }
}

impl EncodableSized for i8 {
    open spec fn senc(&self) -> Seq<u8> {
        seq![u8_of_i8(*self)]
    }

    fn size(&self) -> (n: usize) {
        1
    }

    fn bytes(&self) -> (v: Vec<u8>) {
        let mut v: Vec<u8> = Vec::new();
        v.push(i8_to_image(*self));
        proof {
            assert(v@ =~= seq![u8_of_i8(*self)]);
        }
        v
    }
}

impl Decodable for i8 {
    open spec fn parse(s: Seq<u8>) -> Result<(i8, int), DecodeError> {
        if s.len() < 1 {
            Err(DecodeError::ShortLength)
        } else {
            Ok((i8_of_u8(s[0]), 1))
        }
    }

    proof fn lemma_parse_len(s: Seq<u8>) {
    }

    fn decode<R: ReadBuf>(buf: &mut R) -> (r: Result<Self, DecodeError>) {
        let ghost s = buf.rem();
        match buf.read_bytes(1) {
            Ok(v) => {
                let y = i8_from_image(v[0]);
                proof {
                    assert(i8::parse(s) == Ok::<(i8, int), DecodeError>((y, 1)));
                    assert(buf.rem() == s.skip(1));
                }
                Ok(y)
            },
            Err(e) => {
                proof {
                    assert(i8::parse(s) == Err::<(i8, int), DecodeError>(DecodeError::ShortLength));
                }
                Err(e)
            },
        }
    }
}

/// Decoding the one-byte encoding of any `u8`, with any trailing bytes
/// after it, gives back exactly that value and consumes exactly one byte.
pub proof fn lemma_u8_round_trip(x: u8, rest: Seq<u8>)
    ensures
        u8::parse(seq![x] + rest) == Ok::<(u8, int), DecodeError>((x, 1)),
{
}

/// Decoding the one-byte encoding of any `i8`, with any trailing bytes
/// after it, gives back exactly that value and consumes exactly one byte.
pub proof fn lemma_i8_round_trip(x: i8, rest: Seq<u8>)
    ensures
        i8::parse(seq![u8_of_i8(x)] + rest) == Ok::<(i8, int), DecodeError>((x, 1)),
{
}


/// The `u32` encoded big-endian in the 4 bytes of the given slice.
pub(crate) fn u32_from_be_slice(v: &[u8]) -> (r: u32)
    requires
        v@.len() == 4,
    ensures
        r == spec_u32_from_be_bytes(v@),
{
    let rev = reversed(v);
    u32_from_le_bytes(rev.as_slice())
}

} // verus!
