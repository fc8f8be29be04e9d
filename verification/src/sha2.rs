//! A from-scratch SHA-256 engine: bytes in, 32-byte digest out. The
//! message is padded to whole 512-bit blocks, each block is expanded to a
//! 64-word schedule and folded through 64 rounds of mixing with modular
//! (wrapping) 32-bit addition throughout, and the running hash is
//! serialized big-endian. Double SHA-256 of a payload, truncated to its
//! first 4 bytes, is the wire protocol's checksum.

use vstd::prelude::*;

use crate::encode::EncodableSized;
use crate::endian::{
    spec_u32_from_be_bytes, spec_u32_to_be_bytes, spec_u64_to_be_bytes, u32_b, u32_from_be_slice,
    u64_b,
};

verus! {

broadcast use vstd::std_specs::vec::group_vec_axioms;

/// The "choose" mix: for each bit, `x` selects between `y` and `z`.
pub open spec fn spec_ch(x: u32, y: u32, z: u32) -> u32 {
    (x & y) ^ (!x & z)
}

/// The "choose" mix: for each bit, `x` selects between `y` and `z`.
pub fn ch(x: u32, y: u32, z: u32) -> (r: u32)
    ensures
        r == spec_ch(x, y, z),
{
    (x & y) ^ (!x & z)
}

/// The "majority" mix: each result bit is the majority of the three input
/// bits.
pub open spec fn spec_majority(x: u32, y: u32, z: u32) -> u32 {
    (x & y) ^ (x & z) ^ (y & z)
}

/// The "majority" mix: each result bit is the majority of the three input
/// bits.
pub fn majority(x: u32, y: u32, z: u32) -> (r: u32)
    ensures
        r == spec_majority(x, y, z),
{
    (x & y) ^ (x & z) ^ (y & z)
}

/// `x` rotated right by `n` bits.
pub open spec fn spec_rotr(x: u32, n: u32) -> u32
    recommends
        1 <= n < 32,
{
    (x >> n) | (x << (32 - n) as u32)
}

fn rotr(x: u32, n: u32) -> (r: u32)
    requires
        1 <= n < 32,
    ensures
        r == spec_rotr(x, n),
{
    (x >> n) | (x << (32 - n))
}

/// The first big mixing function: rotations by 2, 13 and 22.
pub open spec fn spec_big_sigma_0(x: u32) -> u32 {
    spec_rotr(x, 2) ^ spec_rotr(x, 13) ^ spec_rotr(x, 22)
}

/// The first big mixing function: rotations by 2, 13 and 22.
pub fn big_sigma_0(x: u32) -> (r: u32)
    ensures
        r == spec_big_sigma_0(x),
{
    rotr(x, 2) ^ rotr(x, 13) ^ rotr(x, 22)
}

/// The second big mixing function: rotations by 6, 11 and 25.
pub open spec fn spec_big_sigma_1(x: u32) -> u32 {
    spec_rotr(x, 6) ^ spec_rotr(x, 11) ^ spec_rotr(x, 25)
}

/// The second big mixing function: rotations by 6, 11 and 25.
pub fn big_sigma_1(x: u32) -> (r: u32)
    ensures
        r == spec_big_sigma_1(x),
{
    rotr(x, 6) ^ rotr(x, 11) ^ rotr(x, 25)
}

/// The first small mixing function: rotations by 7 and 18 and a shift by 3.
pub open spec fn spec_small_sigma_0(x: u32) -> u32 {
    spec_rotr(x, 7) ^ spec_rotr(x, 18) ^ (x >> 3)
}

/// The first small mixing function: rotations by 7 and 18 and a shift by 3.
pub fn small_sigma_0(x: u32) -> (r: u32)
    ensures
        r == spec_small_sigma_0(x),
{
    rotr(x, 7) ^ rotr(x, 18) ^ (x >> 3)
}

/// The second small mixing function: rotations by 17 and 19 and a shift by
/// 10.
pub open spec fn spec_small_sigma_1(x: u32) -> u32 {
    spec_rotr(x, 17) ^ spec_rotr(x, 19) ^ (x >> 10)
}

/// The second small mixing function: rotations by 17 and 19 and a shift by
/// 10.
pub fn small_sigma_1(x: u32) -> (r: u32)
    ensures
        r == spec_small_sigma_1(x),
{
    rotr(x, 17) ^ rotr(x, 19) ^ (x >> 10)
}

/// The 64 per-round constants: the fractional parts of the cube roots of
/// the first 64 primes.
pub open spec fn spec_sha256_k() -> Seq<u32> {
    seq![
        0x428a2f98u32, 0x71374491, 0xb5c0fbcf, 0xe9b5dba5, 0x3956c25b, 0x59f111f1, 0x923f82a4,
        0xab1c5ed5, 0xd807aa98, 0x12835b01, 0x243185be, 0x550c7dc3, 0x72be5d74, 0x80deb1fe,
        0x9bdc06a7, 0xc19bf174, 0xe49b69c1, 0xefbe4786, 0x0fc19dc6, 0x240ca1cc, 0x2de92c6f,
        0x4a7484aa, 0x5cb0a9dc, 0x76f988da, 0x983e5152, 0xa831c66d, 0xb00327c8, 0xbf597fc7,
        0xc6e00bf3, 0xd5a79147, 0x06ca6351, 0x14292967, 0x27b70a85, 0x2e1b2138, 0x4d2c6dfc,
        0x53380d13, 0x650a7354, 0x766a0abb, 0x81c2c92e, 0x92722c85, 0xa2bfe8a1, 0xa81a664b,
        0xc24b8b70, 0xc76c51a3, 0xd192e819, 0xd6990624, 0xf40e3585, 0x106aa070, 0x19a4c116,
        0x1e376c08, 0x2748774c, 0x34b0bcb5, 0x391c0cb3, 0x4ed8aa4a, 0x5b9cca4f, 0x682e6ff3,
        0x748f82ee, 0x78a5636f, 0x84c87814, 0x8cc70208, 0x90befffa, 0xa4506ceb, 0xbef9a3f7,
        0xc67178f2,
    ]
}

/// The initial hash value: the fractional parts of the square roots of the
/// first 8 primes.
pub open spec fn spec_sha256_h0() -> Seq<u32> {
    seq![
        0x6a09e667u32, 0xbb67ae85, 0x3c6ef372, 0xa54ff53a, 0x510e527f, 0x9b05688c, 0x1f83d9ab,
        0x5be0cd19,
    ]
}

#[verifier::rlimit(50)]
fn k_table() -> (v: Vec<u32>)
    ensures
        v@ == spec_sha256_k(),
{
    let mut v: Vec<u32> = Vec::with_capacity(64);
    v.push(0x428a2f98);
    v.push(0x71374491);
    v.push(0xb5c0fbcf);
    v.push(0xe9b5dba5);
    v.push(0x3956c25b);
    v.push(0x59f111f1);
    v.push(0x923f82a4);
    v.push(0xab1c5ed5);
    v.push(0xd807aa98);
    v.push(0x12835b01);
    v.push(0x243185be);
    v.push(0x550c7dc3);
    v.push(0x72be5d74);
    v.push(0x80deb1fe);
    v.push(0x9bdc06a7);
    v.push(0xc19bf174);
    v.push(0xe49b69c1);
    v.push(0xefbe4786);
    v.push(0x0fc19dc6);
    v.push(0x240ca1cc);
    v.push(0x2de92c6f);
    v.push(0x4a7484aa);
    v.push(0x5cb0a9dc);
    v.push(0x76f988da);
    v.push(0x983e5152);
    v.push(0xa831c66d);
    v.push(0xb00327c8);
    v.push(0xbf597fc7);
    v.push(0xc6e00bf3);
    v.push(0xd5a79147);
    v.push(0x06ca6351);
    v.push(0x14292967);
    v.push(0x27b70a85);
    v.push(0x2e1b2138);
    v.push(0x4d2c6dfc);
    v.push(0x53380d13);
    v.push(0x650a7354);
    v.push(0x766a0abb);
    v.push(0x81c2c92e);
    v.push(0x92722c85);
    v.push(0xa2bfe8a1);
    v.push(0xa81a664b);
    v.push(0xc24b8b70);
    v.push(0xc76c51a3);
    v.push(0xd192e819);
    v.push(0xd6990624);
    v.push(0xf40e3585);
    v.push(0x106aa070);
    v.push(0x19a4c116);
    v.push(0x1e376c08);
    v.push(0x2748774c);
    v.push(0x34b0bcb5);
    v.push(0x391c0cb3);
    v.push(0x4ed8aa4a);
    v.push(0x5b9cca4f);
    v.push(0x682e6ff3);
    v.push(0x748f82ee);
    v.push(0x78a5636f);
    v.push(0x84c87814);
    v.push(0x8cc70208);
    v.push(0x90befffa);
    v.push(0xa4506ceb);
    v.push(0xbef9a3f7);
    v.push(0xc67178f2);
    proof {
        assert(v@ =~= spec_sha256_k());
    }
    v
}

fn h0_vec() -> (v: Vec<u32>)
    ensures
        v@ == spec_sha256_h0(),
{
    let mut v: Vec<u32> = Vec::with_capacity(8);
    v.push(0x6a09e667);
    v.push(0xbb67ae85);
    v.push(0x3c6ef372);
    v.push(0xa54ff53a);
    v.push(0x510e527f);
    v.push(0x9b05688c);
    v.push(0x1f83d9ab);
    v.push(0x5be0cd19);
    proof {
        assert(v@ =~= spec_sha256_h0());
    }
    v
}

/// How many zero bytes the padding inserts after the `0x80` byte, so that
/// the padded length is congruent to 56 modulo 64 before the 8 length
/// bytes.
pub open spec fn spec_pad_zeros(len: nat) -> int {
    if len % 64 <= 55 {
        55 - len % 64
    } else {
        119 - len % 64
    }
}

/// The padded message: the message, one `0x80` byte, zero bytes up to 56
/// modulo 64, then the message length in bits as a big-endian 64-bit
/// integer.
pub open spec fn spec_sha_pad(msg: Seq<u8>) -> Seq<u8>
    recommends
        msg.len() * 8 <= u64::MAX,
{
    msg + seq![0x80u8] + Seq::new(spec_pad_zeros(msg.len()) as nat, |i: int| 0u8)
        + spec_u64_to_be_bytes((msg.len() * 8) as u64)
}

/// The padded message is a whole number of 64-byte blocks.
pub proof fn lemma_sha_pad_len(msg: Seq<u8>)
    ensures
        spec_sha_pad(msg).len() == msg.len() + 1 + spec_pad_zeros(msg.len()) + 8,
        spec_sha_pad(msg).len() % 64 == 0,
{
    vstd::bytes::lemma_auto_spec_u64_to_from_le_bytes();
    assert(spec_u64_to_be_bytes((msg.len() * 8) as u64).len() == 8);
    let len = msg.len();
    let total = len + 1 + spec_pad_zeros(len) + 8;
    assert(total % 64 == 0) by {
        let r = len % 64;
        vstd::arithmetic::div_mod::lemma_fundamental_div_mod(len as int, 64);
        if r <= 55 {
            assert(total == 64 * (len / 64) + 64);
            assert((64 * (len / 64) + 64) % 64 == 0) by (nonlinear_arith);
        } else {
            assert(total == 64 * (len / 64) + 128);
            assert((64 * (len / 64) + 128) % 64 == 0) by (nonlinear_arith);
        }
    }
}

fn get_padded_vec(msg: &[u8]) -> (v: Vec<u8>)
    requires
        msg@.len() * 8 <= u64::MAX,
    ensures
        v@ == spec_sha_pad(msg@),
{
    let len = msg.len();
    let mut v: Vec<u8> = Vec::new();
    v.extend_from_slice(msg);
    v.push(0x80);
    let r = len % 64;
    let zeros: usize = if r <= 55 {
        55 - r
    } else {
        119 - r
    };
    let ghost before_zeros = v@;
    let mut i: usize = 0;
    while i < zeros
        invariant
            i <= zeros,
            v@ == before_zeros + Seq::new(i as nat, |j: int| 0u8),
        decreases zeros - i,
    {
        v.push(0u8);
        proof {
            assert(before_zeros + Seq::new((i + 1) as nat, |j: int| 0u8) =~= (before_zeros
                + Seq::new(i as nat, |j: int| 0u8)).push(0u8));
        }
        i = i + 1;
    }
    let bits: u64 = (len as u64) * 8;
    proof {
        vstd::bytes::lemma_auto_spec_u64_to_from_le_bytes();
    }
    let mut tail = u64_b::new(bits).bytes();
    v.append(&mut tail);
    proof {
        assert(v@ =~= spec_sha_pad(msg@));
    }
    v
}

/// Word `t` of the message schedule: the first 16 words are the block, the
/// rest mix words 2, 7, 15 and 16 positions back.
pub open spec fn spec_w(block: Seq<u32>, t: int) -> u32
    recommends
        block.len() == 16,
        0 <= t < 64,
    decreases t,
{
    if t < 16 {
        block[t]
    } else {
        spec_small_sigma_1(spec_w(block, t - 2)).wrapping_add(spec_w(block, t - 7)).wrapping_add(
            spec_small_sigma_0(spec_w(block, t - 15)),
        ).wrapping_add(spec_w(block, t - 16))
    }
}

/// The eight working variables after `t` rounds over the given block,
/// starting from the previous hash value.
pub open spec fn spec_rounds(block: Seq<u32>, h: Seq<u32>, t: int) -> Seq<u32>
    recommends
        block.len() == 16,
        h.len() == 8,
        0 <= t <= 64,
    decreases t,
{
    if t <= 0 {
        h
    } else {
        let p = spec_rounds(block, h, t - 1);
        let t1 = p[7].wrapping_add(spec_big_sigma_1(p[4])).wrapping_add(
            spec_ch(p[4], p[5], p[6]),
        ).wrapping_add(spec_sha256_k()[t - 1]).wrapping_add(spec_w(block, t - 1));
        let t2 = spec_big_sigma_0(p[0]).wrapping_add(spec_majority(p[0], p[1], p[2]));
        seq![
            t1.wrapping_add(t2),
            p[0],
            p[1],
            p[2],
            p[3].wrapping_add(t1),
            p[4],
            p[5],
            p[6],
        ]
    }
}

/// The hash value after one more block: the working variables after 64
/// rounds, added word-wise to the previous hash value.
pub open spec fn spec_next_hash(block: Seq<u32>, h: Seq<u32>) -> Seq<u32> {
    let f = spec_rounds(block, h, 64);
    Seq::new(8, |j: int| f[j].wrapping_add(h[j]))
}

/// Block `i` of the padded message, parsed as sixteen big-endian 32-bit
/// words.
pub open spec fn spec_block_words(p: Seq<u8>, i: int) -> Seq<u32> {
    Seq::new(16, |j: int| spec_u32_from_be_bytes(p.subrange(64 * i + 4 * j, 64 * i + 4 * j + 4)))
}

/// The running hash after the first `i` blocks of the padded message.
pub open spec fn spec_hash_blocks(p: Seq<u8>, i: int) -> Seq<u32>
    decreases i,
{
    if i <= 0 {
        spec_sha256_h0()
    } else {
        spec_next_hash(spec_block_words(p, i - 1), spec_hash_blocks(p, i - 1))
    }
}

/// The words of a hash value serialized big-endian, in order.
pub open spec fn spec_words_to_bytes(h: Seq<u32>) -> Seq<u8>
    decreases h.len(),
{
    if h.len() == 0 {
        Seq::empty()
    } else {
        spec_words_to_bytes(h.drop_last()) + spec_u32_to_be_bytes(h.last())
    }
}

/// Serializing `n` words gives `4 * n` bytes.
pub proof fn lemma_words_to_bytes_len(h: Seq<u32>)
    ensures
        spec_words_to_bytes(h).len() == 4 * h.len(),
    decreases h.len(),
{
    vstd::bytes::lemma_auto_spec_u32_to_from_le_bytes();
    if h.len() > 0 {
        lemma_words_to_bytes_len(h.drop_last());
    }
}

/// The SHA-256 digest of a byte sequence: the padded message folded block
/// by block from the initial hash value, serialized big-endian.
pub open spec fn spec_sha256(msg: Seq<u8>) -> Seq<u8> {
    spec_words_to_bytes(spec_hash_blocks(spec_sha_pad(msg), spec_sha_pad(msg).len() as int / 64))
}

/// The wire protocol's checksum: the first 4 bytes of the double SHA-256
/// digest of the payload.
pub open spec fn spec_checksum(p: Seq<u8>) -> Seq<u8> {
    spec_sha256(spec_sha256(p)).take(4)
}

fn read_block(p: &Vec<u8>, i: usize) -> (block: Vec<u32>)
    requires
        64 * (i + 1) <= p@.len(),
    ensures
        block@ == spec_block_words(p@, i as int),
        block@.len() == 16,
{
    proof {
        assert(vstd::std_specs::vec::spec_vec_len(p) == p@.len());
    }
    let mut block: Vec<u32> = Vec::with_capacity(16);
    let mut j: usize = 0;
    while j < 16
        invariant
            j <= 16,
            64 * (i + 1) <= p@.len(),
            block@.len() == j,
            forall|j2: int| 0 <= j2 < j ==> block@[j2] == spec_block_words(p@, i as int)[j2],
        decreases 16 - j,
    {
        proof {
            assert(vstd::std_specs::vec::spec_vec_len(p) == p@.len());
            assert(64 * i + 4 * j + 4 <= p@.len());
        }
        let base = 64 * i + 4 * j;
        let sl = vstd::slice::slice_subrange(p.as_slice(), base, base + 4);
        let word = u32_from_be_slice(sl);
        block.push(word);
        j = j + 1;
    }
    proof {
        assert(block@ =~= spec_block_words(p@, i as int));
    }
    block
}

fn compute_next_hash(block: &Vec<u32>, prev: &Vec<u32>, k: &Vec<u32>) -> (out: Vec<u32>)
    requires
        block@.len() == 16,
        prev@.len() == 8,
        k@ == spec_sha256_k(),
    ensures
        out@ == spec_next_hash(block@, prev@),
        out@.len() == 8,
{
    // The message schedule.
    let mut w: Vec<u32> = Vec::with_capacity(64);
    let mut t: usize = 0;
    while t < 64
        invariant
            t <= 64,
            block@.len() == 16,
            w@.len() == t,
            forall|t2: int| 0 <= t2 < t ==> w@[t2] == spec_w(block@, t2),
        decreases 64 - t,
    {
        if t < 16 {
            w.push(block[t]);
        } else {
            let x = small_sigma_1(w[t - 2]).wrapping_add(w[t - 7]).wrapping_add(
                small_sigma_0(w[t - 15]),
            ).wrapping_add(w[t - 16]);
            w.push(x);
        }
        t = t + 1;
    }
    // The 64 rounds.
    let mut a = prev[0];
    let mut b = prev[1];
    let mut c = prev[2];
    let mut d = prev[3];
    let mut e = prev[4];
    let mut f = prev[5];
    let mut g = prev[6];
    let mut h = prev[7];
    let mut t: usize = 0;
    while t < 64
        invariant
            t <= 64,
            block@.len() == 16,
            prev@.len() == 8,
            k@ == spec_sha256_k(),
            w@.len() == 64,
            forall|t2: int| 0 <= t2 < 64 ==> w@[t2] == spec_w(block@, t2),
            a == spec_rounds(block@, prev@, t as int)[0],
            b == spec_rounds(block@, prev@, t as int)[1],
            c == spec_rounds(block@, prev@, t as int)[2],
            d == spec_rounds(block@, prev@, t as int)[3],
            e == spec_rounds(block@, prev@, t as int)[4],
            f == spec_rounds(block@, prev@, t as int)[5],
            g == spec_rounds(block@, prev@, t as int)[6],
            h == spec_rounds(block@, prev@, t as int)[7],
        decreases 64 - t,
    {
        let t1 = h.wrapping_add(big_sigma_1(e)).wrapping_add(ch(e, f, g)).wrapping_add(
            k[t],
        ).wrapping_add(w[t]);
        let t2 = big_sigma_0(a).wrapping_add(majority(a, b, c));
        h = g;
        g = f;
        f = e;
        e = d.wrapping_add(t1);
        d = c;
        c = b;
        b = a;
        a = t1.wrapping_add(t2);
        t = t + 1;
    }
    // Word-wise addition onto the previous hash value.
    let mut out: Vec<u32> = Vec::with_capacity(8);
    out.push(a.wrapping_add(prev[0]));
    out.push(b.wrapping_add(prev[1]));
    out.push(c.wrapping_add(prev[2]));
    out.push(d.wrapping_add(prev[3]));
    out.push(e.wrapping_add(prev[4]));
    out.push(f.wrapping_add(prev[5]));
    out.push(g.wrapping_add(prev[6]));
    out.push(h.wrapping_add(prev[7]));
    proof {
        assert(out@ =~= spec_next_hash(block@, prev@));
    }
    out
}

/// The SHA-256 digest of the given bytes: a pure function, 32 bytes out
/// for any input whose bit length fits the padding's 64-bit length field.
pub fn sha256(msg: &[u8]) -> (r: Vec<u8>)
    requires
        msg@.len() * 8 <= u64::MAX,
    ensures
        r@ == spec_sha256(msg@),
        r@.len() == 32,
{
    let padded = get_padded_vec(msg);
    proof {
        lemma_sha_pad_len(msg@);
        assert(vstd::std_specs::vec::spec_vec_len(&padded) == padded@.len());
    }
    let nblocks = padded.len() / 64;
    let k = k_table();
    let mut hv = h0_vec();
    let mut i: usize = 0;
    while i < nblocks
        invariant
            i <= nblocks,
            padded@ == spec_sha_pad(msg@),
            padded@.len() == 64 * nblocks,
            k@ == spec_sha256_k(),
            hv@ == spec_hash_blocks(padded@, i as int),
            hv@.len() == 8,
        decreases nblocks - i,
    {
        let block = read_block(&padded, i);
        hv = compute_next_hash(&block, &hv, &k);
        i = i + 1;
    }
    let mut r: Vec<u8> = Vec::with_capacity(32);
    let mut j: usize = 0;
    while j < 8
        invariant
            j <= 8,
            hv@.len() == 8,
            hv@ == spec_hash_blocks(spec_sha_pad(msg@), (spec_sha_pad(msg@).len() / 64) as int),
            padded@ == spec_sha_pad(msg@),
            r@ == spec_words_to_bytes(hv@.take(j as int)),
        decreases 8 - j,
    {
        proof {
            vstd::bytes::lemma_auto_spec_u32_to_from_le_bytes();
        }
        let mut word = u32_b::new(hv[j]).bytes();
        r.append(&mut word);
        proof {
            assert(hv@.take(j + 1).drop_last() =~= hv@.take(j as int));
        }
        j = j + 1;
    }
    proof {
        assert(hv@.take(8) =~= hv@);
        lemma_words_to_bytes_len(hv@);
        assert(64 * ((padded@.len() as int) / 64) == padded@.len() as int);
    }
    r
}

/// The wire checksum of a payload: the first 4 bytes of its double
/// SHA-256 digest.
pub fn checksum(payload: &[u8]) -> (r: Vec<u8>)
    requires
        payload@.len() * 8 <= u64::MAX,
    ensures
        r@ == spec_checksum(payload@),
        r@.len() == 4,
{
    let d1 = sha256(payload);
    let mut d2 = sha256(d1.as_slice());
    d2.truncate(4);
    proof {
        assert(d2@ =~= spec_checksum(payload@));
    }
    d2
}

} // verus!
