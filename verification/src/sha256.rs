//! SHA-256: a hash function of 32 bytes of output, which works on
//! blocks of 64 bytes with words of 32 bits.
use vstd::prelude::*;
use crate::bytes::{
    append_be32, append_be64, append_zeros, lemma_cut_in_first_part, spec_be32, spec_be64,
};

verus! {

/// Bytes of one block.
pub const BLOCK: usize = 64;

/// Bytes of the output.
pub const DIGEST: usize = 32;

/// The longest message that can be hashed: its length in bits is written
/// in 64 bits, and the padded message is held in memory.
pub open spec fn spec_hashable(len: nat) -> bool {
    len < 0x2000_0000_0000_0000 && len + 128 <= usize::MAX
}

/// A word turned to the right by `r` bits, `0 < r < 32`.
pub open spec fn spec_rotr(x: u32, r: u32) -> u32 {
    (x >> r) | (x << ((32 - r) as u32))
}

pub open spec fn spec_ch(x: u32, y: u32, z: u32) -> u32 {
    (x & y) ^ (!x & z)
}

pub open spec fn spec_maj(x: u32, y: u32, z: u32) -> u32 {
    (x & y) ^ (x & z) ^ (y & z)
}

pub open spec fn spec_big_sigma0(x: u32) -> u32 {
    spec_rotr(x, 2) ^ spec_rotr(x, 13) ^ spec_rotr(x, 22)
}

pub open spec fn spec_big_sigma1(x: u32) -> u32 {
    spec_rotr(x, 6) ^ spec_rotr(x, 11) ^ spec_rotr(x, 25)
}

pub open spec fn spec_small_sigma0(x: u32) -> u32 {
    spec_rotr(x, 7) ^ spec_rotr(x, 18) ^ (x >> 3u32)
}

pub open spec fn spec_small_sigma1(x: u32) -> u32 {
    spec_rotr(x, 17) ^ spec_rotr(x, 19) ^ (x >> 10u32)
}

/// The constant of round `t`.
pub open spec fn spec_round_constant(t: int) -> u32 {
    if t == 0 {
        0x428a2f98
    } else if t == 1 {
        0x71374491
    } else if t == 2 {
        0xb5c0fbcf
    } else if t == 3 {
        0xe9b5dba5
    } else if t == 4 {
        0x3956c25b
    } else if t == 5 {
        0x59f111f1
    } else if t == 6 {
        0x923f82a4
    } else if t == 7 {
        0xab1c5ed5
    } else if t == 8 {
        0xd807aa98
    } else if t == 9 {
        0x12835b01
    } else if t == 10 {
        0x243185be
    } else if t == 11 {
        0x550c7dc3
    } else if t == 12 {
        0x72be5d74
    } else if t == 13 {
        0x80deb1fe
    } else if t == 14 {
        0x9bdc06a7
    } else if t == 15 {
        0xc19bf174
    } else if t == 16 {
        0xe49b69c1
    } else if t == 17 {
        0xefbe4786
    } else if t == 18 {
        0x0fc19dc6
    } else if t == 19 {
        0x240ca1cc
    } else if t == 20 {
        0x2de92c6f
    } else if t == 21 {
        0x4a7484aa
    } else if t == 22 {
        0x5cb0a9dc
    } else if t == 23 {
        0x76f988da
    } else if t == 24 {
        0x983e5152
    } else if t == 25 {
        0xa831c66d
    } else if t == 26 {
        0xb00327c8
    } else if t == 27 {
        0xbf597fc7
    } else if t == 28 {
        0xc6e00bf3
    } else if t == 29 {
        0xd5a79147
    } else if t == 30 {
        0x06ca6351
    } else if t == 31 {
        0x14292967
    } else if t == 32 {
        0x27b70a85
    } else if t == 33 {
        0x2e1b2138
    } else if t == 34 {
        0x4d2c6dfc
    } else if t == 35 {
        0x53380d13
    } else if t == 36 {
        0x650a7354
    } else if t == 37 {
        0x766a0abb
    } else if t == 38 {
        0x81c2c92e
    } else if t == 39 {
        0x92722c85
    } else if t == 40 {
        0xa2bfe8a1
    } else if t == 41 {
        0xa81a664b
    } else if t == 42 {
        0xc24b8b70
    } else if t == 43 {
        0xc76c51a3
    } else if t == 44 {
        0xd192e819
    } else if t == 45 {
        0xd6990624
    } else if t == 46 {
        0xf40e3585
    } else if t == 47 {
        0x106aa070
    } else if t == 48 {
        0x19a4c116
    } else if t == 49 {
        0x1e376c08
    } else if t == 50 {
        0x2748774c
    } else if t == 51 {
        0x34b0bcb5
    } else if t == 52 {
        0x391c0cb3
    } else if t == 53 {
        0x4ed8aa4a
    } else if t == 54 {
        0x5b9cca4f
    } else if t == 55 {
        0x682e6ff3
    } else if t == 56 {
        0x748f82ee
    } else if t == 57 {
        0x78a5636f
    } else if t == 58 {
        0x84c87814
    } else if t == 59 {
        0x8cc70208
    } else if t == 60 {
        0x90befffa
    } else if t == 61 {
        0xa4506ceb
    } else if t == 62 {
        0xbef9a3f7
    } else {
        0xc67178f2
    }
}

/// The state before the first block.
pub open spec fn spec_initial_state() -> Seq<u32> {
    seq![
        0x6a09e667,
        0xbb67ae85,
        0x3c6ef372,
        0xa54ff53a,
        0x510e527f,
        0x9b05688c,
        0x1f83d9ab,
        0x5be0cd19,
    ]
}

/// Word `t` of a block, most significant byte first.
pub open spec fn spec_word(block: Seq<u8>, t: int) -> u32 {
    (
        (block[4 * t] as u32) * 0x1000000 + (block[4 * t + 1] as u32) * 0x10000
        + (block[4 * t + 2] as u32) * 0x100 + block[4 * t + 3] as u32
    ) as u32
}

/// Word `t` of the message schedule of a block.
pub open spec fn spec_schedule(block: Seq<u8>, t: nat) -> u32
    decreases t,
{
    if t < 16 {
        spec_word(block, t as int)
    } else {
        spec_small_sigma1(spec_schedule(block, (t - 2) as nat)).wrapping_add(
            spec_schedule(block, (t - 7) as nat),
        ).wrapping_add(spec_small_sigma0(spec_schedule(block, (t - 15) as nat))).wrapping_add(
            spec_schedule(block, (t - 16) as nat),
        )
    }
}

/// One round on the eight working words `s`, with constant `k` and
/// schedule word `w`.
pub open spec fn spec_round(s: Seq<u32>, k: u32, w: u32) -> Seq<u32> {
    let t1 = s[7].wrapping_add(spec_big_sigma1(s[4])).wrapping_add(
        spec_ch(s[4], s[5], s[6]),
    ).wrapping_add(k).wrapping_add(w);
    let t2 = spec_big_sigma0(s[0]).wrapping_add(spec_maj(s[0], s[1], s[2]));
    seq![
        t1.wrapping_add(t2),
        s[0],
        s[1],
        s[2],
        s[3].wrapping_add(t1),
        s[4],
        s[5],
        s[6],
    ]
}

/// The working words after the first `t` rounds on a block.
pub open spec fn spec_rounds(s: Seq<u32>, block: Seq<u8>, t: nat) -> Seq<u32>
    decreases t,
{
    if t == 0 {
        s
    } else {
        spec_round(
            spec_rounds(s, block, (t - 1) as nat),
            spec_round_constant(t - 1),
            spec_schedule(block, (t - 1) as nat),
        )
    }
}

/// The state after one more block.
pub open spec fn spec_compress(h: Seq<u32>, block: Seq<u8>) -> Seq<u32> {
    let s = spec_rounds(h, block, 64);
    Seq::new(8, |i: int| h[i].wrapping_add(s[i]))
}

/// Length of the padded message: the least multiple of the block length
/// that holds the message, one byte and the length field.
pub open spec fn spec_padded_len(len: nat) -> nat {
    (((len + 8) / 64 + 1) * 64) as nat
}

/// The lowest 64 bits of the length in bits of a message of `len` bytes.
pub open spec fn spec_bits_low(len: nat) -> u64 {
    ((8 * len) % 0x1_0000_0000_0000_0000) as u64
}

/// What is put after a message of `len` bytes: the byte `0x80`, zeros,
/// and the length of the message in bits. The length is written in 64
/// bits: of its bits, the lowest 64.
#[verifier::opaque]
pub open spec fn spec_padding(len: nat) -> Seq<u8> {
    seq![0x80u8] + Seq::new((spec_padded_len(len) - len - 9) as nat, |i: int| 0u8) + (
        spec_be64(spec_bits_low(len))
    )
}

/// The padded message.
pub open spec fn spec_pad(msg: Seq<u8>) -> Seq<u8> {
    msg + spec_padding(msg.len())
}

/// The state after the first `blocks` blocks of `padded`.
pub open spec fn spec_state(padded: Seq<u8>, blocks: nat) -> Seq<u32>
    decreases blocks,
{
    if blocks == 0 {
        spec_initial_state()
    } else {
        spec_compress(
            spec_state(padded, (blocks - 1) as nat),
            padded.subrange(64 * (blocks - 1), 64 * (blocks - 1) + 64),
        )
    }
}

/// The eight words of a state as bytes, most significant first.
pub open spec fn spec_state_bytes(s: Seq<u32>) -> Seq<u8> {
    spec_be32(s[0]) + spec_be32(s[1]) + spec_be32(s[2]) + spec_be32(s[3])
        + spec_be32(s[4]) + spec_be32(s[5]) + spec_be32(s[6]) + spec_be32(s[7])
}

/// SHA-256 of `msg`.
#[verifier::opaque]
pub open spec fn spec_sha256(msg: Seq<u8>) -> Seq<u8> {
    let padded = spec_pad(msg);
    spec_state_bytes(spec_state(padded, padded.len() / 64))
}

/// The output has 32 bytes.
pub proof fn lemma_sha256_len(msg: Seq<u8>)
    ensures
        spec_sha256(msg).len() == DIGEST,
{
    reveal(spec_sha256);
    let padded = spec_pad(msg);
    let s = spec_state(padded, padded.len() / 64);
    assert(forall|x: u32| (#[trigger] spec_be32(x)).len() == 4);
    assert(spec_state_bytes(s).len() == DIGEST);
}

#[inline]
fn rotr(x: u32, r: u32) -> (y: u32)
    requires
        0 < r < 32,
    ensures
        y == spec_rotr(x, r),
{
    (x >> r) | (x << (32 - r))
}

fn round_constant(t: usize) -> (k: u32)
    requires
        t < 64,
    ensures
        k == spec_round_constant(t as int),
{
    match t {
        0 => 0x428a2f98,
        1 => 0x71374491,
        2 => 0xb5c0fbcf,
        3 => 0xe9b5dba5,
        4 => 0x3956c25b,
        5 => 0x59f111f1,
        6 => 0x923f82a4,
        7 => 0xab1c5ed5,
        8 => 0xd807aa98,
        9 => 0x12835b01,
        10 => 0x243185be,
        11 => 0x550c7dc3,
        12 => 0x72be5d74,
        13 => 0x80deb1fe,
        14 => 0x9bdc06a7,
        15 => 0xc19bf174,
        16 => 0xe49b69c1,
        17 => 0xefbe4786,
        18 => 0x0fc19dc6,
        19 => 0x240ca1cc,
        20 => 0x2de92c6f,
        21 => 0x4a7484aa,
        22 => 0x5cb0a9dc,
        23 => 0x76f988da,
        24 => 0x983e5152,
        25 => 0xa831c66d,
        26 => 0xb00327c8,
        27 => 0xbf597fc7,
        28 => 0xc6e00bf3,
        29 => 0xd5a79147,
        30 => 0x06ca6351,
        31 => 0x14292967,
        32 => 0x27b70a85,
        33 => 0x2e1b2138,
        34 => 0x4d2c6dfc,
        35 => 0x53380d13,
        36 => 0x650a7354,
        37 => 0x766a0abb,
        38 => 0x81c2c92e,
        39 => 0x92722c85,
        40 => 0xa2bfe8a1,
        41 => 0xa81a664b,
        42 => 0xc24b8b70,
        43 => 0xc76c51a3,
        44 => 0xd192e819,
        45 => 0xd6990624,
        46 => 0xf40e3585,
        47 => 0x106aa070,
        48 => 0x19a4c116,
        49 => 0x1e376c08,
        50 => 0x2748774c,
        51 => 0x34b0bcb5,
        52 => 0x391c0cb3,
        53 => 0x4ed8aa4a,
        54 => 0x5b9cca4f,
        55 => 0x682e6ff3,
        56 => 0x748f82ee,
        57 => 0x78a5636f,
        58 => 0x84c87814,
        59 => 0x8cc70208,
        60 => 0x90befffa,
        61 => 0xa4506ceb,
        62 => 0xbef9a3f7,
        _ => 0xc67178f2,
    }
}

#[inline]
fn word(block: &[u8], t: usize) -> (w: u32)
    requires
        t < 16,
        block@.len() == BLOCK,
    ensures
        w == spec_word(block@, t as int),
{
    let off = 4 * t;
    (
        (block[off] as u32) * 0x1000000 + (block[off + 1] as u32) * 0x10000
        + (block[off + 2] as u32) * 0x100 + block[off + 3] as u32
    )
}

#[inline]
fn round(s: &[u32; 8], k: u32, w: u32) -> (out: [u32; 8])
    ensures
        out@ == spec_round(s@, k, w),
{
    let big1 = rotr(s[4], 6) ^ rotr(s[4], 11) ^ rotr(s[4], 25);
    let ch = (s[4] & s[5]) ^ (!s[4] & s[6]);
    let t1 = s[7].wrapping_add(big1).wrapping_add(ch).wrapping_add(k).wrapping_add(w);
    let big0 = rotr(s[0], 2) ^ rotr(s[0], 13) ^ rotr(s[0], 22);
    let maj = (s[0] & s[1]) ^ (s[0] & s[2]) ^ (s[1] & s[2]);
    let t2 = big0.wrapping_add(maj);
    let out = [
        t1.wrapping_add(t2),
        s[0],
        s[1],
        s[2],
        s[3].wrapping_add(t1),
        s[4],
        s[5],
        s[6],
    ];
    assert(out@ =~= spec_round(s@, k, w));
    out
}

/// The state `h` after one more block.
pub fn compress(h: &[u32; 8], block: &[u8]) -> (out: [u32; 8])
    requires
        block@.len() == BLOCK,
    ensures
        out@ == spec_compress(h@, block@),
{
    let mut w: [u32; 64] = [0; 64];
    let mut t: usize = 0;
    while t < 16
        invariant
            t <= 16,
            block@.len() == BLOCK,
            forall|j: int| 0 <= j < t ==> w@[j] == spec_schedule(block@, j as nat),
        decreases 16 - t,
    {
        w[t] = word(block, t);
        t += 1;
    }
    while t < 64
        invariant
            16 <= t <= 64,
            forall|j: int| 0 <= j < t ==> w@[j] == spec_schedule(block@, j as nat),
        decreases 64 - t,
    {
        let x = w[t - 15];
        let y = w[t - 2];
        let small0 = rotr(x, 7) ^ rotr(x, 18) ^ (x >> 3);
        let small1 = rotr(y, 17) ^ rotr(y, 19) ^ (y >> 10);
        w[t] = small1.wrapping_add(w[t - 7]).wrapping_add(small0).wrapping_add(w[t - 16]);
        t += 1;
    }
    let mut s: [u32; 8] = *h;
    t = 0;
    while t < 64
        invariant
            t <= 64,
            forall|j: int| 0 <= j < 64 ==> w@[j] == spec_schedule(block@, j as nat),
            s@ == spec_rounds(h@, block@, t as nat),
        decreases 64 - t,
    {
        s = round(&s, round_constant(t), w[t]);
        t += 1;
    }
    let out = [
        h[0].wrapping_add(s[0]),
        h[1].wrapping_add(s[1]),
        h[2].wrapping_add(s[2]),
        h[3].wrapping_add(s[3]),
        h[4].wrapping_add(s[4]),
        h[5].wrapping_add(s[5]),
        h[6].wrapping_add(s[6]),
        h[7].wrapping_add(s[7]),
    ];
    assert(out@ =~= spec_compress(h@, block@));
    out
}

/// Where the padding of a message of `len` bytes ends.
proof fn lemma_padded_len(len: nat)
    ensures
        len + 9 <= spec_padded_len(len) <= len + 8 + 64,
        spec_padded_len(len) % 64 == 0,
        spec_padded_len(len) / 64 == (len + 8) / 64 + 1,
{
    let q = (len + 8) / 64;
    assert(spec_padded_len(len) == q * 64 + 64) by (nonlinear_arith)
        requires
            spec_padded_len(len) == (q + 1) * 64,
    ;
}

/// The padded message.
fn pad(input: &[u8]) -> (out: Vec<u8>)
    requires
        spec_hashable(input@.len()),
    ensures
        out@ == spec_pad(input@),
        out@.len() == spec_padded_len(input@.len()),
        out@.len() % 64 == 0,
{
    let len = input.len();
    proof {
        lemma_padded_len(len as nat);
        reveal(spec_padding);
        assert(spec_bits_low(len as nat) == 8 * len);
    }
    let total = ((len + 8) / 64 + 1) * 64;
    let mut out: Vec<u8> = Vec::with_capacity(total);
    out.extend_from_slice(input);
    out.push(0x80);
    append_zeros(&mut out, total - len - 9);
    append_be64(&mut out, 8 * (len as u64));
    assert(out@ =~= spec_pad(input@));
    out
}

/// SHA-256 of `input`.
pub fn sha256(input: &[u8]) -> (out: Vec<u8>)
    requires
        spec_hashable(input@.len()),
    ensures
        out@ == spec_sha256(input@),
        out@.len() == DIGEST,
{
    let padded = pad(input);
    let total = padded.len();
    let mut h: [u32; 8] = [
        0x6a09e667,
        0xbb67ae85,
        0x3c6ef372,
        0xa54ff53a,
        0x510e527f,
        0x9b05688c,
        0x1f83d9ab,
        0x5be0cd19,
    ];
    assert(h@ =~= spec_initial_state());
    let mut off: usize = 0;
    while off < total
        invariant
            off <= total == padded@.len(),
            total % 64 == 0,
            off % 64 == 0,
            h@ == spec_state(padded@, (off / 64) as nat),
        decreases total - off,
    {
        let block = vstd::slice::slice_subrange(padded.as_slice(), off, off + 64);
        proof {
            let blocks = off / 64 + 1;
            assert(block@ == padded@.subrange(64 * (blocks - 1), 64 * (blocks - 1) + 64));
        }
        h = compress(&h, block);
        off += 64;
    }
    proof {
        reveal(spec_sha256);
    }
    state_bytes(&h)
}

/// The eight words of the state `h` as bytes, most significant first.
fn state_bytes(h: &[u32; 8]) -> (out: Vec<u8>)
    ensures
        out@ == spec_state_bytes(h@),
        out@.len() == DIGEST,
{
    let mut out: Vec<u8> = Vec::with_capacity(DIGEST);
    append_be32(&mut out, h[0]);
    append_be32(&mut out, h[1]);
    append_be32(&mut out, h[2]);
    append_be32(&mut out, h[3]);
    append_be32(&mut out, h[4]);
    append_be32(&mut out, h[5]);
    append_be32(&mut out, h[6]);
    append_be32(&mut out, h[7]);
    proof {
        assert(forall|x: u32| (#[trigger] spec_be32(x)).len() == 4);
        assert(out@ =~= spec_state_bytes(h@));
    }
    out
}

/// The length of what is put after a message.
proof fn lemma_padding_len(len: nat)
    ensures
        spec_padding(len).len() == spec_padded_len(len) - len,
{
    reveal(spec_padding);
    lemma_padded_len(len);
    assert(forall|x: u64| (#[trigger] spec_be64(x)).len() == 8);
}

/// The last one or two blocks of a padded message: the bytes of the
/// message after its whole blocks, and what is put after the message.
proof fn lemma_padded_tail(whole: Seq<u8>)
    ensures
        ({
            let len = whole.len() as int;
            let blocks = len / 64;
            let tail_len: int = if len % 64 + 9 <= 64 {
                64
            } else {
                128
            };
            &&& spec_pad(whole).len() == 64 * blocks + tail_len
            &&& spec_padding(whole.len()).len() == tail_len - len % 64
            &&& spec_pad(whole).subrange(0, 64 * blocks) == whole.subrange(0, 64 * blocks)
            &&& spec_pad(whole).subrange(64 * blocks, 64 * blocks + tail_len)
                == whole.subrange(64 * blocks, len) + spec_padding(whole.len())
        }),
{
    let len = whole.len() as int;
    let blocks = len / 64;
    let rest = len % 64;
    let total = spec_padded_len(whole.len()) as int;
    lemma_padded_len(whole.len());
    lemma_padding_len(whole.len());
    assert(len == 64 * blocks + rest);
    assert((len + 8) / 64 == blocks + (rest + 8) / 64);
    assert(total == 64 * ((len + 8) / 64) + 64);
    assert(spec_pad(whole).len() == total);
    lemma_cut_in_first_part(whole, spec_padding(whole.len()), 64 * blocks);
}

/// The state after some blocks depends on these blocks alone.
proof fn lemma_state_prefix(first: Seq<u8>, second: Seq<u8>, blocks: nat)
    requires
        64 * blocks <= first.len(),
        64 * blocks <= second.len(),
        first.subrange(0, 64 * blocks as int) == second.subrange(0, 64 * blocks as int),
    ensures
        spec_state(first, blocks) == spec_state(second, blocks),
    decreases blocks,
{
    if blocks > 0 {
        let end = 64 * blocks as int;
        let below = (blocks - 1) as nat;
        assert forall|i: int| 0 <= i < end implies first[i] == second[i] by {
            assert(first.subrange(0, end)[i] == second.subrange(0, end)[i]);
        }
        assert(first.subrange(0, end - 64) =~= second.subrange(0, end - 64));
        lemma_state_prefix(first, second, below);
        assert(first.subrange(end - 64, end) =~= second.subrange(end - 64, end));
    }
}

/// The state and the bytes of the block begun after one more part of the
/// message `whole`, of which `done` bytes were taken before.
fn absorb_part(
    state: [u32; 8],
    begun: Vec<u8>,
    part: &[u8],
    Ghost(whole): Ghost<Seq<u8>>,
    Ghost(done): Ghost<int>,
) -> (r: ([u32; 8], Vec<u8>))
    requires
        0 <= done,
        done + part@.len() <= whole.len(),
        whole.subrange(done, done + part@.len()) == part@,
        begun@ == whole.subrange(64 * (done / 64), done),
        state@ == spec_state(whole, (done / 64) as nat),
    ensures
        r.1@ == whole.subrange(64 * ((done + part@.len()) / 64), done + part@.len()),
        r.0@ == spec_state(whole, ((done + part@.len()) / 64) as nat),
{
    let len = part.len();
    let mut h = state;
    let mut begun = begun;
    let mut off: usize = 0;
    while off < len
        invariant
            len == part@.len(),
            0 <= done,
            done + len <= whole.len(),
            whole.subrange(done, done + len) == part@,
            off <= len,
            begun@ == whole.subrange(64 * ((done + off) / 64), done + off),
            h@ == spec_state(whole, ((done + off) / 64) as nat),
        decreases len - off,
    {
        let ghost at: int = done + off;
        let ghost blocks: int = at / 64;
        proof {
            assert(whole.subrange(done, done + len)[off as int] == whole[at]);
        }
        begun.push(part[off]);
        assert(begun@ =~= whole.subrange(64 * blocks, at + 1));
        off += 1;
        if begun.len() == 64 {
            proof {
                assert(at + 1 == 64 * blocks + 64);
                assert(begun@ == whole.subrange(
                    64 * ((blocks + 1) - 1),
                    64 * ((blocks + 1) - 1) + 64,
                ));
            }
            h = compress(&h, begun.as_slice());
            begun = Vec::with_capacity(64);
            proof {
                assert((at + 1) / 64 == blocks + 1);
                assert(h@ == spec_state(whole, (blocks + 1) as nat));
                assert(begun@ =~= whole.subrange(64 * (blocks + 1), at + 1));
            }
        }
    }
    (h, begun)
}

/// The hash of the message `whole`, from the state after its whole blocks
/// and the bytes of the block begun: the padding and the length are put
/// after these bytes, and the one or two blocks they make are taken.
fn finish(state: [u32; 8], begun: Vec<u8>, low: u64, Ghost(whole): Ghost<Seq<u8>>) -> (out:
    Vec<u8>)
    requires
        begun@ == whole.subrange(64 * (whole.len() as int / 64), whole.len() as int),
        state@ == spec_state(whole, whole.len() / 64),
        low == spec_bits_low(whole.len()),
    ensures
        out@ == spec_sha256(whole),
        out@.len() == DIGEST,
{
    let ghost len = whole.len();
    let ghost blocks: int = len as int / 64;
    let ghost padded = spec_pad(whole);
    let rest = begun.len();
    let tail_len: usize = if rest + 9 <= 64 {
        64
    } else {
        128
    };
    let ghost begun_bytes = begun@;
    let mut tail = begun;
    tail.push(0x80);
    append_zeros(&mut tail, tail_len - rest - 9);
    append_be64(&mut tail, low);
    proof {
        lemma_padded_tail(whole);
        lemma_padded_len(len);
        reveal(spec_padding);
        assert(tail@ =~= begun_bytes + spec_padding(len));
        assert(tail@ == padded.subrange(64 * blocks, 64 * blocks + tail_len));
        lemma_state_prefix(whole, padded, blocks as nat);
    }
    let block = vstd::slice::slice_subrange(tail.as_slice(), 0, 64);
    proof {
        assert(block@ =~= padded.subrange(
            64 * ((blocks + 1) - 1),
            64 * ((blocks + 1) - 1) + 64,
        ));
    }
    let mut h = compress(&state, block);
    assert(h@ == spec_state(padded, (blocks + 1) as nat));
    if tail_len == 128 {
        let block = vstd::slice::slice_subrange(tail.as_slice(), 64, 128);
        proof {
            assert(block@ =~= padded.subrange(
                64 * ((blocks + 2) - 1),
                64 * ((blocks + 2) - 1) + 64,
            ));
        }
        h = compress(&h, block);
        assert(h@ == spec_state(padded, (blocks + 2) as nat));
    }
    proof {
        assert(padded.len() / 64 == blocks + tail_len / 64);
        reveal(spec_sha256);
    }
    state_bytes(&h)
}

/// SHA-256 of the three parts `first`, `second` and `third` one after the
/// other, however long they are.
pub fn sha256_parts(first: &[u8], second: &[u8], third: &[u8]) -> (out: Vec<u8>)
    ensures
        out@ == spec_sha256(first@ + second@ + third@),
        out@.len() == DIGEST,
{
    let ghost whole = first@ + second@ + third@;
    let ghost one: int = first@.len() as int;
    let ghost two: int = (first@.len() + second@.len()) as int;
    let h: [u32; 8] = [
        0x6a09e667,
        0xbb67ae85,
        0x3c6ef372,
        0xa54ff53a,
        0x510e527f,
        0x9b05688c,
        0x1f83d9ab,
        0x5be0cd19,
    ];
    let begun: Vec<u8> = Vec::with_capacity(64);
    proof {
        assert(h@ =~= spec_initial_state());
        assert(begun@ =~= whole.subrange(0, 0));
        assert(whole.subrange(0, one) =~= first@);
        assert(whole.subrange(one, two) =~= second@);
        assert(whole.subrange(two, whole.len() as int) =~= third@);
    }
    let (h, begun) = absorb_part(h, begun, first, Ghost(whole), Ghost(0));
    let (h, begun) = absorb_part(h, begun, second, Ghost(whole), Ghost(one));
    let (h, begun) = absorb_part(h, begun, third, Ghost(whole), Ghost(two));
    let bits: u128 = 8 * (first.len() as u128 + second.len() as u128 + third.len() as u128);
    finish(h, begun, (bits % 0x1_0000_0000_0000_0000) as u64, Ghost(whole))
}


} // verus!
