//! SHA-512: a hash function of 64 bytes of output, which works on
//! blocks of 128 bytes with words of 64 bits.
use vstd::prelude::*;
use crate::bytes::{
    append_be64, append_zeros, lemma_cut_in_first_part, spec_be64,
};

verus! {

/// Bytes of one block.
pub const BLOCK: usize = 128;

/// Bytes of the output.
pub const DIGEST: usize = 64;

/// The longest message that can be hashed: its length in bits is written
/// in 64 bits, and the padded message is held in memory.
pub open spec fn spec_hashable(len: nat) -> bool {
    len < 0x2000_0000_0000_0000 && len + 256 <= usize::MAX
}

/// A word turned to the right by `r` bits, `0 < r < 64`.
pub open spec fn spec_rotr(x: u64, r: u64) -> u64 {
    (x >> r) | (x << ((64 - r) as u64))
}

pub open spec fn spec_ch(x: u64, y: u64, z: u64) -> u64 {
    (x & y) ^ (!x & z)
}

pub open spec fn spec_maj(x: u64, y: u64, z: u64) -> u64 {
    (x & y) ^ (x & z) ^ (y & z)
}

pub open spec fn spec_big_sigma0(x: u64) -> u64 {
    spec_rotr(x, 28) ^ spec_rotr(x, 34) ^ spec_rotr(x, 39)
}

pub open spec fn spec_big_sigma1(x: u64) -> u64 {
    spec_rotr(x, 14) ^ spec_rotr(x, 18) ^ spec_rotr(x, 41)
}

pub open spec fn spec_small_sigma0(x: u64) -> u64 {
    spec_rotr(x, 1) ^ spec_rotr(x, 8) ^ (x >> 7u64)
}

pub open spec fn spec_small_sigma1(x: u64) -> u64 {
    spec_rotr(x, 19) ^ spec_rotr(x, 61) ^ (x >> 6u64)
}

/// The constant of round `t`.
pub open spec fn spec_round_constant(t: int) -> u64 {
    if t == 0 {
        0x428a2f98d728ae22
    } else if t == 1 {
        0x7137449123ef65cd
    } else if t == 2 {
        0xb5c0fbcfec4d3b2f
    } else if t == 3 {
        0xe9b5dba58189dbbc
    } else if t == 4 {
        0x3956c25bf348b538
    } else if t == 5 {
        0x59f111f1b605d019
    } else if t == 6 {
        0x923f82a4af194f9b
    } else if t == 7 {
        0xab1c5ed5da6d8118
    } else if t == 8 {
        0xd807aa98a3030242
    } else if t == 9 {
        0x12835b0145706fbe
    } else if t == 10 {
        0x243185be4ee4b28c
    } else if t == 11 {
        0x550c7dc3d5ffb4e2
    } else if t == 12 {
        0x72be5d74f27b896f
    } else if t == 13 {
        0x80deb1fe3b1696b1
    } else if t == 14 {
        0x9bdc06a725c71235
    } else if t == 15 {
        0xc19bf174cf692694
    } else if t == 16 {
        0xe49b69c19ef14ad2
    } else if t == 17 {
        0xefbe4786384f25e3
    } else if t == 18 {
        0x0fc19dc68b8cd5b5
    } else if t == 19 {
        0x240ca1cc77ac9c65
    } else if t == 20 {
        0x2de92c6f592b0275
    } else if t == 21 {
        0x4a7484aa6ea6e483
    } else if t == 22 {
        0x5cb0a9dcbd41fbd4
    } else if t == 23 {
        0x76f988da831153b5
    } else if t == 24 {
        0x983e5152ee66dfab
    } else if t == 25 {
        0xa831c66d2db43210
    } else if t == 26 {
        0xb00327c898fb213f
    } else if t == 27 {
        0xbf597fc7beef0ee4
    } else if t == 28 {
        0xc6e00bf33da88fc2
    } else if t == 29 {
        0xd5a79147930aa725
    } else if t == 30 {
        0x06ca6351e003826f
    } else if t == 31 {
        0x142929670a0e6e70
    } else if t == 32 {
        0x27b70a8546d22ffc
    } else if t == 33 {
        0x2e1b21385c26c926
    } else if t == 34 {
        0x4d2c6dfc5ac42aed
    } else if t == 35 {
        0x53380d139d95b3df
    } else if t == 36 {
        0x650a73548baf63de
    } else if t == 37 {
        0x766a0abb3c77b2a8
    } else if t == 38 {
        0x81c2c92e47edaee6
    } else if t == 39 {
        0x92722c851482353b
    } else if t == 40 {
        0xa2bfe8a14cf10364
    } else if t == 41 {
        0xa81a664bbc423001
    } else if t == 42 {
        0xc24b8b70d0f89791
    } else if t == 43 {
        0xc76c51a30654be30
    } else if t == 44 {
        0xd192e819d6ef5218
    } else if t == 45 {
        0xd69906245565a910
    } else if t == 46 {
        0xf40e35855771202a
    } else if t == 47 {
        0x106aa07032bbd1b8
    } else if t == 48 {
        0x19a4c116b8d2d0c8
    } else if t == 49 {
        0x1e376c085141ab53
    } else if t == 50 {
        0x2748774cdf8eeb99
    } else if t == 51 {
        0x34b0bcb5e19b48a8
    } else if t == 52 {
        0x391c0cb3c5c95a63
    } else if t == 53 {
        0x4ed8aa4ae3418acb
    } else if t == 54 {
        0x5b9cca4f7763e373
    } else if t == 55 {
        0x682e6ff3d6b2b8a3
    } else if t == 56 {
        0x748f82ee5defb2fc
    } else if t == 57 {
        0x78a5636f43172f60
    } else if t == 58 {
        0x84c87814a1f0ab72
    } else if t == 59 {
        0x8cc702081a6439ec
    } else if t == 60 {
        0x90befffa23631e28
    } else if t == 61 {
        0xa4506cebde82bde9
    } else if t == 62 {
        0xbef9a3f7b2c67915
    } else if t == 63 {
        0xc67178f2e372532b
    } else if t == 64 {
        0xca273eceea26619c
    } else if t == 65 {
        0xd186b8c721c0c207
    } else if t == 66 {
        0xeada7dd6cde0eb1e
    } else if t == 67 {
        0xf57d4f7fee6ed178
    } else if t == 68 {
        0x06f067aa72176fba
    } else if t == 69 {
        0x0a637dc5a2c898a6
    } else if t == 70 {
        0x113f9804bef90dae
    } else if t == 71 {
        0x1b710b35131c471b
    } else if t == 72 {
        0x28db77f523047d84
    } else if t == 73 {
        0x32caab7b40c72493
    } else if t == 74 {
        0x3c9ebe0a15c9bebc
    } else if t == 75 {
        0x431d67c49c100d4c
    } else if t == 76 {
        0x4cc5d4becb3e42b6
    } else if t == 77 {
        0x597f299cfc657e2a
    } else if t == 78 {
        0x5fcb6fab3ad6faec
    } else {
        0x6c44198c4a475817
    }
}

/// The state before the first block.
pub open spec fn spec_initial_state() -> Seq<u64> {
    seq![
        0x6a09e667f3bcc908,
        0xbb67ae8584caa73b,
        0x3c6ef372fe94f82b,
        0xa54ff53a5f1d36f1,
        0x510e527fade682d1,
        0x9b05688c2b3e6c1f,
        0x1f83d9abfb41bd6b,
        0x5be0cd19137e2179,
    ]
}

/// Word `t` of a block, most significant byte first.
pub open spec fn spec_word(block: Seq<u8>, t: int) -> u64 {
    (
        (block[8 * t] as u64) * 0x100000000000000
        + (block[8 * t + 1] as u64) * 0x1000000000000
        + (block[8 * t + 2] as u64) * 0x10000000000
        + (block[8 * t + 3] as u64) * 0x100000000 + (block[8 * t + 4] as u64) * 0x1000000
        + (block[8 * t + 5] as u64) * 0x10000 + (block[8 * t + 6] as u64) * 0x100
        + block[8 * t + 7] as u64
    ) as u64
}

/// Word `t` of the message schedule of a block.
pub open spec fn spec_schedule(block: Seq<u8>, t: nat) -> u64
    decreases t,
{
    if t < 16 {
        spec_word(block, t as int)
    } else {
        spec_small_sigma1(spec_schedule(block, (t - 2) as nat)).wrapping_add(
            spec_schedule(block, (t - 7) as nat),
        ).wrapping_add(spec_small_sigma0(spec_schedule(block, (t - 15) as nat))).wrapping_add(
            spec_schedule(block, (t - 16) as nat),
        )
    }
}

/// One round on the eight working words `s`, with constant `k` and
/// schedule word `w`.
pub open spec fn spec_round(s: Seq<u64>, k: u64, w: u64) -> Seq<u64> {
    let t1 = s[7].wrapping_add(spec_big_sigma1(s[4])).wrapping_add(
        spec_ch(s[4], s[5], s[6]),
    ).wrapping_add(k).wrapping_add(w);
    let t2 = spec_big_sigma0(s[0]).wrapping_add(spec_maj(s[0], s[1], s[2]));
    seq![
        t1.wrapping_add(t2),
        s[0],
        s[1],
        s[2],
        s[3].wrapping_add(t1),
        s[4],
        s[5],
        s[6],
    ]
}

/// The working words after the first `t` rounds on a block.
pub open spec fn spec_rounds(s: Seq<u64>, block: Seq<u8>, t: nat) -> Seq<u64>
    decreases t,
{
    if t == 0 {
        s
    } else {
        spec_round(
            spec_rounds(s, block, (t - 1) as nat),
            spec_round_constant(t - 1),
            spec_schedule(block, (t - 1) as nat),
        )
    }
}

/// The state after one more block.
pub open spec fn spec_compress(h: Seq<u64>, block: Seq<u8>) -> Seq<u64> {
    let s = spec_rounds(h, block, 80);
    Seq::new(8, |i: int| h[i].wrapping_add(s[i]))
}

/// Length of the padded message: the least multiple of the block length
/// that holds the message, one byte and the length field.
pub open spec fn spec_padded_len(len: nat) -> nat {
    (((len + 16) / 128 + 1) * 128) as nat
}

/// The lowest 64 bits of the length in bits of a message of `len` bytes.
pub open spec fn spec_bits_low(len: nat) -> u64 {
    ((8 * len) % 0x1_0000_0000_0000_0000) as u64
}

/// The next 64 bits of the length in bits of a message of `len` bytes.
pub open spec fn spec_bits_high(len: nat) -> u64 {
    ((8 * len) / 0x1_0000_0000_0000_0000 % 0x1_0000_0000_0000_0000) as u64
}

/// What is put after a message of `len` bytes: the byte `0x80`, zeros,
/// and the length of the message in bits. The length is written in 128 bits.
#[verifier::opaque]
pub open spec fn spec_padding(len: nat) -> Seq<u8> {
    seq![0x80u8] + Seq::new((spec_padded_len(len) - len - 17) as nat, |i: int| 0u8) + (
        spec_be64(spec_bits_high(len)) + spec_be64(spec_bits_low(len))
    )
}

/// The padded message.
pub open spec fn spec_pad(msg: Seq<u8>) -> Seq<u8> {
    msg + spec_padding(msg.len())
}

/// The state after the first `blocks` blocks of `padded`.
pub open spec fn spec_state(padded: Seq<u8>, blocks: nat) -> Seq<u64>
    decreases blocks,
{
    if blocks == 0 {
        spec_initial_state()
    } else {
        spec_compress(
            spec_state(padded, (blocks - 1) as nat),
            padded.subrange(128 * (blocks - 1), 128 * (blocks - 1) + 128),
        )
    }
}

/// The eight words of a state as bytes, most significant first.
pub open spec fn spec_state_bytes(s: Seq<u64>) -> Seq<u8> {
    spec_be64(s[0]) + spec_be64(s[1]) + spec_be64(s[2]) + spec_be64(s[3])
        + spec_be64(s[4]) + spec_be64(s[5]) + spec_be64(s[6]) + spec_be64(s[7])
}

/// SHA-512 of `msg`.
#[verifier::opaque]
pub open spec fn spec_sha512(msg: Seq<u8>) -> Seq<u8> {
    let padded = spec_pad(msg);
    spec_state_bytes(spec_state(padded, padded.len() / 128))
}

/// The output has 64 bytes.
pub proof fn lemma_sha512_len(msg: Seq<u8>)
    ensures
        spec_sha512(msg).len() == DIGEST,
{
    reveal(spec_sha512);
    let padded = spec_pad(msg);
    let s = spec_state(padded, padded.len() / 128);
    assert(forall|x: u64| (#[trigger] spec_be64(x)).len() == 8);
    assert(spec_state_bytes(s).len() == DIGEST);
}

#[inline]
fn rotr(x: u64, r: u64) -> (y: u64)
    requires
        0 < r < 64,
    ensures
        y == spec_rotr(x, r),
{
    (x >> r) | (x << (64 - r))
}

fn round_constant(t: usize) -> (k: u64)
    requires
        t < 80,
    ensures
        k == spec_round_constant(t as int),
{
    match t {
        0 => 0x428a2f98d728ae22,
        1 => 0x7137449123ef65cd,
        2 => 0xb5c0fbcfec4d3b2f,
        3 => 0xe9b5dba58189dbbc,
        4 => 0x3956c25bf348b538,
        5 => 0x59f111f1b605d019,
        6 => 0x923f82a4af194f9b,
        7 => 0xab1c5ed5da6d8118,
        8 => 0xd807aa98a3030242,
        9 => 0x12835b0145706fbe,
        10 => 0x243185be4ee4b28c,
        11 => 0x550c7dc3d5ffb4e2,
        12 => 0x72be5d74f27b896f,
        13 => 0x80deb1fe3b1696b1,
        14 => 0x9bdc06a725c71235,
        15 => 0xc19bf174cf692694,
        16 => 0xe49b69c19ef14ad2,
        17 => 0xefbe4786384f25e3,
        18 => 0x0fc19dc68b8cd5b5,
        19 => 0x240ca1cc77ac9c65,
        20 => 0x2de92c6f592b0275,
        21 => 0x4a7484aa6ea6e483,
        22 => 0x5cb0a9dcbd41fbd4,
        23 => 0x76f988da831153b5,
        24 => 0x983e5152ee66dfab,
        25 => 0xa831c66d2db43210,
        26 => 0xb00327c898fb213f,
        27 => 0xbf597fc7beef0ee4,
        28 => 0xc6e00bf33da88fc2,
        29 => 0xd5a79147930aa725,
        30 => 0x06ca6351e003826f,
        31 => 0x142929670a0e6e70,
        32 => 0x27b70a8546d22ffc,
        33 => 0x2e1b21385c26c926,
        34 => 0x4d2c6dfc5ac42aed,
        35 => 0x53380d139d95b3df,
        36 => 0x650a73548baf63de,
        37 => 0x766a0abb3c77b2a8,
        38 => 0x81c2c92e47edaee6,
        39 => 0x92722c851482353b,
        40 => 0xa2bfe8a14cf10364,
        41 => 0xa81a664bbc423001,
        42 => 0xc24b8b70d0f89791,
        43 => 0xc76c51a30654be30,
        44 => 0xd192e819d6ef5218,
        45 => 0xd69906245565a910,
        46 => 0xf40e35855771202a,
        47 => 0x106aa07032bbd1b8,
        48 => 0x19a4c116b8d2d0c8,
        49 => 0x1e376c085141ab53,
        50 => 0x2748774cdf8eeb99,
        51 => 0x34b0bcb5e19b48a8,
        52 => 0x391c0cb3c5c95a63,
        53 => 0x4ed8aa4ae3418acb,
        54 => 0x5b9cca4f7763e373,
        55 => 0x682e6ff3d6b2b8a3,
        56 => 0x748f82ee5defb2fc,
        57 => 0x78a5636f43172f60,
        58 => 0x84c87814a1f0ab72,
        59 => 0x8cc702081a6439ec,
        60 => 0x90befffa23631e28,
        61 => 0xa4506cebde82bde9,
        62 => 0xbef9a3f7b2c67915,
        63 => 0xc67178f2e372532b,
        64 => 0xca273eceea26619c,
        65 => 0xd186b8c721c0c207,
        66 => 0xeada7dd6cde0eb1e,
        67 => 0xf57d4f7fee6ed178,
        68 => 0x06f067aa72176fba,
        69 => 0x0a637dc5a2c898a6,
        70 => 0x113f9804bef90dae,
        71 => 0x1b710b35131c471b,
        72 => 0x28db77f523047d84,
        73 => 0x32caab7b40c72493,
        74 => 0x3c9ebe0a15c9bebc,
        75 => 0x431d67c49c100d4c,
        76 => 0x4cc5d4becb3e42b6,
        77 => 0x597f299cfc657e2a,
        78 => 0x5fcb6fab3ad6faec,
        _ => 0x6c44198c4a475817,
    }
}

#[inline]
fn word(block: &[u8], t: usize) -> (w: u64)
    requires
        t < 16,
        block@.len() == BLOCK,
    ensures
        w == spec_word(block@, t as int),
{
    let off = 8 * t;
    (
        (block[off] as u64) * 0x100000000000000
        + (block[off + 1] as u64) * 0x1000000000000
        + (block[off + 2] as u64) * 0x10000000000 + (block[off + 3] as u64) * 0x100000000
        + (block[off + 4] as u64) * 0x1000000 + (block[off + 5] as u64) * 0x10000
        + (block[off + 6] as u64) * 0x100 + block[off + 7] as u64
    )
}

#[inline]
fn round(s: &[u64; 8], k: u64, w: u64) -> (out: [u64; 8])
    ensures
        out@ == spec_round(s@, k, w),
{
    let big1 = rotr(s[4], 14) ^ rotr(s[4], 18) ^ rotr(s[4], 41);
    let ch = (s[4] & s[5]) ^ (!s[4] & s[6]);
    let t1 = s[7].wrapping_add(big1).wrapping_add(ch).wrapping_add(k).wrapping_add(w);
    let big0 = rotr(s[0], 28) ^ rotr(s[0], 34) ^ rotr(s[0], 39);
    let maj = (s[0] & s[1]) ^ (s[0] & s[2]) ^ (s[1] & s[2]);
    let t2 = big0.wrapping_add(maj);
    let out = [
        t1.wrapping_add(t2),
        s[0],
        s[1],
        s[2],
        s[3].wrapping_add(t1),
        s[4],
        s[5],
        s[6],
    ];
    assert(out@ =~= spec_round(s@, k, w));
    out
}

/// The state `h` after one more block.
pub fn compress(h: &[u64; 8], block: &[u8]) -> (out: [u64; 8])
    requires
        block@.len() == BLOCK,
    ensures
        out@ == spec_compress(h@, block@),
{
    let mut w: [u64; 80] = [0; 80];
    let mut t: usize = 0;
    while t < 16
        invariant
            t <= 16,
            block@.len() == BLOCK,
            forall|j: int| 0 <= j < t ==> w@[j] == spec_schedule(block@, j as nat),
        decreases 16 - t,
    {
        w[t] = word(block, t);
        t += 1;
    }
    while t < 80
        invariant
            16 <= t <= 80,
            forall|j: int| 0 <= j < t ==> w@[j] == spec_schedule(block@, j as nat),
        decreases 80 - t,
    {
        let x = w[t - 15];
        let y = w[t - 2];
        let small0 = rotr(x, 1) ^ rotr(x, 8) ^ (x >> 7);
        let small1 = rotr(y, 19) ^ rotr(y, 61) ^ (y >> 6);
        w[t] = small1.wrapping_add(w[t - 7]).wrapping_add(small0).wrapping_add(w[t - 16]);
        t += 1;
    }
    let mut s: [u64; 8] = *h;
    t = 0;
    while t < 80
        invariant
            t <= 80,
            forall|j: int| 0 <= j < 80 ==> w@[j] == spec_schedule(block@, j as nat),
            s@ == spec_rounds(h@, block@, t as nat),
        decreases 80 - t,
    {
        s = round(&s, round_constant(t), w[t]);
        t += 1;
    }
    let out = [
        h[0].wrapping_add(s[0]),
        h[1].wrapping_add(s[1]),
        h[2].wrapping_add(s[2]),
        h[3].wrapping_add(s[3]),
        h[4].wrapping_add(s[4]),
        h[5].wrapping_add(s[5]),
        h[6].wrapping_add(s[6]),
        h[7].wrapping_add(s[7]),
    ];
    assert(out@ =~= spec_compress(h@, block@));
    out
}

/// Where the padding of a message of `len` bytes ends.
proof fn lemma_padded_len(len: nat)
    ensures
        len + 17 <= spec_padded_len(len) <= len + 16 + 128,
        spec_padded_len(len) % 128 == 0,
        spec_padded_len(len) / 128 == (len + 16) / 128 + 1,
{
    let q = (len + 16) / 128;
    assert(spec_padded_len(len) == q * 128 + 128) by (nonlinear_arith)
        requires
            spec_padded_len(len) == (q + 1) * 128,
    ;
}

/// The padded message.
fn pad(input: &[u8]) -> (out: Vec<u8>)
    requires
        spec_hashable(input@.len()),
    ensures
        out@ == spec_pad(input@),
        out@.len() == spec_padded_len(input@.len()),
        out@.len() % 128 == 0,
{
    let len = input.len();
    proof {
        lemma_padded_len(len as nat);
        reveal(spec_padding);
        assert(spec_bits_low(len as nat) == 8 * len);
        assert(spec_bits_high(len as nat) == 0);
    }
    let total = ((len + 16) / 128 + 1) * 128;
    let mut out: Vec<u8> = Vec::with_capacity(total);
    out.extend_from_slice(input);
    out.push(0x80);
    append_zeros(&mut out, total - len - 17);
    append_be64(&mut out, 0);
    append_be64(&mut out, 8 * (len as u64));
    assert(out@ =~= spec_pad(input@));
    out
}

/// SHA-512 of `input`.
pub fn sha512(input: &[u8]) -> (out: Vec<u8>)
    requires
        spec_hashable(input@.len()),
    ensures
        out@ == spec_sha512(input@),
        out@.len() == DIGEST,
{
    let padded = pad(input);
    let total = padded.len();
    let mut h: [u64; 8] = [
        0x6a09e667f3bcc908,
        0xbb67ae8584caa73b,
        0x3c6ef372fe94f82b,
        0xa54ff53a5f1d36f1,
        0x510e527fade682d1,
        0x9b05688c2b3e6c1f,
        0x1f83d9abfb41bd6b,
        0x5be0cd19137e2179,
    ];
    assert(h@ =~= spec_initial_state());
    let mut off: usize = 0;
    while off < total
        invariant
            off <= total == padded@.len(),
            total % 128 == 0,
            off % 128 == 0,
            h@ == spec_state(padded@, (off / 128) as nat),
        decreases total - off,
    {
        let block = vstd::slice::slice_subrange(padded.as_slice(), off, off + 128);
        proof {
            let blocks = off / 128 + 1;
            assert(block@ == padded@.subrange(128 * (blocks - 1), 128 * (blocks - 1) + 128));
        }
        h = compress(&h, block);
        off += 128;
    }
    proof {
        reveal(spec_sha512);
    }
    state_bytes(&h)
}

/// The eight words of the state `h` as bytes, most significant first.
fn state_bytes(h: &[u64; 8]) -> (out: Vec<u8>)
    ensures
        out@ == spec_state_bytes(h@),
        out@.len() == DIGEST,
{
    let mut out: Vec<u8> = Vec::with_capacity(DIGEST);
    append_be64(&mut out, h[0]);
    append_be64(&mut out, h[1]);
    append_be64(&mut out, h[2]);
    append_be64(&mut out, h[3]);
    append_be64(&mut out, h[4]);
    append_be64(&mut out, h[5]);
    append_be64(&mut out, h[6]);
    append_be64(&mut out, h[7]);
    proof {
        assert(forall|x: u64| (#[trigger] spec_be64(x)).len() == 8);
        assert(out@ =~= spec_state_bytes(h@));
    }
    out
}

/// The length of what is put after a message.
proof fn lemma_padding_len(len: nat)
    ensures
        spec_padding(len).len() == spec_padded_len(len) - len,
{
    reveal(spec_padding);
    lemma_padded_len(len);
    assert(forall|x: u64| (#[trigger] spec_be64(x)).len() == 8);
}

/// The last one or two blocks of a padded message: the bytes of the
/// message after its whole blocks, and what is put after the message.
proof fn lemma_padded_tail(whole: Seq<u8>)
    ensures
        ({
            let len = whole.len() as int;
            let blocks = len / 128;
            let tail_len: int = if len % 128 + 17 <= 128 {
                128
            } else {
                256
            };
            &&& spec_pad(whole).len() == 128 * blocks + tail_len
            &&& spec_padding(whole.len()).len() == tail_len - len % 128
            &&& spec_pad(whole).subrange(0, 128 * blocks) == whole.subrange(0, 128 * blocks)
            &&& spec_pad(whole).subrange(128 * blocks, 128 * blocks + tail_len)
                == whole.subrange(128 * blocks, len) + spec_padding(whole.len())
        }),
{
    let len = whole.len() as int;
    let blocks = len / 128;
    let rest = len % 128;
    let total = spec_padded_len(whole.len()) as int;
    lemma_padded_len(whole.len());
    lemma_padding_len(whole.len());
    assert(len == 128 * blocks + rest);
    assert((len + 16) / 128 == blocks + (rest + 16) / 128);
    assert(total == 128 * ((len + 16) / 128) + 128);
    assert(spec_pad(whole).len() == total);
    lemma_cut_in_first_part(whole, spec_padding(whole.len()), 128 * blocks);
}

/// The state after some blocks depends on these blocks alone.
proof fn lemma_state_prefix(first: Seq<u8>, second: Seq<u8>, blocks: nat)
    requires
        128 * blocks <= first.len(),
        128 * blocks <= second.len(),
        first.subrange(0, 128 * blocks as int) == second.subrange(0, 128 * blocks as int),
    ensures
        spec_state(first, blocks) == spec_state(second, blocks),
    decreases blocks,
{
    if blocks > 0 {
        let end = 128 * blocks as int;
        let below = (blocks - 1) as nat;
        assert forall|i: int| 0 <= i < end implies first[i] == second[i] by {
            assert(first.subrange(0, end)[i] == second.subrange(0, end)[i]);
        }
        assert(first.subrange(0, end - 128) =~= second.subrange(0, end - 128));
        lemma_state_prefix(first, second, below);
        assert(first.subrange(end - 128, end) =~= second.subrange(end - 128, end));
    }
}

/// The state and the bytes of the block begun after one more part of the
/// message `whole`, of which `done` bytes were taken before.
fn absorb_part(
    state: [u64; 8],
    begun: Vec<u8>,
    part: &[u8],
    Ghost(whole): Ghost<Seq<u8>>,
    Ghost(done): Ghost<int>,
) -> (r: ([u64; 8], Vec<u8>))
    requires
        0 <= done,
        done + part@.len() <= whole.len(),
        whole.subrange(done, done + part@.len()) == part@,
        begun@ == whole.subrange(128 * (done / 128), done),
        state@ == spec_state(whole, (done / 128) as nat),
    ensures
        r.1@ == whole.subrange(128 * ((done + part@.len()) / 128), done + part@.len()),
        r.0@ == spec_state(whole, ((done + part@.len()) / 128) as nat),
{
    let len = part.len();
    let mut h = state;
    let mut begun = begun;
    let mut off: usize = 0;
    while off < len
        invariant
            len == part@.len(),
            0 <= done,
            done + len <= whole.len(),
            whole.subrange(done, done + len) == part@,
            off <= len,
            begun@ == whole.subrange(128 * ((done + off) / 128), done + off),
            h@ == spec_state(whole, ((done + off) / 128) as nat),
        decreases len - off,
    {
        let ghost at: int = done + off;
        let ghost blocks: int = at / 128;
        proof {
            assert(whole.subrange(done, done + len)[off as int] == whole[at]);
        }
        begun.push(part[off]);
        assert(begun@ =~= whole.subrange(128 * blocks, at + 1));
        off += 1;
        if begun.len() == 128 {
            proof {
                assert(at + 1 == 128 * blocks + 128);
                assert(begun@ == whole.subrange(
                    128 * ((blocks + 1) - 1),
                    128 * ((blocks + 1) - 1) + 128,
                ));
            }
            h = compress(&h, begun.as_slice());
            begun = Vec::with_capacity(128);
            proof {
                assert((at + 1) / 128 == blocks + 1);
                assert(h@ == spec_state(whole, (blocks + 1) as nat));
                assert(begun@ =~= whole.subrange(128 * (blocks + 1), at + 1));
            }
        }
    }
    (h, begun)
}

/// The hash of the message `whole`, from the state after its whole blocks
/// and the bytes of the block begun: the padding and the length are put
/// after these bytes, and the one or two blocks they make are taken.
fn finish(
    state: [u64; 8],
    begun: Vec<u8>,
    high: u64,
    low: u64,
    Ghost(whole): Ghost<Seq<u8>>,
) -> (out: Vec<u8>)
    requires
        begun@ == whole.subrange(128 * (whole.len() as int / 128), whole.len() as int),
        state@ == spec_state(whole, whole.len() / 128),
        high == spec_bits_high(whole.len()),
        low == spec_bits_low(whole.len()),
    ensures
        out@ == spec_sha512(whole),
        out@.len() == DIGEST,
{
    let ghost len = whole.len();
    let ghost blocks: int = len as int / 128;
    let ghost padded = spec_pad(whole);
    let rest = begun.len();
    let tail_len: usize = if rest + 17 <= 128 {
        128
    } else {
        256
    };
    let ghost begun_bytes = begun@;
    let mut tail = begun;
    tail.push(0x80);
    append_zeros(&mut tail, tail_len - rest - 17);
    append_be64(&mut tail, high);
    append_be64(&mut tail, low);
    proof {
        lemma_padded_tail(whole);
        lemma_padded_len(len);
        reveal(spec_padding);
        assert(tail@ =~= begun_bytes + spec_padding(len));
        assert(tail@ == padded.subrange(128 * blocks, 128 * blocks + tail_len));
        lemma_state_prefix(whole, padded, blocks as nat);
    }
    let block = vstd::slice::slice_subrange(tail.as_slice(), 0, 128);
    proof {
        assert(block@ =~= padded.subrange(
            128 * ((blocks + 1) - 1),
            128 * ((blocks + 1) - 1) + 128,
        ));
    }
    let mut h = compress(&state, block);
    assert(h@ == spec_state(padded, (blocks + 1) as nat));
    if tail_len == 256 {
        let block = vstd::slice::slice_subrange(tail.as_slice(), 128, 256);
        proof {
            assert(block@ =~= padded.subrange(
                128 * ((blocks + 2) - 1),
                128 * ((blocks + 2) - 1) + 128,
            ));
        }
        h = compress(&h, block);
        assert(h@ == spec_state(padded, (blocks + 2) as nat));
    }
    proof {
        assert(padded.len() / 128 == blocks + tail_len / 128);
        reveal(spec_sha512);
    }
    state_bytes(&h)
}

/// SHA-512 of the three parts `first`, `second` and `third` one after the
/// other, however long they are.
pub fn sha512_parts(first: &[u8], second: &[u8], third: &[u8]) -> (out: Vec<u8>)
    ensures
        out@ == spec_sha512(first@ + second@ + third@),
        out@.len() == DIGEST,
{
    let ghost whole = first@ + second@ + third@;
    let ghost one: int = first@.len() as int;
    let ghost two: int = (first@.len() + second@.len()) as int;
    let h: [u64; 8] = [
        0x6a09e667f3bcc908,
        0xbb67ae8584caa73b,
        0x3c6ef372fe94f82b,
        0xa54ff53a5f1d36f1,
        0x510e527fade682d1,
        0x9b05688c2b3e6c1f,
        0x1f83d9abfb41bd6b,
        0x5be0cd19137e2179,
    ];
    let begun: Vec<u8> = Vec::with_capacity(128);
    proof {
        assert(h@ =~= spec_initial_state());
        assert(begun@ =~= whole.subrange(0, 0));
        assert(whole.subrange(0, one) =~= first@);
        assert(whole.subrange(one, two) =~= second@);
        assert(whole.subrange(two, whole.len() as int) =~= third@);
    }
    let (h, begun) = absorb_part(h, begun, first, Ghost(whole), Ghost(0));
    let (h, begun) = absorb_part(h, begun, second, Ghost(whole), Ghost(one));
    let (h, begun) = absorb_part(h, begun, third, Ghost(whole), Ghost(two));
    let bits: u128 = 8 * (first.len() as u128 + second.len() as u128 + third.len() as u128);
    finish(
        h,
        begun,
        (bits / 0x1_0000_0000_0000_0000) as u64,
        (bits % 0x1_0000_0000_0000_0000) as u64,
        Ghost(whole),
    )
}


} // verus!
