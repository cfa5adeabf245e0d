//! SHAKE256, the extendable-output function of the Keccak family with
//! capacity 512: a sponge over the permutation Keccak-f[1600] with a rate of
//! 136 bytes and the domain suffix `1111`.
//!
//! The state is held as 25 lanes of 64 bits; lane `x + 5 * y` is the lane at
//! column `x` and row `y`. Bytes enter and leave the lanes little-endian.
use vstd::prelude::*;

verus! {

/// Bytes absorbed or squeezed between two permutations.
pub const RATE: usize = 136;

/// Rotation of a lane to the left by `r` bit positions, `r < 64`.
pub open spec fn spec_rotl(x: u64, r: u32) -> u64 {
    if r == 0 {
        x
    } else {
        (x << r) | (x >> ((64 - r) as u32))
    }
}

/// The constant that step iota adds to lane 0 in round `r`.
pub open spec fn spec_round_constant(r: int) -> u64 {
    if r == 0 {
        0x0000000000000001
    } else if r == 1 {
        0x0000000000008082
    } else if r == 2 {
        0x800000000000808a
    } else if r == 3 {
        0x8000000080008000
    } else if r == 4 {
        0x000000000000808b
    } else if r == 5 {
        0x0000000080000001
    } else if r == 6 {
        0x8000000080008081
    } else if r == 7 {
        0x8000000000008009
    } else if r == 8 {
        0x000000000000008a
    } else if r == 9 {
        0x0000000000000088
    } else if r == 10 {
        0x0000000080008009
    } else if r == 11 {
        0x000000008000000a
    } else if r == 12 {
        0x000000008000808b
    } else if r == 13 {
        0x800000000000008b
    } else if r == 14 {
        0x8000000000008089
    } else if r == 15 {
        0x8000000000008003
    } else if r == 16 {
        0x8000000000008002
    } else if r == 17 {
        0x8000000000000080
    } else if r == 18 {
        0x000000000000800a
    } else if r == 19 {
        0x800000008000000a
    } else if r == 20 {
        0x8000000080008081
    } else if r == 21 {
        0x8000000000008080
    } else if r == 22 {
        0x0000000080000001
    } else {
        0x8000000080008008
    }
}

/// The rotation that step rho applies to lane `i`.
pub open spec fn spec_rho_offset(i: int) -> u32 {
    if i == 0 {
        0
    } else if i == 1 {
        1
    } else if i == 2 {
        62
    } else if i == 3 {
        28
    } else if i == 4 {
        27
    } else if i == 5 {
        36
    } else if i == 6 {
        44
    } else if i == 7 {
        6
    } else if i == 8 {
        55
    } else if i == 9 {
        20
    } else if i == 10 {
        3
    } else if i == 11 {
        10
    } else if i == 12 {
        43
    } else if i == 13 {
        25
    } else if i == 14 {
        39
    } else if i == 15 {
        41
    } else if i == 16 {
        45
    } else if i == 17 {
        15
    } else if i == 18 {
        21
    } else if i == 19 {
        8
    } else if i == 20 {
        18
    } else if i == 21 {
        2
    } else if i == 22 {
        61
    } else if i == 23 {
        56
    } else {
        14
    }
}

/// Step theta, column parity: the sum of the five lanes of column `x`.
pub open spec fn spec_theta_c(a: Seq<u64>, x: int) -> u64 {
    a[x] ^ a[x + 5] ^ a[x + 10] ^ a[x + 15] ^ a[x + 20]
}

/// Step theta, the value added to every lane of column `x`.
pub open spec fn spec_theta_d(a: Seq<u64>, x: int) -> u64 {
    spec_theta_c(a, (x + 4) % 5) ^ spec_rotl(spec_theta_c(a, (x + 1) % 5), 1)
}

/// The lane that step pi moves to position `j`.
pub open spec fn spec_pi_source(j: int) -> int {
    (j % 5 + 3 * (j / 5)) % 5 + 5 * (j % 5)
}

/// Lane `j` after theta, rho and pi.
pub open spec fn spec_theta_rho_pi(a: Seq<u64>, j: int) -> u64 {
    let i = spec_pi_source(j);
    spec_rotl(a[i] ^ spec_theta_d(a, i % 5), spec_rho_offset(i))
}

/// Lane `i` after step chi on the lanes `b`.
pub open spec fn spec_chi(b: Seq<u64>, i: int) -> u64 {
    let x = i % 5;
    let row = i - x;
    b[i] ^ (!b[(x + 1) % 5 + row] & b[(x + 2) % 5 + row])
}

/// One round of Keccak-f[1600] with round constant `rc`.
#[verifier::opaque]
pub open spec fn spec_keccak_round(a: Seq<u64>, rc: u64) -> Seq<u64> {
    let b = Seq::new(25, |j: int| spec_theta_rho_pi(a, j));
    Seq::new(25, |i: int| if i == 0 { spec_chi(b, 0) ^ rc } else { spec_chi(b, i) })
}

/// The first `rounds` rounds of Keccak-f[1600].
pub open spec fn spec_keccak_rounds(a: Seq<u64>, rounds: nat) -> Seq<u64>
    decreases rounds,
{
    if rounds == 0 {
        a
    } else {
        spec_keccak_round(
            spec_keccak_rounds(a, (rounds - 1) as nat),
            spec_round_constant(rounds - 1),
        )
    }
}

/// The permutation Keccak-f[1600]: 24 rounds.
pub open spec fn spec_keccak_f1600(a: Seq<u64>) -> Seq<u64> {
    spec_keccak_rounds(a, 24)
}

/// The state with byte `b` added at byte position `pos` of the rate.
pub open spec fn spec_absorb_byte(a: Seq<u64>, pos: int, b: u8) -> Seq<u64> {
    a.update(pos / 8, a[pos / 8] ^ ((b as u64) << ((8 * (pos % 8)) as u64)))
}

/// Length of the padded message: the next multiple of the rate above
/// `len`.
pub open spec fn spec_padded_len(len: nat) -> nat {
    ((len / 136 + 1) * 136) as nat
}

/// The message followed by the suffix `1111`, the first padding bit, zeros
/// and the final padding bit, up to a multiple of the rate.
#[verifier::opaque]
pub open spec fn spec_pad(input: Seq<u8>) -> Seq<u8> {
    let total = spec_padded_len(input.len());
    Seq::new(
        total,
        |i: int|
            if i < input.len() {
                input[i]
            } else if i == input.len() && i == total - 1 {
                0x9fu8
            } else if i == input.len() {
                0x1fu8
            } else if i == total - 1 {
                0x80u8
            } else {
                0u8
            },
    )
}

/// The sponge state after the first `count` bytes of `padded` were absorbed.
pub open spec fn spec_absorb(padded: Seq<u8>, count: nat) -> Seq<u64>
    decreases count,
{
    if count == 0 {
        Seq::new(25, |i: int| 0u64)
    } else {
        let s = spec_absorb_byte(
            spec_absorb(padded, (count - 1) as nat),
            (count - 1) % 136,
            padded[count - 1],
        );
        if count % 136 == 0 {
            spec_keccak_f1600(s)
        } else {
            s
        }
    }
}

/// Byte `pos` of the rate part of the state.
pub open spec fn spec_state_byte(a: Seq<u64>, pos: int) -> u8 {
    (a[pos / 8] >> ((8 * (pos % 8)) as u64)) as u8
}

/// The first `out_len` bytes squeezed out of state `a`.
pub open spec fn spec_squeeze(a: Seq<u64>, out_len: nat) -> Seq<u8>
    decreases out_len,
{
    if out_len <= 136 {
        Seq::new(out_len, |i: int| spec_state_byte(a, i))
    } else {
        Seq::new(136, |i: int| spec_state_byte(a, i)) + spec_squeeze(
            spec_keccak_f1600(a),
            (out_len - 136) as nat,
        )
    }
}

/// SHAKE256 of `input`, `out_len` bytes of output.
#[verifier::opaque]
pub open spec fn spec_shake256(input: Seq<u8>, out_len: nat) -> Seq<u8> {
    let padded = spec_pad(input);
    spec_squeeze(spec_absorb(padded, padded.len()), out_len)
}

fn round_constant(r: usize) -> (rc: u64)
    requires
        r < 24,
    ensures
        rc == spec_round_constant(r as int),
{
    match r {
        0 => 0x0000000000000001,
        1 => 0x0000000000008082,
        2 => 0x800000000000808a,
        3 => 0x8000000080008000,
        4 => 0x000000000000808b,
        5 => 0x0000000080000001,
        6 => 0x8000000080008081,
        7 => 0x8000000000008009,
        8 => 0x000000000000008a,
        9 => 0x0000000000000088,
        10 => 0x0000000080008009,
        11 => 0x000000008000000a,
        12 => 0x000000008000808b,
        13 => 0x800000000000008b,
        14 => 0x8000000000008089,
        15 => 0x8000000000008003,
        16 => 0x8000000000008002,
        17 => 0x8000000000000080,
        18 => 0x000000000000800a,
        19 => 0x800000008000000a,
        20 => 0x8000000080008081,
        21 => 0x8000000000008080,
        22 => 0x0000000080000001,
        _ => 0x8000000080008008,
    }
}

#[inline]
fn rotl(x: u64, r: u32) -> (y: u64)
    requires
        0 < r < 64,
    ensures
        y == spec_rotl(x, r),
{
    (x << r) | (x >> (64 - r))
}

/// One round of Keccak-f[1600] on the lanes `a`.
#[verifier::rlimit(100)]
fn keccak_round(a: &[u64; 25], rc: u64) -> (out: [u64; 25])
    ensures
        out@ == spec_keccak_round(a@, rc),
{
    let c0: u64 = a[0] ^ a[5] ^ a[10] ^ a[15] ^ a[20];
    let c1: u64 = a[1] ^ a[6] ^ a[11] ^ a[16] ^ a[21];
    let c2: u64 = a[2] ^ a[7] ^ a[12] ^ a[17] ^ a[22];
    let c3: u64 = a[3] ^ a[8] ^ a[13] ^ a[18] ^ a[23];
    let c4: u64 = a[4] ^ a[9] ^ a[14] ^ a[19] ^ a[24];
    let d0: u64 = c4 ^ rotl(c1, 1);
    let d1: u64 = c0 ^ rotl(c2, 1);
    let d2: u64 = c1 ^ rotl(c3, 1);
    let d3: u64 = c2 ^ rotl(c4, 1);
    let d4: u64 = c3 ^ rotl(c0, 1);
    proof {
        assert(d0 == spec_theta_d(a@, 0));
        assert(d1 == spec_theta_d(a@, 1));
        assert(d2 == spec_theta_d(a@, 2));
        assert(d3 == spec_theta_d(a@, 3));
        assert(d4 == spec_theta_d(a@, 4));
    }
    let b0: u64 = a[0] ^ d0;
    let b10: u64 = rotl(a[1] ^ d1, 1);
    let b20: u64 = rotl(a[2] ^ d2, 62);
    let b5: u64 = rotl(a[3] ^ d3, 28);
    let b15: u64 = rotl(a[4] ^ d4, 27);
    let b16: u64 = rotl(a[5] ^ d0, 36);
    let b1: u64 = rotl(a[6] ^ d1, 44);
    let b11: u64 = rotl(a[7] ^ d2, 6);
    let b21: u64 = rotl(a[8] ^ d3, 55);
    let b6: u64 = rotl(a[9] ^ d4, 20);
    let b7: u64 = rotl(a[10] ^ d0, 3);
    let b17: u64 = rotl(a[11] ^ d1, 10);
    let b2: u64 = rotl(a[12] ^ d2, 43);
    let b12: u64 = rotl(a[13] ^ d3, 25);
    let b22: u64 = rotl(a[14] ^ d4, 39);
    let b23: u64 = rotl(a[15] ^ d0, 41);
    let b8: u64 = rotl(a[16] ^ d1, 45);
    let b18: u64 = rotl(a[17] ^ d2, 15);
    let b3: u64 = rotl(a[18] ^ d3, 21);
    let b13: u64 = rotl(a[19] ^ d4, 8);
    let b14: u64 = rotl(a[20] ^ d0, 18);
    let b24: u64 = rotl(a[21] ^ d1, 2);
    let b9: u64 = rotl(a[22] ^ d2, 61);
    let b19: u64 = rotl(a[23] ^ d3, 56);
    let b4: u64 = rotl(a[24] ^ d4, 14);
    let ghost b = Seq::new(25, |j: int| spec_theta_rho_pi(a@, j));
    proof {
        assert(b[0] == b0);
        assert(b[1] == b1);
        assert(b[2] == b2);
        assert(b[3] == b3);
        assert(b[4] == b4);
        assert(b[5] == b5);
        assert(b[6] == b6);
        assert(b[7] == b7);
        assert(b[8] == b8);
        assert(b[9] == b9);
        assert(b[10] == b10);
        assert(b[11] == b11);
        assert(b[12] == b12);
        assert(b[13] == b13);
        assert(b[14] == b14);
        assert(b[15] == b15);
        assert(b[16] == b16);
        assert(b[17] == b17);
        assert(b[18] == b18);
        assert(b[19] == b19);
        assert(b[20] == b20);
        assert(b[21] == b21);
        assert(b[22] == b22);
        assert(b[23] == b23);
        assert(b[24] == b24);
    }
    let out: [u64; 25] = [
        b0 ^ (!b1 & b2) ^ rc,
        b1 ^ (!b2 & b3),
        b2 ^ (!b3 & b4),
        b3 ^ (!b4 & b0),
        b4 ^ (!b0 & b1),
        b5 ^ (!b6 & b7),
        b6 ^ (!b7 & b8),
        b7 ^ (!b8 & b9),
        b8 ^ (!b9 & b5),
        b9 ^ (!b5 & b6),
        b10 ^ (!b11 & b12),
        b11 ^ (!b12 & b13),
        b12 ^ (!b13 & b14),
        b13 ^ (!b14 & b10),
        b14 ^ (!b10 & b11),
        b15 ^ (!b16 & b17),
        b16 ^ (!b17 & b18),
        b17 ^ (!b18 & b19),
        b18 ^ (!b19 & b15),
        b19 ^ (!b15 & b16),
        b20 ^ (!b21 & b22),
        b21 ^ (!b22 & b23),
        b22 ^ (!b23 & b24),
        b23 ^ (!b24 & b20),
        b24 ^ (!b20 & b21),
    ];
    proof {
        assert(out@[0] == spec_chi(b, 0) ^ rc);
        assert(out@[1] == spec_chi(b, 1));
        assert(out@[2] == spec_chi(b, 2));
        assert(out@[3] == spec_chi(b, 3));
        assert(out@[4] == spec_chi(b, 4));
        assert(out@[5] == spec_chi(b, 5));
        assert(out@[6] == spec_chi(b, 6));
        assert(out@[7] == spec_chi(b, 7));
        assert(out@[8] == spec_chi(b, 8));
        assert(out@[9] == spec_chi(b, 9));
        assert(out@[10] == spec_chi(b, 10));
        assert(out@[11] == spec_chi(b, 11));
        assert(out@[12] == spec_chi(b, 12));
        assert(out@[13] == spec_chi(b, 13));
        assert(out@[14] == spec_chi(b, 14));
        assert(out@[15] == spec_chi(b, 15));
        assert(out@[16] == spec_chi(b, 16));
        assert(out@[17] == spec_chi(b, 17));
        assert(out@[18] == spec_chi(b, 18));
        assert(out@[19] == spec_chi(b, 19));
        assert(out@[20] == spec_chi(b, 20));
        assert(out@[21] == spec_chi(b, 21));
        assert(out@[22] == spec_chi(b, 22));
        assert(out@[23] == spec_chi(b, 23));
        assert(out@[24] == spec_chi(b, 24));
        assert(out@ =~= spec_keccak_round(a@, rc)) by {
        reveal(spec_keccak_round);
    }
    }
    out
}

/// Keccak-f[1600] on the 25 lanes of `state`.
pub fn keccak_f1600(state: [u64; 25]) -> (out: [u64; 25])
    ensures
        out@ == spec_keccak_f1600(state@),
{
    let mut a = state;
    let mut round: usize = 0;
    while round < 24
        invariant
            round <= 24,
            a@ == spec_keccak_rounds(state@, round as nat),
        decreases 24 - round,
    {
        let rc: u64 = round_constant(round);
        a = keccak_round(&a, rc);
        round += 1;
    }
    a
}

/// The permutation yields 25 lanes.
pub proof fn lemma_keccak_f1600_len(a: Seq<u64>)
    ensures
        spec_keccak_f1600(a).len() == 25,
{
    reveal(spec_keccak_round);
}

/// Every state that absorbing reaches has 25 lanes.
pub proof fn lemma_absorb_len(padded: Seq<u8>, count: nat)
    ensures
        spec_absorb(padded, count).len() == 25,
    decreases count,
{
    if count > 0 {
        lemma_absorb_len(padded, (count - 1) as nat);
        let s = spec_absorb_byte(
            spec_absorb(padded, (count - 1) as nat),
            (count - 1) % 136,
            padded[count - 1],
        );
        lemma_keccak_f1600_len(s);
    }
}

/// A zero byte leaves the state as it is.
proof fn lemma_absorb_zero_byte(a: Seq<u64>, pos: int)
    requires
        a.len() == 25,
        0 <= pos < 136,
    ensures
        spec_absorb_byte(a, pos, 0u8) == a,
{
    let x = a[pos / 8];
    let s = (8 * (pos % 8)) as u64;
    assert(x ^ ((0u8 as u64) << s) == x) by (bit_vector);
    assert(spec_absorb_byte(a, pos, 0u8) =~= a);
}

/// The zero bytes of the padding do not change the state.
proof fn lemma_absorb_zeros(padded: Seq<u8>, from: nat, to: nat)
    requires
        from <= to <= padded.len(),
        forall|i: int| from <= i < to ==> padded[i] == 0u8,
        from % 136 + (to - from) < 136,
    ensures
        spec_absorb(padded, to) == spec_absorb(padded, from),
    decreases to - from,
{
    if from < to {
        lemma_absorb_zeros(padded, from, (to - 1) as nat);
        lemma_absorb_len(padded, (to - 1) as nat);
        lemma_absorb_zero_byte(spec_absorb(padded, (to - 1) as nat), (to - 1) % 136);
    }
}

/// The state `a` with byte `b` added at position `pos` of the rate.
#[inline]
fn absorb_byte(a: &mut [u64; 25], pos: usize, b: u8)
    requires
        pos < 136,
    ensures
        final(a)@ == spec_absorb_byte(old(a)@, pos as int, b),
{
    let lane = pos / 8;
    let shift = (8 * (pos % 8)) as u64;
    a[lane] = a[lane] ^ ((b as u64) << shift);
}

/// The padded message begins with the message.
proof fn lemma_pad_prefix(input: Seq<u8>, i: int)
    requires
        0 <= i < input.len(),
    ensures
        spec_pad(input)[i] == input[i],
{
    reveal(spec_pad);
}

/// The sponge state after all of `input` was absorbed, without padding.
fn absorb_message(input: &[u8]) -> (a: [u64; 25])
    ensures
        a@ == spec_absorb(spec_pad(input@), input@.len()),
{
    let a: [u64; 25] = [0u64; 25];
    proof {
        assert(a@ =~= spec_absorb(spec_pad(input@), 0));
        assert(input@.subrange(0, input@.len() as int) =~= input@);
    }
    let (a, pos) = absorb_part(a, 0, input, Ghost(input@), Ghost(0));
    a
}

/// Where the padding of a message of `len` bytes ends.
proof fn lemma_padded_len(len: nat)
    ensures
        spec_padded_len(len) == len - len % 136 + 136,
        spec_padded_len(len) % 136 == 0,
{
    let q = len / 136;
    assert(spec_padded_len(len) == q * 136 + 136) by (nonlinear_arith)
        requires
            spec_padded_len(len) == (q + 1) * 136,
    ;
}

/// The sponge state after the padding was absorbed too.
fn absorb_padding(state: [u64; 25], Ghost(input): Ghost<Seq<u8>>, pos: usize) -> (a: [u64; 25])
    requires
        state@ == spec_absorb(spec_pad(input), input.len()),
        pos == input.len() % 136,
    ensures
        a@ == spec_absorb(spec_pad(input), spec_pad(input).len()),
{
    let ghost padded = spec_pad(input);
    let ghost len = input.len();
    let ghost total = spec_padded_len(len);
    let mut a = state;
    proof {
        reveal(spec_pad);
        lemma_padded_len(len);
        assert(total == padded.len());
    }
    if pos == 136 - 1 {
        assert(padded[len as int] == 0x9fu8);
        absorb_byte(&mut a, pos, 0x9f);
    } else {
        assert(padded[len as int] == 0x1fu8);
        absorb_byte(&mut a, pos, 0x1f);
        proof {
            assert(a@ == spec_absorb(padded, (len + 1) as nat));
            lemma_absorb_zeros(padded, (len + 1) as nat, (total - 1) as nat);
            assert(padded[total - 1] == 0x80u8);
        }
        absorb_byte(&mut a, 136 - 1, 0x80);
    }
    keccak_f1600(a)
}

/// The first `out_len` bytes squeezed out of `state`.
fn squeeze(state: [u64; 25], out_len: usize) -> (out: Vec<u8>)
    ensures
        out@ == spec_squeeze(state@, out_len as nat),
{
    let mut a = state;
    let mut out: Vec<u8> = Vec::with_capacity(out_len);
    while out.len() < out_len
        invariant
            out@.len() <= out_len,
            out@ + spec_squeeze(a@, (out_len - out@.len()) as nat) == spec_squeeze(
                state@,
                out_len as nat,
            ),
        decreases out_len - out@.len(),
    {
        let ghost done = out@;
        let remaining = out_len - out.len();
        let take = if remaining < 136 {
            remaining
        } else {
            136
        };
        let mut i: usize = 0;
        while i < take
            invariant
                i <= take <= 136,
                out@ == done + Seq::new(i as nat, |j: int| spec_state_byte(a@, j)),
            decreases take - i,
        {
            let byte = (a[i / 8] >> ((8 * (i % 8)) as u64)) as u8;
            out.push(byte);
            i += 1;
            assert(out@ =~= done + Seq::new(i as nat, |j: int| spec_state_byte(a@, j)));
        }
        if remaining > 136 {
            let ghost prev = a@;
            a = keccak_f1600(a);
            assert(out@ + spec_squeeze(a@, (out_len - out@.len()) as nat) =~= done + spec_squeeze(
                prev,
                remaining as nat,
            ));
        } else {
            assert(out@ + spec_squeeze(a@, (out_len - out@.len()) as nat) =~= done + spec_squeeze(
                a@,
                remaining as nat,
            ));
        }
    }
    assert(out@ =~= out@ + spec_squeeze(a@, 0));
    out
}

/// Every output of the sponge has the length that was asked for.
proof fn lemma_squeeze_len(a: Seq<u64>, out_len: nat)
    ensures
        spec_squeeze(a, out_len).len() == out_len,
    decreases out_len,
{
    if out_len > 136 {
        lemma_squeeze_len(spec_keccak_f1600(a), (out_len - 136) as nat);
    }
}

/// SHAKE256 of `input`: the first `out_len` bytes of its output.
pub fn shake256(input: &[u8], out_len: usize) -> (out: Vec<u8>)
    ensures
        out@ == spec_shake256(input@, out_len as nat),
        out@.len() == out_len,
{
    let a = absorb_message(input);
    let a = absorb_padding(a, Ghost(input@), input.len() % 136);
    proof {
        reveal(spec_shake256);
        lemma_squeeze_len(a@, out_len as nat);
    }
    squeeze(a, out_len)
}

/// The sponge state after one more part of the message `whole` was
/// absorbed, of which `done` bytes were absorbed before; `pos` is the
/// place in the rate where the part begins.
fn absorb_part(
    state: [u64; 25],
    pos: usize,
    part: &[u8],
    Ghost(whole): Ghost<Seq<u8>>,
    Ghost(done): Ghost<nat>,
) -> (r: ([u64; 25], usize))
    requires
        pos == done % 136,
        done + part@.len() <= whole.len(),
        whole.subrange(done as int, (done + part@.len()) as int) == part@,
        state@ == spec_absorb(spec_pad(whole), done),
    ensures
        r.0@ == spec_absorb(spec_pad(whole), done + part@.len()),
        r.1 == (done + part@.len()) % 136,
{
    let ghost padded = spec_pad(whole);
    let len = part.len();
    let mut a = state;
    let mut pos = pos;
    let mut off: usize = 0;
    while off < len
        invariant
            len == part@.len(),
            padded == spec_pad(whole),
            done + len <= whole.len(),
            whole.subrange(done as int, (done + len) as int) == part@,
            off <= len,
            pos == (done + off) % 136,
            a@ == spec_absorb(padded, (done + off) as nat),
        decreases len - off,
    {
        proof {
            assert(whole.subrange(done as int, (done + len) as int)[off as int] == whole[done
                + off]);
            lemma_pad_prefix(whole, done + off);
        }
        absorb_byte(&mut a, pos, part[off]);
        pos += 1;
        off += 1;
        if pos == 136 {
            a = keccak_f1600(a);
            pos = 0;
        }
    }
    (a, pos)
}

/// SHAKE256 of the three parts `first`, `second` and `third` one after
/// the other: the first `out_len` bytes of its output.
pub fn shake256_parts(first: &[u8], second: &[u8], third: &[u8], out_len: usize) -> (out: Vec<
    u8,
>)
    ensures
        out@ == spec_shake256(first@ + second@ + third@, out_len as nat),
        out@.len() == out_len,
{
    let ghost whole = first@ + second@ + third@;
    let ghost one = first@.len();
    let ghost two = first@.len() + second@.len();
    let a: [u64; 25] = [0u64; 25];
    proof {
        assert(a@ =~= spec_absorb(spec_pad(whole), 0));
        assert(whole.subrange(0, one as int) =~= first@);
        assert(whole.subrange(one as int, two as int) =~= second@);
        assert(whole.subrange(two as int, whole.len() as int) =~= third@);
    }
    let (a, pos) = absorb_part(a, 0, first, Ghost(whole), Ghost(0));
    let (a, pos) = absorb_part(a, pos, second, Ghost(whole), Ghost(one));
    let (a, pos) = absorb_part(a, pos, third, Ghost(whole), Ghost(two));
    let a = absorb_padding(a, Ghost(whole), pos);
    proof {
        reveal(spec_shake256);
        lemma_squeeze_len(a@, out_len as nat);
    }
    squeeze(a, out_len)
}

/// The output has the length that was asked for.
pub proof fn lemma_shake256_len(input: Seq<u8>, out_len: nat)
    ensures
        spec_shake256(input, out_len).len() == out_len,
{
    reveal(spec_shake256);
    let padded = spec_pad(input);
    lemma_squeeze_len(spec_absorb(padded, padded.len()), out_len);
}

} // verus!
