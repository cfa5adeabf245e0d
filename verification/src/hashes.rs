//! The tweakable hash functions: every call takes the public seed and the
//! address of the value it computes. With SHAKE all of them are SHAKE256 of
//! the inputs one after the other; with SHA-2 they are SHA-256 or SHA-512
//! of the seed padded to one block, the compressed address and the message.
use vstd::prelude::*;
use crate::address::Adrs;
use crate::bytes::{
    append, append_be32, append_zeros, concat_blocks, lemma_concat_blocks_len, lemma_four_parts,
    lemma_three_parts, spec_be32,
};
use crate::params::{HashFamily, Params};
use crate::sha256::{lemma_sha256_len, sha256, sha256_parts, spec_sha256};
use crate::sha512::{lemma_sha512_len, sha512, sha512_parts, spec_sha512};
use crate::shake::{lemma_shake256_len, shake256, shake256_parts, spec_shake256};

verus! {

/// `count` zero bytes.
pub open spec fn spec_zeros(count: nat) -> Seq<u8> {
    Seq::new(count, |i: int| 0u8)
}

/// The values that the tweakable hashes take in one piece: with what is
/// put before them, their length in bits is written in 64 bits and they
/// are held in memory.
pub open spec fn spec_fits(len: nat) -> bool {
    len + 1024 < 0x2000_0000_0000_0000 && len + 1024 <= usize::MAX
}

/// What every tweakable hash puts before its message: the public seed
/// and the address. With SHA-2 the seed is filled up with zeros to one
/// block of the hash function, 128 bytes if `wide` and 64 if not, and the
/// address is compressed.
pub open spec fn spec_tweak(p: Params, wide: bool, pk_seed: Seq<u8>, adrs: Adrs) -> Seq<u8> {
    match p.family {
        HashFamily::Shake => pk_seed + adrs.spec_bytes(),
        HashFamily::Sha2 => if wide {
            pk_seed + spec_zeros((128 - p.n) as nat) + adrs.spec_compressed()
        } else {
            pk_seed + spec_zeros((64 - p.n) as nat) + adrs.spec_compressed()
        },
    }
}

/// F and PRF: the hash of one value of `n` bytes.
pub open spec fn spec_f(p: Params, pk_seed: Seq<u8>, adrs: Adrs, m: Seq<u8>) -> Seq<u8> {
    match p.family {
        HashFamily::Shake => spec_shake256(spec_tweak(p, false, pk_seed, adrs) + m, p.n as nat),
        HashFamily::Sha2 => spec_sha256(spec_tweak(p, false, pk_seed, adrs) + m).take(p.n as int),
    }
}

/// H and T: the hash of two or more values of `n` bytes. With SHA-2 and
/// hash values of more than 16 bytes it is made with SHA-512.
pub open spec fn spec_h(p: Params, pk_seed: Seq<u8>, adrs: Adrs, m: Seq<u8>) -> Seq<u8> {
    match p.family {
        HashFamily::Shake => spec_shake256(spec_tweak(p, false, pk_seed, adrs) + m, p.n as nat),
        HashFamily::Sha2 => if p.n == 16 {
            spec_sha256(spec_tweak(p, false, pk_seed, adrs) + m).take(p.n as int)
        } else {
            spec_sha512(spec_tweak(p, true, pk_seed, adrs) + m).take(p.n as int)
        },
    }
}

/// PRF: the secret value at `adrs`.
pub open spec fn spec_prf(p: Params, pk_seed: Seq<u8>, sk_seed: Seq<u8>, adrs: Adrs) -> Seq<u8> {
    spec_f(p, pk_seed, adrs, sk_seed)
}

/// The key of an HMAC, at most one block long, filled up with zeros to
/// `block` bytes and combined with `pad` byte by byte.
pub open spec fn spec_hmac_key(key: Seq<u8>, block: nat, pad: u8) -> Seq<u8> {
    Seq::new(
        block,
        |i: int|
            if i < key.len() {
                key[i] ^ pad
            } else {
                0u8 ^ pad
            },
    )
}

/// HMAC with SHA-256, for keys of at most 64 bytes.
pub open spec fn spec_hmac_sha256(key: Seq<u8>, msg: Seq<u8>) -> Seq<u8> {
    spec_sha256(spec_hmac_key(key, 64, 0x5c) + spec_sha256(spec_hmac_key(key, 64, 0x36) + msg))
}

/// HMAC with SHA-512, for keys of at most 128 bytes.
pub open spec fn spec_hmac_sha512(key: Seq<u8>, msg: Seq<u8>) -> Seq<u8> {
    spec_sha512(spec_hmac_key(key, 128, 0x5c) + spec_sha512(spec_hmac_key(key, 128, 0x36) + msg))
}

/// Block `c` of the mask that MGF1 makes with SHA-256.
pub open spec fn spec_mgf1_sha256_block(seed: Seq<u8>) -> spec_fn(int) -> Seq<u8> {
    |c: int| spec_sha256(seed + spec_be32(c as u32))
}

/// Block `c` of the mask that MGF1 makes with SHA-512.
pub open spec fn spec_mgf1_sha512_block(seed: Seq<u8>) -> spec_fn(int) -> Seq<u8> {
    |c: int| spec_sha512(seed + spec_be32(c as u32))
}

/// MGF1 with SHA-256: a mask of `out_len` bytes.
pub open spec fn spec_mgf1_sha256(seed: Seq<u8>, out_len: nat) -> Seq<u8> {
    concat_blocks(spec_mgf1_sha256_block(seed), (out_len + 31) / 32).take(out_len as int)
}

/// MGF1 with SHA-512: a mask of `out_len` bytes.
pub open spec fn spec_mgf1_sha512(seed: Seq<u8>, out_len: nat) -> Seq<u8> {
    concat_blocks(spec_mgf1_sha512_block(seed), (out_len + 63) / 64).take(out_len as int)
}

/// PRF_msg: the randomizer of a signature.
pub open spec fn spec_prf_msg(p: Params, sk_prf: Seq<u8>, opt_rand: Seq<u8>, msg: Seq<u8>) -> Seq<
    u8,
> {
    match p.family {
        HashFamily::Shake => spec_shake256(sk_prf + opt_rand + msg, p.n as nat),
        HashFamily::Sha2 => if p.n == 16 {
            spec_hmac_sha256(sk_prf, opt_rand + msg).take(p.n as int)
        } else {
            spec_hmac_sha512(sk_prf, opt_rand + msg).take(p.n as int)
        },
    }
}

/// H_msg: the digest of a message, `m` bytes.
pub open spec fn spec_h_msg(
    p: Params,
    r: Seq<u8>,
    pk_seed: Seq<u8>,
    pk_root: Seq<u8>,
    msg: Seq<u8>,
) -> Seq<u8> {
    match p.family {
        HashFamily::Shake => spec_shake256(r + pk_seed + pk_root + msg, p.m as nat),
        HashFamily::Sha2 => if p.n == 16 {
            spec_mgf1_sha256(r + pk_seed + spec_sha256(r + pk_seed + pk_root + msg), p.m as nat)
        } else {
            spec_mgf1_sha512(r + pk_seed + spec_sha512(r + pk_seed + pk_root + msg), p.m as nat)
        },
    }
}

/// F yields `n` bytes.
pub proof fn lemma_f_len(p: Params, pk_seed: Seq<u8>, adrs: Adrs, m: Seq<u8>)
    requires
        p.wf(),
    ensures
        spec_f(p, pk_seed, adrs, m).len() == p.n,
        spec_prf(p, pk_seed, m, adrs).len() == p.n,
{
    lemma_shake256_len(spec_tweak(p, false, pk_seed, adrs) + m, p.n as nat);
    lemma_sha256_len(spec_tweak(p, false, pk_seed, adrs) + m);
}

/// H yields `n` bytes.
pub proof fn lemma_h_len(p: Params, pk_seed: Seq<u8>, adrs: Adrs, m: Seq<u8>)
    requires
        p.wf(),
    ensures
        spec_h(p, pk_seed, adrs, m).len() == p.n,
{
    lemma_shake256_len(spec_tweak(p, false, pk_seed, adrs) + m, p.n as nat);
    lemma_sha256_len(spec_tweak(p, false, pk_seed, adrs) + m);
    lemma_sha512_len(spec_tweak(p, true, pk_seed, adrs) + m);
}

/// Hash calls with different seeds, at different addresses or of different
/// messages hash different strings: the address of a call is part of what
/// it hashes.
pub proof fn lemma_tweak_injective(
    p: Params,
    wide: bool,
    pk_seed1: Seq<u8>,
    adrs1: Adrs,
    m1: Seq<u8>,
    pk_seed2: Seq<u8>,
    adrs2: Adrs,
    m2: Seq<u8>,
)
    requires
        p.wf(),
        pk_seed1.len() == p.n,
        pk_seed2.len() == p.n,
        adrs1.layer < 256,
        adrs2.layer < 256,
        spec_tweak(p, wide, pk_seed1, adrs1) + m1 == spec_tweak(p, wide, pk_seed2, adrs2) + m2,
    ensures
        pk_seed1 == pk_seed2,
        adrs1 == adrs2,
        m1 == m2,
{
    adrs1.lemma_len();
    adrs2.lemma_len();
    match p.family {
        HashFamily::Shake => {
            lemma_three_parts(pk_seed1, adrs1.spec_bytes(), m1);
            lemma_three_parts(pk_seed2, adrs2.spec_bytes(), m2);
            Adrs::lemma_bytes_injective(adrs1, adrs2);
        },
        HashFamily::Sha2 => {
            let zeros = if wide {
                spec_zeros((128 - p.n) as nat)
            } else {
                spec_zeros((64 - p.n) as nat)
            };
            lemma_four_parts(pk_seed1, zeros, adrs1.spec_compressed(), m1);
            lemma_four_parts(pk_seed2, zeros, adrs2.spec_compressed(), m2);
            Adrs::lemma_compressed_injective(adrs1, adrs2);
        },
    }
}

/// PRF_msg yields `n` bytes.
pub proof fn lemma_prf_msg_len(p: Params, sk_prf: Seq<u8>, opt_rand: Seq<u8>, msg: Seq<u8>)
    requires
        p.wf(),
    ensures
        spec_prf_msg(p, sk_prf, opt_rand, msg).len() == p.n,
{
    lemma_shake256_len(sk_prf + opt_rand + msg, p.n as nat);
    lemma_sha256_len(
        spec_hmac_key(sk_prf, 64, 0x5c) + spec_sha256(
            spec_hmac_key(sk_prf, 64, 0x36) + (opt_rand + msg),
        ),
    );
    lemma_sha512_len(
        spec_hmac_key(sk_prf, 128, 0x5c) + spec_sha512(
            spec_hmac_key(sk_prf, 128, 0x36) + (opt_rand + msg),
        ),
    );
}

/// MGF1 yields as many bytes as are asked for.
pub proof fn lemma_mgf1_len(seed: Seq<u8>, out_len: nat)
    ensures
        spec_mgf1_sha256(seed, out_len).len() == out_len,
        spec_mgf1_sha512(seed, out_len).len() == out_len,
{
    let narrow = spec_mgf1_sha256_block(seed);
    let wide = spec_mgf1_sha512_block(seed);
    assert forall|c: int| 0 <= c implies (#[trigger] narrow(c)).len() == 32 by {
        lemma_sha256_len(seed + spec_be32(c as u32));
    }
    assert forall|c: int| 0 <= c implies (#[trigger] wide(c)).len() == 64 by {
        lemma_sha512_len(seed + spec_be32(c as u32));
    }
    lemma_concat_blocks_len(narrow, (out_len + 31) / 32, 32);
    lemma_concat_blocks_len(wide, (out_len + 63) / 64, 64);
}

/// H_msg yields `m` bytes.
pub proof fn lemma_h_msg_len(
    p: Params,
    r: Seq<u8>,
    pk_seed: Seq<u8>,
    pk_root: Seq<u8>,
    msg: Seq<u8>,
)
    requires
        p.wf(),
    ensures
        spec_h_msg(p, r, pk_seed, pk_root, msg).len() == p.m,
{
    lemma_shake256_len(r + pk_seed + pk_root + msg, p.m as nat);
    lemma_mgf1_len(r + pk_seed + spec_sha256(r + pk_seed + pk_root + msg), p.m as nat);
    lemma_mgf1_len(r + pk_seed + spec_sha512(r + pk_seed + pk_root + msg), p.m as nat);
}

/// The seed and the address as the hash functions take them.
fn hash_prefix(p: &Params, wide: bool, pk_seed: &[u8], adrs: &Adrs, room: usize) -> (buf: Vec<u8>)
    requires
        p.wf(),
        pk_seed@.len() == p.n,
        room + 256 <= usize::MAX,
    ensures
        buf@ == spec_tweak(*p, wide, pk_seed@, *adrs),
        buf@.len() <= 160,
{
    let mut buf: Vec<u8> = Vec::with_capacity(160 + room);
    append(&mut buf, pk_seed);
    match p.family {
        HashFamily::Shake => {
            adrs.append_bytes(&mut buf);
        },
        HashFamily::Sha2 => {
            if wide {
                append_zeros(&mut buf, 128 - p.n);
            } else {
                append_zeros(&mut buf, 64 - p.n);
            }
            adrs.append_compressed(&mut buf);
        },
    }
    buf
}

/// F: the hash of one value.
pub fn hash_f(p: &Params, pk_seed: &[u8], adrs: &Adrs, m: &[u8]) -> (out: Vec<u8>)
    requires
        p.wf(),
        pk_seed@.len() == p.n,
        spec_fits(m@.len()),
    ensures
        out@ == spec_f(*p, pk_seed@, *adrs, m@),
        out@.len() == p.n,
{
    let mut buf = hash_prefix(p, false, pk_seed, adrs, m.len());
    append(&mut buf, m);
    match p.family {
        HashFamily::Shake => shake256(buf.as_slice(), p.n),
        HashFamily::Sha2 => {
            let mut out = sha256(buf.as_slice());
            out.truncate(p.n);
            out
        },
    }
}

/// H and T: the hash of two or more values.
pub fn hash_h(p: &Params, pk_seed: &[u8], adrs: &Adrs, m: &[u8]) -> (out: Vec<u8>)
    requires
        p.wf(),
        pk_seed@.len() == p.n,
        spec_fits(m@.len()),
    ensures
        out@ == spec_h(*p, pk_seed@, *adrs, m@),
        out@.len() == p.n,
{
    let wide = p.n != 16;
    let mut buf = hash_prefix(p, wide, pk_seed, adrs, m.len());
    append(&mut buf, m);
    match p.family {
        HashFamily::Shake => shake256(buf.as_slice(), p.n),
        HashFamily::Sha2 => {
            let mut out = if wide {
                sha512(buf.as_slice())
            } else {
                sha256(buf.as_slice())
            };
            out.truncate(p.n);
            out
        },
    }
}

/// PRF: the secret value at `adrs`.
pub fn prf(p: &Params, pk_seed: &[u8], sk_seed: &[u8], adrs: &Adrs) -> (out: Vec<u8>)
    requires
        p.wf(),
        pk_seed@.len() == p.n,
        sk_seed@.len() == p.n,
    ensures
        out@ == spec_prf(*p, pk_seed@, sk_seed@, *adrs),
        out@.len() == p.n,
{
    hash_f(p, pk_seed, adrs, sk_seed)
}

/// The key of an HMAC filled up to `block` bytes and combined with `pad`.
fn hmac_key(key: &[u8], block: usize, pad: u8, room: usize) -> (out: Vec<u8>)
    requires
        key@.len() <= block <= 128,
        room + 128 <= usize::MAX,
    ensures
        out@ == spec_hmac_key(key@, block as nat, pad),
{
    let mut out: Vec<u8> = Vec::with_capacity(block + room);
    let mut i: usize = 0;
    while i < block
        invariant
            i <= block,
            key@.len() <= block,
            out@ == spec_hmac_key(key@, i as nat, pad),
        decreases block - i,
    {
        let b = if i < key.len() {
            key[i]
        } else {
            0
        };
        out.push(b ^ pad);
        i += 1;
        assert(out@ =~= spec_hmac_key(key@, i as nat, pad));
    }
    out
}

/// HMAC with SHA-256 or, if `wide`, with SHA-512, of the message made of
/// the three parts `lead`, `head` and `tail`.
fn hmac(wide: bool, key: &[u8], lead: &[u8], head: &[u8], tail: &[u8]) -> (out: Vec<u8>)
    requires
        key@.len() <= 64,
        lead@.len() <= 64,
    ensures
        out@ == if wide {
            spec_hmac_sha512(key@, lead@ + head@ + tail@)
        } else {
            spec_hmac_sha256(key@, lead@ + head@ + tail@)
        },
        out@.len() == if wide { 64int } else { 32int },
{
    let block: usize = if wide {
        128
    } else {
        64
    };
    let mut inner = hmac_key(key, block, 0x36, 64);
    append(&mut inner, lead);
    assert(inner@ + head@ + tail@ =~= spec_hmac_key(key@, block as nat, 0x36) + (lead@ + head@
        + tail@));
    let inner_hash = if wide {
        sha512_parts(inner.as_slice(), head, tail)
    } else {
        sha256_parts(inner.as_slice(), head, tail)
    };
    let mut outer = hmac_key(key, block, 0x5c, 64);
    append(&mut outer, inner_hash.as_slice());
    if wide {
        sha512(outer.as_slice())
    } else {
        sha256(outer.as_slice())
    }
}

/// MGF1 with SHA-256 or, if `wide`, with SHA-512: a mask of `out_len` bytes.
fn mgf1(wide: bool, seed: &[u8], out_len: usize) -> (out: Vec<u8>)
    requires
        spec_fits(seed@.len()),
        out_len <= 1024,
    ensures
        out@ == if wide {
            spec_mgf1_sha512(seed@, out_len as nat)
        } else {
            spec_mgf1_sha256(seed@, out_len as nat)
        },
        out@.len() == out_len,
{
    let hlen: usize = if wide {
        64
    } else {
        32
    };
    let count = (out_len + hlen - 1) / hlen;
    let ghost f = if wide {
        spec_mgf1_sha512_block(seed@)
    } else {
        spec_mgf1_sha256_block(seed@)
    };
    let mut out: Vec<u8> = Vec::with_capacity(count * hlen);
    let mut c: usize = 0;
    while c < count
        invariant
            c <= count <= 32,
            hlen == (if wide { 64int } else { 32int }),
            spec_fits(seed@.len()),
            f == (if wide {
                spec_mgf1_sha512_block(seed@)
            } else {
                spec_mgf1_sha256_block(seed@)
            }),
            out@ == concat_blocks(f, c as nat),
            out@.len() == c * hlen,
        decreases count - c,
    {
        let mut buf: Vec<u8> = Vec::with_capacity(seed.len() + 4);
        append(&mut buf, seed);
        append_be32(&mut buf, c as u32);
        let block = if wide {
            sha512(buf.as_slice())
        } else {
            sha256(buf.as_slice())
        };
        assert(block@ == f(c as int));
        append(&mut out, block.as_slice());
        c += 1;
    }
    out.truncate(out_len);
    out
}

/// PRF_msg: the randomizer of a signature.
pub fn prf_msg(p: &Params, sk_prf: &[u8], opt_rand: &[u8], msg: &[u8]) -> (out: Vec<u8>)
    requires
        p.wf(),
        sk_prf@.len() == p.n,
        opt_rand@.len() == p.n,
    ensures
        out@ == spec_prf_msg(*p, sk_prf@, opt_rand@, msg@),
        out@.len() == p.n,
{
    let empty: [u8; 0] = [];
    assert(msg@ + empty@ =~= msg@);
    prf_msg_parts(p, sk_prf, opt_rand, msg, empty.as_slice())
}

/// PRF_msg of the message made of `head` and `tail`, however long they
/// are.
pub fn prf_msg_parts(p: &Params, sk_prf: &[u8], opt_rand: &[u8], head: &[u8], tail: &[u8]) -> (out:
    Vec<u8>)
    requires
        p.wf(),
        sk_prf@.len() == p.n,
        opt_rand@.len() == p.n,
    ensures
        out@ == spec_prf_msg(*p, sk_prf@, opt_rand@, head@ + tail@),
        out@.len() == p.n,
{
    match p.family {
        HashFamily::Shake => {
            let mut lead: Vec<u8> = Vec::with_capacity(64);
            append(&mut lead, sk_prf);
            append(&mut lead, opt_rand);
            assert(lead@ + head@ + tail@ =~= sk_prf@ + opt_rand@ + (head@ + tail@));
            shake256_parts(lead.as_slice(), head, tail, p.n)
        },
        HashFamily::Sha2 => {
            assert(opt_rand@ + head@ + tail@ =~= opt_rand@ + (head@ + tail@));
            let mut out = hmac(p.n != 16, sk_prf, opt_rand, head, tail);
            out.truncate(p.n);
            out
        },
    }
}

/// H_msg: the digest of a message, `m` bytes.
pub fn h_msg(p: &Params, r: &[u8], pk_seed: &[u8], pk_root: &[u8], msg: &[u8]) -> (out: Vec<u8>)
    requires
        p.wf(),
        r@.len() == p.n,
        pk_seed@.len() == p.n,
        pk_root@.len() == p.n,
    ensures
        out@ == spec_h_msg(*p, r@, pk_seed@, pk_root@, msg@),
        out@.len() == p.m,
{
    let empty: [u8; 0] = [];
    assert(msg@ + empty@ =~= msg@);
    h_msg_parts(p, r, pk_seed, pk_root, msg, empty.as_slice())
}

/// H_msg of the message made of `head` and `tail`, however long they are.
pub fn h_msg_parts(
    p: &Params,
    r: &[u8],
    pk_seed: &[u8],
    pk_root: &[u8],
    head: &[u8],
    tail: &[u8],
) -> (out: Vec<u8>)
    requires
        p.wf(),
        r@.len() == p.n,
        pk_seed@.len() == p.n,
        pk_root@.len() == p.n,
    ensures
        out@ == spec_h_msg(*p, r@, pk_seed@, pk_root@, head@ + tail@),
        out@.len() == p.m,
{
    proof {
        p.lemma_sizes();
    }
    let mut lead: Vec<u8> = Vec::with_capacity(96);
    append(&mut lead, r);
    append(&mut lead, pk_seed);
    append(&mut lead, pk_root);
    assert(lead@ + head@ + tail@ =~= r@ + pk_seed@ + pk_root@ + (head@ + tail@));
    match p.family {
        HashFamily::Shake => shake256_parts(lead.as_slice(), head, tail, p.m),
        HashFamily::Sha2 => {
            let wide = p.n != 16;
            let inner = if wide {
                sha512_parts(lead.as_slice(), head, tail)
            } else {
                sha256_parts(lead.as_slice(), head, tail)
            };
            let mut seed: Vec<u8> = Vec::with_capacity(128);
            append(&mut seed, r);
            append(&mut seed, pk_seed);
            append(&mut seed, inner.as_slice());
            mgf1(wide, seed.as_slice(), p.m)
        },
    }
}

} // verus!
