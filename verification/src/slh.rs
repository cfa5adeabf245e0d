//! The signature scheme: key generation, signing and verification over
//! byte strings.
//!
//! A secret key is the secret seed, the key of the randomizer, the public
//! seed and the root of the hypertree, `n` bytes each; a public key is the
//! public seed and the root. A signature is the randomizer, the few-time
//! signature of the digest and the hypertree signature of the few-time
//! public key.
use vstd::prelude::*;
use crate::bytes::{
    append, be_to_u64, lemma_four_parts, lemma_pow2_monotonic, lemma_pow2_values,
    lemma_three_parts, lemma_to_int_bound, pow2_u64, spec_pow2, spec_to_int,
};
use crate::fors::{
    fors_pk_from_sig, fors_sign, lemma_fors_sign_len,
    lemma_fors_sign_then_recover, spec_fors_pk, spec_fors_pk_from_sig, spec_fors_sign,
};
use crate::hashes::{
    h_msg_parts, lemma_h_msg_len, lemma_prf_msg_len, prf_msg_parts, spec_h_msg, spec_prf_msg,
};
use crate::hypertree::{
    ht_root, ht_sign, ht_verify, lemma_ht_sign_len, lemma_ht_verify_after_sign, spec_ht_root,
    spec_ht_sign, spec_ht_verify,
};
use crate::params::Params;
use crate::xmss::lemma_xmss_len;

verus! {

/// The part of a digest that picks the leaves of the few-time signature.
pub open spec fn spec_md(p: Params, digest: Seq<u8>) -> Seq<u8> {
    digest.subrange(0, p.spec_md_bytes() as int)
}

/// The tree of the bottom layer that a digest picks: the lowest `h - hp`
/// bits of its second part.
pub open spec fn spec_idx_tree(p: Params, digest: Seq<u8>) -> u64 {
    (spec_to_int(
        digest.subrange(
            p.spec_md_bytes() as int,
            (p.spec_md_bytes() + p.spec_tree_bytes()) as int,
        ),
    ) % spec_pow2((p.h - p.hp) as nat)) as u64
}

/// The key pair of that tree that a digest picks: the lowest `hp` bits of
/// its third part.
pub open spec fn spec_idx_leaf(p: Params, digest: Seq<u8>) -> u32 {
    (spec_to_int(
        digest.subrange((p.spec_md_bytes() + p.spec_tree_bytes()) as int, p.m as int),
    ) % spec_pow2(p.hp as nat)) as u32
}

/// The secret key made of three seeds.
pub open spec fn spec_keygen_sk(
    p: Params,
    sk_seed: Seq<u8>,
    sk_prf: Seq<u8>,
    pk_seed: Seq<u8>,
) -> Seq<u8> {
    sk_seed + sk_prf + pk_seed + spec_ht_root(p, pk_seed, sk_seed)
}

/// The public key that belongs to it.
pub open spec fn spec_keygen_pk(p: Params, sk_seed: Seq<u8>, pk_seed: Seq<u8>) -> Seq<u8> {
    pk_seed + spec_ht_root(p, pk_seed, sk_seed)
}

/// The public key that a secret key holds: its second half.
pub open spec fn spec_public_part(p: Params, sk: Seq<u8>) -> Seq<u8> {
    sk.subrange(2 * p.n, 4 * p.n)
}

/// The signature of the message `msg` as it stands, with `opt_rand` for
/// the randomizer.
pub open spec fn spec_sign_internal(p: Params, sk: Seq<u8>, msg: Seq<u8>, opt_rand: Seq<u8>) -> Seq<
    u8,
> {
    let sk_seed = sk.subrange(0, p.n as int);
    let sk_prf = sk.subrange(p.n as int, 2 * p.n);
    let pk_seed = sk.subrange(2 * p.n, 3 * p.n);
    let pk_root = sk.subrange(3 * p.n, 4 * p.n);
    let r = spec_prf_msg(p, sk_prf, opt_rand, msg);
    let digest = spec_h_msg(p, r, pk_seed, pk_root, msg);
    let idx_tree = spec_idx_tree(p, digest);
    let idx_leaf = spec_idx_leaf(p, digest);
    r + spec_fors_sign(p, pk_seed, sk_seed, idx_tree, idx_leaf, spec_md(p, digest)) + spec_ht_sign(
        p,
        pk_seed,
        sk_seed,
        spec_fors_pk(p, pk_seed, sk_seed, idx_tree, idx_leaf),
        idx_tree,
        idx_leaf,
    )
}

/// Whether `sig` is a signature of the message `msg` as it stands under
/// the public key `pk`: it has the length of a signature, and it leads
/// from the digest of the message to the root that the key holds.
pub open spec fn spec_verify_internal(p: Params, pk: Seq<u8>, msg: Seq<u8>, sig: Seq<u8>) -> bool {
    let pk_seed = pk.subrange(0, p.n as int);
    let pk_root = pk.subrange(p.n as int, 2 * p.n);
    let r = sig.subrange(0, p.n as int);
    let fors_sig = sig.subrange(p.n as int, p.n + p.spec_fors_sig_bytes());
    let ht_sig = sig.subrange(p.n + p.spec_fors_sig_bytes(), p.spec_sig_bytes() as int);
    let digest = spec_h_msg(p, r, pk_seed, pk_root, msg);
    let idx_tree = spec_idx_tree(p, digest);
    let idx_leaf = spec_idx_leaf(p, digest);
    &&& sig.len() == p.spec_sig_bytes()
    &&& spec_ht_verify(
        p,
        pk_seed,
        spec_fors_pk_from_sig(p, pk_seed, idx_tree, idx_leaf, fors_sig, spec_md(p, digest)),
        ht_sig,
        idx_tree,
        idx_leaf,
        pk_root,
    )
}

/// The message as it is hashed: a zero byte, the length of the context,
/// the context, and the message.
pub open spec fn spec_frame(ctx: Seq<u8>, msg: Seq<u8>) -> Seq<u8> {
    seq![0u8, ctx.len() as u8] + ctx + msg
}

/// The signature of `msg` in the context `ctx`, of at most 255 bytes,
/// with `opt_rand` for the randomizer.
pub open spec fn spec_sign_with(
    p: Params,
    sk: Seq<u8>,
    msg: Seq<u8>,
    ctx: Seq<u8>,
    opt_rand: Seq<u8>,
) -> Seq<u8> {
    spec_sign_internal(p, sk, spec_frame(ctx, msg), opt_rand)
}

/// The signature of `msg` in the context `ctx` that depends on nothing
/// but the key, the message and the context: the public seed stands in
/// for the random value.
pub open spec fn spec_sign(p: Params, sk: Seq<u8>, msg: Seq<u8>, ctx: Seq<u8>) -> Seq<u8> {
    spec_sign_with(p, sk, msg, ctx, sk.subrange(2 * p.n, 3 * p.n))
}

/// Whether `sig` is a signature of `msg` in the context `ctx` under `pk`.
pub open spec fn spec_verify(
    p: Params,
    pk: Seq<u8>,
    msg: Seq<u8>,
    ctx: Seq<u8>,
    sig: Seq<u8>,
) -> bool {
    ctx.len() <= 255 && spec_verify_internal(p, pk, spec_frame(ctx, msg), sig)
}

/// Keys have their lengths: four and two times `n` bytes.
pub proof fn lemma_key_len(p: Params, sk_seed: Seq<u8>, sk_prf: Seq<u8>, pk_seed: Seq<u8>)
    requires
        p.wf(),
        sk_seed.len() == p.n,
        sk_prf.len() == p.n,
        pk_seed.len() == p.n,
    ensures
        spec_keygen_sk(p, sk_seed, sk_prf, pk_seed).len() == p.spec_sk_bytes(),
        spec_keygen_pk(p, sk_seed, pk_seed).len() == p.spec_pk_bytes(),
        spec_public_part(p, spec_keygen_sk(p, sk_seed, sk_prf, pk_seed)) == spec_keygen_pk(
            p,
            sk_seed,
            pk_seed,
        ),
{
    lemma_xmss_len(p, pk_seed, sk_seed, (p.d - 1) as u32, 0, 0, Seq::empty());
    assert(spec_public_part(p, spec_keygen_sk(p, sk_seed, sk_prf, pk_seed)) =~= spec_keygen_pk(
        p,
        sk_seed,
        pk_seed,
    ));
}

/// The tree and the key pair that a digest picks exist.
pub proof fn lemma_idx_bounds(p: Params, digest: Seq<u8>)
    requires
        p.wf(),
        digest.len() == p.m,
    ensures
        spec_idx_tree(p, digest) < spec_pow2((p.h - p.hp) as nat),
        spec_idx_leaf(p, digest) < spec_pow2(p.hp as nat),
{
    p.lemma_sizes();
    lemma_pow2_monotonic(0, (p.h - p.hp) as nat);
    lemma_pow2_monotonic((p.h - p.hp) as nat, 64);
    lemma_pow2_monotonic(0, p.hp as nat);
    lemma_pow2_monotonic(p.hp as nat, 16);
    lemma_pow2_values();
    let tree_part = spec_to_int(
        digest.subrange(
            p.spec_md_bytes() as int,
            (p.spec_md_bytes() + p.spec_tree_bytes()) as int,
        ),
    );
    let leaf_part = spec_to_int(
        digest.subrange((p.spec_md_bytes() + p.spec_tree_bytes()) as int, p.m as int),
    );
    let (wt, wl) = (spec_pow2((p.h - p.hp) as nat), spec_pow2(p.hp as nat));
    assert(tree_part % wt < wt) by (nonlinear_arith)
        requires
            wt >= 1,
    ;
    assert(leaf_part % wl < wl) by (nonlinear_arith)
        requires
            wl >= 1,
    ;
}

/// Every signature has the length that the parameter set fixes.
pub proof fn lemma_sign_len(p: Params, sk: Seq<u8>, msg: Seq<u8>, opt_rand: Seq<u8>)
    requires
        p.wf(),
    ensures
        spec_sign_internal(p, sk, msg, opt_rand).len() == p.spec_sig_bytes(),
{
    let sk_seed = sk.subrange(0, p.n as int);
    let sk_prf = sk.subrange(p.n as int, 2 * p.n);
    let pk_seed = sk.subrange(2 * p.n, 3 * p.n);
    let pk_root = sk.subrange(3 * p.n, 4 * p.n);
    let r = spec_prf_msg(p, sk_prf, opt_rand, msg);
    let digest = spec_h_msg(p, r, pk_seed, pk_root, msg);
    let idx_tree = spec_idx_tree(p, digest);
    let idx_leaf = spec_idx_leaf(p, digest);
    lemma_prf_msg_len(p, sk_prf, opt_rand, msg);
    lemma_fors_sign_len(p, pk_seed, sk_seed, idx_tree, idx_leaf, spec_md(p, digest));
    lemma_ht_sign_len(
        p,
        pk_seed,
        sk_seed,
        spec_fors_pk(p, pk_seed, sk_seed, idx_tree, idx_leaf),
        idx_tree,
        idx_leaf,
    );
}

/// The four parts of a secret key and the two parts of the public key
/// that belongs to it.
pub proof fn lemma_key_parts(p: Params, sk_seed: Seq<u8>, sk_prf: Seq<u8>, pk_seed: Seq<u8>)
    requires
        p.wf(),
        sk_seed.len() == p.n,
        sk_prf.len() == p.n,
        pk_seed.len() == p.n,
    ensures
        spec_keygen_sk(p, sk_seed, sk_prf, pk_seed).subrange(0, p.n as int) == sk_seed,
        spec_keygen_sk(p, sk_seed, sk_prf, pk_seed).subrange(p.n as int, 2 * p.n) == sk_prf,
        spec_keygen_sk(p, sk_seed, sk_prf, pk_seed).subrange(2 * p.n, 3 * p.n) == pk_seed,
        spec_keygen_sk(p, sk_seed, sk_prf, pk_seed).subrange(3 * p.n, 4 * p.n) == spec_ht_root(
            p,
            pk_seed,
            sk_seed,
        ),
        spec_keygen_pk(p, sk_seed, pk_seed).subrange(0, p.n as int) == pk_seed,
        spec_keygen_pk(p, sk_seed, pk_seed).subrange(p.n as int, 2 * p.n) == spec_ht_root(
            p,
            pk_seed,
            sk_seed,
        ),
{
    let root = spec_ht_root(p, pk_seed, sk_seed);
    lemma_xmss_len(p, pk_seed, sk_seed, (p.d - 1) as u32, 0, 0, Seq::empty());
    lemma_four_parts(sk_seed, sk_prf, pk_seed, root);
    let pk = spec_keygen_pk(p, sk_seed, pk_seed);
    assert(pk.subrange(0, p.n as int) =~= pk_seed);
    assert(pk.subrange(p.n as int, 2 * p.n) =~= root);
}

/// A signature made of its three parts is a signature under the public
/// key `pk_seed` and `pk_root` as soon as its hypertree signature leads
/// from the few-time public key that its few-time signature leads to to
/// `pk_root`.
pub proof fn lemma_verify_parts(
    p: Params,
    pk_seed: Seq<u8>,
    pk_root: Seq<u8>,
    msg: Seq<u8>,
    r: Seq<u8>,
    fors_sig: Seq<u8>,
    ht_sig: Seq<u8>,
)
    requires
        p.wf(),
        pk_seed.len() == p.n,
        pk_root.len() == p.n,
        r.len() == p.n,
        fors_sig.len() == p.spec_fors_sig_bytes(),
        ht_sig.len() == p.spec_ht_sig_bytes(),
        ({
            let digest = spec_h_msg(p, r, pk_seed, pk_root, msg);
            spec_ht_verify(
                p,
                pk_seed,
                spec_fors_pk_from_sig(
                    p,
                    pk_seed,
                    spec_idx_tree(p, digest),
                    spec_idx_leaf(p, digest),
                    fors_sig,
                    spec_md(p, digest),
                ),
                ht_sig,
                spec_idx_tree(p, digest),
                spec_idx_leaf(p, digest),
                pk_root,
            )
        }),
    ensures
        spec_verify_internal(p, pk_seed + pk_root, msg, r + fors_sig + ht_sig),
{
    let pk = pk_seed + pk_root;
    assert(pk.subrange(0, p.n as int) =~= pk_seed);
    assert(pk.subrange(p.n as int, 2 * p.n) =~= pk_root);
    lemma_three_parts(r, fors_sig, ht_sig);
}

/// A signature made with the secret key that belongs to a public key is,
/// whatever the random value was, a signature of the message it was made
/// of under that public key.
pub proof fn lemma_sign_then_verify_internal(
    p: Params,
    sk_seed: Seq<u8>,
    sk_prf: Seq<u8>,
    pk_seed: Seq<u8>,
    msg: Seq<u8>,
    opt_rand: Seq<u8>,
)
    requires
        p.wf(),
        sk_seed.len() == p.n,
        sk_prf.len() == p.n,
        pk_seed.len() == p.n,
    ensures
        spec_verify_internal(
            p,
            spec_keygen_pk(p, sk_seed, pk_seed),
            msg,
            spec_sign_internal(p, spec_keygen_sk(p, sk_seed, sk_prf, pk_seed), msg, opt_rand),
        ),
{
    let root = spec_ht_root(p, pk_seed, sk_seed);
    lemma_key_parts(p, sk_seed, sk_prf, pk_seed);
    lemma_xmss_len(p, pk_seed, sk_seed, (p.d - 1) as u32, 0, 0, Seq::empty());
    let r = spec_prf_msg(p, sk_prf, opt_rand, msg);
    let digest = spec_h_msg(p, r, pk_seed, root, msg);
    let idx_tree = spec_idx_tree(p, digest);
    let idx_leaf = spec_idx_leaf(p, digest);
    let md = spec_md(p, digest);
    let fors_sig = spec_fors_sign(p, pk_seed, sk_seed, idx_tree, idx_leaf, md);
    let fors_pk = spec_fors_pk(p, pk_seed, sk_seed, idx_tree, idx_leaf);
    let ht_sig = spec_ht_sign(p, pk_seed, sk_seed, fors_pk, idx_tree, idx_leaf);
    lemma_prf_msg_len(p, sk_prf, opt_rand, msg);
    lemma_h_msg_len(p, r, pk_seed, root, msg);
    lemma_fors_sign_len(p, pk_seed, sk_seed, idx_tree, idx_leaf, md);
    lemma_ht_sign_len(p, pk_seed, sk_seed, fors_pk, idx_tree, idx_leaf);
    lemma_fors_sign_then_recover(p, pk_seed, sk_seed, idx_tree, idx_leaf, md);
    lemma_idx_bounds(p, digest);
    lemma_ht_verify_after_sign(p, pk_seed, sk_seed, fors_pk, idx_tree, idx_leaf);
    lemma_verify_parts(p, pk_seed, root, msg, r, fors_sig, ht_sig);
}

/// A signature of a message in a context, made with the secret key of a
/// key pair with or without a random value, is a signature of that
/// message in that context under the public key of the pair.
pub proof fn lemma_sign_then_verify(
    p: Params,
    sk_seed: Seq<u8>,
    sk_prf: Seq<u8>,
    pk_seed: Seq<u8>,
    msg: Seq<u8>,
    ctx: Seq<u8>,
    addrnd: Seq<u8>,
)
    requires
        p.wf(),
        sk_seed.len() == p.n,
        sk_prf.len() == p.n,
        pk_seed.len() == p.n,
        ctx.len() <= 255,
    ensures
        spec_verify(
            p,
            spec_keygen_pk(p, sk_seed, pk_seed),
            msg,
            ctx,
            spec_sign(p, spec_keygen_sk(p, sk_seed, sk_prf, pk_seed), msg, ctx),
        ),
        spec_verify(
            p,
            spec_keygen_pk(p, sk_seed, pk_seed),
            msg,
            ctx,
            spec_sign_with(p, spec_keygen_sk(p, sk_seed, sk_prf, pk_seed), msg, ctx, addrnd),
        ),
{
    let sk = spec_keygen_sk(p, sk_seed, sk_prf, pk_seed);
    lemma_sign_then_verify_internal(
        p,
        sk_seed,
        sk_prf,
        pk_seed,
        spec_frame(ctx, msg),
        sk.subrange(2 * p.n, 3 * p.n),
    );
    lemma_sign_then_verify_internal(p, sk_seed, sk_prf, pk_seed, spec_frame(ctx, msg), addrnd);
}

/// Different contexts or different messages are hashed as different
/// strings.
pub proof fn lemma_frame_injective(ctx1: Seq<u8>, msg1: Seq<u8>, ctx2: Seq<u8>, msg2: Seq<u8>)
    requires
        ctx1.len() <= 255,
        ctx2.len() <= 255,
        spec_frame(ctx1, msg1) == spec_frame(ctx2, msg2),
    ensures
        ctx1 == ctx2,
        msg1 == msg2,
{
    let (f1, f2) = (spec_frame(ctx1, msg1), spec_frame(ctx2, msg2));
    assert(f1[1] == f2[1]);
    assert(ctx1 =~= f1.subrange(2, 2 + ctx1.len() as int));
    assert(ctx2 =~= f2.subrange(2, 2 + ctx2.len() as int));
    assert(msg1 =~= f1.subrange(2 + ctx1.len() as int, f1.len() as int));
    assert(msg2 =~= f2.subrange(2 + ctx2.len() as int, f2.len() as int));
}

/// The tree and the key pair that `digest` picks.
pub fn digest_indices(p: &Params, digest: &[u8]) -> (idx: (u64, u32))
    requires
        p.wf(),
        digest@.len() == p.m,
    ensures
        idx.0 == spec_idx_tree(*p, digest@),
        idx.1 == spec_idx_leaf(*p, digest@),
        idx.0 < spec_pow2((p.h - p.hp) as nat),
        idx.1 < spec_pow2(p.hp as nat),
{
    proof {
        p.lemma_sizes();
        lemma_idx_bounds(*p, digest@);
        lemma_pow2_monotonic(0, p.hp as nat);
        lemma_pow2_monotonic(p.hp as nat, 16);
        lemma_pow2_values();
    }
    let md_bytes = p.md_bytes();
    let tree_bytes = p.tree_bytes();
    let tree_part = be_to_u64(vstd::slice::slice_subrange(digest, md_bytes, md_bytes + tree_bytes));
    let leaf_part = be_to_u64(vstd::slice::slice_subrange(digest, md_bytes + tree_bytes, p.m));
    let tree_bits = p.h - p.hp;
    let idx_tree = if tree_bits < 64 {
        tree_part % pow2_u64(tree_bits)
    } else {
        proof {
            lemma_to_int_bound(
                digest@.subrange(md_bytes as int, md_bytes + tree_bytes),
            );
            lemma_pow2_monotonic(8 * tree_bytes as nat, 64);
            let w = spec_pow2(64);
            assert(tree_part as nat % w == tree_part) by (nonlinear_arith)
                requires
                    0 <= tree_part < w,
            ;
        }
        tree_part
    };
    let idx_leaf = (leaf_part % pow2_u64(p.hp)) as u32;
    (idx_tree, idx_leaf)
}

/// The key pair made of three seeds of `n` bytes: the secret key and the
/// public key.
pub fn slh_keygen_internal(p: &Params, sk_seed: &[u8], sk_prf: &[u8], pk_seed: &[u8]) -> (keys: (
    Vec<u8>,
    Vec<u8>,
))
    requires
        p.wf(),
        sk_seed@.len() == p.n,
        sk_prf@.len() == p.n,
        pk_seed@.len() == p.n,
    ensures
        keys.0@ == spec_keygen_sk(*p, sk_seed@, sk_prf@, pk_seed@),
        keys.1@ == spec_keygen_pk(*p, sk_seed@, pk_seed@),
        keys.0@.len() == p.spec_sk_bytes(),
        keys.1@.len() == p.spec_pk_bytes(),
{
    let root = ht_root(p, pk_seed, sk_seed);
    let mut sk: Vec<u8> = Vec::with_capacity(4 * p.n);
    append(&mut sk, sk_seed);
    append(&mut sk, sk_prf);
    append(&mut sk, pk_seed);
    append(&mut sk, root.as_slice());
    let mut pk: Vec<u8> = Vec::with_capacity(2 * p.n);
    append(&mut pk, pk_seed);
    append(&mut pk, root.as_slice());
    (sk, pk)
}

/// The signature of the message made of `head` and `tail`, with
/// `opt_rand` for the randomizer.
fn sign_parts(p: &Params, sk: &[u8], head: &[u8], tail: &[u8], opt_rand: &[u8]) -> (sig: Vec<u8>)
    requires
        p.wf(),
        sk@.len() == p.spec_sk_bytes(),
        opt_rand@.len() == p.n,
    ensures
        sig@ == spec_sign_internal(*p, sk@, head@ + tail@, opt_rand@),
        sig@.len() == p.spec_sig_bytes(),
{
    let n = p.n;
    let sk_seed = vstd::slice::slice_subrange(sk, 0, n);
    let sk_prf = vstd::slice::slice_subrange(sk, n, 2 * n);
    let pk_seed = vstd::slice::slice_subrange(sk, 2 * n, 3 * n);
    let pk_root = vstd::slice::slice_subrange(sk, 3 * n, 4 * n);
    let mut sig = prf_msg_parts(p, sk_prf, opt_rand, head, tail);
    let digest = h_msg_parts(p, sig.as_slice(), pk_seed, pk_root, head, tail);
    let (idx_tree, idx_leaf) = digest_indices(p, digest.as_slice());
    proof {
        p.lemma_sizes();
    }
    let md = vstd::slice::slice_subrange(digest.as_slice(), 0, p.md_bytes());
    let fors_sig = fors_sign(p, pk_seed, sk_seed, idx_tree, idx_leaf, md);
    let fors_pk = fors_pk_from_sig(p, pk_seed, idx_tree, idx_leaf, fors_sig.as_slice(), md);
    proof {
        lemma_fors_sign_then_recover(*p, pk_seed@, sk_seed@, idx_tree, idx_leaf, md@);
    }
    let ht_sig = ht_sign(p, pk_seed, sk_seed, fors_pk.as_slice(), idx_tree, idx_leaf);
    append(&mut sig, fors_sig.as_slice());
    append(&mut sig, ht_sig.as_slice());
    sig
}

/// Whether `sig` is a signature of the message made of `head` and `tail`
/// under the public key `pk`.
fn verify_parts(p: &Params, pk: &[u8], head: &[u8], tail: &[u8], sig: &[u8]) -> (ok: bool)
    requires
        p.wf(),
        pk@.len() == p.spec_pk_bytes(),
    ensures
        ok == spec_verify_internal(*p, pk@, head@ + tail@, sig@),
{
    proof {
        p.lemma_sizes();
    }
    if sig.len() != p.sig_bytes() {
        return false;
    }
    let n = p.n;
    let fors_end = n + p.fors_sig_bytes();
    let pk_seed = vstd::slice::slice_subrange(pk, 0, n);
    let pk_root = vstd::slice::slice_subrange(pk, n, 2 * n);
    let r = vstd::slice::slice_subrange(sig, 0, n);
    let fors_sig = vstd::slice::slice_subrange(sig, n, fors_end);
    let ht_sig = vstd::slice::slice_subrange(sig, fors_end, sig.len());
    let digest = h_msg_parts(p, r, pk_seed, pk_root, head, tail);
    let (idx_tree, idx_leaf) = digest_indices(p, digest.as_slice());
    let md = vstd::slice::slice_subrange(digest.as_slice(), 0, p.md_bytes());
    let fors_pk = fors_pk_from_sig(p, pk_seed, idx_tree, idx_leaf, fors_sig, md);
    ht_verify(p, pk_seed, fors_pk.as_slice(), ht_sig, idx_tree, idx_leaf, pk_root)
}

/// The signature of the message `msg` as it stands, with `opt_rand` for
/// the randomizer.
pub fn slh_sign_internal(p: &Params, sk: &[u8], msg: &[u8], opt_rand: &[u8]) -> (sig: Vec<u8>)
    requires
        p.wf(),
        sk@.len() == p.spec_sk_bytes(),
        opt_rand@.len() == p.n,
    ensures
        sig@ == spec_sign_internal(*p, sk@, msg@, opt_rand@),
        sig@.len() == p.spec_sig_bytes(),
{
    let empty: [u8; 0] = [];
    assert(msg@ + empty@ =~= msg@);
    sign_parts(p, sk, msg, empty.as_slice(), opt_rand)
}

/// Whether `sig` is a signature of the message `msg` as it stands under
/// the public key `pk`.
pub fn slh_verify_internal(p: &Params, pk: &[u8], msg: &[u8], sig: &[u8]) -> (ok: bool)
    requires
        p.wf(),
        pk@.len() == p.spec_pk_bytes(),
    ensures
        ok == spec_verify_internal(*p, pk@, msg@, sig@),
{
    let empty: [u8; 0] = [];
    assert(msg@ + empty@ =~= msg@);
    verify_parts(p, pk, msg, empty.as_slice(), sig)
}

/// What is put before a message in the context `ctx`: a zero byte, the
/// length of the context, and the context.
fn frame_head(ctx: &[u8]) -> (head: Vec<u8>)
    requires
        ctx@.len() <= 255,
    ensures
        head@ == seq![0u8, ctx@.len() as u8] + ctx@,
{
    let mut head: Vec<u8> = Vec::with_capacity(ctx.len() + 2);
    head.push(0);
    head.push(ctx.len() as u8);
    append(&mut head, ctx);
    assert(head@ =~= seq![0u8, ctx@.len() as u8] + ctx@);
    head
}

/// The message as it is hashed.
pub fn frame(ctx: &[u8], msg: &[u8]) -> (framed: Vec<u8>)
    requires
        ctx@.len() <= 255,
    ensures
        framed@ == spec_frame(ctx@, msg@),
{
    let mut framed = frame_head(ctx);
    append(&mut framed, msg);
    framed
}

/// The signature of `msg` in the context `ctx`, with `opt_rand` for the
/// randomizer; none where the context is longer than 255 bytes.
pub fn slh_sign(p: &Params, sk: &[u8], msg: &[u8], ctx: &[u8], opt_rand: &[u8]) -> (sig: Option<
    Vec<u8>,
>)
    requires
        p.wf(),
        sk@.len() == p.spec_sk_bytes(),
        opt_rand@.len() == p.n,
    ensures
        sig.is_some() <==> ctx@.len() <= 255,
        sig.is_some() ==> sig.unwrap()@ == spec_sign_with(*p, sk@, msg@, ctx@, opt_rand@),
        sig.is_some() ==> sig.unwrap()@.len() == p.spec_sig_bytes(),
{
    if ctx.len() > 255 {
        return None;
    }
    let head = frame_head(ctx);
    Some(sign_parts(p, sk, head.as_slice(), msg, opt_rand))
}

/// Whether `sig` is a signature of `msg` in the context `ctx` under `pk`.
pub fn slh_verify(p: &Params, pk: &[u8], msg: &[u8], ctx: &[u8], sig: &[u8]) -> (ok: bool)
    requires
        p.wf(),
        pk@.len() == p.spec_pk_bytes(),
    ensures
        ok == spec_verify(*p, pk@, msg@, ctx@, sig@),
{
    if ctx.len() > 255 {
        return false;
    }
    let head = frame_head(ctx);
    verify_parts(p, pk, head.as_slice(), msg, sig)
}

} // verus!
