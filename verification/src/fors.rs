//! The few-time signature: `k` trees of `2^a` secret values each, side by
//! side. The digest of the message picks one leaf in every tree; the
//! signature shows the secret value of that leaf and its authentication
//! path. The public key is the hash of the roots of the trees.
use vstd::prelude::*;
use crate::address::{Adrs, AdrsKind};
use crate::bytes::{
    append, bits_value, concat_blocks, lemma_block_bounds, lemma_bits_value_bound,
    lemma_concat_blocks_equal, lemma_concat_blocks_index, lemma_concat_blocks_len,
    lemma_pow2_add, lemma_pow2_monotonic, lemma_pow2_values, pow2_u64, spec_bits_value,
    spec_pow2,
};
use crate::hashes::{hash_f, hash_h, lemma_f_len, lemma_h_len, prf, spec_f, spec_h};
use crate::merkle::{
    auth_path, lemma_auth_path_len, lemma_index_at_tree, lemma_path_leads_to_node,
    lemma_root_from_path_len, root_from_path, spec_auth_path, spec_fors_secret, spec_node,
    spec_node_adrs, spec_root_from_path, TreeKind,
};
use crate::params::Params;

verus! {

/// The leaf that the digest picks in tree `i`, counted over all trees:
/// field `i` of `a` bits of `md`, in tree `i`.
pub open spec fn spec_fors_leaf(p: Params, md: Seq<u8>, i: int) -> nat {
    (i * spec_pow2(p.a as nat) + spec_bits_value(md, i * p.a, p.a as nat)) as nat
}

/// Part `i` of the signature: the secret value of the leaf picked in tree
/// `i` and the authentication path of that leaf.
pub open spec fn spec_fors_sig_elems(
    p: Params,
    pk_seed: Seq<u8>,
    sk_seed: Seq<u8>,
    tree: u64,
    keypair: u32,
    md: Seq<u8>,
) -> spec_fn(int) -> Seq<u8> {
    |i: int|
        spec_fors_secret(p, pk_seed, sk_seed, 0, tree, keypair, spec_fors_leaf(p, md, i))
            + spec_auth_path(
            p,
            pk_seed,
            sk_seed,
            0,
            tree,
            TreeKind::Fors { keypair },
            spec_fors_leaf(p, md, i),
            p.a as nat,
        )
}

/// The few-time signature of the digest `md` under key pair `keypair` of
/// tree `tree` of the bottom layer.
pub open spec fn spec_fors_sign(
    p: Params,
    pk_seed: Seq<u8>,
    sk_seed: Seq<u8>,
    tree: u64,
    keypair: u32,
    md: Seq<u8>,
) -> Seq<u8> {
    concat_blocks(spec_fors_sig_elems(p, pk_seed, sk_seed, tree, keypair, md), p.k as nat)
}

/// Bytes of one part of a signature: a secret value and a path.
pub open spec fn spec_fors_part_bytes(p: Params) -> nat {
    ((p.a + 1) * p.n) as nat
}

/// The root of tree `i` that part `i` of `sig` leads to.
pub open spec fn spec_fors_recovered_roots(
    p: Params,
    pk_seed: Seq<u8>,
    tree: u64,
    keypair: u32,
    sig: Seq<u8>,
    md: Seq<u8>,
) -> spec_fn(int) -> Seq<u8> {
    |i: int|
        {
            let part = sig.subrange(
                i * spec_fors_part_bytes(p),
                i * spec_fors_part_bytes(p) + spec_fors_part_bytes(p),
            );
            let kind = TreeKind::Fors { keypair };
            let leaf = spec_fors_leaf(p, md, i);
            spec_root_from_path(
                p,
                pk_seed,
                0,
                tree,
                kind,
                spec_f(
                    p,
                    pk_seed,
                    spec_node_adrs(0, tree, kind, 0, leaf),
                    part.subrange(0, p.n as int),
                ),
                leaf,
                part.subrange(p.n as int, spec_fors_part_bytes(p) as int),
                p.a as nat,
            )
        }
}

/// The public key that `sig` is a signature of the digest `md` under.
pub open spec fn spec_fors_pk_from_sig(
    p: Params,
    pk_seed: Seq<u8>,
    tree: u64,
    keypair: u32,
    sig: Seq<u8>,
    md: Seq<u8>,
) -> Seq<u8> {
    spec_h(
        p,
        pk_seed,
        Adrs { layer: 0, tree, kind: AdrsKind::ForsRoots { keypair } },
        concat_blocks(spec_fors_recovered_roots(p, pk_seed, tree, keypair, sig, md), p.k as nat),
    )
}

/// The roots of the `k` trees.
pub open spec fn spec_fors_roots(
    p: Params,
    pk_seed: Seq<u8>,
    sk_seed: Seq<u8>,
    tree: u64,
    keypair: u32,
) -> spec_fn(int) -> Seq<u8> {
    |i: int|
        spec_node(
            p,
            pk_seed,
            sk_seed,
            0,
            tree,
            TreeKind::Fors { keypair },
            i as nat,
            p.a as nat,
        )
}

/// The public key of the few-time signature under key pair `keypair`: the
/// hash of the roots of its trees.
pub open spec fn spec_fors_pk(
    p: Params,
    pk_seed: Seq<u8>,
    sk_seed: Seq<u8>,
    tree: u64,
    keypair: u32,
) -> Seq<u8> {
    spec_h(
        p,
        pk_seed,
        Adrs { layer: 0, tree, kind: AdrsKind::ForsRoots { keypair } },
        concat_blocks(spec_fors_roots(p, pk_seed, sk_seed, tree, keypair), p.k as nat),
    )
}

/// The leaf picked in tree `i` lies in tree `i`, and no leaf is beyond
/// `2^22`.
pub proof fn lemma_fors_leaf(p: Params, md: Seq<u8>, i: int)
    requires
        p.wf(),
        0 <= i < p.k,
    ensures
        i * spec_pow2(p.a as nat) <= spec_fors_leaf(p, md, i) < (i + 1) * spec_pow2(p.a as nat),
        spec_fors_leaf(p, md, i) < spec_pow2(22),
        0 <= i * p.a,
        i * p.a + p.a <= p.k * p.a,
        p.k * p.a <= 8 * p.spec_md_bytes(),
{
    let w = spec_pow2(p.a as nat);
    lemma_bits_value_bound(md, i * p.a, p.a as nat);
    lemma_pow2_monotonic(p.a as nat, 16);
    lemma_pow2_add(16, 6);
    lemma_pow2_values();
    reveal_with_fuel(spec_pow2, 7);
    assert(spec_pow2(6) == 64);
    assert(0 <= i * w && (i + 1) * w == i * w + w && (i + 1) * w <= 64 * w) by (nonlinear_arith)
        requires
            0 <= i < 64,
            w >= 1,
    ;
    lemma_block_bounds(i, p.k as int, p.a as int);
}

/// The parts of a signature have their length, and so has the signature.
pub proof fn lemma_fors_sign_len(
    p: Params,
    pk_seed: Seq<u8>,
    sk_seed: Seq<u8>,
    tree: u64,
    keypair: u32,
    md: Seq<u8>,
)
    requires
        p.wf(),
    ensures
        forall|i: int|
            0 <= i < p.k ==> (#[trigger] spec_fors_sig_elems(
                p,
                pk_seed,
                sk_seed,
                tree,
                keypair,
                md,
            )(i)).len() == spec_fors_part_bytes(p),
        spec_fors_sign(p, pk_seed, sk_seed, tree, keypair, md).len() == p.spec_fors_sig_bytes(),
{
    let elems = spec_fors_sig_elems(p, pk_seed, sk_seed, tree, keypair, md);
    let (a, n) = (p.a as int, p.n as int);
    assert((a + 1) * n == n + a * n) by (nonlinear_arith);
    assert forall|i: int| 0 <= i < p.k implies (#[trigger] elems(i)).len() == spec_fors_part_bytes(
        p,
    ) by {
        let leaf = spec_fors_leaf(p, md, i);
        lemma_f_len(
            p,
            pk_seed,
            Adrs { layer: 0, tree, kind: AdrsKind::ForsPrf { keypair, index: leaf as u32 } },
            sk_seed,
        );
        lemma_auth_path_len(
            p,
            pk_seed,
            sk_seed,
            0,
            tree,
            TreeKind::Fors { keypair },
            leaf,
            p.a as nat,
        );
    }
    lemma_concat_blocks_len(elems, p.k as nat, spec_fors_part_bytes(p));
}

/// What is recovered from a signature has `n` bytes.
pub proof fn lemma_fors_pk_from_sig_len(
    p: Params,
    pk_seed: Seq<u8>,
    tree: u64,
    keypair: u32,
    sig: Seq<u8>,
    md: Seq<u8>,
)
    requires
        p.wf(),
        sig.len() == p.spec_fors_sig_bytes(),
    ensures
        forall|i: int|
            0 <= i < p.k ==> (#[trigger] spec_fors_recovered_roots(
                p,
                pk_seed,
                tree,
                keypair,
                sig,
                md,
            )(i)).len() == p.n,
        spec_fors_pk_from_sig(p, pk_seed, tree, keypair, sig, md).len() == p.n,
{
    let roots = spec_fors_recovered_roots(p, pk_seed, tree, keypair, sig, md);
    let kind = TreeKind::Fors { keypair };
    assert forall|i: int| 0 <= i < p.k implies (#[trigger] roots(i)).len() == p.n by {
        let part = sig.subrange(
            i * spec_fors_part_bytes(p),
            i * spec_fors_part_bytes(p) + spec_fors_part_bytes(p),
        );
        let leaf = spec_fors_leaf(p, md, i);
        let at = spec_node_adrs(0, tree, kind, 0, leaf);
        lemma_f_len(p, pk_seed, at, part.subrange(0, p.n as int));
        lemma_root_from_path_len(
            p,
            pk_seed,
            0,
            tree,
            kind,
            spec_f(p, pk_seed, at, part.subrange(0, p.n as int)),
            leaf,
            part.subrange(p.n as int, spec_fors_part_bytes(p) as int),
            p.a as nat,
        );
    }
    lemma_h_len(
        p,
        pk_seed,
        Adrs { layer: 0, tree, kind: AdrsKind::ForsRoots { keypair } },
        concat_blocks(roots, p.k as nat),
    );
}

/// What is recovered from the signature of any digest is the public key
/// of the key pair that signed it.
pub proof fn lemma_fors_sign_then_recover(
    p: Params,
    pk_seed: Seq<u8>,
    sk_seed: Seq<u8>,
    tree: u64,
    keypair: u32,
    md: Seq<u8>,
)
    requires
        p.wf(),
    ensures
        spec_fors_pk_from_sig(
            p,
            pk_seed,
            tree,
            keypair,
            spec_fors_sign(p, pk_seed, sk_seed, tree, keypair, md),
            md,
        ) == spec_fors_pk(p, pk_seed, sk_seed, tree, keypair),
{
    let sig = spec_fors_sign(p, pk_seed, sk_seed, tree, keypair, md);
    let elems = spec_fors_sig_elems(p, pk_seed, sk_seed, tree, keypair, md);
    let recovered = spec_fors_recovered_roots(p, pk_seed, tree, keypair, sig, md);
    let roots = spec_fors_roots(p, pk_seed, sk_seed, tree, keypair);
    let kind = TreeKind::Fors { keypair };
    let part_bytes = spec_fors_part_bytes(p);
    let (a, n) = (p.a as int, p.n as int);
    assert((a + 1) * n == n + a * n) by (nonlinear_arith);
    lemma_fors_sign_len(p, pk_seed, sk_seed, tree, keypair, md);
    assert forall|i: int| 0 <= i < p.k implies #[trigger] recovered(i) == roots(i) by {
        let leaf = spec_fors_leaf(p, md, i);
        let secret = spec_fors_secret(p, pk_seed, sk_seed, 0, tree, keypair, leaf);
        let auth = spec_auth_path(p, pk_seed, sk_seed, 0, tree, kind, leaf, p.a as nat);
        lemma_concat_blocks_index(elems, p.k as nat, part_bytes, i);
        let part = sig.subrange(i * part_bytes, i * part_bytes + part_bytes);
        assert(part == elems(i));
        lemma_f_len(
            p,
            pk_seed,
            Adrs { layer: 0, tree, kind: AdrsKind::ForsPrf { keypair, index: leaf as u32 } },
            sk_seed,
        );
        lemma_auth_path_len(p, pk_seed, sk_seed, 0, tree, kind, leaf, p.a as nat);
        assert(part.subrange(0, p.n as int) =~= secret);
        assert(part.subrange(p.n as int, part_bytes as int) =~= auth);
        lemma_path_leads_to_node(
            p,
            pk_seed,
            sk_seed,
            0,
            tree,
            kind,
            leaf,
            p.a as nat,
            p.a as nat,
        );
        lemma_bits_value_bound(md, i * p.a, p.a as nat);
        lemma_index_at_tree(i as nat, spec_bits_value(md, i * p.a, p.a as nat), p.a as nat);
    }
    lemma_concat_blocks_equal(recovered, roots, p.k as nat);
}

/// The leaf that the digest picks in tree `i`, counted over all trees.
fn fors_leaf(p: &Params, md: &[u8], i: usize) -> (leaf: u32)
    requires
        p.wf(),
        md@.len() == p.spec_md_bytes(),
        i < p.k,
    ensures
        leaf == spec_fors_leaf(*p, md@, i as int),
        leaf < spec_pow2(22),
{
    proof {
        lemma_fors_leaf(*p, md@, i as int);
        lemma_pow2_monotonic(p.a as nat, 16);
        lemma_pow2_values();
        p.lemma_sizes();
    }
    let index = bits_value(md, i * p.a, p.a);
    let width = pow2_u64(p.a);
    assert(0 <= i * width <= 0x40_0000) by (nonlinear_arith)
        requires
            i * width <= i * width + index,
            i * width + index < 0x40_0000,
            i >= 0,
            width >= 0,
    ;
    (i as u64 * width + index as u64) as u32
}

/// The few-time signature of the digest `md` under key pair `keypair` of
/// tree `tree` of the bottom layer.
pub fn fors_sign(
    p: &Params,
    pk_seed: &[u8],
    sk_seed: &[u8],
    tree: u64,
    keypair: u32,
    md: &[u8],
) -> (sig: Vec<u8>)
    requires
        p.wf(),
        pk_seed@.len() == p.n,
        sk_seed@.len() == p.n,
        md@.len() == p.spec_md_bytes(),
    ensures
        sig@ == spec_fors_sign(*p, pk_seed@, sk_seed@, tree, keypair, md@),
        sig@.len() == p.spec_fors_sig_bytes(),
{
    let kind = TreeKind::Fors { keypair };
    let ghost elems = spec_fors_sig_elems(*p, pk_seed@, sk_seed@, tree, keypair, md@);
    let mut sig: Vec<u8> = Vec::with_capacity(p.fors_sig_bytes());
    let mut i: usize = 0;
    while i < p.k
        invariant
            i <= p.k,
            p.wf(),
            pk_seed@.len() == p.n,
            sk_seed@.len() == p.n,
            md@.len() == p.spec_md_bytes(),
            kind == (TreeKind::Fors { keypair }),
            elems == spec_fors_sig_elems(*p, pk_seed@, sk_seed@, tree, keypair, md@),
            sig@ == concat_blocks(elems, i as nat),
        decreases p.k - i,
    {
        let leaf = fors_leaf(p, md, i);
        let mut part = prf(
            p,
            pk_seed,
            sk_seed,
            &Adrs { layer: 0, tree, kind: AdrsKind::ForsPrf { keypair, index: leaf } },
        );
        let auth = auth_path(p, pk_seed, sk_seed, 0, tree, kind, leaf, p.a as u32);
        append(&mut part, auth.as_slice());
        assert(part@ == elems(i as int));
        append(&mut sig, part.as_slice());
        i += 1;
    }
    proof {
        lemma_fors_sign_len(*p, pk_seed@, sk_seed@, tree, keypair, md@);
    }
    sig
}

/// The public key that `sig` is a signature of the digest `md` under.
pub fn fors_pk_from_sig(
    p: &Params,
    pk_seed: &[u8],
    tree: u64,
    keypair: u32,
    sig: &[u8],
    md: &[u8],
) -> (pk: Vec<u8>)
    requires
        p.wf(),
        pk_seed@.len() == p.n,
        sig@.len() == p.spec_fors_sig_bytes(),
        md@.len() == p.spec_md_bytes(),
    ensures
        pk@ == spec_fors_pk_from_sig(*p, pk_seed@, tree, keypair, sig@, md@),
        pk@.len() == p.n,
{
    let kind = TreeKind::Fors { keypair };
    let n = p.n;
    proof {
        p.lemma_sizes();
    }
    let part_bytes = (p.a + 1) * n;
    assert(sig@.len() == p.k * part_bytes);
    let ghost recovered = spec_fors_recovered_roots(*p, pk_seed@, tree, keypair, sig@, md@);
    let mut roots: Vec<u8> = Vec::with_capacity(p.k * n);
    let mut i: usize = 0;
    let mut off: usize = 0;
    while i < p.k
        invariant
            i <= p.k,
            n == p.n,
            part_bytes == spec_fors_part_bytes(*p),
            part_bytes == n + p.a * n,
            off == i * part_bytes,
            sig@.len() == p.k * part_bytes,
            p.wf(),
            pk_seed@.len() == p.n,
            sig@.len() == p.spec_fors_sig_bytes(),
            md@.len() == p.spec_md_bytes(),
            kind == (TreeKind::Fors { keypair }),
            recovered == spec_fors_recovered_roots(*p, pk_seed@, tree, keypair, sig@, md@),
            roots@ == concat_blocks(recovered, i as nat),
        decreases p.k - i,
    {
        proof {
            lemma_block_bounds(i as int, p.k as int, part_bytes as int);
            p.lemma_sizes();
        }
        let leaf = fors_leaf(p, md, i);
        let part = vstd::slice::slice_subrange(sig, off, off + part_bytes);
        let secret = vstd::slice::slice_subrange(part, 0, n);
        let auth = vstd::slice::slice_subrange(part, n, part_bytes);
        let leaf_value = hash_f(
            p,
            pk_seed,
            &Adrs { layer: 0, tree, kind: AdrsKind::ForsTree { keypair, height: 0, index: leaf } },
            secret,
        );
        let root = root_from_path(
            p,
            pk_seed,
            0,
            tree,
            kind,
            leaf_value.as_slice(),
            leaf,
            auth,
            p.a as u32,
        );
        assert(root@ == recovered(i as int));
        append(&mut roots, root.as_slice());
        i += 1;
        off += part_bytes;
    }
    proof {
        lemma_fors_pk_from_sig_len(*p, pk_seed@, tree, keypair, sig@, md@);
        lemma_concat_blocks_len(recovered, p.k as nat, p.n as nat);
    }
    hash_h(
        p,
        pk_seed,
        &Adrs { layer: 0, tree, kind: AdrsKind::ForsRoots { keypair } },
        roots.as_slice(),
    )
}

} // verus!
