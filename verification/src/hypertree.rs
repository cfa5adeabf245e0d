//! The hypertree: `d` layers of trees of one-time keys. A key pair of the
//! bottom layer signs the message; in every layer above, a key pair signs
//! the root of the tree below. The root of the one tree of the top layer
//! is the public key.
use vstd::prelude::*;
use crate::bytes::{
    append, bytes_eq, concat_blocks, lemma_block_bounds, lemma_concat_blocks_index,
    lemma_concat_blocks_len, lemma_pow2_add, lemma_pow2_monotonic, lemma_pow2_values, pow2_u64,
    spec_pow2,
};
use crate::params::Params;
use crate::xmss::{
    lemma_xmss_len, lemma_xmss_pk_from_sig_len, lemma_xmss_sign_then_recover, spec_xmss_pk_from_sig,
    spec_xmss_root, spec_xmss_sign, xmss_pk_from_sig, xmss_root, xmss_sign,
};

verus! {

/// The tree of layer `layer` on the way from tree `idx_tree` of the bottom
/// layer to the top: above a tree stands the tree that holds its root as a
/// leaf.
pub open spec fn spec_ht_tree(p: Params, idx_tree: u64, layer: nat) -> nat
    decreases layer,
{
    if layer == 0 {
        idx_tree as nat
    } else {
        spec_ht_tree(p, idx_tree, (layer - 1) as nat) / spec_pow2(p.hp as nat)
    }
}

/// The leaf of that tree that is used: `idx_leaf` in the bottom layer,
/// above it the leaf that holds the root of the tree below.
pub open spec fn spec_ht_leaf(p: Params, idx_tree: u64, idx_leaf: u32, layer: nat) -> nat {
    if layer == 0 {
        idx_leaf as nat
    } else {
        spec_ht_tree(p, idx_tree, (layer - 1) as nat) % spec_pow2(p.hp as nat)
    }
}

/// What layer `layer` signs: the message in the bottom layer, above it
/// the root of the tree below.
pub open spec fn spec_ht_msg(
    p: Params,
    pk_seed: Seq<u8>,
    sk_seed: Seq<u8>,
    msg: Seq<u8>,
    idx_tree: u64,
    layer: nat,
) -> Seq<u8> {
    if layer == 0 {
        msg
    } else {
        spec_xmss_root(
            p,
            pk_seed,
            sk_seed,
            (layer - 1) as u32,
            spec_ht_tree(p, idx_tree, (layer - 1) as nat) as u64,
        )
    }
}

/// Part `j` of a hypertree signature: the signature of layer `j`.
pub open spec fn spec_ht_sig_elems(
    p: Params,
    pk_seed: Seq<u8>,
    sk_seed: Seq<u8>,
    msg: Seq<u8>,
    idx_tree: u64,
    idx_leaf: u32,
) -> spec_fn(int) -> Seq<u8> {
    |j: int|
        spec_xmss_sign(
            p,
            pk_seed,
            sk_seed,
            j as u32,
            spec_ht_tree(p, idx_tree, j as nat) as u64,
            spec_ht_leaf(p, idx_tree, idx_leaf, j as nat) as u32,
            spec_ht_msg(p, pk_seed, sk_seed, msg, idx_tree, j as nat),
        )
}

/// The hypertree signature of `msg` with key pair `idx_leaf` of tree
/// `idx_tree` of the bottom layer.
pub open spec fn spec_ht_sign(
    p: Params,
    pk_seed: Seq<u8>,
    sk_seed: Seq<u8>,
    msg: Seq<u8>,
    idx_tree: u64,
    idx_leaf: u32,
) -> Seq<u8> {
    concat_blocks(spec_ht_sig_elems(p, pk_seed, sk_seed, msg, idx_tree, idx_leaf), p.d as nat)
}

/// The root that the first `layers` parts of `sig` lead to from `msg`.
pub open spec fn spec_ht_recover(
    p: Params,
    pk_seed: Seq<u8>,
    msg: Seq<u8>,
    sig: Seq<u8>,
    idx_tree: u64,
    idx_leaf: u32,
    layers: nat,
) -> Seq<u8>
    decreases layers,
{
    if layers == 0 {
        msg
    } else {
        let j = (layers - 1) as nat;
        spec_xmss_pk_from_sig(
            p,
            pk_seed,
            j as u32,
            spec_ht_tree(p, idx_tree, j) as u64,
            spec_ht_leaf(p, idx_tree, idx_leaf, j) as u32,
            sig.subrange(
                j as int * p.spec_xmss_sig_bytes(),
                j as int * p.spec_xmss_sig_bytes() + p.spec_xmss_sig_bytes(),
            ),
            spec_ht_recover(p, pk_seed, msg, sig, idx_tree, idx_leaf, j),
        )
    }
}

/// Whether `sig` leads from `msg` to the root `pk_root`.
pub open spec fn spec_ht_verify(
    p: Params,
    pk_seed: Seq<u8>,
    msg: Seq<u8>,
    sig: Seq<u8>,
    idx_tree: u64,
    idx_leaf: u32,
    pk_root: Seq<u8>,
) -> bool {
    spec_ht_recover(p, pk_seed, msg, sig, idx_tree, idx_leaf, p.d as nat) == pk_root
}

/// The root of the hypertree: the root of tree 0 of the top layer.
pub open spec fn spec_ht_root(p: Params, pk_seed: Seq<u8>, sk_seed: Seq<u8>) -> Seq<u8> {
    spec_xmss_root(p, pk_seed, sk_seed, (p.d - 1) as u32, 0)
}

/// In layer `layer` the tree index has `hp` bits less for each layer
/// below, and the leaf index has `hp` bits.
pub proof fn lemma_ht_tree_bound(p: Params, idx_tree: u64, idx_leaf: u32, layer: nat)
    requires
        p.wf(),
        layer < p.d,
        idx_tree < spec_pow2((p.h - p.hp) as nat),
        idx_leaf < spec_pow2(p.hp as nat),
    ensures
        (p.d - 1 - layer) * p.hp >= 0,
        spec_ht_tree(p, idx_tree, layer) < spec_pow2(((p.d - 1 - layer) * p.hp) as nat),
        spec_ht_tree(p, idx_tree, layer) <= u64::MAX,
        spec_ht_leaf(p, idx_tree, idx_leaf, layer) < spec_pow2(p.hp as nat),
        spec_ht_leaf(p, idx_tree, idx_leaf, layer) <= u32::MAX,
    decreases layer,
{
    let (d, hp) = (p.d as int, p.hp as int);
    let w = spec_pow2(p.hp as nat);
    lemma_pow2_monotonic(0, p.hp as nat);
    lemma_pow2_monotonic(p.hp as nat, 16);
    lemma_pow2_values();
    assert((d - 1 - layer) * hp >= 0 && (d - 1 - layer) * hp + hp == (d - layer) * hp && (d - 1)
        * hp == d * hp - hp) by (nonlinear_arith)
        requires
            0 <= layer < d,
            hp >= 1,
    ;
    if layer > 0 {
        lemma_ht_tree_bound(p, idx_tree, idx_leaf, (layer - 1) as nat);
        let below = spec_ht_tree(p, idx_tree, (layer - 1) as nat);
        let cap = spec_pow2(((d - 1 - layer) * hp) as nat);
        lemma_pow2_add(((d - 1 - layer) * hp) as nat, p.hp as nat);
        assert(below / w < cap && below / w <= below && below % w < w) by (nonlinear_arith)
            requires
                below < cap * w,
                w >= 1,
                below >= 0,
        ;
    }
}

/// In the top layer the tree is tree 0.
pub proof fn lemma_ht_top_tree(p: Params, idx_tree: u64, idx_leaf: u32)
    requires
        p.wf(),
        idx_tree < spec_pow2((p.h - p.hp) as nat),
        idx_leaf < spec_pow2(p.hp as nat),
    ensures
        spec_ht_tree(p, idx_tree, (p.d - 1) as nat) == 0,
{
    lemma_ht_tree_bound(p, idx_tree, idx_leaf, (p.d - 1) as nat);
    assert((p.d - 1 - (p.d - 1)) * p.hp == 0) by (nonlinear_arith);
}

/// The parts of a hypertree signature have their length, and so has the
/// signature.
pub proof fn lemma_ht_sign_len(
    p: Params,
    pk_seed: Seq<u8>,
    sk_seed: Seq<u8>,
    msg: Seq<u8>,
    idx_tree: u64,
    idx_leaf: u32,
)
    requires
        p.wf(),
    ensures
        forall|j: int|
            0 <= j < p.d ==> (#[trigger] spec_ht_sig_elems(
                p,
                pk_seed,
                sk_seed,
                msg,
                idx_tree,
                idx_leaf,
            )(j)).len() == p.spec_xmss_sig_bytes(),
        spec_ht_sign(p, pk_seed, sk_seed, msg, idx_tree, idx_leaf).len() == p.spec_ht_sig_bytes(),
{
    let elems = spec_ht_sig_elems(p, pk_seed, sk_seed, msg, idx_tree, idx_leaf);
    assert forall|j: int| 0 <= j < p.d implies (#[trigger] elems(j)).len()
        == p.spec_xmss_sig_bytes() by {
        lemma_xmss_len(
            p,
            pk_seed,
            sk_seed,
            j as u32,
            spec_ht_tree(p, idx_tree, j as nat) as u64,
            spec_ht_leaf(p, idx_tree, idx_leaf, j as nat) as u32,
            spec_ht_msg(p, pk_seed, sk_seed, msg, idx_tree, j as nat),
        );
    }
    lemma_concat_blocks_len(elems, p.d as nat, p.spec_xmss_sig_bytes());
}

/// What the parts of any signature lead to has `n` bytes.
pub proof fn lemma_ht_recover_len(
    p: Params,
    pk_seed: Seq<u8>,
    msg: Seq<u8>,
    sig: Seq<u8>,
    idx_tree: u64,
    idx_leaf: u32,
    layers: nat,
)
    requires
        p.wf(),
        msg.len() == p.n,
        sig.len() == p.spec_ht_sig_bytes(),
        layers <= p.d,
    ensures
        spec_ht_recover(p, pk_seed, msg, sig, idx_tree, idx_leaf, layers).len() == p.n,
    decreases layers,
{
    if layers > 0 {
        let j = (layers - 1) as nat;
        lemma_ht_recover_len(p, pk_seed, msg, sig, idx_tree, idx_leaf, j);
        lemma_block_bounds(j as int, p.d as int, p.spec_xmss_sig_bytes() as int);
        lemma_xmss_pk_from_sig_len(
            p,
            pk_seed,
            j as u32,
            spec_ht_tree(p, idx_tree, j) as u64,
            spec_ht_leaf(p, idx_tree, idx_leaf, j) as u32,
            sig.subrange(
                j as int * p.spec_xmss_sig_bytes(),
                j as int * p.spec_xmss_sig_bytes() + p.spec_xmss_sig_bytes(),
            ),
            spec_ht_recover(p, pk_seed, msg, sig, idx_tree, idx_leaf, j),
        );
    }
}

/// The first `layers` parts of the signature of a message lead to the
/// root of the tree of layer `layers - 1`.
pub proof fn lemma_ht_sign_then_recover(
    p: Params,
    pk_seed: Seq<u8>,
    sk_seed: Seq<u8>,
    msg: Seq<u8>,
    idx_tree: u64,
    idx_leaf: u32,
    layers: nat,
)
    requires
        p.wf(),
        idx_tree < spec_pow2((p.h - p.hp) as nat),
        idx_leaf < spec_pow2(p.hp as nat),
        layers <= p.d,
    ensures
        spec_ht_recover(
            p,
            pk_seed,
            msg,
            spec_ht_sign(p, pk_seed, sk_seed, msg, idx_tree, idx_leaf),
            idx_tree,
            idx_leaf,
            layers,
        ) == spec_ht_msg(p, pk_seed, sk_seed, msg, idx_tree, layers),
    decreases layers,
{
    if layers > 0 {
        let j = (layers - 1) as nat;
        lemma_ht_sign_then_recover(p, pk_seed, sk_seed, msg, idx_tree, idx_leaf, j);
        let elems = spec_ht_sig_elems(p, pk_seed, sk_seed, msg, idx_tree, idx_leaf);
        lemma_ht_sign_len(p, pk_seed, sk_seed, msg, idx_tree, idx_leaf);
        lemma_concat_blocks_index(elems, p.d as nat, p.spec_xmss_sig_bytes(), j as int);
        lemma_ht_tree_bound(p, idx_tree, idx_leaf, j);
        lemma_xmss_sign_then_recover(
            p,
            pk_seed,
            sk_seed,
            j as u32,
            spec_ht_tree(p, idx_tree, j) as u64,
            spec_ht_leaf(p, idx_tree, idx_leaf, j) as u32,
            spec_ht_msg(p, pk_seed, sk_seed, msg, idx_tree, j),
        );
    }
}

/// The hypertree signature of a message leads to the root of the
/// hypertree.
pub proof fn lemma_ht_verify_after_sign(
    p: Params,
    pk_seed: Seq<u8>,
    sk_seed: Seq<u8>,
    msg: Seq<u8>,
    idx_tree: u64,
    idx_leaf: u32,
)
    requires
        p.wf(),
        idx_tree < spec_pow2((p.h - p.hp) as nat),
        idx_leaf < spec_pow2(p.hp as nat),
    ensures
        spec_ht_verify(
            p,
            pk_seed,
            msg,
            spec_ht_sign(p, pk_seed, sk_seed, msg, idx_tree, idx_leaf),
            idx_tree,
            idx_leaf,
            spec_ht_root(p, pk_seed, sk_seed),
        ),
{
    lemma_ht_sign_then_recover(p, pk_seed, sk_seed, msg, idx_tree, idx_leaf, p.d as nat);
    lemma_ht_top_tree(p, idx_tree, idx_leaf);
}

/// The root of the hypertree.
pub fn ht_root(p: &Params, pk_seed: &[u8], sk_seed: &[u8]) -> (root: Vec<u8>)
    requires
        p.wf(),
        pk_seed@.len() == p.n,
        sk_seed@.len() == p.n,
    ensures
        root@ == spec_ht_root(*p, pk_seed@, sk_seed@),
        root@.len() == p.n,
{
    xmss_root(p, pk_seed, sk_seed, (p.d - 1) as u32, 0)
}

/// The hypertree signature of `msg` with key pair `idx_leaf` of tree
/// `idx_tree` of the bottom layer.
pub fn ht_sign(
    p: &Params,
    pk_seed: &[u8],
    sk_seed: &[u8],
    msg: &[u8],
    idx_tree: u64,
    idx_leaf: u32,
) -> (sig: Vec<u8>)
    requires
        p.wf(),
        pk_seed@.len() == p.n,
        sk_seed@.len() == p.n,
        msg@.len() == p.n,
        idx_tree < spec_pow2((p.h - p.hp) as nat),
        idx_leaf < spec_pow2(p.hp as nat),
    ensures
        sig@ == spec_ht_sign(*p, pk_seed@, sk_seed@, msg@, idx_tree, idx_leaf),
        sig@.len() == p.spec_ht_sig_bytes(),
{
    let ghost elems = spec_ht_sig_elems(*p, pk_seed@, sk_seed@, msg@, idx_tree, idx_leaf);
    let width = pow2_u64(p.hp);
    let mut sig: Vec<u8> = Vec::with_capacity(p.ht_sig_bytes());
    let mut signed = vstd::slice::slice_to_vec(msg);
    let mut tree: u64 = idx_tree;
    let mut leaf: u32 = idx_leaf;
    let mut j: usize = 0;
    while j < p.d
        invariant
            j <= p.d,
            p.wf(),
            pk_seed@.len() == p.n,
            sk_seed@.len() == p.n,
            idx_tree < spec_pow2((p.h - p.hp) as nat),
            idx_leaf < spec_pow2(p.hp as nat),
            width == spec_pow2(p.hp as nat),
            elems == spec_ht_sig_elems(*p, pk_seed@, sk_seed@, msg@, idx_tree, idx_leaf),
            sig@ == concat_blocks(elems, j as nat),
            j < p.d ==> tree == spec_ht_tree(*p, idx_tree, j as nat),
            j < p.d ==> leaf == spec_ht_leaf(*p, idx_tree, idx_leaf, j as nat),
            j < p.d ==> signed@ == spec_ht_msg(*p, pk_seed@, sk_seed@, msg@, idx_tree, j as nat),
            j < p.d ==> signed@.len() == p.n,
        decreases p.d - j,
    {
        proof {
            lemma_ht_tree_bound(*p, idx_tree, idx_leaf, j as nat);
            lemma_pow2_monotonic(0, p.hp as nat);
            lemma_pow2_monotonic(p.hp as nat, 16);
            lemma_pow2_values();
        }
        let part = xmss_sign(p, pk_seed, sk_seed, j as u32, tree, leaf, signed.as_slice());
        assert(part@ == elems(j as int));
        if j + 1 < p.d {
            signed = xmss_pk_from_sig(
                p,
                pk_seed,
                j as u32,
                tree,
                leaf,
                part.as_slice(),
                signed.as_slice(),
            );
            proof {
                lemma_xmss_sign_then_recover(
                    *p,
                    pk_seed@,
                    sk_seed@,
                    j as u32,
                    tree,
                    leaf,
                    spec_ht_msg(*p, pk_seed@, sk_seed@, msg@, idx_tree, j as nat),
                );
                lemma_ht_tree_bound(*p, idx_tree, idx_leaf, (j + 1) as nat);
            }
            leaf = (tree % width) as u32;
            tree = tree / width;
        }
        append(&mut sig, part.as_slice());
        j += 1;
    }
    proof {
        lemma_ht_sign_len(*p, pk_seed@, sk_seed@, msg@, idx_tree, idx_leaf);
    }
    sig
}

/// Whether `sig` leads from `msg` to the root `pk_root`.
pub fn ht_verify(
    p: &Params,
    pk_seed: &[u8],
    msg: &[u8],
    sig: &[u8],
    idx_tree: u64,
    idx_leaf: u32,
    pk_root: &[u8],
) -> (ok: bool)
    requires
        p.wf(),
        pk_seed@.len() == p.n,
        msg@.len() == p.n,
        sig@.len() == p.spec_ht_sig_bytes(),
    ensures
        ok == spec_ht_verify(*p, pk_seed@, msg@, sig@, idx_tree, idx_leaf, pk_root@),
{
    let width = pow2_u64(p.hp);
    let part_bytes = p.xmss_sig_bytes();
    let mut node = vstd::slice::slice_to_vec(msg);
    let mut tree: u64 = idx_tree;
    let mut leaf: u32 = idx_leaf;
    let mut j: usize = 0;
    let mut off: usize = 0;
    while j < p.d
        invariant
            j <= p.d,
            p.wf(),
            pk_seed@.len() == p.n,
            msg@.len() == p.n,
            sig@.len() == p.spec_ht_sig_bytes(),
            sig@.len() == p.d * part_bytes,
            width == spec_pow2(p.hp as nat),
            part_bytes == p.spec_xmss_sig_bytes(),
            off == j * part_bytes,
            tree == spec_ht_tree(*p, idx_tree, j as nat),
            leaf == spec_ht_leaf(*p, idx_tree, idx_leaf, j as nat),
            node@ == spec_ht_recover(*p, pk_seed@, msg@, sig@, idx_tree, idx_leaf, j as nat),
            node@.len() == p.n,
        decreases p.d - j,
    {
        proof {
            lemma_block_bounds(j as int, p.d as int, part_bytes as int);
            p.lemma_sizes();
            lemma_pow2_monotonic(0, p.hp as nat);
            lemma_pow2_monotonic(p.hp as nat, 16);
            lemma_pow2_values();
        }
        let part = vstd::slice::slice_subrange(sig, off, off + part_bytes);
        node = xmss_pk_from_sig(p, pk_seed, j as u32, tree, leaf, part, node.as_slice());
        leaf = (tree % width) as u32;
        tree = tree / width;
        j += 1;
        off += part_bytes;
    }
    bytes_eq(node.as_slice(), pk_root)
}

} // verus!
