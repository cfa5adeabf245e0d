//! One layer of the hypertree: a tree of one-time keys. Its signature of
//! a message is the one-time signature under one of its key pairs and the
//! authentication path of that key pair.
use vstd::prelude::*;
use crate::bytes::{append, lemma_pow2_monotonic, spec_pow2};
use crate::merkle::{
    auth_path, lemma_auth_path_len, lemma_index_at_root, lemma_node_len,
    lemma_path_leads_to_node, lemma_root_from_path_len, root_from_path, spec_auth_path,
    spec_node, spec_root_from_path, tree_node, TreeKind,
};
use crate::params::Params;
use crate::wots::{
    lemma_wots_recover_len, lemma_wots_sign_len, lemma_wots_sign_then_recover,
    spec_wots_pk_from_sig, spec_wots_sign, wots_pk_from_sig, wots_sign,
};

verus! {

/// The root of tree `tree` of layer `layer`.
pub open spec fn spec_xmss_root(
    p: Params,
    pk_seed: Seq<u8>,
    sk_seed: Seq<u8>,
    layer: u32,
    tree: u64,
) -> Seq<u8> {
    spec_node(p, pk_seed, sk_seed, layer, tree, TreeKind::Xmss, 0, p.hp as nat)
}

/// The signature of `msg` under key pair `leaf` of a tree.
pub open spec fn spec_xmss_sign(
    p: Params,
    pk_seed: Seq<u8>,
    sk_seed: Seq<u8>,
    layer: u32,
    tree: u64,
    leaf: u32,
    msg: Seq<u8>,
) -> Seq<u8> {
    spec_wots_sign(p, pk_seed, sk_seed, layer, tree, leaf, msg) + spec_auth_path(
        p,
        pk_seed,
        sk_seed,
        layer,
        tree,
        TreeKind::Xmss,
        leaf as nat,
        p.hp as nat,
    )
}

/// The root of the tree that `sig` is a signature of `msg` under, made
/// with key pair `leaf`.
pub open spec fn spec_xmss_pk_from_sig(
    p: Params,
    pk_seed: Seq<u8>,
    layer: u32,
    tree: u64,
    leaf: u32,
    sig: Seq<u8>,
    msg: Seq<u8>,
) -> Seq<u8> {
    spec_root_from_path(
        p,
        pk_seed,
        layer,
        tree,
        TreeKind::Xmss,
        spec_wots_pk_from_sig(
            p,
            pk_seed,
            layer,
            tree,
            leaf,
            sig.subrange(0, p.spec_wots_sig_bytes() as int),
            msg,
        ),
        leaf as nat,
        sig.subrange(p.spec_wots_sig_bytes() as int, p.spec_xmss_sig_bytes() as int),
        p.hp as nat,
    )
}

/// A signature of a layer has its length, and roots have `n` bytes.
pub proof fn lemma_xmss_len(
    p: Params,
    pk_seed: Seq<u8>,
    sk_seed: Seq<u8>,
    layer: u32,
    tree: u64,
    leaf: u32,
    msg: Seq<u8>,
)
    requires
        p.wf(),
    ensures
        spec_xmss_sign(p, pk_seed, sk_seed, layer, tree, leaf, msg).len()
            == p.spec_xmss_sig_bytes(),
        spec_xmss_root(p, pk_seed, sk_seed, layer, tree).len() == p.n,
        p.spec_xmss_sig_bytes() == p.spec_wots_sig_bytes() + p.hp * p.n,
{
    lemma_wots_sign_len(p, pk_seed, sk_seed, layer, tree, leaf, msg);
    lemma_auth_path_len(
        p,
        pk_seed,
        sk_seed,
        layer,
        tree,
        TreeKind::Xmss,
        leaf as nat,
        p.hp as nat,
    );
    lemma_node_len(p, pk_seed, sk_seed, layer, tree, TreeKind::Xmss, 0, p.hp as nat);
    let (len, hp, n) = (p.spec_wots_len() as int, p.hp as int, p.n as int);
    assert((len + hp) * n == len * n + hp * n) by (nonlinear_arith);
}

/// What is recovered from any signature of a layer has `n` bytes.
pub proof fn lemma_xmss_pk_from_sig_len(
    p: Params,
    pk_seed: Seq<u8>,
    layer: u32,
    tree: u64,
    leaf: u32,
    sig: Seq<u8>,
    msg: Seq<u8>,
)
    requires
        p.wf(),
        sig.len() == p.spec_xmss_sig_bytes(),
    ensures
        spec_xmss_pk_from_sig(p, pk_seed, layer, tree, leaf, sig, msg).len() == p.n,
{
    let (len, hp, n) = (p.spec_wots_len() as int, p.hp as int, p.n as int);
    assert((len + hp) * n == len * n + hp * n) by (nonlinear_arith);
    assert(hp * n >= 0) by (nonlinear_arith)
        requires
            hp >= 0,
            n >= 0,
    ;
    let wots_sig = sig.subrange(0, p.spec_wots_sig_bytes() as int);
    lemma_wots_recover_len(p, pk_seed, layer, tree, leaf, wots_sig, msg);
    lemma_root_from_path_len(
        p,
        pk_seed,
        layer,
        tree,
        TreeKind::Xmss,
        spec_wots_pk_from_sig(p, pk_seed, layer, tree, leaf, wots_sig, msg),
        leaf as nat,
        sig.subrange(p.spec_wots_sig_bytes() as int, p.spec_xmss_sig_bytes() as int),
        p.hp as nat,
    );
}

/// What is recovered from the signature that key pair `leaf` of a tree
/// made of a message is the root of that tree.
pub proof fn lemma_xmss_sign_then_recover(
    p: Params,
    pk_seed: Seq<u8>,
    sk_seed: Seq<u8>,
    layer: u32,
    tree: u64,
    leaf: u32,
    msg: Seq<u8>,
)
    requires
        p.wf(),
        leaf < spec_pow2(p.hp as nat),
    ensures
        spec_xmss_pk_from_sig(
            p,
            pk_seed,
            layer,
            tree,
            leaf,
            spec_xmss_sign(p, pk_seed, sk_seed, layer, tree, leaf, msg),
            msg,
        ) == spec_xmss_root(p, pk_seed, sk_seed, layer, tree),
{
    let sig = spec_xmss_sign(p, pk_seed, sk_seed, layer, tree, leaf, msg);
    let wots_sig = spec_wots_sign(p, pk_seed, sk_seed, layer, tree, leaf, msg);
    let auth = spec_auth_path(
        p,
        pk_seed,
        sk_seed,
        layer,
        tree,
        TreeKind::Xmss,
        leaf as nat,
        p.hp as nat,
    );
    lemma_xmss_len(p, pk_seed, sk_seed, layer, tree, leaf, msg);
    lemma_wots_sign_len(p, pk_seed, sk_seed, layer, tree, leaf, msg);
    assert(sig.subrange(0, p.spec_wots_sig_bytes() as int) =~= wots_sig);
    assert(sig.subrange(p.spec_wots_sig_bytes() as int, p.spec_xmss_sig_bytes() as int) =~= auth);
    lemma_wots_sign_then_recover(p, pk_seed, sk_seed, layer, tree, leaf, msg);
    lemma_path_leads_to_node(
        p,
        pk_seed,
        sk_seed,
        layer,
        tree,
        TreeKind::Xmss,
        leaf as nat,
        p.hp as nat,
        p.hp as nat,
    );
    lemma_index_at_root(leaf as nat, p.hp as nat);
}

/// The root of tree `tree` of layer `layer`.
pub fn xmss_root(p: &Params, pk_seed: &[u8], sk_seed: &[u8], layer: u32, tree: u64) -> (root: Vec<
    u8,
>)
    requires
        p.wf(),
        pk_seed@.len() == p.n,
        sk_seed@.len() == p.n,
    ensures
        root@ == spec_xmss_root(*p, pk_seed@, sk_seed@, layer, tree),
        root@.len() == p.n,
{
    proof {
        lemma_pow2_monotonic(0, (30 - p.hp) as nat);
    }
    tree_node(p, pk_seed, sk_seed, layer, tree, TreeKind::Xmss, 0, p.hp as u32)
}

/// The signature of `msg` under key pair `leaf` of a tree.
pub fn xmss_sign(
    p: &Params,
    pk_seed: &[u8],
    sk_seed: &[u8],
    layer: u32,
    tree: u64,
    leaf: u32,
    msg: &[u8],
) -> (sig: Vec<u8>)
    requires
        p.wf(),
        pk_seed@.len() == p.n,
        sk_seed@.len() == p.n,
        msg@.len() == p.n,
        leaf < spec_pow2(p.hp as nat),
    ensures
        sig@ == spec_xmss_sign(*p, pk_seed@, sk_seed@, layer, tree, leaf, msg@),
        sig@.len() == p.spec_xmss_sig_bytes(),
{
    proof {
        lemma_pow2_monotonic(p.hp as nat, 22);
        lemma_xmss_len(*p, pk_seed@, sk_seed@, layer, tree, leaf, msg@);
    }
    let mut sig = wots_sign(p, pk_seed, sk_seed, layer, tree, leaf, msg);
    let auth = auth_path(p, pk_seed, sk_seed, layer, tree, TreeKind::Xmss, leaf, p.hp as u32);
    append(&mut sig, auth.as_slice());
    sig
}

/// The root of the tree that `sig` is a signature of `msg` under, made
/// with key pair `leaf`.
pub fn xmss_pk_from_sig(
    p: &Params,
    pk_seed: &[u8],
    layer: u32,
    tree: u64,
    leaf: u32,
    sig: &[u8],
    msg: &[u8],
) -> (root: Vec<u8>)
    requires
        p.wf(),
        pk_seed@.len() == p.n,
        msg@.len() == p.n,
        sig@.len() == p.spec_xmss_sig_bytes(),
    ensures
        root@ == spec_xmss_pk_from_sig(*p, pk_seed@, layer, tree, leaf, sig@, msg@),
        root@.len() == p.n,
{
    proof {
        p.lemma_sizes();
        let (len, hp, n) = (p.spec_wots_len() as int, p.hp as int, p.n as int);
        assert((len + hp) * n == len * n + hp * n) by (nonlinear_arith);
        assert(hp * n >= 0) by (nonlinear_arith)
            requires
                hp >= 0,
                n >= 0,
        ;
    }
    let split = p.wots_len() * p.n;
    let wots_sig = vstd::slice::slice_subrange(sig, 0, split);
    let auth = vstd::slice::slice_subrange(sig, split, sig.len());
    let leaf_value = wots_pk_from_sig(p, pk_seed, layer, tree, leaf, wots_sig, msg);
    root_from_path(
        p,
        pk_seed,
        layer,
        tree,
        TreeKind::Xmss,
        leaf_value.as_slice(),
        leaf,
        auth,
        p.hp as u32,
    )
}

} // verus!
