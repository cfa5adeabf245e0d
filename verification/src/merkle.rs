//! Hash trees: the trees of one-time keys in the layers of the hypertree
//! and the trees of the few-time signature. A node is the hash of its two
//! children; an authentication path holds the siblings of the nodes
//! between a leaf and the root, so that the root can be found again from
//! the leaf alone.
use vstd::prelude::*;
use crate::address::{Adrs, AdrsKind};
use crate::bytes::{
    append, concat_blocks, lemma_block_bounds, lemma_concat_blocks_index,
    lemma_concat_blocks_len, lemma_pow2_add, lemma_pow2_monotonic, lemma_pow2_values, pow2_u64,
    spec_pow2,
};
use crate::hashes::{hash_f, hash_h, lemma_f_len, lemma_h_len, prf, spec_f, spec_h, spec_prf};
use crate::params::Params;
use crate::wots::{lemma_wots_pk_len, spec_wots_pkgen, wots_pkgen};

verus! {

/// What the leaves of a tree are.
#[derive(Clone, Copy, PartialEq, Eq, Structural, Debug)]
pub enum TreeKind {
    /// A tree of a layer of the hypertree: leaf `i` is the one-time public
    /// key of key pair `i`.
    Xmss,
    /// The trees of the few-time signature under key pair `keypair`, side
    /// by side: leaf `i` is the hash of secret value `i`.
    Fors { keypair: u32 },
}

/// The address of node `index` at `height`.
pub open spec fn spec_node_adrs(
    layer: u32,
    tree: u64,
    kind: TreeKind,
    height: nat,
    index: nat,
) -> Adrs {
    match kind {
        TreeKind::Xmss => Adrs {
            layer,
            tree,
            kind: AdrsKind::Tree { height: height as u32, index: index as u32 },
        },
        TreeKind::Fors { keypair } => Adrs {
            layer,
            tree,
            kind: AdrsKind::ForsTree { keypair, height: height as u32, index: index as u32 },
        },
    }
}

/// Secret value `index` of the few-time signature under `keypair`.
pub open spec fn spec_fors_secret(
    p: Params,
    pk_seed: Seq<u8>,
    sk_seed: Seq<u8>,
    layer: u32,
    tree: u64,
    keypair: u32,
    index: nat,
) -> Seq<u8> {
    spec_prf(
        p,
        pk_seed,
        sk_seed,
        Adrs { layer, tree, kind: AdrsKind::ForsPrf { keypair, index: index as u32 } },
    )
}

/// Leaf `index`.
pub open spec fn spec_leaf(
    p: Params,
    pk_seed: Seq<u8>,
    sk_seed: Seq<u8>,
    layer: u32,
    tree: u64,
    kind: TreeKind,
    index: nat,
) -> Seq<u8> {
    match kind {
        TreeKind::Xmss => spec_wots_pkgen(p, pk_seed, sk_seed, layer, tree, index as u32),
        TreeKind::Fors { keypair } => spec_f(
            p,
            pk_seed,
            spec_node_adrs(layer, tree, kind, 0, index),
            spec_fors_secret(p, pk_seed, sk_seed, layer, tree, keypair, index),
        ),
    }
}

/// Node `index` at `height`: a leaf at height 0, above that the hash of
/// the nodes `2 * index` and `2 * index + 1` one level below.
pub open spec fn spec_node(
    p: Params,
    pk_seed: Seq<u8>,
    sk_seed: Seq<u8>,
    layer: u32,
    tree: u64,
    kind: TreeKind,
    index: nat,
    height: nat,
) -> Seq<u8>
    decreases height,
{
    if height == 0 {
        spec_leaf(p, pk_seed, sk_seed, layer, tree, kind, index)
    } else {
        spec_h(
            p,
            pk_seed,
            spec_node_adrs(layer, tree, kind, height, index),
            spec_node(p, pk_seed, sk_seed, layer, tree, kind, 2 * index, (height - 1) as nat)
                + spec_node(
                p,
                pk_seed,
                sk_seed,
                layer,
                tree,
                kind,
                2 * index + 1,
                (height - 1) as nat,
            ),
        )
    }
}

/// The other child of the parent of node `index`.
pub open spec fn spec_sibling(index: nat) -> nat {
    if index % 2 == 0 {
        index + 1
    } else {
        (index - 1) as nat
    }
}

/// The node at `height` above leaf `leaf`.
pub open spec fn spec_index_at(leaf: nat, height: nat) -> nat
    decreases height,
{
    if height == 0 {
        leaf
    } else {
        spec_index_at(leaf, (height - 1) as nat) / 2
    }
}

/// Element `j` of the authentication path of `leaf`: the sibling of the
/// node at height `j` above the leaf.
pub open spec fn spec_auth_elems(
    p: Params,
    pk_seed: Seq<u8>,
    sk_seed: Seq<u8>,
    layer: u32,
    tree: u64,
    kind: TreeKind,
    leaf: nat,
) -> spec_fn(int) -> Seq<u8> {
    |j: int|
        spec_node(
            p,
            pk_seed,
            sk_seed,
            layer,
            tree,
            kind,
            spec_sibling(spec_index_at(leaf, j as nat)),
            j as nat,
        )
}

/// The authentication path of `leaf` up to `height`.
pub open spec fn spec_auth_path(
    p: Params,
    pk_seed: Seq<u8>,
    sk_seed: Seq<u8>,
    layer: u32,
    tree: u64,
    kind: TreeKind,
    leaf: nat,
    height: nat,
) -> Seq<u8> {
    concat_blocks(spec_auth_elems(p, pk_seed, sk_seed, layer, tree, kind, leaf), height)
}

/// The node that is found `height` levels above leaf `leaf` with value
/// `value`, if `auth` holds the siblings on the way: at each level the
/// node below an even index is the left child, below an odd index the
/// right one.
pub open spec fn spec_root_from_path(
    p: Params,
    pk_seed: Seq<u8>,
    layer: u32,
    tree: u64,
    kind: TreeKind,
    value: Seq<u8>,
    leaf: nat,
    auth: Seq<u8>,
    height: nat,
) -> Seq<u8>
    decreases height,
{
    if height == 0 {
        value
    } else {
        let below = spec_root_from_path(
            p,
            pk_seed,
            layer,
            tree,
            kind,
            value,
            leaf,
            auth,
            (height - 1) as nat,
        );
        let index = spec_index_at(leaf, (height - 1) as nat);
        let sibling = auth.subrange((height - 1) * p.n, (height - 1) * p.n + p.n);
        spec_h(
            p,
            pk_seed,
            spec_node_adrs(layer, tree, kind, height, index / 2),
            if index % 2 == 0 {
                below + sibling
            } else {
                sibling + below
            },
        )
    }
}

/// Every node has `n` bytes.
pub proof fn lemma_node_len(
    p: Params,
    pk_seed: Seq<u8>,
    sk_seed: Seq<u8>,
    layer: u32,
    tree: u64,
    kind: TreeKind,
    index: nat,
    height: nat,
)
    requires
        p.wf(),
    ensures
        spec_node(p, pk_seed, sk_seed, layer, tree, kind, index, height).len() == p.n,
{
    if height == 0 {
        match kind {
            TreeKind::Xmss => {
                lemma_wots_pk_len(p, pk_seed, sk_seed, layer, tree, index as u32);
            },
            TreeKind::Fors { keypair } => {
                lemma_f_len(
                    p,
                    pk_seed,
                    spec_node_adrs(layer, tree, kind, 0, index),
                    spec_fors_secret(p, pk_seed, sk_seed, layer, tree, keypair, index),
                );
            },
        }
    } else {
        lemma_h_len(
            p,
            pk_seed,
            spec_node_adrs(layer, tree, kind, height, index),
            spec_node(p, pk_seed, sk_seed, layer, tree, kind, 2 * index, (height - 1) as nat)
                + spec_node(
                p,
                pk_seed,
                sk_seed,
                layer,
                tree,
                kind,
                2 * index + 1,
                (height - 1) as nat,
            ),
        );
    }
}

/// An authentication path up to `height` has `height` elements of `n`
/// bytes.
pub proof fn lemma_auth_path_len(
    p: Params,
    pk_seed: Seq<u8>,
    sk_seed: Seq<u8>,
    layer: u32,
    tree: u64,
    kind: TreeKind,
    leaf: nat,
    height: nat,
)
    requires
        p.wf(),
    ensures
        forall|j: int|
            0 <= j < height ==> (#[trigger] spec_auth_elems(
                p,
                pk_seed,
                sk_seed,
                layer,
                tree,
                kind,
                leaf,
            )(j)).len() == p.n,
        spec_auth_path(p, pk_seed, sk_seed, layer, tree, kind, leaf, height).len() == height
            * p.n,
{
    let elems = spec_auth_elems(p, pk_seed, sk_seed, layer, tree, kind, leaf);
    assert forall|j: int| 0 <= j < height implies (#[trigger] elems(j)).len() == p.n by {
        lemma_node_len(
            p,
            pk_seed,
            sk_seed,
            layer,
            tree,
            kind,
            spec_sibling(spec_index_at(leaf, j as nat)),
            j as nat,
        );
    }
    lemma_concat_blocks_len(elems, height, p.n as nat);
}

/// What is found above a leaf has `n` bytes.
pub proof fn lemma_root_from_path_len(
    p: Params,
    pk_seed: Seq<u8>,
    layer: u32,
    tree: u64,
    kind: TreeKind,
    value: Seq<u8>,
    leaf: nat,
    auth: Seq<u8>,
    height: nat,
)
    requires
        p.wf(),
        value.len() == p.n,
    ensures
        spec_root_from_path(p, pk_seed, layer, tree, kind, value, leaf, auth, height).len()
            == p.n,
{
    if height > 0 {
        let below = spec_root_from_path(
            p,
            pk_seed,
            layer,
            tree,
            kind,
            value,
            leaf,
            auth,
            (height - 1) as nat,
        );
        let index = spec_index_at(leaf, (height - 1) as nat);
        let sibling = auth.subrange((height - 1) * p.n, (height - 1) * p.n + p.n);
        let at = spec_node_adrs(layer, tree, kind, height, index / 2);
        lemma_h_len(p, pk_seed, at, below + sibling);
        lemma_h_len(p, pk_seed, at, sibling + below);
    }
}

/// The node at `height` above a leaf is the leaf's index divided by two
/// `height` times.
pub proof fn lemma_index_at(leaf: nat, height: nat)
    ensures
        spec_index_at(leaf, height) * spec_pow2(height) <= leaf < (spec_index_at(leaf, height)
            + 1) * spec_pow2(height),
    decreases height,
{
    if height == 0 {
        assert(leaf * 1 == leaf) by (nonlinear_arith);
        assert((leaf + 1) * 1 == leaf + 1) by (nonlinear_arith);
    } else {
        lemma_index_at(leaf, (height - 1) as nat);
        let c = spec_index_at(leaf, (height - 1) as nat);
        let half = spec_pow2((height - 1) as nat);
        let up = c / 2;
        assert(up * (2 * half) <= leaf < (up + 1) * (2 * half)) by (nonlinear_arith)
            requires
                c * half <= leaf < (c + 1) * half,
                up == c / 2,
                half >= 0,
        ;
    }
}

/// Above a leaf below `2^height` stands node 0 at `height`.
pub proof fn lemma_index_at_root(leaf: nat, height: nat)
    requires
        leaf < spec_pow2(height),
    ensures
        spec_index_at(leaf, height) == 0,
{
    lemma_index_at(leaf, height);
    let c = spec_index_at(leaf, height);
    let w = spec_pow2(height);
    assert(c == 0) by (nonlinear_arith)
        requires
            c * w <= leaf < w,
            c >= 0,
    ;
}

/// Above leaf `tree * 2^height + leaf` with `leaf` below `2^height` stands
/// node `tree` at `height`.
pub proof fn lemma_index_at_tree(tree: nat, leaf: nat, height: nat)
    requires
        leaf < spec_pow2(height),
    ensures
        spec_index_at(tree * spec_pow2(height) + leaf, height) == tree,
{
    let w = spec_pow2(height);
    let at = tree * w + leaf;
    lemma_index_at(at, height);
    let c = spec_index_at(at, height);
    assert(c == tree) by (nonlinear_arith)
        requires
            c * w <= tree * w + leaf < (c + 1) * w,
            0 <= leaf < w,
            c >= 0,
            tree >= 0,
    ;
}

/// From a leaf and its authentication path the nodes above the leaf are
/// found again.
pub proof fn lemma_path_leads_to_node(
    p: Params,
    pk_seed: Seq<u8>,
    sk_seed: Seq<u8>,
    layer: u32,
    tree: u64,
    kind: TreeKind,
    leaf: nat,
    top: nat,
    height: nat,
)
    requires
        p.wf(),
        height <= top,
    ensures
        spec_root_from_path(
            p,
            pk_seed,
            layer,
            tree,
            kind,
            spec_node(p, pk_seed, sk_seed, layer, tree, kind, leaf, 0),
            leaf,
            spec_auth_path(p, pk_seed, sk_seed, layer, tree, kind, leaf, top),
            height,
        ) == spec_node(
            p,
            pk_seed,
            sk_seed,
            layer,
            tree,
            kind,
            spec_index_at(leaf, height),
            height,
        ),
    decreases height,
{
    if height > 0 {
        let j = (height - 1) as nat;
        lemma_path_leads_to_node(p, pk_seed, sk_seed, layer, tree, kind, leaf, top, j);
        let elems = spec_auth_elems(p, pk_seed, sk_seed, layer, tree, kind, leaf);
        lemma_auth_path_len(p, pk_seed, sk_seed, layer, tree, kind, leaf, top);
        lemma_concat_blocks_index(elems, top, p.n as nat, j as int);
        let index = spec_index_at(leaf, j);
        assert(2 * (index / 2) == index || 2 * (index / 2) + 1 == index);
    }
}

/// The place in the array of a tree of height `height` of the node that
/// stands `i` places after the first node of the tree at `level`: the root
/// stands at place 1, and the children of the node at place `q` stand at
/// the places `2 * q` and `2 * q + 1`. Place 0 is not used.
pub open spec fn spec_place(height: nat, level: nat, i: nat) -> nat {
    spec_pow2((height - level) as nat) + i
}

/// Whether `nodes` holds at their places the nodes of the levels below
/// `levels` of the tree whose root is node `top` at `height`.
pub open spec fn spec_holds_levels(
    nodes: Seq<Vec<u8>>,
    p: Params,
    pk_seed: Seq<u8>,
    sk_seed: Seq<u8>,
    layer: u32,
    tree: u64,
    kind: TreeKind,
    top: nat,
    height: nat,
    levels: nat,
) -> bool {
    forall|level: nat, i: nat|
        level < levels && i < spec_pow2((height - level) as nat) ==> nodes[#[trigger] spec_place(
            height,
            level,
            i,
        ) as int]@ == spec_node(
            p,
            pk_seed,
            sk_seed,
            layer,
            tree,
            kind,
            top * spec_pow2((height - level) as nat) + i,
            level,
        )
}

/// A level has twice the nodes of the level above it.
proof fn lemma_level_width(top: nat, height: nat, level: nat)
    requires
        1 <= level <= height,
    ensures
        spec_pow2((height - (level - 1)) as nat) == 2 * spec_pow2((height - level) as nat),
        top * spec_pow2((height - (level - 1)) as nat) == 2 * (top * spec_pow2(
            (height - level) as nat,
        )),
        1 <= spec_pow2((height - level) as nat) <= spec_pow2(height),
{
    let w = spec_pow2((height - level) as nat);
    lemma_pow2_monotonic((height - level) as nat, height);
    assert(top * (2 * w) == 2 * (top * w)) by (nonlinear_arith);
}

/// The node above a leaf of the tree below node `top` at `height` stands
/// in that tree where the node above the leaf of a tree alone stands, and
/// the same holds of its sibling.
pub proof fn lemma_index_at_in_tree(top: nat, local: nat, height: nat, level: nat)
    requires
        local < spec_pow2(height),
        level <= height,
    ensures
        spec_index_at(local, level) < spec_pow2((height - level) as nat),
        spec_index_at(top * spec_pow2(height) + local, level) == top * spec_pow2(
            (height - level) as nat,
        ) + spec_index_at(local, level),
        level < height ==> spec_sibling(spec_index_at(local, level)) < spec_pow2(
            (height - level) as nat,
        ),
        level < height ==> spec_sibling(spec_index_at(top * spec_pow2(height) + local, level))
            == top * spec_pow2((height - level) as nat) + spec_sibling(
            spec_index_at(local, level),
        ),
    decreases level,
{
    if level > 0 {
        lemma_index_at_in_tree(top, local, height, (level - 1) as nat);
        lemma_level_width(top, height, level);
    }
    if level < height {
        lemma_level_width(top, height, level + 1);
    }
}

/// Whether `nodes` holds at their places the first `count` nodes of
/// `level` of the tree whose root is node `top` at `height`.
pub open spec fn spec_holds_row(
    nodes: Seq<Vec<u8>>,
    p: Params,
    pk_seed: Seq<u8>,
    sk_seed: Seq<u8>,
    layer: u32,
    tree: u64,
    kind: TreeKind,
    top: nat,
    height: nat,
    level: nat,
    count: nat,
) -> bool {
    forall|i: nat|
        i < count ==> nodes[#[trigger] spec_place(height, level, i) as int]@ == spec_node(
            p,
            pk_seed,
            sk_seed,
            layer,
            tree,
            kind,
            top * spec_pow2((height - level) as nat) + i,
            level,
        )
}

/// The children of a node stand at twice its place and next to that.
proof fn lemma_children_in_place(
    nodes: Seq<Vec<u8>>,
    p: Params,
    pk_seed: Seq<u8>,
    sk_seed: Seq<u8>,
    layer: u32,
    tree: u64,
    kind: TreeKind,
    top: nat,
    height: nat,
    level: nat,
    i: nat,
)
    requires
        p.wf(),
        1 <= level <= height,
        i < spec_pow2((height - level) as nat),
        nodes.len() == 2 * spec_pow2(height),
        spec_holds_levels(nodes, p, pk_seed, sk_seed, layer, tree, kind, top, height, level),
    ensures
        spec_place(height, level, i) < spec_pow2(height),
        nodes[2 * spec_place(height, level, i) as int]@ + nodes[2 * spec_place(
            height,
            level,
            i,
        ) as int + 1]@ == spec_node(
            p,
            pk_seed,
            sk_seed,
            layer,
            tree,
            kind,
            2 * (top * spec_pow2((height - level) as nat) + i),
            (level - 1) as nat,
        ) + spec_node(
            p,
            pk_seed,
            sk_seed,
            layer,
            tree,
            kind,
            2 * (top * spec_pow2((height - level) as nat) + i) + 1,
            (level - 1) as nat,
        ),
        (nodes[2 * spec_place(height, level, i) as int]@ + nodes[2 * spec_place(
            height,
            level,
            i,
        ) as int + 1]@).len() == 2 * p.n,
{
    lemma_level_width(top, height, level);
    lemma_pow2_monotonic((height - level + 1) as nat, height);
    let below = (level - 1) as nat;
    assert(spec_place(height, below, 2 * i) == 2 * spec_place(height, level, i));
    assert(spec_place(height, below, 2 * i + 1) == 2 * spec_place(height, level, i) + 1);
    let first = 2 * (top * spec_pow2((height - level) as nat) + i);
    lemma_node_len(p, pk_seed, sk_seed, layer, tree, kind, first, below);
    lemma_node_len(p, pk_seed, sk_seed, layer, tree, kind, first + 1, below);
}

/// A node put at its place leaves the levels below as they are and adds
/// one node to its own level.
proof fn lemma_node_put(
    before: Seq<Vec<u8>>,
    after: Seq<Vec<u8>>,
    p: Params,
    pk_seed: Seq<u8>,
    sk_seed: Seq<u8>,
    layer: u32,
    tree: u64,
    kind: TreeKind,
    top: nat,
    height: nat,
    level: nat,
    i: nat,
)
    requires
        level <= height,
        i < spec_pow2((height - level) as nat),
        before.len() == 2 * spec_pow2(height),
        after.len() == before.len(),
        forall|q: int|
            0 <= q < before.len() && q != spec_place(height, level, i) ==> after[q] == before[q],
        after[spec_place(height, level, i) as int]@ == spec_node(
            p,
            pk_seed,
            sk_seed,
            layer,
            tree,
            kind,
            top * spec_pow2((height - level) as nat) + i,
            level,
        ),
        spec_holds_levels(before, p, pk_seed, sk_seed, layer, tree, kind, top, height, level),
        spec_holds_row(before, p, pk_seed, sk_seed, layer, tree, kind, top, height, level, i),
    ensures
        spec_holds_levels(after, p, pk_seed, sk_seed, layer, tree, kind, top, height, level),
        spec_holds_row(after, p, pk_seed, sk_seed, layer, tree, kind, top, height, level, i + 1),
{
    let here = spec_place(height, level, i);
    assert forall|l: nat, j: nat|
        l < level && j < spec_pow2((height - l) as nat) implies after[#[trigger] spec_place(
        height,
        l,
        j,
    ) as int]@ == spec_node(
        p,
        pk_seed,
        sk_seed,
        layer,
        tree,
        kind,
        top * spec_pow2((height - l) as nat) + j,
        l,
    ) by {
        lemma_pow2_monotonic((height - level + 1) as nat, (height - l) as nat);
        lemma_pow2_monotonic((height - l) as nat, height);
        assert(spec_pow2((height - level + 1) as nat) == 2 * spec_pow2((height - level) as nat));
        let there = spec_place(height, l, j);
        assert(there != here && there < before.len());
        assert(after[there as int] == before[there as int]);
    }
    assert forall|j: nat| j < i + 1 implies after[#[trigger] spec_place(height, level, j) as int]@
        == spec_node(
        p,
        pk_seed,
        sk_seed,
        layer,
        tree,
        kind,
        top * spec_pow2((height - level) as nat) + j,
        level,
    ) by {
        lemma_pow2_monotonic((height - level) as nat, height);
        if j < i {
            let there = spec_place(height, level, j);
            assert(there != here && there < before.len());
            assert(after[there as int] == before[there as int]);
        }
    }
}

/// A level whose nodes all stand at their places is one more level that
/// the array holds.
proof fn lemma_row_full(
    nodes: Seq<Vec<u8>>,
    p: Params,
    pk_seed: Seq<u8>,
    sk_seed: Seq<u8>,
    layer: u32,
    tree: u64,
    kind: TreeKind,
    top: nat,
    height: nat,
    level: nat,
)
    requires
        spec_holds_levels(nodes, p, pk_seed, sk_seed, layer, tree, kind, top, height, level),
        spec_holds_row(
            nodes,
            p,
            pk_seed,
            sk_seed,
            layer,
            tree,
            kind,
            top,
            height,
            level,
            spec_pow2((height - level) as nat),
        ),
    ensures
        spec_holds_levels(nodes, p, pk_seed, sk_seed, layer, tree, kind, top, height, level + 1),
{
    assert forall|l: nat, j: nat|
        l < level + 1 && j < spec_pow2((height - l) as nat) implies nodes[#[trigger] spec_place(
        height,
        l,
        j,
    ) as int]@ == spec_node(
        p,
        pk_seed,
        sk_seed,
        layer,
        tree,
        kind,
        top * spec_pow2((height - l) as nat) + j,
        l,
    ) by {
        if l == level {
            assert(nodes[spec_place(height, level, j) as int]@ == spec_node(
                p,
                pk_seed,
                sk_seed,
                layer,
                tree,
                kind,
                top * spec_pow2((height - level) as nat) + j,
                level,
            ));
        }
    }
}

/// Leaf `index`.
pub fn leaf_value(
    p: &Params,
    pk_seed: &[u8],
    sk_seed: &[u8],
    layer: u32,
    tree: u64,
    kind: TreeKind,
    index: u32,
) -> (leaf: Vec<u8>)
    requires
        p.wf(),
        pk_seed@.len() == p.n,
        sk_seed@.len() == p.n,
    ensures
        leaf@ == spec_leaf(*p, pk_seed@, sk_seed@, layer, tree, kind, index as nat),
        leaf@.len() == p.n,
{
    match kind {
        TreeKind::Xmss => wots_pkgen(p, pk_seed, sk_seed, layer, tree, index),
        TreeKind::Fors { keypair } => {
            let secret = prf(
                p,
                pk_seed,
                sk_seed,
                &Adrs { layer, tree, kind: AdrsKind::ForsPrf { keypair, index } },
            );
            hash_f(
                p,
                pk_seed,
                &Adrs { layer, tree, kind: AdrsKind::ForsTree { keypair, height: 0, index } },
                secret.as_slice(),
            )
        },
    }
}

/// All nodes of the tree whose root is node `top` at `height`, in one
/// array: first all its leaves are made, then level by level every node
/// from its two children. The root stands at place 1, the children of
/// the node at place `q` at the places `2 * q` and `2 * q + 1`.
pub fn build_tree(
    p: &Params,
    pk_seed: &[u8],
    sk_seed: &[u8],
    layer: u32,
    tree: u64,
    kind: TreeKind,
    top: u32,
    height: u32,
) -> (nodes: Vec<Vec<u8>>)
    requires
        p.wf(),
        pk_seed@.len() == p.n,
        sk_seed@.len() == p.n,
        height <= 16,
        top < spec_pow2((30 - height) as nat),
    ensures
        nodes@.len() == 2 * spec_pow2(height as nat),
        nodes@[0]@.len() == 0,
        spec_holds_levels(
            nodes@,
            *p,
            pk_seed@,
            sk_seed@,
            layer,
            tree,
            kind,
            top as nat,
            height as nat,
            (height + 1) as nat,
        ),
{
    let ghost h = height as nat;
    let ghost t = top as nat;
    let width: usize = pow2_u64(height as usize) as usize;
    proof {
        lemma_pow2_monotonic(h, 16);
        lemma_pow2_add(h, (30 - h) as nat);
        lemma_pow2_values();
        assert(t * width < 0x4000_0000) by (nonlinear_arith)
            requires
                t < spec_pow2((30 - h) as nat),
                width * spec_pow2((30 - h) as nat) == 0x4000_0000,
                width >= 1,
        ;
        assert(t * width >= 0) by (nonlinear_arith)
            requires
                t >= 0,
                width >= 0,
        ;
    }
    let first: u32 = top * (width as u32);
    let mut nodes: Vec<Vec<u8>> = Vec::with_capacity(2 * width);
    let mut q: usize = 0;
    while q < 2 * width
        invariant
            q <= 2 * width <= 0x20000,
            nodes@.len() == q,
            q > 0 ==> nodes@[0]@.len() == 0,
        decreases 2 * width - q,
    {
        nodes.push(Vec::new());
        q += 1;
    }
    let mut i: usize = 0;
    while i < width
        invariant
            i <= width == spec_pow2(h) <= 0x10000,
            h == height,
            first == t * spec_pow2(h) < 0x4000_0000,
            p.wf(),
            pk_seed@.len() == p.n,
            sk_seed@.len() == p.n,
            nodes@.len() == 2 * width,
            nodes@[0]@.len() == 0,
            spec_holds_row(nodes@, *p, pk_seed@, sk_seed@, layer, tree, kind, t, h, 0, i as nat),
        decreases width - i,
    {
        let leaf = leaf_value(p, pk_seed, sk_seed, layer, tree, kind, first + i as u32);
        let ghost before = nodes@;
        nodes.set(width + i, leaf);
        proof {
            assert(spec_place(h, 0, i as nat) == width + i);
            lemma_node_put(
                before,
                nodes@,
                *p,
                pk_seed@,
                sk_seed@,
                layer,
                tree,
                kind,
                t,
                h,
                0,
                i as nat,
            );
        }
        i += 1;
    }
    proof {
        lemma_row_full(nodes@, *p, pk_seed@, sk_seed@, layer, tree, kind, t, h, 0);
    }
    let mut level: u32 = 1;
    let mut w: usize = width;
    let mut base: u32 = first;
    while level <= height
        invariant
            1 <= level <= height + 1,
            h == height <= 16,
            t == top,
            w == spec_pow2((h - (level - 1)) as nat),
            w <= spec_pow2(h) == width <= 0x10000,
            base == t * w < 0x4000_0000,
            p.wf(),
            pk_seed@.len() == p.n,
            sk_seed@.len() == p.n,
            nodes@.len() == 2 * width,
            nodes@[0]@.len() == 0,
            spec_holds_levels(
                nodes@,
                *p,
                pk_seed@,
                sk_seed@,
                layer,
                tree,
                kind,
                t,
                h,
                level as nat,
            ),
        decreases height + 1 - level,
    {
        proof {
            lemma_level_width(t, h, level as nat);
        }
        w = w / 2;
        base = base / 2;
        let mut i: usize = 0;
        while i < w
            invariant
                i <= w,
                1 <= level <= height,
                h == height <= 16,
                w == spec_pow2((h - level) as nat),
                2 * w <= spec_pow2(h) == width <= 0x10000,
                base == t * spec_pow2((h - level) as nat),
                2 * base < 0x4000_0000,
                p.wf(),
                pk_seed@.len() == p.n,
                sk_seed@.len() == p.n,
                nodes@.len() == 2 * width,
            nodes@[0]@.len() == 0,
                spec_holds_levels(
                    nodes@,
                    *p,
                    pk_seed@,
                    sk_seed@,
                    layer,
                    tree,
                    kind,
                    t,
                    h,
                    level as nat,
                ),
                spec_holds_row(
                    nodes@,
                    *p,
                    pk_seed@,
                    sk_seed@,
                    layer,
                    tree,
                    kind,
                    t,
                    h,
                    level as nat,
                    i as nat,
                ),
            decreases w - i,
        {
            let place = w + i;
            proof {
                assert(spec_place(h, level as nat, i as nat) == place);
                lemma_children_in_place(
                    nodes@,
                    *p,
                    pk_seed@,
                    sk_seed@,
                    layer,
                    tree,
                    kind,
                    t,
                    h,
                    level as nat,
                    i as nat,
                );
            }
            let mut children = vstd::slice::slice_to_vec(nodes[2 * place].as_slice());
            append(&mut children, nodes[2 * place + 1].as_slice());
            let node = hash_h(
                p,
                pk_seed,
                &node_adrs(layer, tree, kind, level, base + i as u32),
                children.as_slice(),
            );
            let ghost before = nodes@;
            nodes.set(place, node);
            proof {
                lemma_node_put(
                    before,
                    nodes@,
                    *p,
                    pk_seed@,
                    sk_seed@,
                    layer,
                    tree,
                    kind,
                    t,
                    h,
                    level as nat,
                    i as nat,
                );
            }
            i += 1;
        }
        proof {
            lemma_row_full(nodes@, *p, pk_seed@, sk_seed@, layer, tree, kind, t, h, level as nat);
        }
        level += 1;
    }
    nodes
}

/// Node `index` at `height`: the root of the tree below it.
pub fn tree_node(
    p: &Params,
    pk_seed: &[u8],
    sk_seed: &[u8],
    layer: u32,
    tree: u64,
    kind: TreeKind,
    index: u32,
    height: u32,
) -> (node: Vec<u8>)
    requires
        p.wf(),
        pk_seed@.len() == p.n,
        sk_seed@.len() == p.n,
        height <= 16,
        index < spec_pow2((30 - height) as nat),
    ensures
        node@ == spec_node(
            *p,
            pk_seed@,
            sk_seed@,
            layer,
            tree,
            kind,
            index as nat,
            height as nat,
        ),
        node@.len() == p.n,
{
    let nodes = build_tree(p, pk_seed, sk_seed, layer, tree, kind, index, height);
    proof {
        lemma_node_len(*p, pk_seed@, sk_seed@, layer, tree, kind, index as nat, height as nat);
        lemma_pow2_monotonic(0, height as nat);
        assert(spec_place(height as nat, height as nat, 0) == 1);
        assert(index as nat * spec_pow2(0) + 0 == index) by (nonlinear_arith)
            requires
                spec_pow2(0) == 1,
        ;
    }
    vstd::slice::slice_to_vec(nodes[1].as_slice())
}

/// The address of node `index` at `height`.
pub fn node_adrs(layer: u32, tree: u64, kind: TreeKind, height: u32, index: u32) -> (adrs: Adrs)
    ensures
        adrs == spec_node_adrs(layer, tree, kind, height as nat, index as nat),
{
    match kind {
        TreeKind::Xmss => Adrs { layer, tree, kind: AdrsKind::Tree { height, index } },
        TreeKind::Fors { keypair } => Adrs {
            layer,
            tree,
            kind: AdrsKind::ForsTree { keypair, height, index },
        },
    }
}

/// The authentication path of `leaf` up to `height`: the siblings of the
/// nodes above the leaf, read from the array of the tree that holds the
/// leaf.
pub fn auth_path(
    p: &Params,
    pk_seed: &[u8],
    sk_seed: &[u8],
    layer: u32,
    tree: u64,
    kind: TreeKind,
    leaf: u32,
    height: u32,
) -> (auth: Vec<u8>)
    requires
        p.wf(),
        pk_seed@.len() == p.n,
        sk_seed@.len() == p.n,
        height <= 16,
        leaf < spec_pow2(22),
    ensures
        auth@ == spec_auth_path(
            *p,
            pk_seed@,
            sk_seed@,
            layer,
            tree,
            kind,
            leaf as nat,
            height as nat,
        ),
        auth@.len() == height * p.n,
{
    let ghost h = height as nat;
    let ghost elems = spec_auth_elems(*p, pk_seed@, sk_seed@, layer, tree, kind, leaf as nat);
    let width: u32 = pow2_u64(height as usize) as u32;
    proof {
        lemma_pow2_monotonic(0, h);
        lemma_pow2_monotonic(h, 16);
        lemma_pow2_add(h, (30 - h) as nat);
        lemma_pow2_values();
    }
    let top = leaf / width;
    let local = leaf % width;
    proof {
        let cap = spec_pow2((30 - h) as nat);
        assert(leaf == top * width + local && top < cap) by (nonlinear_arith)
            requires
                top == leaf / width,
                local == leaf % width,
                width >= 1,
                leaf < 0x40_0000,
                width * cap == 0x4000_0000,
        ;
    }
    let nodes = build_tree(p, pk_seed, sk_seed, layer, tree, kind, top, height);
    let mut auth: Vec<u8> = Vec::with_capacity(height as usize * p.n);
    let mut index: u32 = local;
    let mut w: u32 = width;
    let mut j: u32 = 0;
    while j < height
        invariant
            j <= height <= 16,
            h == height,
            p.wf(),
            leaf == top * spec_pow2(h) + local,
            local < spec_pow2(h),
            w == spec_pow2((h - j) as nat),
            w <= spec_pow2(h) <= 0x10000,
            index == spec_index_at(local as nat, j as nat),
            nodes@.len() == 2 * spec_pow2(h),
            spec_holds_levels(
                nodes@,
                *p,
                pk_seed@,
                sk_seed@,
                layer,
                tree,
                kind,
                top as nat,
                h,
                (h + 1) as nat,
            ),
            elems == spec_auth_elems(*p, pk_seed@, sk_seed@, layer, tree, kind, leaf as nat),
            auth@ == concat_blocks(elems, j as nat),
        decreases height - j,
    {
        proof {
            lemma_index_at_in_tree(top as nat, local as nat, h, j as nat);
            lemma_level_width(top as nat, h, (j + 1) as nat);
        }
        let sibling = if index % 2 == 0 {
            index + 1
        } else {
            index - 1
        };
        proof {
            assert(spec_place(h, j as nat, sibling as nat) == w + sibling);
        }
        let node = &nodes[(w + sibling) as usize];
        assert(node@ == elems(j as int));
        append(&mut auth, node.as_slice());
        index = index / 2;
        w = w / 2;
        j += 1;
    }
    proof {
        lemma_auth_path_len(
            *p,
            pk_seed@,
            sk_seed@,
            layer,
            tree,
            kind,
            leaf as nat,
            height as nat,
        );
    }
    auth
}

/// The node that is found `height` levels above leaf `leaf` with value
/// `value`, if `auth` holds the siblings on the way.
pub fn root_from_path(
    p: &Params,
    pk_seed: &[u8],
    layer: u32,
    tree: u64,
    kind: TreeKind,
    value: &[u8],
    leaf: u32,
    auth: &[u8],
    height: u32,
) -> (root: Vec<u8>)
    requires
        p.wf(),
        pk_seed@.len() == p.n,
        value@.len() == p.n,
        height <= 16,
        auth@.len() == height * p.n,
    ensures
        root@ == spec_root_from_path(
            *p,
            pk_seed@,
            layer,
            tree,
            kind,
            value@,
            leaf as nat,
            auth@,
            height as nat,
        ),
        root@.len() == p.n,
{
    let n = p.n;
    let mut node = vstd::slice::slice_to_vec(value);
    let mut index: u32 = leaf;
    let mut j: u32 = 0;
    let mut off: usize = 0;
    while j < height
        invariant
            j <= height <= 16,
            n == p.n,
            off == j * n,
            p.wf(),
            pk_seed@.len() == p.n,
            auth@.len() == height * p.n,
            node@.len() == p.n,
            index == spec_index_at(leaf as nat, j as nat),
            node@ == spec_root_from_path(
                *p,
                pk_seed@,
                layer,
                tree,
                kind,
                value@,
                leaf as nat,
                auth@,
                j as nat,
            ),
        decreases height - j,
    {
        proof {
            lemma_block_bounds(j as int, height as int, n as int);
        }
        let sibling = vstd::slice::slice_subrange(auth, off, off + n);
        let mut children: Vec<u8> = Vec::with_capacity(2 * n);
        if index % 2 == 0 {
            append(&mut children, node.as_slice());
            append(&mut children, sibling);
        } else {
            append(&mut children, sibling);
            append(&mut children, node.as_slice());
        }
        node = hash_h(
            p,
            pk_seed,
            &node_adrs(layer, tree, kind, j + 1, index / 2),
            children.as_slice(),
        );
        index = index / 2;
        j += 1;
        off += n;
    }
    node
}

} // verus!
