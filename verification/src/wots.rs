//! The one-time signature: each digit of the message and of its checksum
//! moves a secret value that many steps along a chain of hashes; whoever
//! holds the signature can walk the rest of the way to the public key.
use vstd::prelude::*;
use crate::address::{Adrs, AdrsKind};
use crate::bytes::{
    append, bits_value, concat_blocks, lemma_bits_value_bound, lemma_block_bounds,
    lemma_concat_blocks_equal, lemma_concat_blocks_index, lemma_concat_blocks_len,
    spec_bits_value, spec_pow2,
};
use crate::hashes::{hash_f, hash_h, lemma_f_len, lemma_h_len, prf, spec_f, spec_h, spec_prf};
use crate::params::Params;

verus! {

/// The value `steps` steps further along chain `chain` than `x`, which
/// stands at step `start`.
pub open spec fn spec_chain(
    p: Params,
    pk_seed: Seq<u8>,
    layer: u32,
    tree: u64,
    keypair: u32,
    chain: u32,
    x: Seq<u8>,
    start: nat,
    steps: nat,
) -> Seq<u8>
    decreases steps,
{
    if steps == 0 {
        x
    } else {
        spec_f(
            p,
            pk_seed,
            Adrs {
                layer,
                tree,
                kind: AdrsKind::WotsHash { keypair, chain, hash: (start + steps - 1) as u32 },
            },
            spec_chain(p, pk_seed, layer, tree, keypair, chain, x, start, (steps - 1) as nat),
        )
    }
}

/// The secret value at the start of chain `i`.
pub open spec fn spec_wots_secret(
    p: Params,
    pk_seed: Seq<u8>,
    sk_seed: Seq<u8>,
    layer: u32,
    tree: u64,
    keypair: u32,
    i: int,
) -> Seq<u8> {
    spec_prf(
        p,
        pk_seed,
        sk_seed,
        Adrs { layer, tree, kind: AdrsKind::WotsPrf { keypair, chain: i as u32 } },
    )
}

/// The checksum of the first `digits` digits of `msg`: what each of them
/// lacks to 15, added up.
pub open spec fn spec_checksum(msg: Seq<u8>, digits: nat) -> nat
    decreases digits,
{
    if digits == 0 {
        0
    } else {
        (spec_checksum(msg, (digits - 1) as nat) + 15 - spec_bits_value(
            msg,
            4 * (digits - 1),
            4,
        )) as nat
    }
}

/// Digit `i` of what is signed: the digits of `msg`, four bits each, and
/// then the three digits of their checksum, the most significant first.
pub open spec fn spec_wots_digit(p: Params, msg: Seq<u8>, i: int) -> nat {
    let checksum = spec_checksum(msg, (2 * p.n) as nat);
    if i < 2 * p.n {
        spec_bits_value(msg, 4 * i, 4)
    } else if i == 2 * p.n {
        checksum / 256 % 16
    } else if i == 2 * p.n + 1 {
        checksum / 16 % 16
    } else {
        checksum % 16
    }
}

/// The ends of the chains: element `i` of the one-time public key.
pub open spec fn spec_wots_pk_elems(
    p: Params,
    pk_seed: Seq<u8>,
    sk_seed: Seq<u8>,
    layer: u32,
    tree: u64,
    keypair: u32,
) -> spec_fn(int) -> Seq<u8> {
    |i: int|
        spec_chain(
            p,
            pk_seed,
            layer,
            tree,
            keypair,
            i as u32,
            spec_wots_secret(p, pk_seed, sk_seed, layer, tree, keypair, i),
            0,
            15,
        )
}

/// The one-time public key of key pair `keypair`: the hash of the ends of
/// its chains.
pub open spec fn spec_wots_pkgen(
    p: Params,
    pk_seed: Seq<u8>,
    sk_seed: Seq<u8>,
    layer: u32,
    tree: u64,
    keypair: u32,
) -> Seq<u8> {
    spec_h(
        p,
        pk_seed,
        Adrs { layer, tree, kind: AdrsKind::WotsPk { keypair } },
        concat_blocks(
            spec_wots_pk_elems(p, pk_seed, sk_seed, layer, tree, keypair),
            p.spec_wots_len(),
        ),
    )
}

/// Element `i` of the signature of `msg`: the secret value moved as many
/// steps as digit `i` says.
pub open spec fn spec_wots_sig_elems(
    p: Params,
    pk_seed: Seq<u8>,
    sk_seed: Seq<u8>,
    layer: u32,
    tree: u64,
    keypair: u32,
    msg: Seq<u8>,
) -> spec_fn(int) -> Seq<u8> {
    |i: int|
        spec_chain(
            p,
            pk_seed,
            layer,
            tree,
            keypair,
            i as u32,
            spec_wots_secret(p, pk_seed, sk_seed, layer, tree, keypair, i),
            0,
            spec_wots_digit(p, msg, i),
        )
}

/// The one-time signature of `msg` under key pair `keypair`.
pub open spec fn spec_wots_sign(
    p: Params,
    pk_seed: Seq<u8>,
    sk_seed: Seq<u8>,
    layer: u32,
    tree: u64,
    keypair: u32,
    msg: Seq<u8>,
) -> Seq<u8> {
    concat_blocks(
        spec_wots_sig_elems(p, pk_seed, sk_seed, layer, tree, keypair, msg),
        p.spec_wots_len(),
    )
}

/// Element `i` of `sig` moved on to the end of its chain.
pub open spec fn spec_wots_recovered_elems(
    p: Params,
    pk_seed: Seq<u8>,
    layer: u32,
    tree: u64,
    keypair: u32,
    sig: Seq<u8>,
    msg: Seq<u8>,
) -> spec_fn(int) -> Seq<u8> {
    |i: int|
        spec_chain(
            p,
            pk_seed,
            layer,
            tree,
            keypair,
            i as u32,
            sig.subrange(i * p.n, i * p.n + p.n),
            spec_wots_digit(p, msg, i),
            (15 - spec_wots_digit(p, msg, i)) as nat,
        )
}

/// The one-time public key that `sig` is a signature of `msg` under.
pub open spec fn spec_wots_pk_from_sig(
    p: Params,
    pk_seed: Seq<u8>,
    layer: u32,
    tree: u64,
    keypair: u32,
    sig: Seq<u8>,
    msg: Seq<u8>,
) -> Seq<u8> {
    spec_h(
        p,
        pk_seed,
        Adrs { layer, tree, kind: AdrsKind::WotsPk { keypair } },
        concat_blocks(
            spec_wots_recovered_elems(p, pk_seed, layer, tree, keypair, sig, msg),
            p.spec_wots_len(),
        ),
    )
}

/// A chain of values of `n` bytes stays at `n` bytes.
pub proof fn lemma_chain_len(
    p: Params,
    pk_seed: Seq<u8>,
    layer: u32,
    tree: u64,
    keypair: u32,
    chain: u32,
    x: Seq<u8>,
    start: nat,
    steps: nat,
)
    requires
        p.wf(),
        x.len() == p.n,
    ensures
        spec_chain(p, pk_seed, layer, tree, keypair, chain, x, start, steps).len() == p.n,
{
    if steps > 0 {
        lemma_f_len(
            p,
            pk_seed,
            Adrs {
                layer,
                tree,
                kind: AdrsKind::WotsHash { keypair, chain, hash: (start + steps - 1) as u32 },
            },
            spec_chain(p, pk_seed, layer, tree, keypair, chain, x, start, (steps - 1) as nat),
        );
    }
}

/// Walking `first` steps and then `then` steps is walking `first + then`
/// steps.
pub proof fn lemma_chain_join(
    p: Params,
    pk_seed: Seq<u8>,
    layer: u32,
    tree: u64,
    keypair: u32,
    chain: u32,
    x: Seq<u8>,
    start: nat,
    first: nat,
    then: nat,
)
    ensures
        spec_chain(
            p,
            pk_seed,
            layer,
            tree,
            keypair,
            chain,
            spec_chain(p, pk_seed, layer, tree, keypair, chain, x, start, first),
            start + first,
            then,
        ) == spec_chain(p, pk_seed, layer, tree, keypair, chain, x, start, first + then),
    decreases then,
{
    if then > 0 {
        lemma_chain_join(
            p,
            pk_seed,
            layer,
            tree,
            keypair,
            chain,
            x,
            start,
            first,
            (then - 1) as nat,
        );
    }
}

/// Every digit is below 16, and the checksum of `digits` digits is at most
/// 15 for each of them.
pub proof fn lemma_digits(p: Params, msg: Seq<u8>, digits: nat)
    requires
        p.wf(),
    ensures
        spec_checksum(msg, digits) <= 15 * digits,
        forall|i: int| 0 <= i ==> #[trigger] spec_wots_digit(p, msg, i) <= 15,
    decreases digits,
{
    reveal_with_fuel(spec_pow2, 5);
    assert(spec_pow2(4) == 16);
    if digits > 0 {
        lemma_digits(p, msg, (digits - 1) as nat);
        lemma_bits_value_bound(msg, 4 * (digits - 1), 4);
    }
    assert forall|i: int| 0 <= i implies #[trigger] spec_wots_digit(p, msg, i) <= 15 by {
        lemma_bits_value_bound(msg, 4 * i, 4);
    }
}

/// The ends of the chains have `n` bytes each, and so has the public key.
pub proof fn lemma_wots_pk_len(
    p: Params,
    pk_seed: Seq<u8>,
    sk_seed: Seq<u8>,
    layer: u32,
    tree: u64,
    keypair: u32,
)
    requires
        p.wf(),
    ensures
        forall|i: int|
            0 <= i < p.spec_wots_len() ==> (#[trigger] spec_wots_pk_elems(
                p,
                pk_seed,
                sk_seed,
                layer,
                tree,
                keypair,
            )(i)).len() == p.n,
        spec_wots_pkgen(p, pk_seed, sk_seed, layer, tree, keypair).len() == p.n,
{
    let len = p.spec_wots_len();
    let pk = spec_wots_pk_elems(p, pk_seed, sk_seed, layer, tree, keypair);
    assert forall|i: int| 0 <= i < len implies (#[trigger] pk(i)).len() == p.n by {
        let secret = spec_wots_secret(p, pk_seed, sk_seed, layer, tree, keypair, i);
        lemma_f_len(
            p,
            pk_seed,
            Adrs { layer, tree, kind: AdrsKind::WotsPrf { keypair, chain: i as u32 } },
            sk_seed,
        );
        lemma_chain_len(p, pk_seed, layer, tree, keypair, i as u32, secret, 0, 15);
    }
    lemma_h_len(
        p,
        pk_seed,
        Adrs { layer, tree, kind: AdrsKind::WotsPk { keypair } },
        concat_blocks(pk, len),
    );
}

/// The elements of a signature have `n` bytes each.
pub proof fn lemma_wots_sign_len(
    p: Params,
    pk_seed: Seq<u8>,
    sk_seed: Seq<u8>,
    layer: u32,
    tree: u64,
    keypair: u32,
    msg: Seq<u8>,
)
    requires
        p.wf(),
    ensures
        forall|i: int|
            0 <= i < p.spec_wots_len() ==> (#[trigger] spec_wots_sig_elems(
                p,
                pk_seed,
                sk_seed,
                layer,
                tree,
                keypair,
                msg,
            )(i)).len() == p.n,
        spec_wots_sign(p, pk_seed, sk_seed, layer, tree, keypair, msg).len()
            == p.spec_wots_sig_bytes(),
{
    let len = p.spec_wots_len();
    let sg = spec_wots_sig_elems(p, pk_seed, sk_seed, layer, tree, keypair, msg);
    assert forall|i: int| 0 <= i < len implies (#[trigger] sg(i)).len() == p.n by {
        let secret = spec_wots_secret(p, pk_seed, sk_seed, layer, tree, keypair, i);
        lemma_f_len(
            p,
            pk_seed,
            Adrs { layer, tree, kind: AdrsKind::WotsPrf { keypair, chain: i as u32 } },
            sk_seed,
        );
        lemma_chain_len(
            p,
            pk_seed,
            layer,
            tree,
            keypair,
            i as u32,
            secret,
            0,
            spec_wots_digit(p, msg, i),
        );
    }
    lemma_concat_blocks_len(sg, len, p.n as nat);
}

/// What is recovered from a signature has `n` bytes.
pub proof fn lemma_wots_recover_len(
    p: Params,
    pk_seed: Seq<u8>,
    layer: u32,
    tree: u64,
    keypair: u32,
    sig: Seq<u8>,
    msg: Seq<u8>,
)
    requires
        p.wf(),
        sig.len() == p.spec_wots_sig_bytes(),
    ensures
        forall|i: int|
            0 <= i < p.spec_wots_len() ==> (#[trigger] spec_wots_recovered_elems(
                p,
                pk_seed,
                layer,
                tree,
                keypair,
                sig,
                msg,
            )(i)).len() == p.n,
        spec_wots_pk_from_sig(p, pk_seed, layer, tree, keypair, sig, msg).len() == p.n,
{
    let len = p.spec_wots_len();
    let rc = spec_wots_recovered_elems(p, pk_seed, layer, tree, keypair, sig, msg);
    assert forall|i: int| 0 <= i < len implies (#[trigger] rc(i)).len() == p.n by {
        let digit = spec_wots_digit(p, msg, i);
        lemma_block_bounds(i, len as int, p.n as int);
        lemma_chain_len(
            p,
            pk_seed,
            layer,
            tree,
            keypair,
            i as u32,
            sig.subrange(i * p.n, i * p.n + p.n),
            digit,
            (15 - digit) as nat,
        );
    }
    lemma_h_len(
        p,
        pk_seed,
        Adrs { layer, tree, kind: AdrsKind::WotsPk { keypair } },
        concat_blocks(rc, len),
    );
}

/// What is recovered from the signature of a message is the public key of
/// the key pair that signed it.
pub proof fn lemma_wots_sign_then_recover(
    p: Params,
    pk_seed: Seq<u8>,
    sk_seed: Seq<u8>,
    layer: u32,
    tree: u64,
    keypair: u32,
    msg: Seq<u8>,
)
    requires
        p.wf(),
    ensures
        spec_wots_pk_from_sig(
            p,
            pk_seed,
            layer,
            tree,
            keypair,
            spec_wots_sign(p, pk_seed, sk_seed, layer, tree, keypair, msg),
            msg,
        ) == spec_wots_pkgen(p, pk_seed, sk_seed, layer, tree, keypair),
{
    let len = p.spec_wots_len();
    let sig = spec_wots_sign(p, pk_seed, sk_seed, layer, tree, keypair, msg);
    let pk = spec_wots_pk_elems(p, pk_seed, sk_seed, layer, tree, keypair);
    let sg = spec_wots_sig_elems(p, pk_seed, sk_seed, layer, tree, keypair, msg);
    let rc = spec_wots_recovered_elems(p, pk_seed, layer, tree, keypair, sig, msg);
    lemma_wots_sign_len(p, pk_seed, sk_seed, layer, tree, keypair, msg);
    lemma_digits(p, msg, 0);
    assert forall|i: int| 0 <= i < len implies #[trigger] rc(i) == pk(i) by {
        let secret = spec_wots_secret(p, pk_seed, sk_seed, layer, tree, keypair, i);
        let digit = spec_wots_digit(p, msg, i);
        lemma_concat_blocks_index(sg, len, p.n as nat, i);
        assert(sig.subrange(i * p.n, i * p.n + p.n) == sg(i));
        lemma_chain_join(
            p,
            pk_seed,
            layer,
            tree,
            keypair,
            i as u32,
            secret,
            0,
            digit,
            (15 - digit) as nat,
        );
    }
    lemma_concat_blocks_equal(rc, pk, len);
}

/// The value `steps` steps further along chain `index` than `x`.
pub fn chain(
    p: &Params,
    pk_seed: &[u8],
    layer: u32,
    tree: u64,
    keypair: u32,
    index: u32,
    x: &[u8],
    start: u32,
    steps: u32,
) -> (out: Vec<u8>)
    requires
        p.wf(),
        pk_seed@.len() == p.n,
        x@.len() == p.n,
        start + steps <= 15,
    ensures
        out@ == spec_chain(
            *p,
            pk_seed@,
            layer,
            tree,
            keypair,
            index,
            x@,
            start as nat,
            steps as nat,
        ),
        out@.len() == p.n,
{
    let mut out = vstd::slice::slice_to_vec(x);
    let mut j: u32 = 0;
    while j < steps
        invariant
            j <= steps,
            start + steps <= 15,
            p.wf(),
            pk_seed@.len() == p.n,
            out@.len() == p.n,
            out@ == spec_chain(
                *p,
                pk_seed@,
                layer,
                tree,
                keypair,
                index,
                x@,
                start as nat,
                j as nat,
            ),
        decreases steps - j,
    {
        let adrs = Adrs {
            layer,
            tree,
            kind: AdrsKind::WotsHash { keypair, chain: index, hash: start + j },
        };
        out = hash_f(p, pk_seed, &adrs, out.as_slice());
        j += 1;
    }
    out
}

/// The digits of what is signed: those of `msg` and those of the checksum.
pub fn wots_digits(p: &Params, msg: &[u8]) -> (digits: Vec<u32>)
    requires
        p.wf(),
        msg@.len() == p.n,
    ensures
        digits@.len() == p.spec_wots_len(),
        forall|i: int|
            0 <= i < digits@.len() ==> digits@[i] == spec_wots_digit(*p, msg@, i) && digits@[i]
                <= 15,
{
    let len1 = 2 * p.n;
    let mut digits: Vec<u32> = Vec::with_capacity(len1 + 3);
    let mut checksum: u32 = 0;
    let mut i: usize = 0;
    while i < len1
        invariant
            i <= len1 == 2 * p.n,
            p.wf(),
            msg@.len() == p.n,
            digits@.len() == i,
            checksum == spec_checksum(msg@, i as nat),
            checksum <= 15 * i,
            forall|j: int|
                0 <= j < i ==> digits@[j] == spec_wots_digit(*p, msg@, j) && digits@[j] <= 15,
        decreases len1 - i,
    {
        let digit = bits_value(msg, 4 * i, 4);
        proof {
            reveal_with_fuel(spec_pow2, 5);
            assert(spec_pow2(4) == 16);
        }
        checksum = checksum + 15 - digit;
        digits.push(digit);
        i += 1;
    }
    digits.push(checksum / 256 % 16);
    digits.push(checksum / 16 % 16);
    digits.push(checksum % 16);
    digits
}

/// The one-time public key of key pair `keypair`.
pub fn wots_pkgen(
    p: &Params,
    pk_seed: &[u8],
    sk_seed: &[u8],
    layer: u32,
    tree: u64,
    keypair: u32,
) -> (pk: Vec<u8>)
    requires
        p.wf(),
        pk_seed@.len() == p.n,
        sk_seed@.len() == p.n,
    ensures
        pk@ == spec_wots_pkgen(*p, pk_seed@, sk_seed@, layer, tree, keypair),
        pk@.len() == p.n,
{
    let len = p.wots_len();
    let ghost elems = spec_wots_pk_elems(*p, pk_seed@, sk_seed@, layer, tree, keypair);
    let mut ends: Vec<u8> = Vec::with_capacity(len * p.n);
    let mut i: usize = 0;
    while i < len
        invariant
            i <= len == p.spec_wots_len(),
            p.wf(),
            pk_seed@.len() == p.n,
            sk_seed@.len() == p.n,
            elems == spec_wots_pk_elems(*p, pk_seed@, sk_seed@, layer, tree, keypair),
            ends@ == concat_blocks(elems, i as nat),
        decreases len - i,
    {
        let at = Adrs { layer, tree, kind: AdrsKind::WotsPrf { keypair, chain: i as u32 } };
        let secret = prf(p, pk_seed, sk_seed, &at);
        let end = chain(p, pk_seed, layer, tree, keypair, i as u32, secret.as_slice(), 0, 15);
        assert(end@ == elems(i as int));
        append(&mut ends, end.as_slice());
        i += 1;
    }
    proof {
        lemma_wots_pk_len(*p, pk_seed@, sk_seed@, layer, tree, keypair);
        lemma_concat_blocks_len(elems, len as nat, p.n as nat);
        p.lemma_sizes();
    }
    let at = Adrs { layer, tree, kind: AdrsKind::WotsPk { keypair } };
    hash_h(p, pk_seed, &at, ends.as_slice())
}

/// The one-time signature of `msg` under key pair `keypair`.
pub fn wots_sign(
    p: &Params,
    pk_seed: &[u8],
    sk_seed: &[u8],
    layer: u32,
    tree: u64,
    keypair: u32,
    msg: &[u8],
) -> (sig: Vec<u8>)
    requires
        p.wf(),
        pk_seed@.len() == p.n,
        sk_seed@.len() == p.n,
        msg@.len() == p.n,
    ensures
        sig@ == spec_wots_sign(*p, pk_seed@, sk_seed@, layer, tree, keypair, msg@),
        sig@.len() == p.spec_wots_sig_bytes(),
{
    let len = p.wots_len();
    let digits = wots_digits(p, msg);
    let ghost elems = spec_wots_sig_elems(*p, pk_seed@, sk_seed@, layer, tree, keypair, msg@);
    let mut sig: Vec<u8> = Vec::with_capacity(len * p.n);
    let mut i: usize = 0;
    while i < len
        invariant
            i <= len == p.spec_wots_len(),
            p.wf(),
            pk_seed@.len() == p.n,
            sk_seed@.len() == p.n,
            digits@.len() == len,
            forall|j: int|
                0 <= j < len ==> digits@[j] == spec_wots_digit(*p, msg@, j) && digits@[j] <= 15,
            elems == spec_wots_sig_elems(*p, pk_seed@, sk_seed@, layer, tree, keypair, msg@),
            sig@ == concat_blocks(elems, i as nat),
        decreases len - i,
    {
        let at = Adrs { layer, tree, kind: AdrsKind::WotsPrf { keypair, chain: i as u32 } };
        let secret = prf(p, pk_seed, sk_seed, &at);
        let elem = chain(
            p,
            pk_seed,
            layer,
            tree,
            keypair,
            i as u32,
            secret.as_slice(),
            0,
            digits[i],
        );
        assert(elem@ == elems(i as int));
        append(&mut sig, elem.as_slice());
        i += 1;
    }
    proof {
        lemma_wots_sign_len(*p, pk_seed@, sk_seed@, layer, tree, keypair, msg@);
    }
    sig
}

/// The one-time public key that `sig` is a signature of `msg` under.
pub fn wots_pk_from_sig(
    p: &Params,
    pk_seed: &[u8],
    layer: u32,
    tree: u64,
    keypair: u32,
    sig: &[u8],
    msg: &[u8],
) -> (pk: Vec<u8>)
    requires
        p.wf(),
        pk_seed@.len() == p.n,
        sig@.len() == p.spec_wots_sig_bytes(),
        msg@.len() == p.n,
    ensures
        pk@ == spec_wots_pk_from_sig(*p, pk_seed@, layer, tree, keypair, sig@, msg@),
        pk@.len() == p.n,
{
    let len = p.wots_len();
    let n = p.n;
    let digits = wots_digits(p, msg);
    let ghost elems = spec_wots_recovered_elems(*p, pk_seed@, layer, tree, keypair, sig@, msg@);
    let mut ends: Vec<u8> = Vec::with_capacity(len * n);
    let mut i: usize = 0;
    let mut off: usize = 0;
    while i < len
        invariant
            i <= len == p.spec_wots_len(),
            n == p.n,
            off == i * n,
            p.wf(),
            pk_seed@.len() == p.n,
            sig@.len() == p.spec_wots_sig_bytes(),
            digits@.len() == len,
            forall|j: int|
                0 <= j < len ==> digits@[j] == spec_wots_digit(*p, msg@, j) && digits@[j] <= 15,
            elems == spec_wots_recovered_elems(*p, pk_seed@, layer, tree, keypair, sig@, msg@),
            ends@ == concat_blocks(elems, i as nat),
        decreases len - i,
    {
        proof {
            lemma_block_bounds(i as int, len as int, n as int);
        }
        let elem = vstd::slice::slice_subrange(sig, off, off + n);
        let digit = digits[i];
        let end = chain(p, pk_seed, layer, tree, keypair, i as u32, elem, digit, 15 - digit);
        assert(end@ == elems(i as int));
        append(&mut ends, end.as_slice());
        i += 1;
        off += n;
    }
    proof {
        lemma_wots_recover_len(*p, pk_seed@, layer, tree, keypair, sig@, msg@);
        lemma_concat_blocks_len(elems, len as nat, p.n as nat);
        p.lemma_sizes();
    }
    let at = Adrs { layer, tree, kind: AdrsKind::WotsPk { keypair } };
    hash_h(p, pk_seed, &at, ends.as_slice())
}

} // verus!
