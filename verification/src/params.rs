//! Parameter sets: the numbers that fix key and signature sizes and the
//! shape of the hypertree.
use vstd::prelude::*;

verus! {

/// Winternitz parameter: the number of values of one digit.
pub const W: usize = 16;

/// Bits of one Winternitz digit.
pub const LG_W: usize = 4;

/// Digits that hold the checksum of a one-time signature.
pub const LEN2: usize = 3;

/// The hash functions that a parameter set is built on.
#[derive(Clone, Copy, PartialEq, Eq, Structural, Debug)]
pub enum HashFamily {
    /// SHA-256 and SHA-512.
    Sha2,
    /// SHAKE256.
    Shake,
}

/// One parameter set.
#[derive(Clone, Copy, PartialEq, Eq, Structural, Debug)]
pub struct Params {
    /// Bytes of one hash value.
    pub n: usize,
    /// Height of the hypertree.
    pub h: usize,
    /// Layers of the hypertree.
    pub d: usize,
    /// Height of one layer's trees, `h / d`.
    pub hp: usize,
    /// Height of one tree of the few-time signature.
    pub a: usize,
    /// Trees of the few-time signature.
    pub k: usize,
    /// Bytes of the message digest.
    pub m: usize,
    /// The hash functions used.
    pub family: HashFamily,
}

impl Params {
    /// Bytes of the digest that select the leaves of the few-time signature.
    pub open spec fn spec_md_bytes(&self) -> nat {
        ((self.k * self.a + 7) / 8) as nat
    }

    /// Bytes of the digest that select the tree of the bottom layer.
    pub open spec fn spec_tree_bytes(&self) -> nat {
        ((self.h - self.hp + 7) / 8) as nat
    }

    /// Bytes of the digest that select the leaf in that tree.
    pub open spec fn spec_leaf_bytes(&self) -> nat {
        ((self.hp + 7) / 8) as nat
    }

    /// The sets that the algorithms are defined for: the hash length is one
    /// of 16, 24 and 32 bytes, the hypertree has `d` layers of height `hp`,
    /// its tree index fits in 64 bits, and the digest is as long as its
    /// three parts together.
    pub open spec fn wf(&self) -> bool {
        &&& (self.n == 16 || self.n == 24 || self.n == 32)
        &&& 1 <= self.d <= 32
        &&& 1 <= self.hp <= 16
        &&& self.h == self.d * self.hp
        &&& self.h - self.hp <= 64
        &&& 1 <= self.a <= 16
        &&& 1 <= self.k <= 64
        &&& self.m == self.spec_md_bytes() + self.spec_tree_bytes() + self.spec_leaf_bytes()
    }

    /// Chains of one one-time signature: two digits for each byte of the
    /// message and three for the checksum.
    pub open spec fn spec_wots_len(&self) -> nat {
        (2 * self.n + LEN2) as nat
    }

    /// Bytes of a one-time signature.
    pub open spec fn spec_wots_sig_bytes(&self) -> nat {
        (self.spec_wots_len() * self.n) as nat
    }

    /// Bytes of a few-time signature: for each tree a secret value and an
    /// authentication path.
    pub open spec fn spec_fors_sig_bytes(&self) -> nat {
        (self.k * ((self.a + 1) * self.n)) as nat
    }

    /// Bytes of the signature of one layer: a one-time signature and an
    /// authentication path.
    pub open spec fn spec_xmss_sig_bytes(&self) -> nat {
        ((self.spec_wots_len() + self.hp) * self.n) as nat
    }

    /// Bytes of a hypertree signature.
    pub open spec fn spec_ht_sig_bytes(&self) -> nat {
        (self.d * self.spec_xmss_sig_bytes()) as nat
    }

    /// Bytes of a signature: the randomizer, the few-time signature and the
    /// hypertree signature.
    pub open spec fn spec_sig_bytes(&self) -> nat {
        (self.n + self.spec_fors_sig_bytes() + self.spec_ht_sig_bytes()) as nat
    }

    /// Bytes of a public key.
    pub open spec fn spec_pk_bytes(&self) -> nat {
        (2 * self.n) as nat
    }

    /// Bytes of a secret key.
    pub open spec fn spec_sk_bytes(&self) -> nat {
        (4 * self.n) as nat
    }

    /// What `wf` bounds: no size is beyond 120,000 bytes.
    pub proof fn lemma_sizes(&self)
        requires
            self.wf(),
        ensures
            self.spec_wots_len() <= 67,
            self.spec_wots_sig_bytes() <= 2144,
            self.k * self.a <= 1024,
            self.spec_md_bytes() <= 128,
            1 <= self.spec_leaf_bytes() <= 2,
            self.spec_tree_bytes() <= 8,
            self.m <= 138,
            self.hp <= self.h <= 80,
            (self.a + 1) * self.n <= 544,
            self.spec_fors_sig_bytes() <= 34816,
            self.spec_xmss_sig_bytes() <= 2656,
            self.spec_ht_sig_bytes() <= 84992,
            self.spec_sig_bytes() <= 119840,
            self.spec_sig_bytes() == self.n * (1 + self.k * (1 + self.a) + self.h + self.d
                * self.spec_wots_len()),
    {
        let (n, k, a, d, hp) = (
            self.n as int,
            self.k as int,
            self.a as int,
            self.d as int,
            self.hp as int,
        );
        let len = self.spec_wots_len() as int;
        let x = self.spec_xmss_sig_bytes() as int;
        assert(k * a <= 1024 && k * a >= 1) by (nonlinear_arith)
            requires
                1 <= k <= 64,
                1 <= a <= 16,
        ;
        assert((a + 1) * n <= 544 && (a + 1) * n >= 0) by (nonlinear_arith)
            requires
                1 <= a <= 16,
                0 <= n <= 32,
        ;
        assert(k * ((a + 1) * n) <= 34816) by (nonlinear_arith)
            requires
                1 <= k <= 64,
                0 <= (a + 1) * n <= 544,
        ;
        assert(x == (len + hp) * n);
        assert(x <= 2656 && x >= 0) by (nonlinear_arith)
            requires
                x == (len + hp) * n,
                0 <= len <= 67,
                1 <= hp <= 16,
                0 <= n <= 32,
        ;
        assert(d * x <= 84992) by (nonlinear_arith)
            requires
                1 <= d <= 32,
                0 <= x <= 2656,
        ;
        assert(hp <= d * hp <= 80) by (nonlinear_arith)
            requires
                1 <= d <= 32,
                1 <= hp <= 16,
                d * hp - hp <= 64,
        ;
        assert(n + k * ((a + 1) * n) + d * ((len + hp) * n) == n * (1 + k * (1 + a) + d * hp + d
            * len)) by (nonlinear_arith);
    }

    /// Chains of one one-time signature.
    pub fn wots_len(&self) -> (len: usize)
        requires
            self.wf(),
        ensures
            len == self.spec_wots_len(),
    {
        2 * self.n + LEN2
    }

    /// Bytes of the digest that select the leaves of the few-time signature.
    pub fn md_bytes(&self) -> (len: usize)
        requires
            self.wf(),
        ensures
            len == self.spec_md_bytes(),
    {
        proof {
            self.lemma_sizes();
        }
        (self.k * self.a + 7) / 8
    }

    /// Bytes of the digest that select the tree of the bottom layer.
    pub fn tree_bytes(&self) -> (len: usize)
        requires
            self.wf(),
        ensures
            len == self.spec_tree_bytes(),
    {
        proof {
            self.lemma_sizes();
        }
        (self.h - self.hp + 7) / 8
    }

    /// Bytes of the digest that select the leaf in that tree.
    pub fn leaf_bytes(&self) -> (len: usize)
        requires
            self.wf(),
        ensures
            len == self.spec_leaf_bytes(),
    {
        (self.hp + 7) / 8
    }

    /// Bytes of a few-time signature.
    pub fn fors_sig_bytes(&self) -> (len: usize)
        requires
            self.wf(),
        ensures
            len == self.spec_fors_sig_bytes(),
    {
        proof {
            self.lemma_sizes();
        }
        self.k * ((self.a + 1) * self.n)
    }

    /// Bytes of the signature of one layer.
    pub fn xmss_sig_bytes(&self) -> (len: usize)
        requires
            self.wf(),
        ensures
            len == self.spec_xmss_sig_bytes(),
    {
        proof {
            self.lemma_sizes();
        }
        (self.wots_len() + self.hp) * self.n
    }

    /// Bytes of a hypertree signature.
    pub fn ht_sig_bytes(&self) -> (len: usize)
        requires
            self.wf(),
        ensures
            len == self.spec_ht_sig_bytes(),
    {
        proof {
            self.lemma_sizes();
        }
        self.d * self.xmss_sig_bytes()
    }

    /// Bytes of a signature.
    pub fn sig_bytes(&self) -> (len: usize)
        requires
            self.wf(),
        ensures
            len == self.spec_sig_bytes(),
    {
        proof {
            self.lemma_sizes();
        }
        self.n + self.fors_sig_bytes() + self.ht_sig_bytes()
    }

    /// Bytes of a public key.
    pub fn pk_bytes(&self) -> (len: usize)
        requires
            self.wf(),
        ensures
            len == self.spec_pk_bytes(),
    {
        2 * self.n
    }

    /// Bytes of a secret key.
    pub fn sk_bytes(&self) -> (len: usize)
        requires
            self.wf(),
        ensures
            len == self.spec_sk_bytes(),
    {
        4 * self.n
    }
}

impl Params {
    /// The six shapes of the standard: for each of the hash lengths 16, 24
    /// and 32 one with small signatures and one with fast signing.
    pub open spec fn is_standard(&self) -> bool {
        ||| (self.n == 16 && self.h == 63 && self.d == 7 && self.hp == 9
            && self.a == 12 && self.k == 14 && self.m == 30)
        ||| (self.n == 16 && self.h == 66 && self.d == 22 && self.hp == 3
            && self.a == 6 && self.k == 33 && self.m == 34)
        ||| (self.n == 24 && self.h == 63 && self.d == 7 && self.hp == 9
            && self.a == 14 && self.k == 17 && self.m == 39)
        ||| (self.n == 24 && self.h == 66 && self.d == 22 && self.hp == 3
            && self.a == 8 && self.k == 33 && self.m == 42)
        ||| (self.n == 32 && self.h == 64 && self.d == 8 && self.hp == 8
            && self.a == 14 && self.k == 22 && self.m == 47)
        ||| (self.n == 32 && self.h == 68 && self.d == 17 && self.hp == 4
            && self.a == 9 && self.k == 35 && self.m == 49)
    }

    /// The standard sets are sets that the algorithms are defined for.
    pub proof fn lemma_standard_wf(&self)
        requires
            self.is_standard(),
        ensures
            self.wf(),
    {
    }

    /// Whether the set is one with fast signing: one with low trees.
    pub open spec fn spec_is_fast(&self) -> bool {
        self.hp <= 4
    }
}

/// The name of a standard set.
pub open spec fn spec_algorithm_id(p: Params) -> Seq<char> {
    match p.family {
        HashFamily::Sha2 => if p.n == 16 {
            if p.spec_is_fast() {
                "SLH-DSA-SHA2-128f"@
            } else {
                "SLH-DSA-SHA2-128s"@
            }
        } else if p.n == 24 {
            if p.spec_is_fast() {
                "SLH-DSA-SHA2-192f"@
            } else {
                "SLH-DSA-SHA2-192s"@
            }
        } else {
            if p.spec_is_fast() {
                "SLH-DSA-SHA2-256f"@
            } else {
                "SLH-DSA-SHA2-256s"@
            }
        },
        HashFamily::Shake => if p.n == 16 {
            if p.spec_is_fast() {
                "SLH-DSA-SHAKE-128f"@
            } else {
                "SLH-DSA-SHAKE-128s"@
            }
        } else if p.n == 24 {
            if p.spec_is_fast() {
                "SLH-DSA-SHAKE-192f"@
            } else {
                "SLH-DSA-SHAKE-192s"@
            }
        } else {
            if p.spec_is_fast() {
                "SLH-DSA-SHAKE-256f"@
            } else {
                "SLH-DSA-SHAKE-256s"@
            }
        },
    }
}

/// The name of a standard set.
pub fn algorithm_id(p: &Params) -> (id: &'static str)
    requires
        p.is_standard(),
    ensures
        id@ == spec_algorithm_id(*p),
{
    let fast = p.hp <= 4;
    match p.family {
        HashFamily::Sha2 => if p.n == 16 {
            if fast {
                "SLH-DSA-SHA2-128f"
            } else {
                "SLH-DSA-SHA2-128s"
            }
        } else if p.n == 24 {
            if fast {
                "SLH-DSA-SHA2-192f"
            } else {
                "SLH-DSA-SHA2-192s"
            }
        } else {
            if fast {
                "SLH-DSA-SHA2-256f"
            } else {
                "SLH-DSA-SHA2-256s"
            }
        },
        HashFamily::Shake => if p.n == 16 {
            if fast {
                "SLH-DSA-SHAKE-128f"
            } else {
                "SLH-DSA-SHAKE-128s"
            }
        } else if p.n == 24 {
            if fast {
                "SLH-DSA-SHAKE-192f"
            } else {
                "SLH-DSA-SHAKE-192s"
            }
        } else {
            if fast {
                "SLH-DSA-SHAKE-256f"
            } else {
                "SLH-DSA-SHAKE-256s"
            }
        },
    }
}


} // verus!
