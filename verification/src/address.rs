//! Addresses: the place of a hash call in the hypertree and in the
//! few-time signature. Every call of a tweakable hash takes the address of
//! the value it computes, so that no two calls share their input.
use vstd::prelude::*;
use crate::bytes::{
    append_be32, append_be64, lemma_be32_injective, lemma_be64_injective, spec_be32, spec_be64,
};

verus! {

/// What an address points at, with the indices that have a meaning there.
#[derive(Clone, Copy, PartialEq, Eq, Structural, Debug)]
pub enum AdrsKind {
    /// A step of a chain of a one-time signature.
    WotsHash { keypair: u32, chain: u32, hash: u32 },
    /// The compression of a one-time public key.
    WotsPk { keypair: u32 },
    /// A node of a tree of one-time keys.
    Tree { height: u32, index: u32 },
    /// A node of a tree of the few-time signature.
    ForsTree { keypair: u32, height: u32, index: u32 },
    /// The compression of the roots of the few-time signature.
    ForsRoots { keypair: u32 },
    /// A secret value of a one-time signature.
    WotsPrf { keypair: u32, chain: u32 },
    /// A secret value of the few-time signature.
    ForsPrf { keypair: u32, index: u32 },
}

/// An address: the layer, the tree in that layer, and what is addressed in
/// that tree.
#[derive(Clone, Copy, PartialEq, Eq, Structural, Debug)]
pub struct Adrs {
    pub layer: u32,
    pub tree: u64,
    pub kind: AdrsKind,
}

impl AdrsKind {
    /// The number that stands for the kind in an encoded address.
    pub open spec fn spec_type_code(&self) -> u32 {
        match self {
            AdrsKind::WotsHash { .. } => 0,
            AdrsKind::WotsPk { .. } => 1,
            AdrsKind::Tree { .. } => 2,
            AdrsKind::ForsTree { .. } => 3,
            AdrsKind::ForsRoots { .. } => 4,
            AdrsKind::WotsPrf { .. } => 5,
            AdrsKind::ForsPrf { .. } => 6,
        }
    }

    /// The three words that follow the kind: the key pair; the chain or the
    /// height; the step or the index. A word without meaning is zero.
    pub open spec fn spec_words(&self) -> (u32, u32, u32) {
        match self {
            AdrsKind::WotsHash { keypair, chain, hash } => (*keypair, *chain, *hash),
            AdrsKind::WotsPk { keypair } => (*keypair, 0, 0),
            AdrsKind::Tree { height, index } => (0, *height, *index),
            AdrsKind::ForsTree { keypair, height, index } => (*keypair, *height, *index),
            AdrsKind::ForsRoots { keypair } => (*keypair, 0, 0),
            AdrsKind::WotsPrf { keypair, chain } => (*keypair, *chain, 0),
            AdrsKind::ForsPrf { keypair, index } => (*keypair, 0, *index),
        }
    }

    /// The number that stands for the kind in an encoded address.
    pub fn type_code(&self) -> (code: u32)
        ensures
            code == self.spec_type_code(),
            code <= 6,
    {
        match self {
            AdrsKind::WotsHash { .. } => 0,
            AdrsKind::WotsPk { .. } => 1,
            AdrsKind::Tree { .. } => 2,
            AdrsKind::ForsTree { .. } => 3,
            AdrsKind::ForsRoots { .. } => 4,
            AdrsKind::WotsPrf { .. } => 5,
            AdrsKind::ForsPrf { .. } => 6,
        }
    }

    /// The three words that follow the kind.
    pub fn words(&self) -> (w: (u32, u32, u32))
        ensures
            w == self.spec_words(),
    {
        match self {
            AdrsKind::WotsHash { keypair, chain, hash } => (*keypair, *chain, *hash),
            AdrsKind::WotsPk { keypair } => (*keypair, 0, 0),
            AdrsKind::Tree { height, index } => (0, *height, *index),
            AdrsKind::ForsTree { keypair, height, index } => (*keypair, *height, *index),
            AdrsKind::ForsRoots { keypair } => (*keypair, 0, 0),
            AdrsKind::WotsPrf { keypair, chain } => (*keypair, *chain, 0),
            AdrsKind::ForsPrf { keypair, index } => (*keypair, 0, *index),
        }
    }

    /// The kind is known from its number and its three words.
    pub proof fn lemma_code_and_words_injective(a: AdrsKind, b: AdrsKind)
        requires
            a.spec_type_code() == b.spec_type_code(),
            a.spec_words() == b.spec_words(),
        ensures
            a == b,
    {
    }
}

impl Adrs {
    /// The address in 32 bytes: the layer in four bytes, the tree in twelve,
    /// the kind in four, and three words of four bytes each.
    pub open spec fn spec_bytes(&self) -> Seq<u8> {
        let w = self.kind.spec_words();
        spec_be32(self.layer) + spec_be32(0) + spec_be64(self.tree) + spec_be32(
            self.kind.spec_type_code(),
        ) + spec_be32(w.0) + spec_be32(w.1) + spec_be32(w.2)
    }

    /// The address in 22 bytes: the lowest byte of the layer, the lowest
    /// eight of the tree, the lowest of the kind, and the three words.
    pub open spec fn spec_compressed(&self) -> Seq<u8> {
        let w = self.kind.spec_words();
        seq![(self.layer % 0x100) as u8] + spec_be64(self.tree) + seq![
            self.kind.spec_type_code() as u8,
        ] + spec_be32(w.0) + spec_be32(w.1) + spec_be32(w.2)
    }

    /// Appends the address in 32 bytes.
    pub fn append_bytes(&self, buf: &mut Vec<u8>)
        ensures
            final(buf)@ == old(buf)@ + self.spec_bytes(),
    {
        let w = self.kind.words();
        append_be32(buf, self.layer);
        append_be32(buf, 0);
        append_be64(buf, self.tree);
        append_be32(buf, self.kind.type_code());
        append_be32(buf, w.0);
        append_be32(buf, w.1);
        append_be32(buf, w.2);
        assert(buf@ =~= old(buf)@ + self.spec_bytes());
    }

    /// Appends the address in 22 bytes.
    pub fn append_compressed(&self, buf: &mut Vec<u8>)
        ensures
            final(buf)@ == old(buf)@ + self.spec_compressed(),
    {
        let w = self.kind.words();
        buf.push((self.layer % 0x100) as u8);
        append_be64(buf, self.tree);
        buf.push(self.kind.type_code() as u8);
        append_be32(buf, w.0);
        append_be32(buf, w.1);
        append_be32(buf, w.2);
        assert(buf@ =~= old(buf)@ + self.spec_compressed());
    }

    /// The two encodings have 32 and 22 bytes.
    pub proof fn lemma_len(&self)
        ensures
            self.spec_bytes().len() == 32,
            self.spec_compressed().len() == 22,
    {
    }

    /// Different addresses differ in their 32 bytes.
    pub proof fn lemma_bytes_injective(a: Adrs, b: Adrs)
        requires
            a.spec_bytes() == b.spec_bytes(),
        ensures
            a == b,
    {
        let (x, y) = (a.spec_bytes(), b.spec_bytes());
        let (wa, wb) = (a.kind.spec_words(), b.kind.spec_words());
        assert(spec_be32(a.layer) =~= x.subrange(0, 4));
        assert(spec_be32(b.layer) =~= y.subrange(0, 4));
        assert(spec_be64(a.tree) =~= x.subrange(8, 16));
        assert(spec_be64(b.tree) =~= y.subrange(8, 16));
        assert(spec_be32(a.kind.spec_type_code()) =~= x.subrange(16, 20));
        assert(spec_be32(b.kind.spec_type_code()) =~= y.subrange(16, 20));
        assert(spec_be32(wa.0) =~= x.subrange(20, 24));
        assert(spec_be32(wb.0) =~= y.subrange(20, 24));
        assert(spec_be32(wa.1) =~= x.subrange(24, 28));
        assert(spec_be32(wb.1) =~= y.subrange(24, 28));
        assert(spec_be32(wa.2) =~= x.subrange(28, 32));
        assert(spec_be32(wb.2) =~= y.subrange(28, 32));
        lemma_be32_injective(a.layer, b.layer);
        lemma_be64_injective(a.tree, b.tree);
        lemma_be32_injective(a.kind.spec_type_code(), b.kind.spec_type_code());
        lemma_be32_injective(wa.0, wb.0);
        lemma_be32_injective(wa.1, wb.1);
        lemma_be32_injective(wa.2, wb.2);
        AdrsKind::lemma_code_and_words_injective(a.kind, b.kind);
    }

    /// Different addresses in layers below 256 differ in their 22 bytes.
    pub proof fn lemma_compressed_injective(a: Adrs, b: Adrs)
        requires
            a.layer < 256,
            b.layer < 256,
            a.spec_compressed() == b.spec_compressed(),
        ensures
            a == b,
    {
        let (x, y) = (a.spec_compressed(), b.spec_compressed());
        let (wa, wb) = (a.kind.spec_words(), b.kind.spec_words());
        assert(x[0] == y[0]);
        assert(x[9] == y[9]);
        assert(spec_be64(a.tree) =~= x.subrange(1, 9));
        assert(spec_be64(b.tree) =~= y.subrange(1, 9));
        assert(spec_be32(wa.0) =~= x.subrange(10, 14));
        assert(spec_be32(wb.0) =~= y.subrange(10, 14));
        assert(spec_be32(wa.1) =~= x.subrange(14, 18));
        assert(spec_be32(wb.1) =~= y.subrange(14, 18));
        assert(spec_be32(wa.2) =~= x.subrange(18, 22));
        assert(spec_be32(wb.2) =~= y.subrange(18, 22));
        lemma_be64_injective(a.tree, b.tree);
        lemma_be32_injective(wa.0, wb.0);
        lemma_be32_injective(wa.1, wb.1);
        lemma_be32_injective(wa.2, wb.2);
        AdrsKind::lemma_code_and_words_injective(a.kind, b.kind);
    }
}

} // verus!
