//! Byte strings: integers in big-endian order, bit fields, and strings made
//! of blocks of one length.
use vstd::prelude::*;

verus! {

/// Two to the power `e`.
pub open spec fn spec_pow2(e: nat) -> nat
    decreases e,
{
    if e == 0 {
        1
    } else {
        2 * spec_pow2((e - 1) as nat)
    }
}

/// Powers of two grow with the exponent.
pub proof fn lemma_pow2_monotonic(a: nat, b: nat)
    requires
        a <= b,
    ensures
        1 <= spec_pow2(a) <= spec_pow2(b),
    decreases b,
{
    if a < b {
        lemma_pow2_monotonic(a, (b - 1) as nat);
    } else if a > 0 {
        lemma_pow2_monotonic((a - 1) as nat, (a - 1) as nat);
    }
}

/// Some powers of two.
pub proof fn lemma_pow2_values()
    ensures
        spec_pow2(4) == 16,
        spec_pow2(6) == 64,
        spec_pow2(8) == 0x100,
        spec_pow2(22) == 0x40_0000,
        spec_pow2(30) == 0x4000_0000,
        spec_pow2(16) == 0x10000,
        spec_pow2(32) == 0x1_0000_0000,
        spec_pow2(63) == 0x8000_0000_0000_0000,
        spec_pow2(64) == 0x1_0000_0000_0000_0000,
{
    reveal_with_fuel(spec_pow2, 9);
    assert(spec_pow2(4) == 16);
    assert(spec_pow2(6) == 64);
    assert(spec_pow2(8) == 0x100);
    assert(spec_pow2(16) == 0x10000);
    assert(spec_pow2(22) == 0x40_0000);
    assert(spec_pow2(24) == 0x1000000);
    assert(spec_pow2(30) == 0x4000_0000);
    assert(spec_pow2(32) == 0x1_0000_0000);
    assert(spec_pow2(40) == 0x100_0000_0000);
    assert(spec_pow2(48) == 0x1_0000_0000_0000);
    assert(spec_pow2(56) == 0x100_0000_0000_0000);
    assert(spec_pow2(63) == 0x8000_0000_0000_0000);
    assert(spec_pow2(64) == 0x1_0000_0000_0000_0000);
}

/// The product of two powers of two.
pub proof fn lemma_pow2_add(a: nat, b: nat)
    ensures
        spec_pow2(a + b) == spec_pow2(a) * spec_pow2(b),
    decreases b,
{
    if b > 0 {
        lemma_pow2_add(a, (b - 1) as nat);
        let (pa, pb) = (spec_pow2(a), spec_pow2((b - 1) as nat));
        assert(spec_pow2(a + b) == 2 * spec_pow2((a + b - 1) as nat));
        assert(spec_pow2(b) == 2 * pb);
        assert(2 * (pa * pb) == pa * (2 * pb)) by (nonlinear_arith);
    } else {
        assert(spec_pow2(a) * 1 == spec_pow2(a)) by (nonlinear_arith);
    }
}

/// Two to the power `e`.
pub fn pow2_u64(e: usize) -> (r: u64)
    requires
        e < 64,
    ensures
        r == spec_pow2(e as nat),
{
    let mut r: u64 = 1;
    let mut i: usize = 0;
    while i < e
        invariant
            i <= e < 64,
            r == spec_pow2(i as nat),
        decreases e - i,
    {
        proof {
            lemma_pow2_monotonic((i + 1) as nat, 63);
            lemma_pow2_values();
        }
        r = r * 2;
        i += 1;
    }
    r
}

/// The number that `b` holds, most significant byte first.
pub open spec fn spec_to_int(b: Seq<u8>) -> nat
    decreases b.len(),
{
    if b.len() == 0 {
        0
    } else {
        256 * spec_to_int(b.drop_last()) + b.last() as nat
    }
}

/// A number of `len` bytes is below two to the power `8 * len`.
pub proof fn lemma_to_int_bound(b: Seq<u8>)
    ensures
        spec_to_int(b) < spec_pow2(8 * b.len()),
    decreases b.len(),
{
    if b.len() > 0 {
        lemma_to_int_bound(b.drop_last());
        lemma_pow2_add((8 * (b.len() - 1)) as nat, 8);
        lemma_pow2_values();
        let hi = spec_to_int(b.drop_last());
        let cap = spec_pow2((8 * (b.len() - 1)) as nat);
        assert(256 * hi + 255 < cap * 256) by (nonlinear_arith)
            requires
                hi < cap,
        ;
    }
}

/// The number that at most eight bytes hold, most significant byte first.
pub fn be_to_u64(b: &[u8]) -> (v: u64)
    requires
        b@.len() <= 8,
    ensures
        v == spec_to_int(b@),
{
    let mut v: u64 = 0;
    let mut i: usize = 0;
    while i < b.len()
        invariant
            i <= b@.len() <= 8,
            v == spec_to_int(b@.take(i as int)),
        decreases b@.len() - i,
    {
        proof {
            let next = b@.take(i + 1);
            assert(next.drop_last() =~= b@.take(i as int));
            lemma_to_int_bound(next);
            lemma_pow2_monotonic(8 * (i + 1) as nat, 64);
            lemma_pow2_values();
        }
        v = v * 256 + b[i] as u64;
        i += 1;
    }
    assert(b@.take(b@.len() as int) =~= b@);
    v
}

/// Bit `t` of `x`, the most significant bit of each byte first.
pub open spec fn spec_bit(x: Seq<u8>, t: int) -> nat {
    ((x[t / 8] as nat) / spec_pow2((7 - t % 8) as nat)) % 2
}

/// The number that the `nbits` bits of `x` from bit `start` on hold, most
/// significant bit first.
pub open spec fn spec_bits_value(x: Seq<u8>, start: int, nbits: nat) -> nat
    decreases nbits,
{
    if nbits == 0 {
        0
    } else {
        2 * spec_bits_value(x, start, (nbits - 1) as nat) + spec_bit(x, start + nbits - 1)
    }
}

/// A field of `nbits` bits is below two to the power `nbits`.
pub proof fn lemma_bits_value_bound(x: Seq<u8>, start: int, nbits: nat)
    ensures
        spec_bits_value(x, start, nbits) < spec_pow2(nbits),
    decreases nbits,
{
    if nbits > 0 {
        lemma_bits_value_bound(x, start, (nbits - 1) as nat);
    }
}

/// The number that the `nbits` bits of `x` from bit `start` on hold.
pub fn bits_value(x: &[u8], start: usize, nbits: usize) -> (v: u32)
    requires
        nbits <= 31,
        start + nbits <= 8 * x@.len(),
        start + nbits <= usize::MAX,
    ensures
        v == spec_bits_value(x@, start as int, nbits as nat),
        v < spec_pow2(nbits as nat),
{
    let mut v: u32 = 0;
    let mut i: usize = 0;
    while i < nbits
        invariant
            i <= nbits <= 31,
            start + nbits <= 8 * x@.len(),
            start + nbits <= usize::MAX,
            v == spec_bits_value(x@, start as int, i as nat),
        decreases nbits - i,
    {
        let t = start + i;
        let weight = pow2_u64(7 - t % 8);
        proof {
            lemma_pow2_monotonic((7 - t % 8) as nat, 8);
            lemma_pow2_values();
            lemma_bits_value_bound(x@, start as int, i as nat);
            lemma_bits_value_bound(x@, start as int, (i + 1) as nat);
            lemma_pow2_monotonic((i + 1) as nat, 31);
            lemma_pow2_monotonic(31, 32);
        }
        let bit = ((x[t / 8] as u64) / weight) % 2;
        v = 2 * v + bit as u32;
        i += 1;
    }
    proof {
        lemma_bits_value_bound(x@, start as int, nbits as nat);
    }
    v
}

/// The four bytes of `x`, most significant first.
pub open spec fn spec_be32(x: u32) -> Seq<u8> {
    seq![
        (x / 0x1000000) as u8,
        (x / 0x10000 % 0x100) as u8,
        (x / 0x100 % 0x100) as u8,
        (x % 0x100) as u8,
    ]
}

/// The eight bytes of `x`, most significant first.
pub open spec fn spec_be64(x: u64) -> Seq<u8> {
    spec_be32((x / 0x1_0000_0000) as u32) + spec_be32((x % 0x1_0000_0000) as u32)
}

/// Different numbers have different bytes.
pub proof fn lemma_be32_injective(x: u32, y: u32)
    requires
        spec_be32(x) == spec_be32(y),
    ensures
        x == y,
{
    let (a, b) = (spec_be32(x), spec_be32(y));
    assert(a[0] == b[0] && a[1] == b[1] && a[2] == b[2] && a[3] == b[3]);
}

/// Different numbers have different bytes.
pub proof fn lemma_be64_injective(x: u64, y: u64)
    requires
        spec_be64(x) == spec_be64(y),
    ensures
        x == y,
{
    let (xh, xl) = ((x / 0x1_0000_0000) as u32, (x % 0x1_0000_0000) as u32);
    let (yh, yl) = ((y / 0x1_0000_0000) as u32, (y % 0x1_0000_0000) as u32);
    assert(spec_be32(xh) =~= spec_be64(x).subrange(0, 4));
    assert(spec_be32(yh) =~= spec_be64(y).subrange(0, 4));
    assert(spec_be32(xl) =~= spec_be64(x).subrange(4, 8));
    assert(spec_be32(yl) =~= spec_be64(y).subrange(4, 8));
    lemma_be32_injective(xh, yh);
    lemma_be32_injective(xl, yl);
}

/// Appends `part` to `buf`.
pub fn append(buf: &mut Vec<u8>, part: &[u8])
    ensures
        final(buf)@ == old(buf)@ + part@,
{
    buf.extend_from_slice(part);
    assert(buf@ =~= old(buf)@ + part@);
}

/// Appends `count` zero bytes to `buf`.
pub fn append_zeros(buf: &mut Vec<u8>, count: usize)
    ensures
        final(buf)@ == old(buf)@ + Seq::new(count as nat, |i: int| 0u8),
{
    let mut i: usize = 0;
    while i < count
        invariant
            i <= count,
            buf@ == old(buf)@ + Seq::new(i as nat, |i: int| 0u8),
        decreases count - i,
    {
        buf.push(0);
        i += 1;
        assert(buf@ =~= old(buf)@ + Seq::new(i as nat, |i: int| 0u8));
    }
}

/// Appends the four bytes of `x` to `buf`, most significant first.
pub fn append_be32(buf: &mut Vec<u8>, x: u32)
    ensures
        final(buf)@ == old(buf)@ + spec_be32(x),
{
    buf.push((x / 0x1000000) as u8);
    buf.push((x / 0x10000 % 0x100) as u8);
    buf.push((x / 0x100 % 0x100) as u8);
    buf.push((x % 0x100) as u8);
    assert(buf@ =~= old(buf)@ + spec_be32(x));
}

/// Appends the eight bytes of `x` to `buf`, most significant first.
pub fn append_be64(buf: &mut Vec<u8>, x: u64)
    ensures
        final(buf)@ == old(buf)@ + spec_be64(x),
{
    append_be32(buf, (x / 0x1_0000_0000) as u32);
    append_be32(buf, (x % 0x1_0000_0000) as u32);
    assert(buf@ =~= old(buf)@ + spec_be64(x));
}

/// Whether `a` and `b` hold the same bytes.
pub fn bytes_eq(a: &[u8], b: &[u8]) -> (same: bool)
    ensures
        same == (a@ == b@),
{
    if a.len() != b.len() {
        return false;
    }
    let mut diff: u8 = 0;
    let mut i: usize = 0;
    assert(a@.take(0) =~= b@.take(0));
    while i < a.len()
        invariant
            i <= a@.len(),
            a@.len() == b@.len(),
            diff == 0 <==> a@.take(i as int) == b@.take(i as int),
        decreases a@.len() - i,
    {
        let x = a[i];
        let y = b[i];
        proof {
            assert(a@.take(i + 1) =~= a@.take(i as int).push(x));
            assert(b@.take(i + 1) =~= b@.take(i as int).push(y));
            if x != y {
                assert(a@.take(i + 1)[i as int] != b@.take(i + 1)[i as int]);
            }
            if a@.take(i + 1) == b@.take(i + 1) {
                assert(a@.take(i as int) =~= a@.take(i + 1).take(i as int));
                assert(b@.take(i as int) =~= b@.take(i + 1).take(i as int));
            }
        }
        if x != y {
            diff = 1;
        }
        i += 1;
    }
    assert(a@.take(a@.len() as int) =~= a@);
    assert(b@.take(b@.len() as int) =~= b@);
    diff == 0
}

/// The blocks `f(0)`, .., `f(count - 1)` one after the other.
pub open spec fn concat_blocks(f: spec_fn(int) -> Seq<u8>, count: nat) -> Seq<u8>
    decreases count,
{
    if count == 0 {
        Seq::empty()
    } else {
        concat_blocks(f, (count - 1) as nat) + f(count - 1)
    }
}

/// `count` blocks of `n` bytes are `count * n` bytes.
pub proof fn lemma_concat_blocks_len(f: spec_fn(int) -> Seq<u8>, count: nat, n: nat)
    requires
        forall|i: int| 0 <= i < count ==> (#[trigger] f(i)).len() == n,
    ensures
        concat_blocks(f, count).len() == count * n,
    decreases count,
{
    if count > 0 {
        lemma_concat_blocks_len(f, (count - 1) as nat, n);
        assert(f(count - 1).len() == n);
        assert((count - 1) * n + n == count * n) by (nonlinear_arith);
    } else {
        assert(0 * n == 0) by (nonlinear_arith);
    }
}

/// Block `i` of the string stands at `i * n`.
pub proof fn lemma_concat_blocks_index(f: spec_fn(int) -> Seq<u8>, count: nat, n: nat, i: int)
    requires
        forall|j: int| 0 <= j < count ==> (#[trigger] f(j)).len() == n,
        0 <= i < count,
    ensures
        0 <= i * n,
        (i + 1) * n == i * n + n,
        (i + 1) * n <= concat_blocks(f, count).len(),
        concat_blocks(f, count).subrange(i * n, (i + 1) * n) == f(i),
    decreases count,
{
    lemma_concat_blocks_len(f, count, n);
    lemma_concat_blocks_len(f, (count - 1) as nat, n);
    assert((i + 1) * n == i * n + n) by (nonlinear_arith);
    assert(0 <= i * n && (i + 1) * n <= count * n) by (nonlinear_arith)
        requires
            0 <= i < count,
    ;
    if i == count - 1 {
        assert(concat_blocks(f, count).subrange(i * n, (i + 1) * n) =~= f(i));
    } else {
        lemma_concat_blocks_index(f, (count - 1) as nat, n, i);
        assert(concat_blocks(f, count).subrange(i * n, (i + 1) * n) =~= concat_blocks(
            f,
            (count - 1) as nat,
        ).subrange(i * n, (i + 1) * n));
    }
}

/// Strings of equal blocks are equal.
pub proof fn lemma_concat_blocks_equal(
    f: spec_fn(int) -> Seq<u8>,
    g: spec_fn(int) -> Seq<u8>,
    count: nat,
)
    requires
        forall|i: int| 0 <= i < count ==> #[trigger] f(i) == g(i),
    ensures
        concat_blocks(f, count) == concat_blocks(g, count),
    decreases count,
{
    if count > 0 {
        lemma_concat_blocks_equal(f, g, (count - 1) as nat);
    }
}

/// Where block `i` of `count` blocks of `n` bytes begins and ends.
pub proof fn lemma_block_bounds(i: int, count: int, n: int)
    requires
        0 <= i < count,
        0 <= n,
    ensures
        0 <= i * n,
        (i + 1) * n == i * n + n,
        i * n + n <= count * n,
{
    assert((i + 1) * n == i * n + n) by (nonlinear_arith);
    assert(0 <= i * n && (i + 1) * n <= count * n) by (nonlinear_arith)
        requires
            0 <= i < count,
            0 <= n,
    ;
}

/// The parts of a string made of three parts.
pub proof fn lemma_three_parts(a: Seq<u8>, b: Seq<u8>, c: Seq<u8>)
    ensures
        (a + b + c).len() == a.len() + b.len() + c.len(),
        (a + b + c).subrange(0, a.len() as int) == a,
        (a + b + c).subrange(a.len() as int, (a.len() + b.len()) as int) == b,
        (a + b + c).subrange((a.len() + b.len()) as int, (a.len() + b.len() + c.len()) as int)
            == c,
{
    let s = a + b + c;
    let (i, j, k) = (a.len() as int, (a.len() + b.len()) as int, s.len() as int);
    assert(s.subrange(0, i) =~= a);
    assert(s.subrange(i, j) =~= b);
    assert(s.subrange(j, k) =~= c);
}

/// The parts of a string made of four parts.
pub proof fn lemma_four_parts(a: Seq<u8>, b: Seq<u8>, c: Seq<u8>, d: Seq<u8>)
    ensures
        (a + b + c + d).len() == a.len() + b.len() + c.len() + d.len(),
        (a + b + c + d).subrange(0, a.len() as int) == a,
        (a + b + c + d).subrange(a.len() as int, (a.len() + b.len()) as int) == b,
        (a + b + c + d).subrange(
            (a.len() + b.len()) as int,
            (a.len() + b.len() + c.len()) as int,
        ) == c,
        (a + b + c + d).subrange(
            (a.len() + b.len() + c.len()) as int,
            (a.len() + b.len() + c.len() + d.len()) as int,
        ) == d,
{
    let s = a + b + c + d;
    let (i, j) = (a.len() as int, (a.len() + b.len()) as int);
    let (k, l) = ((a.len() + b.len() + c.len()) as int, s.len() as int);
    assert(s.subrange(0, i) =~= a);
    assert(s.subrange(i, j) =~= b);
    assert(s.subrange(j, k) =~= c);
    assert(s.subrange(k, l) =~= d);
}

/// The end and the beginning of a string made of two parts, cut within
/// the first part.
pub proof fn lemma_cut_in_first_part(a: Seq<u8>, b: Seq<u8>, at: int)
    requires
        0 <= at <= a.len(),
    ensures
        (a + b).subrange(0, at) == a.subrange(0, at),
        (a + b).subrange(at, (a.len() + b.len()) as int) == a.subrange(at, a.len() as int) + b,
{
    assert((a + b).subrange(0, at) =~= a.subrange(0, at));
    assert((a + b).subrange(at, (a.len() + b.len()) as int) =~= a.subrange(at, a.len() as int)
        + b);
}

} // verus!
