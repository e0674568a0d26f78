//! Little-endian decoding of byte sequences.

use vstd::prelude::*;

verus! {

/// Little-endian value of a byte sequence (first byte least significant).
pub open spec fn le_nat(s: Seq<u8>) -> nat
    decreases s.len(),
{
    if s.len() == 0 {
        0
    } else {
        s[0] as nat + 256 * le_nat(s.drop_first())
    }
}

/// 256 to the power `n`.
pub open spec fn pow256(n: nat) -> nat
    decreases n,
{
    if n == 0 {
        1
    } else {
        256 * pow256((n - 1) as nat)
    }
}

/// The little-endian value of `n` bytes is below `256^n`.
pub proof fn lemma_le_nat_bound(s: Seq<u8>)
    ensures
        le_nat(s) < pow256(s.len()),
    decreases s.len(),
{
    if s.len() > 0 {
        lemma_le_nat_bound(s.drop_first());
        assert(le_nat(s) < pow256(s.len())) by (nonlinear_arith)
            requires
                le_nat(s) == s[0] as nat + 256 * le_nat(s.drop_first()),
                le_nat(s.drop_first()) < pow256(s.drop_first().len()),
                pow256(s.len()) == 256 * pow256(s.drop_first().len()),
                s[0] < 256,
        ;
    }
}

/// Splitting a byte sequence splits its little-endian value.
pub proof fn lemma_le_nat_split(s: Seq<u8>, n: int)
    requires
        0 <= n <= s.len(),
    ensures
        le_nat(s) == le_nat(s.subrange(0, n)) + pow256(n as nat) * le_nat(s.subrange(n, s.len() as int)),
    decreases n,
{
    if n == 0 {
        assert(s.subrange(0, 0) =~= Seq::<u8>::empty());
        assert(s.subrange(0, s.len() as int) =~= s);
        assert(le_nat(s.subrange(0, 0)) == 0);
        assert(pow256(0) == 1);
        assert(1 * le_nat(s) == le_nat(s));
    } else {
        let t = s.drop_first();
        lemma_le_nat_split(t, n - 1);
        assert(t.subrange(0, n - 1) =~= s.subrange(0, n).drop_first());
        assert(t.subrange(n - 1, t.len() as int) =~= s.subrange(n, s.len() as int));
        let a = le_nat(t.subrange(0, n - 1));
        let b = le_nat(s.subrange(n, s.len() as int));
        let p = pow256((n - 1) as nat);
        assert(pow256(n as nat) == 256 * p);
        assert(s.subrange(0, n)[0] == s[0]);
        assert(le_nat(s.subrange(0, n)) == s[0] as nat + 256 * a);
        assert(le_nat(s) == s[0] as nat + 256 * le_nat(t));
        assert(s[0] as nat + 256 * (a + p * b) == (s[0] as nat + 256 * a) + (256 * p) * b)
            by (nonlinear_arith);
        assert(le_nat(t) == a + p * b);
    }
}

/// Reads `len` bytes at `off` as a little-endian unsigned number.
pub fn read_le(data: &[u8], off: usize, len: usize) -> (v: u64)
    requires
        len <= 8,
        off + len <= data@.len(),
    ensures
        v as nat == le_nat(data@.subrange(off as int, off + len)),
{
    let total = data.len();
    let mut acc: u64 = 0;
    let mut i: usize = len;
    proof {
        assert(data@.subrange(off + len, off + len) =~= Seq::<u8>::empty());
        reveal_with_fuel(pow256, 9);
    }
    while i > 0
        invariant
            i <= len <= 8,
            off + len <= data@.len(),
            total == data@.len(),
            acc as nat == le_nat(data@.subrange(off + i, off + len)),
            pow256(8) == 0x1_0000_0000_0000_0000,
        decreases i,
    {
        let ghost rest = data@.subrange(off + i, off + len);
        proof {
            lemma_le_nat_bound(rest);
            lemma_pow256_mono((len - i) as nat, 7);
        }
        i = i - 1;
        let b = data[off + i];
        let ghost cur = data@.subrange(off + i, off + len);
        proof {
            assert(cur.drop_first() =~= rest);
            assert(acc * 256 + b < 0x1_0000_0000_0000_0000) by (nonlinear_arith)
                requires
                    acc < pow256((len - i - 1) as nat),
                    pow256((len - i - 1) as nat) <= pow256(7),
                    pow256(8) == 256 * pow256(7),
                    pow256(8) == 0x1_0000_0000_0000_0000,
                    b < 256,
            ;
        }
        acc = acc * 256 + b as u64;
    }
    acc
}

/// Reads a little-endian `u16` at `off`.
pub fn read_u16_le(data: &[u8], off: usize) -> (v: u16)
    requires
        off + 2 <= data@.len(),
    ensures
        v as nat == le_nat(data@.subrange(off as int, off + 2)),
{
    let w = read_le(data, off, 2);
    proof {
        lemma_le_nat_bound(data@.subrange(off as int, off + 2));
        reveal_with_fuel(pow256, 3);
    }
    w as u16
}

/// Reads a little-endian `u32` at `off`.
pub fn read_u32_le(data: &[u8], off: usize) -> (v: u32)
    requires
        off + 4 <= data@.len(),
    ensures
        v as nat == le_nat(data@.subrange(off as int, off + 4)),
{
    let w = read_le(data, off, 4);
    proof {
        lemma_le_nat_bound(data@.subrange(off as int, off + 4));
        reveal_with_fuel(pow256, 5);
    }
    w as u32
}

/// `pow256` grows with its exponent.
pub proof fn lemma_pow256_mono(a: nat, b: nat)
    requires
        a <= b,
    ensures
        pow256(a) <= pow256(b),
    decreases b,
{
    if a < b {
        lemma_pow256_mono(a, (b - 1) as nat);
    }
}

/// Copies `N` bytes starting at `off`.
pub fn copy_bytes<const N: usize>(data: &[u8], off: usize) -> (a: [u8; N])
    requires
        off + N <= data@.len(),
    ensures
        a@ == data@.subrange(off as int, off + N),
{
    let total = data.len();
    let mut a: [u8; N] = [0u8; N];
    let mut i: usize = 0;
    while i < N
        invariant
            i <= N,
            off + N <= data@.len(),
            total == data@.len(),
            a@.len() == N,
            forall|j: int| 0 <= j < i ==> a@[j] == data@[off + j],
        decreases N - i,
    {
        a[i] = data[off + i];
        i = i + 1;
    }
    assert(a@ =~= data@.subrange(off as int, off + N));
    a
}

} // verus!
