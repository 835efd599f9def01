//! Big-endian unsigned integers over byte sequences.

use vstd::arithmetic::div_mod::{lemma_div_denominator, lemma_fundamental_div_mod};
use vstd::prelude::*;

verus! {

/// 256 to the power `w`.
pub open spec fn pow256(w: nat) -> nat
    decreases w,
{
    if w == 0 {
        1
    } else {
        256 * pow256((w - 1) as nat)
    }
}

/// The unsigned integer that `s` holds, most significant byte first.
pub open spec fn be_value(s: Seq<u8>) -> nat
    decreases s.len(),
{
    if s.len() == 0 {
        0
    } else {
        be_value(s.drop_last()) * 256 + s.last() as nat
    }
}

/// The `w` bytes that hold `n` (modulo `256^w`), most significant byte first.
pub open spec fn be_bytes(n: nat, w: nat) -> Seq<u8> {
    Seq::new(w, |k: int| ((n / pow256((w - 1 - k) as nat)) % 256) as u8)
}

pub proof fn lemma_pow256_positive(w: nat)
    ensures
        pow256(w) > 0,
    decreases w,
{
    if w > 0 {
        lemma_pow256_positive((w - 1) as nat);
    }
}

pub proof fn lemma_pow256_values()
    ensures
        pow256(2) == 0x1_0000,
        pow256(4) == 0x1_0000_0000,
        pow256(8) == 0x1_0000_0000_0000_0000,
{
    reveal_with_fuel(pow256, 9);
}

/// A value below `256^len` is bounded by the length of its bytes.
pub proof fn lemma_be_value_bound(s: Seq<u8>)
    ensures
        be_value(s) < pow256(s.len()),
    decreases s.len(),
{
    if s.len() > 0 {
        let p = s.drop_last();
        lemma_be_value_bound(p);
        let x = be_value(p);
        let b = s.last() as int;
        let q = pow256(p.len()) as int;
        assert(x * 256 + b < q * 256) by (nonlinear_arith)
            requires
                x < q,
                0 <= b < 256,
        ;
    }
}

/// Reading back the bytes written for `n` gives `n`.
pub proof fn lemma_be_round_trip(n: nat, w: nat)
    requires
        n < pow256(w),
    ensures
        be_value(be_bytes(n, w)) == n,
    decreases w,
{
    if w > 0 {
        let wp = (w - 1) as nat;
        lemma_pow256_positive(wp);
        let s = be_bytes(n, w);
        let t = be_bytes(n / 256, wp);
        assert forall|k: int| 0 <= k < wp implies #[trigger] s.drop_last()[k] == t[k] by {
            lemma_pow256_positive((wp - 1 - k) as nat);
            lemma_div_denominator(n as int, 256, pow256((wp - 1 - k) as nat) as int);
            assert(pow256((w - 1 - k) as nat) == 256 * pow256((wp - 1 - k) as nat));
        }
        assert(s.drop_last() =~= t);
        assert(s.last() == n % 256) by {
            assert(pow256(0) == 1);
            assert(n / 1 == n);
            assert(s[w - 1] == ((n / pow256(0)) % 256) as u8);
        }
        let q = pow256(wp) as int;
        assert((n / 256) < q) by (nonlinear_arith)
            requires
                n < 256 * q,
        ;
        lemma_be_round_trip(n / 256, wp);
        lemma_fundamental_div_mod(n as int, 256);
    }
}

/// Reads the big-endian integer held by `buf[start..start + w]`.
pub fn read_be(buf: &Vec<u8>, start: usize, w: usize) -> (r: u64)
    requires
        w <= 8,
        start + w <= buf@.len(),
    ensures
        r as nat == be_value(buf@.subrange(start as int, start + w)),
{
    let total = buf.len();
    let mut acc: u64 = 0;
    let mut i: usize = 0;
    proof {
        lemma_pow256_values();
        assert(buf@.subrange(start as int, start as int) =~= Seq::<u8>::empty());
    }
    while i < w
        invariant
            w <= 8,
            start + w <= buf@.len(),
            total == buf@.len(),
            i <= w,
            total == buf@.len(),
            acc as nat == be_value(buf@.subrange(start as int, start + i)),
            pow256(8) == 0x1_0000_0000_0000_0000,
        decreases w - i,
    {
        let ghost s = buf@.subrange(start as int, start + i + 1);
        proof {
            assert(s.drop_last() =~= buf@.subrange(start as int, start + i));
            lemma_be_value_bound(s);
            lemma_pow256_mono(s.len(), 8);
            assert(s.last() == buf@[start + i]);
            assert(be_value(s) == acc * 256 + buf@[start + i]);
        }
        acc = acc * 256 + buf[start + i] as u64;
        i = i + 1;
    }
    acc
}

pub proof fn lemma_pow256_mono(a: nat, b: nat)
    requires
        a <= b,
    ensures
        pow256(a) <= pow256(b),
    decreases b,
{
    if a < b {
        lemma_pow256_mono(a, (b - 1) as nat);
        lemma_pow256_positive((b - 1) as nat);
    }
}

/// Writes the `w` big-endian bytes of `n` into `buf[start..start + w]`,
/// leaving every other byte as it was.
pub fn write_be(buf: &mut Vec<u8>, start: usize, w: usize, n: u64)
    requires
        w <= 8,
        start + w <= old(buf)@.len(),
    ensures
        final(buf)@.len() == old(buf)@.len(),
        final(buf)@ == old(buf)@.subrange(0, start as int) + be_bytes(n as nat, w as nat)
            + old(buf)@.subrange(start + w, old(buf)@.len() as int),
{
    let ghost b0 = buf@;
    let ghost target = be_bytes(n as nat, w as nat);
    let total = buf.len();
    let mut x: u64 = n;
    let mut j: usize = w;
    proof {
        assert(pow256(0) == 1);
        assert(n as nat / 1 == n as nat);
    }
    while j > 0
        invariant
            w <= 8,
            start + w <= b0.len(),
            start + w <= buf@.len(),
            total == buf@.len(),
            j <= w,
            buf@.len() == b0.len(),
            target == be_bytes(n as nat, w as nat),
            x as nat == n as nat / pow256((w - j) as nat),
            forall|k: int| 0 <= k < b0.len() && !(start + j <= k < start + w) ==> buf@[k] == b0[k],
            forall|k: int| j <= k < w ==> buf@[start + k] == target[k],
        decreases j,
    {
        proof {
            lemma_pow256_positive((w - j) as nat);
            lemma_div_denominator(n as int, pow256((w - j) as nat) as int, 256);
            assert(pow256((w - j + 1) as nat) == 256 * pow256((w - j) as nat));
            assert(((w - 1 - (j - 1)) as nat) == (w - j) as nat);
        }
        buf.set(start + j - 1, (x % 256) as u8);
        x = x / 256;
        j = j - 1;
    }
    assert(buf@ =~= b0.subrange(0, start as int) + target + b0.subrange(start + w, b0.len() as int));
}

} // verus!
