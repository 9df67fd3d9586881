//! Little-endian byte strings and the integers they encode.
use vstd::prelude::*;

verus! {

/// The non-negative integer whose little-endian encoding is `s`.
pub open spec fn le_value(s: Seq<u8>) -> nat
    decreases s.len(),
{
    if s.len() == 0 {
        0
    } else {
        s[0] as nat + 256 * le_value(s.subrange(1, s.len() as int))
    }
}

/// The low 64 bits of an integer: the view tag of a scalar with value `v`.
pub open spec fn low_u64(v: nat) -> u64 {
    (v % 0x1_0000_0000_0000_0000) as u64
}

pub open spec fn pow256(n: nat) -> nat
    decreases n,
{
    if n == 0 {
        1
    } else {
        256 * pow256((n - 1) as nat)
    }
}

/// An encoding of `n` bytes holds an integer below `256^n`.
pub proof fn lemma_le_value_bound(s: Seq<u8>)
    ensures
        le_value(s) < pow256(s.len()),
    decreases s.len(),
{
    if s.len() > 0 {
        let t = s.subrange(1, s.len() as int);
        lemma_le_value_bound(t);
        assert(pow256(s.len()) == 256 * pow256(t.len()));
        assert(le_value(s) == s[0] as nat + 256 * le_value(t));
        assert(le_value(t) + 1 <= pow256(t.len()));
        assert(256 * le_value(t) + 256 <= 256 * pow256(t.len())) by (nonlinear_arith)
            requires
                le_value(t) + 1 <= pow256(t.len()),
        ;
    }
}

/// The value of a concatenation: the low part, then the high part shifted up.
pub proof fn lemma_le_value_split(s: Seq<u8>, k: int)
    requires
        0 <= k <= s.len(),
    ensures
        le_value(s) == le_value(s.subrange(0, k)) + pow256(k as nat) * le_value(
            s.subrange(k, s.len() as int),
        ),
    decreases k,
{
    if k == 0 {
        assert(s.subrange(0, s.len() as int) =~= s);
        assert(le_value(s.subrange(0, 0)) == 0);
        assert(pow256(0) == 1);
        assert(le_value(s) == le_value(s.subrange(0, 0)) + pow256(0) * le_value(
            s.subrange(0, s.len() as int),
        ));
    } else {
        let t = s.subrange(1, s.len() as int);
        lemma_le_value_split(t, k - 1);
        assert(t.subrange(0, k - 1) =~= s.subrange(0, k).subrange(1, k));
        assert(t.subrange(k - 1, t.len() as int) =~= s.subrange(k, s.len() as int));
        assert(le_value(s) == s[0] as nat + 256 * le_value(t));
        let lo = s.subrange(0, k);
        assert(lo.subrange(1, k) =~= t.subrange(0, k - 1));
        assert(lo[0] == s[0]);
        assert(le_value(lo) == lo[0] as nat + 256 * le_value(lo.subrange(1, k)));
        let a = le_value(t.subrange(0, k - 1));
        let b = le_value(s.subrange(k, s.len() as int));
        let p = pow256((k - 1) as nat);
        assert(pow256(k as nat) == 256 * p);
        assert(le_value(t) == a + p * b);
        assert(le_value(lo) == s[0] as nat + 256 * a);
        assert(256 * (a + p * b) == 256 * a + (256 * p) * b) by (nonlinear_arith);
        assert(le_value(s) == le_value(lo) + pow256(k as nat) * b);
        assert(lo == s.subrange(0, k));
    }
}

/// The low 64 bits of an encoded integer are the integer held by its first eight bytes.
pub proof fn lemma_low_u64_of_prefix(s: Seq<u8>)
    requires
        s.len() >= 8,
    ensures
        le_value(s) % 0x1_0000_0000_0000_0000 == le_value(s.subrange(0, 8)),
{
    lemma_le_value_split(s, 8);
    lemma_le_value_bound(s.subrange(0, 8));
    lemma_pow256_eight();
    let a = le_value(s.subrange(0, 8));
    let b = le_value(s.subrange(8, s.len() as int));
    vstd::arithmetic::div_mod::lemma_mod_multiples_vanish(
        b as int,
        a as int,
        0x1_0000_0000_0000_0000,
    );
    vstd::arithmetic::div_mod::lemma_small_mod(a, 0x1_0000_0000_0000_0000);
}

/// Reads the low 64 bits of the integer that `b` encodes.
pub fn low_u64_of_le<const N: usize>(b: &[u8; N]) -> (r: u64)
    requires
        N >= 8,
    ensures
        r == low_u64(le_value(b@)),
{
    let mut acc: u64 = 0;
    let mut i: usize = 8;
    proof {
        assert(b@.subrange(8, 8).len() == 0);
    }
    while i > 0
        invariant
            0 <= i <= 8,
            N >= 8,
            b@.len() == N,
            acc as nat == le_value(b@.subrange(i as int, 8)),
        decreases i,
    {
        proof {
            let t = b@.subrange(i as int, 8);
            lemma_le_value_bound(t);
            lemma_pow256_upto(t.len());
            assert(b@.subrange(i - 1, 8).subrange(1, 9 - i as int) =~= t);
        }
        i = i - 1;
        acc = acc * 256 + b[i] as u64;
    }
    proof {
        lemma_low_u64_of_prefix(b@);
    }
    acc
}

proof fn lemma_pow256_eight()
    ensures
        pow256(8) == 0x1_0000_0000_0000_0000,
{
    reveal_with_fuel(pow256, 9);
}

proof fn lemma_pow256_upto(n: nat)
    requires
        n <= 7,
    ensures
        pow256(n) <= 0x1_0000_0000_0000_00,
{
    reveal_with_fuel(pow256, 8);
}

} // verus!

verus! {

/// `256^32`, the bound of 32-byte integers.
pub proof fn lemma_pow256_32()
    ensures
        pow256(32) == 0x1_0000_0000_0000_0000_0000_0000_0000_0000_0000_0000_0000_0000_0000_0000_0000_0000nat,
{
    reveal_with_fuel(pow256, 33);
}

/// Bytes that are all zero encode zero.
pub proof fn lemma_le_value_zeros(s: Seq<u8>)
    requires
        forall|i: int| 0 <= i < s.len() ==> s[i] == 0,
    ensures
        le_value(s) == 0,
    decreases s.len(),
{
    if s.len() > 0 {
        lemma_le_value_zeros(s.subrange(1, s.len() as int));
    }
}

} // verus!

verus! {

/// Copies a fixed-size byte array into a vector.
pub fn array_to_vec<const N: usize>(b: &[u8; N]) -> (r: Vec<u8>)
    ensures
        r@ == b@,
{
    let mut v: Vec<u8> = Vec::new();
    let mut i: usize = 0;
    while i < N
        invariant
            i <= N,
            b@.len() == N,
            v@ == b@.subrange(0, i as int),
        decreases N - i,
    {
        v.push(b[i]);
        i = i + 1;
    }
    proof {
        assert(b@.subrange(0, N as int) =~= b@);
    }
    v
}

} // verus!

verus! {

/// Two encodings of one length that hold the same integer are the same bytes.
pub proof fn lemma_le_value_injective(a: Seq<u8>, b: Seq<u8>)
    requires
        a.len() == b.len(),
        le_value(a) == le_value(b),
    ensures
        a == b,
    decreases a.len(),
{
    if a.len() > 0 {
        let ta = a.subrange(1, a.len() as int);
        let tb = b.subrange(1, b.len() as int);
        let va = le_value(ta);
        let vb = le_value(tb);
        assert(le_value(a) == a[0] as nat + 256 * va);
        assert(le_value(b) == b[0] as nat + 256 * vb);
        vstd::arithmetic::div_mod::lemma_fundamental_div_mod_converse(
            le_value(a) as int,
            256,
            va as int,
            a[0] as int,
        );
        vstd::arithmetic::div_mod::lemma_fundamental_div_mod_converse(
            le_value(b) as int,
            256,
            vb as int,
            b[0] as int,
        );
        lemma_le_value_injective(ta, tb);
        assert(a =~= b) by {
            assert forall|i: int| 0 <= i < a.len() implies a[i] == b[i] by {
                if i > 0 {
                    assert(a[i] == ta[i - 1]);
                    assert(b[i] == tb[i - 1]);
                }
            }
        }
    } else {
        assert(a =~= b);
    }
}

/// Bytes that are all `0xff` encode the largest integer of their length.
pub proof fn lemma_le_value_all_ones(s: Seq<u8>)
    requires
        forall|i: int| 0 <= i < s.len() ==> s[i] == 0xff,
    ensures
        le_value(s) + 1 == pow256(s.len()),
    decreases s.len(),
{
    if s.len() > 0 {
        let t = s.subrange(1, s.len() as int);
        lemma_le_value_all_ones(t);
        assert(pow256(s.len()) == 256 * pow256(t.len()));
    }
}

} // verus!

verus! {

/// Whether two byte arrays of one length hold the same bytes.
pub fn bytes_equal<const N: usize>(a: &[u8; N], b: &[u8; N]) -> (r: bool)
    ensures
        r == (a@ == b@),
{
    let mut i: usize = 0;
    while i < N
        invariant
            i <= N,
            a@.len() == N,
            b@.len() == N,
            forall|j: int| 0 <= j < i ==> a@[j] == b@[j],
        decreases N - i,
    {
        if a[i] != b[i] {
            return false;
        }
        i = i + 1;
    }
    proof {
        assert(a@ =~= b@);
    }
    true
}

/// `256^48`, the bound of 48-byte integers.
pub proof fn lemma_pow256_48()
    ensures
        pow256(48) == 0x1_0000_0000_0000_0000_0000_0000_0000_0000_0000_0000_0000_0000_0000_0000_0000_0000_0000_0000_0000_0000_0000_0000_0000_0000nat,
{
    reveal_with_fuel(pow256, 49);
}

} // verus!
