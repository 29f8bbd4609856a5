use vstd::prelude::*;

use vstd::arithmetic::div_mod::{
    lemma_mod_multiples_vanish, lemma_mul_mod_noop_left, lemma_small_mod,
};

verus! {

/// Offset basis of the 64-bit FNV-1a hash.
pub const FNV_OFFSET_BASIS: u64 = 0xcbf29ce484222325;

/// Prime of the 64-bit FNV-1a hash.
pub const FNV_PRIME: u64 = 0x100000001b3;

/// One FNV-1a step: fold one byte into the running state.
pub open spec fn fnv1a_step(h: u64, b: u8) -> u64 {
    vstd::wrapping::u64_specs::wrapping_mul(h ^ (b as u64), FNV_PRIME)
}

/// The 64-bit FNV-1a hash of a byte sequence: the stable, order-sensitive
/// checksum this crate records for every persisted batch.
pub open spec fn fnv1a(s: Seq<u8>) -> u64
    decreases s.len(),
{
    if s.len() == 0 {
        FNV_OFFSET_BASIS
    } else {
        fnv1a_step(fnv1a(s.drop_last()), s.last())
    }
}

/// Computes the FNV-1a checksum of `bytes`.
pub fn hash_bytes(bytes: &[u8]) -> (r: u64)
    ensures
        r == fnv1a(bytes@),
{
    let mut h: u64 = FNV_OFFSET_BASIS;
    let mut i: usize = 0;
    while i < bytes.len()
        invariant
            0 <= i <= bytes@.len(),
            h == fnv1a(bytes@.take(i as int)),
        decreases bytes@.len() - i,
    {
        proof {
            assert(bytes@.take(i + 1).drop_last() =~= bytes@.take(i as int));
            assert(bytes@.take(i + 1).last() == bytes@[i as int]);
        }
        h = (h ^ (bytes[i] as u64)).wrapping_mul(FNV_PRIME);
        i = i + 1;
    }
    proof {
        assert(bytes@.take(bytes@.len() as int) =~= bytes@);
    }
    h
}

/// The multiplicative inverse of the FNV-1a prime modulo 2^64.
pub const FNV_PRIME_INVERSE: u64 = 0xce965057aff6957b;

/// Because the FNV-1a prime is odd, it is invertible modulo 2^64, so
/// multiplying by it is injective: different states stay different.
proof fn lemma_mul_prime_injective(x1: u64, x2: u64)
    requires
        x1 != x2,
    ensures
        vstd::wrapping::u64_specs::wrapping_mul(x1, FNV_PRIME) != vstd::wrapping::u64_specs::wrapping_mul(
            x2,
            FNV_PRIME,
        ),
{
    let m: int = 0x10000000000000000;
    let p: int = FNV_PRIME as int;
    let q: int = FNV_PRIME_INVERSE as int;
    let k: int = 0xce9650590f;
    assert(0x100000001b3 * 0xce965057aff6957b == 0xce9650590f * 0x10000000000000000
        + 1) by (nonlinear_arith);
    assert(p * q == k * m + 1);
    if vstd::wrapping::u64_specs::wrapping_mul(x1, FNV_PRIME)
        == vstd::wrapping::u64_specs::wrapping_mul(x2, FNV_PRIME) {
        assert((x1 * p) % m == (x2 * p) % m);
        lemma_cancel_prime(x1 as int, m, p, q, k);
        lemma_cancel_prime(x2 as int, m, p, q, k);
        assert(false);
    }
}

/// Multiplying by the prime and then by its inverse, modulo 2^64, gives the
/// original value back.
proof fn lemma_cancel_prime(x: int, m: int, p: int, q: int, k: int)
    requires
        0 <= x < m,
        0 < m,
        p * q == k * m + 1,
    ensures
        (((x * p) % m) * q) % m == x,
{
    lemma_mul_mod_noop_left(x * p, q, m);
    assert((((x * p) % m) * q) % m == ((x * p) * q) % m);
    assert((x * p) * q == x * (p * q)) by (nonlinear_arith);
    assert(x * (k * m + 1) == m * (x * k) + x) by (nonlinear_arith);
    lemma_mod_multiples_vanish(x * k, x, m);
    lemma_small_mod(x as nat, m as nat);
}

/// Corrupting a single byte of a block always changes its checksum: every
/// FNV-1a step is injective in the running state, so the states diverge at
/// the corrupted byte and never meet again. Together with the contract of
/// `verify_batch`, a persisted batch with one byte changed is reported as a
/// checksum mismatch, never silently returned.
pub proof fn lemma_corrupt_byte_changes_hash(s: Seq<u8>, t: Seq<u8>, i: int)
    requires
        s.len() == t.len(),
        0 <= i < s.len(),
        s[i] != t[i],
        forall|j: int| 0 <= j < s.len() && j != i ==> s[j] == t[j],
    ensures
        fnv1a(s) != fnv1a(t),
    decreases s.len(),
{
    let n = s.len() as int;
    let h1 = fnv1a(s.drop_last());
    let h2 = fnv1a(t.drop_last());
    let a = s.last();
    let b = t.last();
    if i == n - 1 {
        assert(s.drop_last() =~= t.drop_last());
        assert(h1 == h2);
        assert(h1 ^ (a as u64) != h1 ^ (b as u64)) by (bit_vector)
            requires
                a != b,
        ;
        lemma_mul_prime_injective(h1 ^ (a as u64), h1 ^ (b as u64));
    } else {
        lemma_corrupt_byte_changes_hash(s.drop_last(), t.drop_last(), i);
        assert(h1 != h2);
        assert(a == b);
        assert(h1 ^ (a as u64) != h2 ^ (a as u64)) by (bit_vector)
            requires
                h1 != h2,
        ;
        lemma_mul_prime_injective(h1 ^ (a as u64), h2 ^ (a as u64));
    }
}

} // verus!
