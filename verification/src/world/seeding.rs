//! Seeds: mixing a base seed into independent per-purpose seeds.

use crate::config::Seed;
use vstd::arithmetic::div_mod::{lemma_mod_multiples_vanish, lemma_mul_mod_noop_left, lemma_small_mod};
use vstd::prelude::*;

verus! {

/// `a * b` modulo 2^64.
pub open spec fn mul_mod64(a: u64, b: u64) -> u64 {
    ((a as nat * b as nat) % 0x1_0000_0000_0000_0000) as u64
}

/// `a + b` modulo 2^64.
pub open spec fn add_mod64(a: u64, b: u64) -> u64 {
    ((a as nat + b as nat) % 0x1_0000_0000_0000_0000) as u64
}

/// The seed derived from `base` for purpose `index`: `base` xor `index`
/// times the golden-ratio constant, then the SplitMix64 finalizer
/// (xor-shift by 30, multiply, xor-shift by 27, multiply, xor-shift by 31),
/// all products taken modulo 2^64.
pub open spec fn mixed_seed(base: u64, index: u64) -> u64 {
    let x0 = base ^ mul_mod64(index, 0x9E3779B97F4A7C15);
    let x1 = x0 ^ (x0 >> 30u64);
    let x2 = mul_mod64(x1, 0xBF58476D1CE4E5B9);
    let x3 = x2 ^ (x2 >> 27u64);
    let x4 = mul_mod64(x3, 0x94D049BB133111EB);
    x4 ^ (x4 >> 31u64)
}

/// Derives the seed for purpose `index` from `base`.
pub fn derive_seed(base: u64, index: u64) -> (seed: u64)
    ensures
        seed == mixed_seed(base, index),
{
    let mut x = base ^ index.wrapping_mul(0x9E3779B97F4A7C15);
    x ^= x >> 30;
    x = x.wrapping_mul(0xBF58476D1CE4E5B9);
    x ^= x >> 27;
    x = x.wrapping_mul(0x94D049BB133111EB);
    x ^ (x >> 31)
}

/// The three seeds (x, y, z) from which a noise offset is drawn for `base`:
/// the seeds derived for purposes 0, 1 and 2.
pub fn seed_components(base: u64) -> (seeds: (u64, u64, u64))
    ensures
        seeds.0 == mixed_seed(base, 0),
        seeds.1 == mixed_seed(base, 1),
        seeds.2 == mixed_seed(base, 2),
{
    (derive_seed(base, 0), derive_seed(base, 1), derive_seed(base, 2))
}

/// The base seeds of the five noise fields.
#[derive(Clone, Copy, Debug, PartialEq, Eq, Structural)]
pub struct NoiseSeeds {
    pub temperature: u64,
    pub wetness: u64,
    pub height: u64,
    pub continentalness: u64,
    pub erosion: u64,
}

/// The base seeds of the noise fields for world seed `seed`: the seed itself,
/// then the seed plus 1, 2, 3 and 4, modulo 2^64.
pub fn noise_seeds(seed: &Seed) -> (seeds: NoiseSeeds)
    ensures
        seeds.temperature == seed.0,
        seeds.wetness == add_mod64(seed.0, 1),
        seeds.height == add_mod64(seed.0, 2),
        seeds.continentalness == add_mod64(seed.0, 3),
        seeds.erosion == add_mod64(seed.0, 4),
{
    NoiseSeeds {
        temperature: seed.0,
        wetness: seed.0.wrapping_add(1),
        height: seed.0.wrapping_add(2),
        continentalness: seed.0.wrapping_add(3),
        erosion: seed.0.wrapping_add(4),
    }
}

/// The first mixing step of `derive_seed`: the base xor the index times the
/// golden-ratio constant, modulo 2^64.
pub open spec fn seed_premix(base: u64, index: u64) -> u64 {
    base ^ mul_mod64(index, 0x9E3779B97F4A7C15)
}

/// Multiplying by `c` and then by `d` modulo 2^64 gives back `x` when
/// `c * d` is 1 modulo 2^64.
pub proof fn lemma_mul_mod64_cancel(x: u64, c: u64, d: u64, k: int)
    requires
        k >= 0,
        c as int * d as int == 1 + k * 0x1_0000_0000_0000_0000,
    ensures
        mul_mod64(mul_mod64(x, c), d) == x,
{
    let m: int = 0x1_0000_0000_0000_0000;
    let xc = x as int * c as int;
    assert(0 <= xc % m < m) by {
        vstd::arithmetic::div_mod::lemma_mod_bound(xc, m);
    }
    assert(mul_mod64(x, c) as int == xc % m);
    lemma_mul_mod_noop_left(xc, d as int, m);
    assert((xc % m) * (d as int) % m == xc * (d as int) % m);
    assert(xc * (d as int) == m * (x as int * k) + x as int) by (nonlinear_arith)
        requires
            xc == x as int * c as int,
            c as int * d as int == 1 + k * m,
    ;
    lemma_mod_multiples_vanish(x as int * k, x as int, m);
    lemma_small_mod(x as nat, m as nat);
    assert(mul_mod64(mul_mod64(x, c), d) as int == (mul_mod64(x, c) as int * d as int) % m);
}

/// `x ^ (x >> 30)` is undone by xor-ing in its shifts by 30 and 60.
pub proof fn lemma_unshift_30(x: u64)
    ensures
        ({
            let y = x ^ (x >> 30u64);
            y ^ (y >> 30u64) ^ (y >> 60u64) == x
        }),
{
    assert({
        let y = x ^ (x >> 30u64);
        y ^ (y >> 30u64) ^ (y >> 60u64) == x
    }) by (bit_vector);
}

/// `x ^ (x >> 27)` is undone by xor-ing in its shifts by 27 and 54.
pub proof fn lemma_unshift_27(x: u64)
    ensures
        ({
            let y = x ^ (x >> 27u64);
            y ^ (y >> 27u64) ^ (y >> 54u64) == x
        }),
{
    assert({
        let y = x ^ (x >> 27u64);
        y ^ (y >> 27u64) ^ (y >> 54u64) == x
    }) by (bit_vector);
}

/// `x ^ (x >> 31)` is undone by xor-ing in its shifts by 31 and 62.
pub proof fn lemma_unshift_31(x: u64)
    ensures
        ({
            let y = x ^ (x >> 31u64);
            y ^ (y >> 31u64) ^ (y >> 62u64) == x
        }),
{
    assert({
        let y = x ^ (x >> 31u64);
        y ^ (y >> 31u64) ^ (y >> 62u64) == x
    }) by (bit_vector);
}

/// The finalizer of `derive_seed` (everything after the first step).
pub open spec fn finalize_seed(x0: u64) -> u64 {
    let x1 = x0 ^ (x0 >> 30u64);
    let x2 = mul_mod64(x1, 0xBF58476D1CE4E5B9);
    let x3 = x2 ^ (x2 >> 27u64);
    let x4 = mul_mod64(x3, 0x94D049BB133111EB);
    x4 ^ (x4 >> 31u64)
}

/// The finalizer has an inverse: xor-shifts are undone by xor-ing in their
/// shifts, and the odd multipliers by their inverses modulo 2^64.
pub open spec fn unfinalize_seed(y: u64) -> u64 {
    let x4 = y ^ (y >> 31u64) ^ (y >> 62u64);
    let x3 = mul_mod64(x4, 0x319642B2D24D8EC3);
    let x2 = x3 ^ (x3 >> 27u64) ^ (x3 >> 54u64);
    let x1 = mul_mod64(x2, 0x96DE1B173F119089);
    x1 ^ (x1 >> 30u64) ^ (x1 >> 60u64)
}

/// Undoing the finalizer gives back its input.
pub proof fn lemma_unfinalize_seed(x0: u64)
    ensures
        unfinalize_seed(finalize_seed(x0)) == x0,
{
    let x1 = x0 ^ (x0 >> 30u64);
    let x2 = mul_mod64(x1, 0xBF58476D1CE4E5B9);
    let x3 = x2 ^ (x2 >> 27u64);
    let x4 = mul_mod64(x3, 0x94D049BB133111EB);
    lemma_unshift_31(x4);
    lemma_mul_mod64_cancel(x3, 0x94D049BB133111EB, 0x319642B2D24D8EC3, 2077064247507883091);
    lemma_unshift_27(x2);
    lemma_mul_mod64_cancel(x1, 0xBF58476D1CE4E5B9, 0x96DE1B173F119089, 8125545580553827436);
    lemma_unshift_30(x0);
}

/// Two derived seeds are equal exactly when the first mixing steps agree: every
/// later step is a bijection of 64-bit words. So for a fixed purpose,
/// different bases give different seeds, and for a fixed base, different
/// purposes give different seeds.
pub proof fn law_derive_seed_injective(b1: u64, i1: u64, b2: u64, i2: u64)
    ensures
        mixed_seed(b1, i1) == mixed_seed(b2, i2) <==> seed_premix(b1, i1) == seed_premix(b2, i2),
        i1 == i2 ==> (mixed_seed(b1, i1) == mixed_seed(b2, i2) <==> b1 == b2),
        b1 == b2 ==> (mixed_seed(b1, i1) == mixed_seed(b2, i2) <==> i1 == i2),
{
    let p1 = seed_premix(b1, i1);
    let p2 = seed_premix(b2, i2);
    assert(mixed_seed(b1, i1) == finalize_seed(p1));
    assert(mixed_seed(b2, i2) == finalize_seed(p2));
    lemma_unfinalize_seed(p1);
    lemma_unfinalize_seed(p2);
    let m1 = mul_mod64(i1, 0x9E3779B97F4A7C15);
    let m2 = mul_mod64(i2, 0x9E3779B97F4A7C15);
    if i1 == i2 && p1 == p2 {
        assert(b1 == b2) by (bit_vector)
            requires b1 ^ m1 == b2 ^ m2, m1 == m2;
    }
    if b1 == b2 && p1 == p2 {
        assert(m1 == m2) by (bit_vector)
            requires b1 ^ m1 == b2 ^ m2, b1 == b2;
        lemma_mul_mod64_cancel(i1, 0x9E3779B97F4A7C15, 0xF1DE83E19937733D, 10771413168148108919);
        lemma_mul_mod64_cancel(i2, 0x9E3779B97F4A7C15, 0xF1DE83E19937733D, 10771413168148108919);
    }
}

} // verus!
