use vstd::prelude::*;

verus! {

use vstd::arithmetic::power2::{
    pow2,
    lemma_pow2_adds,
    lemma_pow2_pos,
    lemma_pow2_strictly_increases,
    lemma_pow2_unfold,
    lemma2_to64,
    lemma2_to64_rest,
};
use vstd::arithmetic::div_mod::{
    lemma_fundamental_div_mod,
    lemma_mod_multiples_basic,
    lemma_mod_bound,
};
use vstd::arithmetic::mul::{
    lemma_mul_inequality,
    lemma_mul_is_associative,
    lemma_mul_is_commutative,
    lemma_mul_is_distributive_sub_other_way,
    lemma_mul_strict_inequality_converse,
};

/// `2^128` written out, the modulus of the wide address family.
pub proof fn lemma_pow2_128()
    ensures
        pow2(128) == 0x100000000000000000000000000000000,
{
    lemma2_to64();
    lemma2_to64_rest();
    lemma_pow2_adds(64, 64);
    assert(0x10000000000000000 * 0x10000000000000000
        == 0x100000000000000000000000000000000) by (nonlinear_arith);
}

/// For exponents below the width, `2^n` fits strictly inside `u128`.
pub proof fn lemma_u128_pow2_fits(n: nat)
    requires
        n < 128,
    ensures
        0 < pow2(n) < u128::MAX,
{
    lemma_pow2_pos(n);
    lemma_pow2_128();
    lemma_pow2_strictly_increases(n, 128);
    if n < 127 {
        lemma_pow2_strictly_increases(n, 127);
    }
    lemma2_to64();
    lemma2_to64_rest();
    lemma_pow2_adds(64, 63);
    assert(0x10000000000000000 * 0x8000000000000000
        == 0x80000000000000000000000000000000) by (nonlinear_arith);
}

/// Shifting a `u128` left by `n` multiplies it by `2^n` when the product
/// stays in range.
pub proof fn lemma_u128_shl_is_mul(x: u128, shift: u128)
    requires
        shift < 128,
        x * pow2(shift as nat) <= u128::MAX,
    ensures
        (x << shift) == x * pow2(shift as nat),
    decreases shift,
{
    if shift == 0 {
        assert(x << 0u128 == x) by (bit_vector);
        lemma2_to64();
    } else {
        let s1: u128 = (shift - 1) as u128;
        lemma_pow2_unfold(shift as nat);
        assert(pow2(shift as nat) == 2 * pow2(s1 as nat));
        assert(x * (2 * pow2(s1 as nat)) == 2 * (x * pow2(s1 as nat))) by (nonlinear_arith);
        lemma_u128_shl_is_mul(x, s1);
        let y: u128 = x << s1;
        assert(2 * (y as int) <= u128::MAX);
        assert(x << shift == y * 2) by (bit_vector)
            requires
                s1 + 1 == shift,
                shift < 128,
                y == x << s1,
                y <= u128::MAX / 2,
        ;
    }
}

/// The part of `x` above its low `k` bits is divisible by `2^k`, lies no
/// higher than `x`, and the discarded part lies below `2^k`.
pub proof fn lemma_clear_low_parts(x: nat, k: nat)
    ensures
        (x - x % pow2(k)) % (pow2(k) as int) == 0,
        x % pow2(k) <= x,
        x % pow2(k) < pow2(k),
        x - x % pow2(k) == pow2(k) * (x / pow2(k)),
{
    lemma_pow2_pos(k);
    lemma_fundamental_div_mod(x as int, pow2(k) as int);
    lemma_mod_bound(x as int, pow2(k) as int);
    lemma_mod_multiples_basic(x as int / pow2(k) as int, pow2(k) as int);
    lemma_mul_is_commutative(pow2(k) as int, x as int / pow2(k) as int);
}

/// A value divisible by `2^k` and below `2^w` leaves room for any low part
/// under `2^k`.
pub proof fn lemma_aligned_low_sum_bound(a: nat, b: nat, k: nat, w: nat)
    requires
        k <= w,
        a % pow2(k) == 0,
        a < pow2(w),
        b < pow2(k),
    ensures
        a + b < pow2(w),
        a + pow2(k) <= pow2(w),
{
    lemma_pow2_pos(k);
    lemma_pow2_pos(w);
    lemma_pow2_adds((w - k) as nat, k);
    let p: int = pow2(k) as int;
    let q: int = a as int / p;
    lemma_fundamental_div_mod(a as int, p);
    assert(a == p * q);
    lemma_mul_is_commutative(p, q);
    assert(q * p < pow2((w - k) as nat) * p);
    lemma_mul_strict_inequality_converse(q, pow2((w - k) as nat) as int, p);
    assert(q <= pow2((w - k) as nat) - 1);
    lemma_mul_inequality(q, pow2((w - k) as nat) - 1, p);
    lemma_mul_is_distributive_sub_other_way(p, pow2((w - k) as nat) as int, 1);
}

/// Divisibility by a power of two carries down to smaller powers.
pub proof fn lemma_align_descends(a: nat, j: nat, k: nat)
    requires
        j <= k,
        a % pow2(k) == 0,
    ensures
        a % pow2(j) == 0,
{
    lemma_pow2_pos(j);
    lemma_pow2_pos(k);
    lemma_pow2_adds((k - j) as nat, j);
    let q: int = a as int / pow2(k) as int;
    lemma_fundamental_div_mod(a as int, pow2(k) as int);
    assert(a == pow2(k) * q);
    assert(pow2(k) * q == (q * pow2((k - j) as nat)) * pow2(j) as int) by {
        lemma_mul_is_commutative(pow2(k) as int, q);
        lemma_mul_is_associative(q, pow2((k - j) as nat) as int, pow2(j) as int);
    }
    lemma_mod_multiples_basic(q * pow2((k - j) as nat) as int, pow2(j) as int);
}

} // verus!
