use vstd::prelude::*;

verus! {

use vstd::arithmetic::power2::{pow2, lemma_pow2_pos, lemma2_to64};
use vstd::arithmetic::div_mod::{
    lemma_fundamental_div_mod,
    lemma_mod_bound,
    lemma_small_mod,
};
use vstd::arithmetic::mul::lemma_mul_is_commutative;
use vstd::bits::{
    lemma_u32_pow2_no_overflow,
    lemma_u32_shl_is_mul,
    lemma_u32_shr_is_div,
    lemma_u128_shr_is_div,
};
use crate::math::{
    lemma_pow2_128,
    lemma_u128_pow2_fits,
    lemma_u128_shl_is_mul,
    lemma_clear_low_parts,
    lemma_aligned_low_sum_bound,
};

/// The numeric capability of one address family: a fixed-width unsigned
/// integer carrying an address, seen in specifications as the natural
/// number that the address encodes in big-endian order. The subnet engine
/// is written once against this trait and so computes identically for the
/// 32-bit and the 128-bit family.
pub trait NetworkPrimitive: Sized + Copy {
    /// The numeric value of the address.
    spec fn value(self) -> nat;

    /// The family's bit width.
    spec fn bits() -> nat;

    /// The bit width is positive and fits comfortably in a `u8`.
    proof fn lemma_bits()
        ensures
            0 < Self::bits() <= 128,
    ;

    /// Every address value lies below `2^bits`.
    proof fn lemma_value(self)
        ensures
            self.value() < pow2(Self::bits()),
    ;

    /// The family's bit width as a machine integer.
    fn bit_width() -> (r: u8)
        ensures
            r as nat == Self::bits(),
    ;

    /// The all-zero address.
    fn zero() -> (r: Self)
        ensures
            r.value() == 0,
    ;

    /// The all-one address, numerically `2^bits - 1`.
    fn max_value() -> (r: Self)
        ensures
            r.value() == pow2(Self::bits()) - 1,
    ;

    /// The value with exactly the low `k` bits set: `2^k - 1`.
    fn low_mask(k: u8) -> (r: Self)
        requires
            k as nat <= Self::bits(),
        ensures
            r.value() == pow2(k as nat) - 1,
    ;

    /// The value with exactly the high `k` bits set.
    fn high_mask(k: u8) -> (r: Self)
        requires
            k as nat <= Self::bits(),
        ensures
            r.value() == pow2(Self::bits()) - pow2((Self::bits() - k as nat) as nat),
    ;

    /// `self` with its low `k` bits cleared to zero.
    fn clear_low_bits(self, k: u8) -> (r: Self)
        requires
            k as nat <= Self::bits(),
        ensures
            r.value() == self.value() - self.value() % pow2(k as nat),
    ;

    /// `self` with its low `k` bits all set to one.
    fn set_low_bits(self, k: u8) -> (r: Self)
        requires
            k as nat <= Self::bits(),
        ensures
            r.value() == self.value() - self.value() % pow2(k as nat) + pow2(k as nat) - 1,
    ;

    /// The high bits of `self` joined with the low `k` bits of `other`.
    fn merge_low_bits(self, other: Self, k: u8) -> (r: Self)
        requires
            k as nat <= Self::bits(),
        ensures
            r.value() == self.value() - self.value() % pow2(k as nat)
                + other.value() % pow2(k as nat),
    ;

    /// `self + other * 2^k`, defined when the sum stays in range.
    fn add_shifted(self, other: Self, k: u8) -> (r: Self)
        requires
            (k as nat) < Self::bits(),
            self.value() + other.value() * pow2(k as nat) < pow2(Self::bits()),
        ensures
            r.value() == self.value() + other.value() * pow2(k as nat),
    ;

    /// `2^k`, saturating to the maximal value when `k` equals the width.
    fn pow2_saturating(k: u8) -> (r: Self)
        requires
            k as nat <= Self::bits(),
        ensures
            (k as nat) < Self::bits() ==> r.value() == pow2(k as nat),
            k as nat == Self::bits() ==> r.value() == pow2(Self::bits()) - 1,
    ;

    /// The next address up.
    fn add_one(self) -> (r: Self)
        requires
            self.value() + 1 < pow2(Self::bits()),
        ensures
            r.value() == self.value() + 1,
    ;

    /// The next address down.
    fn sub_one(self) -> (r: Self)
        requires
            self.value() >= 1,
        ensures
            r.value() == self.value() - 1,
    ;
}

impl NetworkPrimitive for u32 {
    open spec fn value(self) -> nat {
        self as nat
    }

    open spec fn bits() -> nat {
        32
    }

    proof fn lemma_bits() {
    }

    proof fn lemma_value(self) {
        lemma2_to64();
    }

    fn bit_width() -> u8 {
        32
    }

    fn zero() -> Self {
        0
    }

    fn max_value() -> Self {
        proof {
            lemma2_to64();
        }
        u32::MAX
    }

    fn low_mask(k: u8) -> Self {
        if k == 32 {
            proof {
                lemma2_to64();
            }
            u32::MAX
        } else {
            proof {
                lemma_u32_pow2_no_overflow(k as nat);
                lemma_u32_shl_is_mul(1, k as u32);
            }
            (1u32 << (k as u32)) - 1
        }
    }

    fn high_mask(k: u8) -> Self {
        let m: u32 = Self::low_mask(32 - k);
        proof {
            lemma2_to64();
        }
        u32::MAX - m
    }

    fn clear_low_bits(self, k: u8) -> Self {
        if k == 32 {
            proof {
                lemma2_to64();
                lemma_small_mod(self as nat, pow2(32));
            }
            0
        } else {
            proof {
                lemma2_to64();
                lemma_pow2_pos(k as nat);
                lemma_u32_shr_is_div(self, k as u32);
                lemma_fundamental_div_mod(self as int, pow2(k as nat) as int);
                lemma_mul_is_commutative(pow2(k as nat) as int, self as int / pow2(k as nat) as int);
                lemma_mod_bound(self as int, pow2(k as nat) as int);
                lemma_u32_shl_is_mul(self >> (k as u32), k as u32);
            }
            (self >> (k as u32)) << (k as u32)
        }
    }

    fn set_low_bits(self, k: u8) -> Self {
        let c: u32 = self.clear_low_bits(k);
        let m: u32 = Self::low_mask(k);
        proof {
            lemma2_to64();
            lemma_pow2_pos(k as nat);
            lemma_clear_low_parts(self as nat, k as nat);
            lemma_aligned_low_sum_bound(c as nat, (pow2(k as nat) - 1) as nat, k as nat, 32);
        }
        c + m
    }

    fn merge_low_bits(self, other: Self, k: u8) -> Self {
        let c: u32 = self.clear_low_bits(k);
        let oc: u32 = other.clear_low_bits(k);
        proof {
            lemma2_to64();
            lemma_pow2_pos(k as nat);
            lemma_clear_low_parts(self as nat, k as nat);
            lemma_clear_low_parts(other as nat, k as nat);
            lemma_aligned_low_sum_bound(
                c as nat,
                (other as nat % pow2(k as nat)) as nat,
                k as nat,
                32,
            );
        }
        c + (other - oc)
    }

    fn add_shifted(self, other: Self, k: u8) -> Self {
        proof {
            lemma2_to64();
            lemma_u32_shl_is_mul(other, k as u32);
        }
        self + (other << (k as u32))
    }

    fn pow2_saturating(k: u8) -> Self {
        if k == 32 {
            proof {
                lemma2_to64();
            }
            u32::MAX
        } else {
            proof {
                lemma_u32_pow2_no_overflow(k as nat);
                lemma_u32_shl_is_mul(1, k as u32);
            }
            1u32 << (k as u32)
        }
    }

    fn add_one(self) -> Self {
        proof {
            lemma2_to64();
        }
        self + 1
    }

    fn sub_one(self) -> Self {
        self - 1
    }
}

impl NetworkPrimitive for u128 {
    open spec fn value(self) -> nat {
        self as nat
    }

    open spec fn bits() -> nat {
        128
    }

    proof fn lemma_bits() {
    }

    proof fn lemma_value(self) {
        lemma_pow2_128();
    }

    fn bit_width() -> u8 {
        128
    }

    fn zero() -> Self {
        0
    }

    fn max_value() -> Self {
        proof {
            lemma_pow2_128();
        }
        u128::MAX
    }

    fn low_mask(k: u8) -> Self {
        if k == 128 {
            proof {
                lemma_pow2_128();
            }
            u128::MAX
        } else {
            proof {
                lemma_u128_pow2_fits(k as nat);
                lemma_u128_shl_is_mul(1, k as u128);
            }
            (1u128 << (k as u128)) - 1
        }
    }

    fn high_mask(k: u8) -> Self {
        let m: u128 = Self::low_mask(128 - k);
        proof {
            lemma_pow2_128();
        }
        u128::MAX - m
    }

    fn clear_low_bits(self, k: u8) -> Self {
        if k == 128 {
            proof {
                lemma_pow2_128();
                lemma_small_mod(self as nat, pow2(128));
            }
            0
        } else {
            proof {
                lemma_pow2_128();
                lemma_pow2_pos(k as nat);
                lemma_u128_shr_is_div(self, k as u128);
                lemma_fundamental_div_mod(self as int, pow2(k as nat) as int);
                lemma_mul_is_commutative(pow2(k as nat) as int, self as int / pow2(k as nat) as int);
                lemma_mod_bound(self as int, pow2(k as nat) as int);
                lemma_u128_shl_is_mul(self >> (k as u128), k as u128);
            }
            (self >> (k as u128)) << (k as u128)
        }
    }

    fn set_low_bits(self, k: u8) -> Self {
        let c: u128 = self.clear_low_bits(k);
        let m: u128 = Self::low_mask(k);
        proof {
            lemma_pow2_128();
            lemma_pow2_pos(k as nat);
            lemma_clear_low_parts(self as nat, k as nat);
            lemma_aligned_low_sum_bound(c as nat, (pow2(k as nat) - 1) as nat, k as nat, 128);
        }
        c + m
    }

    fn merge_low_bits(self, other: Self, k: u8) -> Self {
        let c: u128 = self.clear_low_bits(k);
        let oc: u128 = other.clear_low_bits(k);
        proof {
            lemma_pow2_128();
            lemma_pow2_pos(k as nat);
            lemma_clear_low_parts(self as nat, k as nat);
            lemma_clear_low_parts(other as nat, k as nat);
            lemma_aligned_low_sum_bound(
                c as nat,
                (other as nat % pow2(k as nat)) as nat,
                k as nat,
                128,
            );
        }
        c + (other - oc)
    }

    fn add_shifted(self, other: Self, k: u8) -> Self {
        proof {
            lemma_pow2_128();
            lemma_u128_shl_is_mul(other, k as u128);
        }
        self + (other << (k as u128))
    }

    fn pow2_saturating(k: u8) -> Self {
        if k == 128 {
            proof {
                lemma_pow2_128();
            }
            u128::MAX
        } else {
            proof {
                lemma_u128_pow2_fits(k as nat);
                lemma_u128_shl_is_mul(1, k as u128);
            }
            1u128 << (k as u128)
        }
    }

    fn add_one(self) -> Self {
        proof {
            lemma_pow2_128();
        }
        self + 1
    }

    fn sub_one(self) -> Self {
        self - 1
    }
}

} // verus!
