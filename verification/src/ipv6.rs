use vstd::prelude::*;

verus! {

use vstd::arithmetic::power2::{pow2, lemma_pow2_adds};
use vstd::arithmetic::div_mod::lemma_multiply_divide_lt;
use vstd::bits::lemma_u128_shr_is_div;
use crate::math::lemma_pow2_128;

/// The 16-bit group at position `i` of a 128-bit address, counting from
/// the most significant group.
pub open spec fn spec_segment(addr: u128, i: nat) -> nat {
    (addr as nat / pow2((112 - 16 * i) as nat)) % 0x10000
}

/// The eight 16-bit groups of a 128-bit address, most significant first.
pub fn segments(addr: u128) -> (r: Vec<u16>)
    ensures
        r@.len() == 8,
        forall|i: int| 0 <= i < 8 ==> r@[i] as nat == spec_segment(addr, i as nat),
{
    let mut segs: Vec<u16> = Vec::new();
    let mut i: u8 = 0;
    while i < 8
        invariant
            i <= 8,
            segs@.len() == i as nat,
            forall|j: int| 0 <= j < i as int ==> segs@[j] as nat == spec_segment(addr, j as nat),
        decreases 8 - i,
    {
        let shift: u8 = 112 - 16 * i;
        let shifted: u128 = addr >> (shift as u128);
        let seg: u16 = (shifted & 0xffff) as u16;
        proof {
            lemma_u128_shr_is_div(addr, shift as u128);
            assert(shifted & 0xffff == shifted % 0x10000) by (bit_vector);
            assert((shifted & 0xffff) < 0x10000) by (bit_vector);
        }
        segs.push(seg);
        i = i + 1;
    }
    segs
}

/// The assignment class of a 128-bit address, read off its first
/// 16-bit segment as the address registry defines the blocks.
#[derive(Clone, Copy, Debug, PartialEq, Eq, Structural)]
pub enum AddressType {
    /// The `2000::/3` block.
    AggregatableGlobalUnicast,
    /// The `fc00::/7` block.
    UniqueLocalUnicast,
    /// The `fe80::/10` block.
    LinkScopedUnicast,
    /// The `ff00::/8` block.
    Multicast,
    /// Everything else.
    ReservedByIetf,
}

/// Which class the given first segment falls in: the blocks are tried
/// from the most specific match the registry lists for these classes.
pub open spec fn spec_address_type(segment: u16) -> AddressType {
    if segment & 0xe000 == 0x2000 {
        AddressType::AggregatableGlobalUnicast
    } else if segment & 0xfe00 == 0xfc00 {
        AddressType::UniqueLocalUnicast
    } else if segment & 0xffc0 == 0xfe80 {
        AddressType::LinkScopedUnicast
    } else if segment & 0xff00 == 0xff00 {
        AddressType::Multicast
    } else {
        AddressType::ReservedByIetf
    }
}

/// The first 16-bit segment of a 128-bit address: its top sixteen bits.
pub fn first_segment(addr: u128) -> (r: u16)
    ensures
        r as nat == addr as nat / pow2(112),
{
    proof {
        lemma_u128_shr_is_div(addr, 112);
        lemma_pow2_128();
        lemma_pow2_adds(112, 16);
        lemma_multiply_divide_lt(addr as int, pow2(112) as int, pow2(16) as int);
        assert(pow2(16) == 0x10000) by {
            vstd::arithmetic::power2::lemma2_to64();
        }
    }
    (addr >> 112u128) as u16
}

/// Classifies a 128-bit address by its first segment.
pub fn address_type(addr: u128) -> (r: AddressType)
    ensures
        r == spec_address_type((addr as nat / pow2(112)) as u16),
{
    let segment: u16 = first_segment(addr);
    if segment & 0xe000 == 0x2000 {
        AddressType::AggregatableGlobalUnicast
    } else if segment & 0xfe00 == 0xfc00 {
        AddressType::UniqueLocalUnicast
    } else if segment & 0xffc0 == 0xfe80 {
        AddressType::LinkScopedUnicast
    } else if segment & 0xff00 == 0xff00 {
        AddressType::Multicast
    } else {
        AddressType::ReservedByIetf
    }
}

} // verus!
