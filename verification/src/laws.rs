use vstd::prelude::*;

verus! {

use vstd::arithmetic::power2::{pow2, lemma_pow2_adds, lemma_pow2_pos};
use vstd::arithmetic::div_mod::{
    lemma_add_mod_noop,
    lemma_fundamental_div_mod,
    lemma_mod_bound,
    lemma_mod_multiples_basic,
    lemma_mod_twice,
    lemma_multiply_divide_lt,
    lemma_small_mod,
};
use vstd::arithmetic::mul::{
    lemma_mul_inequality,
    lemma_mul_is_commutative,
    lemma_mul_is_distributive_add_other_way,
    lemma_mul_is_distributive_sub_other_way,
};
use crate::net::{Net, Subnets};
use crate::primitive::NetworkPrimitive;
use crate::math::{lemma_clear_low_parts, lemma_align_descends};

/// The last address of the member at index `i` of a split.
pub open spec fn member_end<P: NetworkPrimitive>(s: Subnets<P>, i: nat) -> nat {
    (s.member_value(i) + s.step() - 1) as nat
}

/// A split has exactly `2^delta` members, where `delta` is the number of
/// prefix bits the split adds.
pub proof fn lemma_split_member_count<P: NetworkPrimitive>(s: Subnets<P>)
    requires
        s.wf(),
    ensures
        s.member_seq().len() == pow2(s.delta()),
{
}

/// Members of a split never overlap: each one ends strictly before any
/// later one starts, so the blocks are pairwise disjoint and ordered by
/// address.
pub proof fn lemma_split_members_disjoint<P: NetworkPrimitive>(s: Subnets<P>, i: nat, j: nat)
    requires
        s.wf(),
        i < j,
        j < s.count(),
    ensures
        member_end(s, i) < s.member_value(j),
{
    lemma_pow2_pos(s.step_exponent());
    lemma_mul_is_distributive_add_other_way(s.step() as int, i as int, 1);
    lemma_mul_inequality((i + 1) as int, j as int, s.step() as int);
}

/// Every member of a split lies inside the supernet's address range.
pub proof fn lemma_split_member_in_supernet<P: NetworkPrimitive>(s: Subnets<P>, i: nat)
    requires
        s.wf(),
        i < s.count(),
    ensures
        s.supernet().network_value() <= s.member_value(i),
        member_end(s, i) <= s.supernet().broadcast_value(),
{
    lemma_pow2_pos(s.step_exponent());
    lemma_pow2_pos(s.delta());
    lemma_pow2_pos(s.supernet().host_bits());
    lemma_mul_inequality(i as int, s.count() - 1, s.step() as int);
    lemma_mul_is_distributive_sub_other_way(s.step() as int, s.count() as int, 1);
    lemma_pow2_adds(s.delta(), s.step_exponent());
}

/// Every address of the supernet falls in some member of the split; the
/// witness is the member whose index is the address's offset divided by
/// the member size. Together with the two lemmas above, the members are
/// exactly a partition of the supernet's range into `count` blocks.
pub proof fn lemma_split_members_cover<P: NetworkPrimitive>(s: Subnets<P>, a: nat)
    requires
        s.wf(),
        s.supernet().network_value() <= a,
        a <= s.supernet().broadcast_value(),
    ensures
        exists|i: nat|
            i < s.count() && s.member_value(i) <= a && a <= member_end(s, i),
{
    let d: nat = (a - s.supernet().network_value()) as nat;
    let i: nat = d / s.step();
    lemma_pow2_pos(s.step_exponent());
    lemma_pow2_pos(s.supernet().host_bits());
    lemma_fundamental_div_mod(d as int, s.step() as int);
    lemma_mod_bound(d as int, s.step() as int);
    lemma_mul_is_commutative(s.step() as int, i as int);
    lemma_pow2_adds(s.delta(), s.step_exponent());
    lemma_multiply_divide_lt(d as int, s.step() as int, s.count() as int);
    assert(i < s.count() && s.member_value(i) <= a && a <= member_end(s, i));
}

/// Splitting equal inputs yields equal member sequences in the same
/// order: the split is a pure function of the supernet's address, its
/// prefix length and the new prefix length.
pub proof fn lemma_split_deterministic<P: NetworkPrimitive>(s1: Subnets<P>, s2: Subnets<P>)
    requires
        s1.wf(),
        s2.wf(),
        s1.supernet().addr_value() == s2.supernet().addr_value(),
        s1.supernet().prefix() == s2.supernet().prefix(),
        s1.new_prefix() == s2.new_prefix(),
    ensures
        s1.member_seq() == s2.member_seq(),
{
    assert(s1.member_seq() =~= s2.member_seq());
}

/// Whatever the draw, a random split picks a member of the deterministic
/// split with the same new prefix length.
pub proof fn lemma_random_split_is_member<P: NetworkPrimitive>(s: Subnets<P>, draw: nat)
    requires
        s.wf(),
    ensures
        exists|i: nat|
            i < s.count()
                && s.supernet().random_pick_value(s.new_prefix(), draw) == s.member_value(i),
{
    let net = s.supernet();
    let low: nat = draw % pow2(net.host_bits());
    let i: nat = low / s.step();
    lemma_pow2_pos(net.host_bits());
    lemma_pow2_pos(s.step_exponent());
    lemma_pow2_pos(s.delta());
    lemma_clear_low_parts(net.addr_value(), net.host_bits());
    lemma_align_descends(net.network_value(), s.step_exponent(), net.host_bits());
    lemma_add_mod_noop(net.network_value() as int, low as int, s.step() as int);
    lemma_small_mod(0, s.step());
    lemma_mod_twice(low as int, s.step() as int);
    lemma_fundamental_div_mod(low as int, s.step() as int);
    lemma_mul_is_commutative(s.step() as int, i as int);
    lemma_mod_bound(draw as int, pow2(net.host_bits()) as int);
    lemma_pow2_adds(s.delta(), s.step_exponent());
    lemma_multiply_divide_lt(low as int, s.step() as int, s.count() as int);
    assert(i < s.count()
        && net.random_pick_value(s.new_prefix(), draw) == s.member_value(i));
}

/// Every member of a split is reachable by a random split: the draw equal
/// to the member's offset from the supernet's network address yields
/// exactly that member. Since the draw is uniform over the address space,
/// no member is left out.
pub proof fn lemma_random_split_reaches_every_member<P: NetworkPrimitive>(
    s: Subnets<P>,
    i: nat,
)
    requires
        s.wf(),
        i < s.count(),
    ensures
        s.supernet().random_pick_value(s.new_prefix(), i * s.step()) == s.member_value(i),
{
    let net = s.supernet();
    let offset: nat = i * s.step();
    lemma_pow2_pos(net.host_bits());
    lemma_pow2_pos(s.step_exponent());
    lemma_pow2_pos(s.delta());
    lemma_clear_low_parts(net.addr_value(), net.host_bits());
    lemma_align_descends(net.network_value(), s.step_exponent(), net.host_bits());
    lemma_pow2_adds(s.delta(), s.step_exponent());
    lemma_mul_inequality(i as int, s.count() - 1, s.step() as int);
    lemma_mul_is_distributive_sub_other_way(s.step() as int, s.count() as int, 1);
    lemma_small_mod(offset, pow2(net.host_bits()));
    lemma_mod_multiples_basic(i as int, s.step() as int);
    lemma_mul_is_commutative(s.step() as int, i as int);
    lemma_add_mod_noop(net.network_value() as int, offset as int, s.step() as int);
    lemma_small_mod(0, s.step());
}

/// With a zero prefix length there is no supernet constraint: the draw
/// equal to any aligned block address yields exactly that block, so every
/// block of the requested size in the whole address space can come out.
pub proof fn lemma_random_split_zero_prefix_reaches<P: NetworkPrimitive>(
    net: Net<P>,
    split: u8,
    target: nat,
)
    requires
        net.wf(),
        net.prefix() == 0,
        0 < split as nat,
        split as nat <= P::bits(),
        target < pow2(P::bits()),
        target % pow2((P::bits() - split as nat) as nat) == 0,
    ensures
        net.random_pick_value(split as nat, target) == target,
{
    net.addr_spec().lemma_value();
    lemma_pow2_pos(P::bits());
    lemma_pow2_pos((P::bits() - split as nat) as nat);
    lemma_small_mod(net.addr_value(), pow2(P::bits()));
    lemma_small_mod(target, pow2(P::bits()));
}

} // verus!
