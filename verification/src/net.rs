use vstd::prelude::*;

verus! {

use vstd::arithmetic::power2::{
    pow2,
    lemma_pow2_adds,
    lemma_pow2_pos,
    lemma_pow2_strictly_increases,
    lemma2_to64,
};
use vstd::arithmetic::div_mod::{
    lemma_add_mod_noop,
    lemma_mod_decreases,
    lemma_mod_multiples_basic,
    lemma_small_mod,
};
use vstd::arithmetic::mul::{
    lemma_mul_inequality,
    lemma_mul_is_distributive_sub_other_way,
};
use crate::error::Error;
use crate::primitive::NetworkPrimitive;
use crate::rng::RandomRangeGenerator;
use crate::math::{
    lemma_clear_low_parts,
    lemma_aligned_low_sum_bound,
    lemma_align_descends,
};

/// A network value: an address of one family together with a prefix
/// length. The address need not be masked to the prefix — callers may hold
/// a host-in-network value — and every operation returns a new value.
#[derive(Clone, Copy, Debug, PartialEq, Eq)]
pub struct Net<P> {
    addr: P,
    prefix_len: u8,
}

impl<P: NetworkPrimitive> Net<P> {
    /// The stored address.
    pub closed spec fn addr_spec(self) -> P {
        self.addr
    }

    /// The stored prefix length.
    pub closed spec fn prefix_len_spec(self) -> u8 {
        self.prefix_len
    }

    /// The stored address as a natural number.
    pub open spec fn addr_value(self) -> nat {
        self.addr_spec().value()
    }

    /// The prefix length as a natural number.
    pub open spec fn prefix(self) -> nat {
        self.prefix_len_spec() as nat
    }

    /// A network value is well formed when its prefix length does not
    /// exceed the family's bit width.
    pub open spec fn wf(self) -> bool {
        self.prefix() <= P::bits()
    }

    /// How many low bits of an address vary across the network's hosts.
    pub open spec fn host_bits(self) -> nat {
        (P::bits() - self.prefix()) as nat
    }

    /// The network address: the stored address with all host bits cleared.
    pub open spec fn network_value(self) -> nat {
        (self.addr_value() - self.addr_value() % pow2(self.host_bits())) as nat
    }

    /// The last address of the block: all host bits set.
    pub open spec fn broadcast_value(self) -> nat {
        (self.network_value() + pow2(self.host_bits()) - 1) as nat
    }

    /// The netmask: the top `prefix` bits set.
    pub open spec fn netmask_value(self) -> nat {
        (pow2(P::bits()) - pow2(self.host_bits())) as nat
    }

    /// The hostmask: the complement of the netmask.
    pub open spec fn hostmask_value(self) -> nat {
        (pow2(self.host_bits()) - 1) as nat
    }

    /// How many addresses the block holds, saturated to the family's
    /// maximal value for a zero prefix length.
    pub open spec fn size_value(self) -> nat {
        if self.prefix() == 0 {
            (pow2(P::bits()) - 1) as nat
        } else {
            pow2(self.host_bits())
        }
    }

    /// Builds a network value from an address and a prefix length,
    /// rejecting a prefix length beyond the family's bit width.
    pub fn from_addr_prefix(addr: P, prefix_len: u8) -> (r: Result<Self, Error>)
        ensures
            r is Ok <==> prefix_len as nat <= P::bits(),
            r matches Ok(n) ==> n.addr_spec() == addr && n.prefix_len_spec() == prefix_len
                && n.wf(),
            r is Err ==> r == Err::<Self, Error>(Error::PrefixLen),
    {
        if prefix_len > P::bit_width() {
            Err(Error::PrefixLen)
        } else {
            Ok(Net { addr, prefix_len })
        }
    }

    /// The stored address.
    pub fn addr(&self) -> (r: P)
        ensures
            r == self.addr_spec(),
    {
        self.addr
    }

    /// The stored prefix length.
    pub fn prefix_len(&self) -> (r: u8)
        ensures
            r == self.prefix_len_spec(),
    {
        self.prefix_len
    }

    /// The network address of the block.
    pub fn network(&self) -> (r: P)
        requires
            self.wf(),
        ensures
            r.value() == self.network_value(),
    {
        let w: u8 = P::bit_width();
        self.addr.clear_low_bits(w - self.prefix_len)
    }

    /// The last address of the block.
    pub fn broadcast(&self) -> (r: P)
        requires
            self.wf(),
        ensures
            r.value() == self.broadcast_value(),
    {
        let w: u8 = P::bit_width();
        proof {
            lemma_pow2_pos(self.host_bits());
            lemma_mod_decreases(self.addr_value(), pow2(self.host_bits()));
        }
        self.addr.set_low_bits(w - self.prefix_len)
    }

    /// The netmask of the block.
    pub fn netmask(&self) -> (r: P)
        requires
            self.wf(),
        ensures
            r.value() == self.netmask_value(),
    {
        P::high_mask(self.prefix_len)
    }

    /// The hostmask of the block.
    pub fn hostmask(&self) -> (r: P)
        requires
            self.wf(),
        ensures
            r.value() == self.hostmask_value(),
    {
        let w: u8 = P::bit_width();
        P::low_mask(w - self.prefix_len)
    }

    /// The host part of the stored address: the address with all network
    /// bits cleared.
    pub fn address_id(&self) -> (r: P)
        requires
            self.wf(),
        ensures
            r.value() == self.addr_value() % pow2(self.host_bits()),
    {
        let w: u8 = P::bit_width();
        proof {
            lemma_pow2_pos(self.host_bits());
        }
        P::zero().merge_low_bits(self.addr, w - self.prefix_len)
    }

    /// How many addresses the block holds. The count saturates at the
    /// family's maximal representable value for a zero prefix length
    /// instead of wrapping or failing.
    pub fn addresses_in_network(&self) -> (r: P)
        requires
            self.wf(),
        ensures
            r.value() == self.size_value(),
    {
        let w: u8 = P::bit_width();
        P::pow2_saturating(w - self.prefix_len)
    }

    /// The same block with its address masked down to the network
    /// address.
    pub fn trunc(&self) -> (r: Self)
        requires
            self.wf(),
        ensures
            r.wf(),
            r.prefix_len_spec() == self.prefix_len_spec(),
            r.addr_value() == self.network_value(),
    {
        Net { addr: self.network(), prefix_len: self.prefix_len }
    }

    /// The first and last address of the block.
    pub fn network_range(&self) -> (r: (P, P))
        requires
            self.wf(),
        ensures
            r.0.value() == self.network_value(),
            r.1.value() == self.broadcast_value(),
    {
        (self.network(), self.broadcast())
    }

    /// Splits the network into the ordered sequence of all its sub-blocks
    /// of the requested prefix length. Splitting must narrow the block:
    /// an equal or wider prefix length is rejected, as is one beyond the
    /// family's bit width.
    pub fn subnets(&self, new_prefix_len: u8) -> (r: Result<Subnets<P>, Error>)
        requires
            self.wf(),
        ensures
            r is Ok <==> self.prefix() < new_prefix_len as nat
                && new_prefix_len as nat <= P::bits(),
            r matches Ok(s) ==> s.supernet() == *self
                && s.new_prefix_len_spec() == new_prefix_len && s.wf(),
            new_prefix_len as nat <= self.prefix() ==> r == Err::<Subnets<P>, Error>(
                Error::SplitSmallerThanPrefixLen(new_prefix_len, self.prefix_len_spec()),
            ),
            self.prefix() < new_prefix_len as nat && P::bits() < new_prefix_len as nat
                ==> r == Err::<Subnets<P>, Error>(
                Error::SplitTooBig(P::bits() as u8, new_prefix_len),
            ),
    {
        proof {
            P::lemma_bits();
        }
        if new_prefix_len <= self.prefix_len {
            Err(Error::SplitSmallerThanPrefixLen(new_prefix_len, self.prefix_len))
        } else if new_prefix_len > P::bit_width() {
            Err(Error::SplitTooBig(P::bit_width(), new_prefix_len))
        } else {
            Ok(Subnets { net: *self, new_prefix_len })
        }
    }

    /// What `random_split_from` picks for a given network, requested
    /// prefix length and random draw: the high bits fixed by the
    /// supernet's prefix are kept, the remaining bits come from the draw,
    /// and the result is masked down to the new prefix length.
    pub open spec fn random_pick_value(self, split: nat, draw: nat) -> nat {
        let merged = self.network_value() + draw % pow2(self.host_bits());
        (merged - merged % pow2((P::bits() - split) as nat)) as nat
    }

    /// Selects the sub-block of the requested prefix length that the
    /// given draw designates inside this network. With a zero prefix
    /// length the whole address space is open, so the block comes from
    /// the draw alone. The validation mirrors `subnets`.
    pub fn random_split_from(&self, split: u8, draw: P) -> (r: Result<Net<P>, Error>)
        requires
            self.wf(),
        ensures
            r is Ok <==> self.prefix() < split as nat && split as nat <= P::bits(),
            r matches Ok(n) ==> n.wf()
                && n.prefix_len_spec() == split
                && n.addr_value() == self.random_pick_value(split as nat, draw.value())
                && n.network_value() == n.addr_value(),
            split as nat <= self.prefix() ==> r == Err::<Net<P>, Error>(
                Error::SplitSmallerThanPrefixLen(split, self.prefix_len_spec()),
            ),
            self.prefix() < split as nat && P::bits() < split as nat
                ==> r == Err::<Net<P>, Error>(
                Error::SplitTooBig(P::bits() as u8, split),
            ),
    {
        proof {
            P::lemma_bits();
        }
        if split <= self.prefix_len {
            return Err(Error::SplitSmallerThanPrefixLen(split, self.prefix_len));
        }
        let w: u8 = P::bit_width();
        if split > w {
            return Err(Error::SplitTooBig(w, split));
        }
        let merged: P = self.addr.merge_low_bits(draw, w - self.prefix_len);
        let chosen: P = merged.clear_low_bits(w - split);
        proof {
            lemma_pow2_pos(self.host_bits());
            lemma_mod_decreases(self.addr_value(), pow2(self.host_bits()));
            lemma_pow2_pos((P::bits() - split as nat) as nat);
            lemma_clear_low_parts(merged.value(), (P::bits() - split as nat) as nat);
            lemma_mod_decreases(merged.value(), pow2((P::bits() - split as nat) as nat));
            lemma_small_mod(0, pow2((P::bits() - split as nat) as nat));
        }
        Ok(Net { addr: chosen, prefix_len: split })
    }

    /// Selects one sub-block of the requested prefix length uniformly at
    /// random inside this network, drawing from the injected generator.
    /// Whatever the generator returns, the result is a well-formed block
    /// of the new prefix length designated by some draw.
    pub fn generate_random_split<R: RandomRangeGenerator<P>>(
        &self,
        split: u8,
        rng: &mut R,
    ) -> (r: Result<Net<P>, Error>)
        requires
            self.wf(),
        ensures
            r is Ok <==> self.prefix() < split as nat && split as nat <= P::bits(),
            r matches Ok(n) ==> n.wf()
                && n.prefix_len_spec() == split
                && n.network_value() == n.addr_value()
                && (exists|draw: nat|
                    draw < pow2(P::bits())
                        && n.addr_value() == self.random_pick_value(split as nat, draw)),
            split as nat <= self.prefix() ==> r == Err::<Net<P>, Error>(
                Error::SplitSmallerThanPrefixLen(split, self.prefix_len_spec()),
            ),
            self.prefix() < split as nat && P::bits() < split as nat
                ==> r == Err::<Net<P>, Error>(
                Error::SplitTooBig(P::bits() as u8, split),
            ),
    {
        proof {
            P::lemma_bits();
        }
        if split <= self.prefix_len {
            return Err(Error::SplitSmallerThanPrefixLen(split, self.prefix_len));
        }
        let w: u8 = P::bit_width();
        if split > w {
            return Err(Error::SplitTooBig(w, split));
        }
        proof {
            lemma2_to64();
            lemma_pow2_strictly_increases(0, P::bits());
        }
        let draw: P = rng.random_range(P::zero(), P::max_value());
        let r = self.random_split_from(split, draw);
        proof {
            draw.lemma_value();
            assert(draw.value() < pow2(P::bits())
                && (r matches Ok(n) ==> n.addr_value()
                    == self.random_pick_value(split as nat, draw.value())));
        }
        r
    }

    /// The usable host range: everything between the network address and
    /// the last address, exclusive. It exists exactly for blocks of at
    /// least four addresses, that is for prefix lengths up to the bit
    /// width less two.
    pub fn usable_range(&self) -> (r: Option<(P, P)>)
        requires
            self.wf(),
        ensures
            self.prefix() + 2 <= P::bits() ==> (r matches Some(pair)
                && pair.0.value() == self.network_value() + 1
                && pair.1.value() == self.broadcast_value() - 1),
            self.prefix() + 2 > P::bits() ==> r is None,
    {
        let w: u8 = P::bit_width();
        proof {
            P::lemma_bits();
        }
        if self.prefix_len + 2 <= w {
            let first_candidate: P = self.network();
            let last_candidate: P = self.broadcast();
            proof {
                self.addr.lemma_value();
                lemma_pow2_pos(self.host_bits());
                lemma_clear_low_parts(self.addr_value(), self.host_bits());
                lemma_aligned_low_sum_bound(
                    self.network_value(),
                    0,
                    self.host_bits(),
                    P::bits(),
                );
                if self.host_bits() > 2 {
                    lemma_pow2_strictly_increases(2, self.host_bits());
                }
                lemma2_to64();
            }
            Some((first_candidate.add_one(), last_candidate.sub_one()))
        } else {
            None
        }
    }
}

/// The deterministic split of a network into equal sub-blocks of one new
/// prefix length. The sequence is never materialized: each member is
/// recomputed from the supernet, the new prefix length and its index, so
/// it can be walked again or accessed at random.
#[derive(Clone, Copy, Debug, PartialEq, Eq)]
pub struct Subnets<P> {
    net: Net<P>,
    new_prefix_len: u8,
}

impl<P: NetworkPrimitive> Subnets<P> {
    /// The network being split.
    pub closed spec fn supernet(self) -> Net<P> {
        self.net
    }

    /// The prefix length of every member.
    pub closed spec fn new_prefix_len_spec(self) -> u8 {
        self.new_prefix_len
    }

    /// The prefix length of every member, as a natural number.
    pub open spec fn new_prefix(self) -> nat {
        self.new_prefix_len_spec() as nat
    }

    /// A split is well formed when its supernet is and the new prefix
    /// length strictly narrows the block without leaving the family.
    pub open spec fn wf(self) -> bool {
        &&& self.supernet().wf()
        &&& self.supernet().prefix() < self.new_prefix()
        &&& self.new_prefix() <= P::bits()
    }

    /// By how many bits the prefix grows.
    pub open spec fn delta(self) -> nat {
        (self.new_prefix() - self.supernet().prefix()) as nat
    }

    /// How many members the split has: `2^delta`.
    pub open spec fn count(self) -> nat {
        pow2(self.delta())
    }

    /// The number of host bits of one member: the exponent of `step`.
    pub open spec fn step_exponent(self) -> nat {
        (P::bits() - self.new_prefix()) as nat
    }

    /// The distance between the start addresses of two neighbouring
    /// members: the size of one member block.
    pub open spec fn step(self) -> nat {
        pow2(self.step_exponent())
    }

    /// The start address of the member at the given index.
    pub open spec fn member_value(self, i: nat) -> nat {
        self.supernet().network_value() + i * self.step()
    }

    /// All member start addresses, in increasing order.
    pub open spec fn member_seq(self) -> Seq<nat> {
        Seq::new(self.count(), |i: int| self.member_value(i as nat))
    }

    /// The index of the last member: the member count less one. The
    /// count itself can exceed the family's range, this value never does.
    pub fn max_index(&self) -> (r: P)
        requires
            self.wf(),
        ensures
            r.value() == self.count() - 1,
    {
        proof {
            lemma_pow2_pos(self.delta());
        }
        P::low_mask(self.new_prefix_len - self.net.prefix_len)
    }

    /// The member at the given index: a well-formed network of the new
    /// prefix length whose address is its own network address.
    pub fn get(&self, i: P) -> (r: Net<P>)
        requires
            self.wf(),
            i.value() < self.count(),
        ensures
            r.wf(),
            r.prefix_len_spec() == self.new_prefix_len_spec(),
            r.addr_value() == self.member_value(i.value()),
            r.network_value() == r.addr_value(),
    {
        let w: u8 = P::bit_width();
        proof {
            P::lemma_bits();
        }
        let base: P = self.net.network();
        let k: u8 = w - self.new_prefix_len;
        proof {
            let old_host: nat = self.net.host_bits();
            self.net.addr_spec().lemma_value();
            lemma_pow2_pos(old_host);
            lemma_pow2_pos(self.step_exponent());
            lemma_pow2_pos(self.delta());
            lemma_clear_low_parts(self.net.addr_value(), old_host);
            lemma_aligned_low_sum_bound(base.value(), 0, old_host, P::bits());
            lemma_mul_inequality(
                i.value() as int,
                self.count() - 1,
                self.step() as int,
            );
            lemma_pow2_adds(self.delta(), self.step_exponent());
            lemma_mul_is_distributive_sub_other_way(
                self.step() as int,
                self.count() as int,
                1,
            );
            assert(base.value() + i.value() * self.step() < pow2(P::bits()));
        }
        let a: P = base.add_shifted(i, k);
        proof {
            lemma_align_descends(base.value(), self.step_exponent(), self.net.host_bits());
            lemma_mod_multiples_basic(i.value() as int, self.step() as int);
            lemma_add_mod_noop(
                base.value() as int,
                (i.value() * self.step()) as int,
                self.step() as int,
            );
            lemma_small_mod(0, self.step());
            lemma_mod_decreases(a.value(), self.step());
        }
        Net { addr: a, prefix_len: self.new_prefix_len }
    }
}

} // verus!
