//! Pool of virtual IPv4 addresses drawn from one prefix.

use std::collections::HashSet;
use vstd::prelude::*;

verus! {

broadcast use vstd::std_specs::hash::group_hash_axioms;

/// Base of the server's IPv4 prefix: 10.0.0.0.
pub const BASE_IPV4: u32 = 0x0a00_0000;

/// Length of the server's IPv4 prefix, in bits.
pub const BASE_IPV4_MASK: u8 = 24;

/// Number of addresses in an IPv4 prefix of `mask` bits, for `mask <= 32`.
pub open spec fn ipv4_prefix_size(mask: u8) -> int {
    (1u64 << ((32 - mask) as u64)) as int
}

/// A prefix that a pool can be made of: the mask is at most 32 bits and the
/// whole prefix, counted from `base`, lies within the 32-bit address space.
pub open spec fn ipv4_prefix_fits(base: u32, mask: u8) -> bool {
    mask <= 32 && base + ipv4_prefix_size(mask) - 1 <= u32::MAX
}

/// Allocator of host addresses from `base/mask`. The first address of the
/// prefix and its last (the broadcast address) are never handed out.
pub struct IPv4Pool {
    base: u32,
    mask: u8,
    allocated: HashSet<u32>,
}

impl IPv4Pool {
    /// First address of the prefix.
    pub closed spec fn base(&self) -> u32 {
        self.base
    }

    /// Length of the prefix, in bits.
    pub closed spec fn mask(&self) -> u8 {
        self.mask
    }

    /// The addresses that are handed out at present.
    pub closed spec fn allocated(&self) -> Set<u32> {
        self.allocated@
    }

    /// The broadcast address at the prefix edge.
    pub open spec fn broadcast(&self) -> int {
        self.base() + ipv4_prefix_size(self.mask()) - 1
    }

    /// Whether `a` is a host address of the prefix.
    pub open spec fn is_host(&self, a: int) -> bool {
        self.base() + 1 <= a <= self.broadcast() - 1
    }

    /// Whether `a` is the lowest host address that is free.
    pub open spec fn is_next_free(&self, a: u32) -> bool {
        &&& self.is_host(a as int)
        &&& !self.allocated().contains(a)
        &&& forall|b: u32| self.is_host(b as int) && b < a ==> #[trigger] self.allocated().contains(b)
    }

    /// Whether every host address is handed out.
    pub open spec fn exhausted(&self) -> bool {
        forall|a: u32| self.is_host(a as int) ==> #[trigger] self.allocated().contains(a)
    }

    /// The pool's invariant.
    pub open spec fn wf(&self) -> bool {
        ipv4_prefix_fits(self.base(), self.mask()) && self.allocated().finite()
    }

    /// A pool over `base/mask` with nothing handed out.
    pub fn new(base: u32, mask: u8) -> (pool: Self)
        requires
            ipv4_prefix_fits(base, mask),
        ensures
            pool.wf(),
            pool.base() == base,
            pool.mask() == mask,
            pool.allocated() == Set::<u32>::empty(),
    {
        IPv4Pool { base, mask, allocated: HashSet::new() }
    }

    /// A pool over `base/mask` with nothing handed out, where the prefix is
    /// one that a pool can be made of.
    pub fn try_new(base: u32, mask: u8) -> (r: Option<Self>)
        ensures
            r is Some <==> ipv4_prefix_fits(base, mask),
            r matches Some(pool) ==> {
                &&& pool.wf()
                &&& pool.base() == base
                &&& pool.mask() == mask
                &&& pool.allocated() == Set::<u32>::empty()
            },
    {
        if mask > 32 {
            return None;
        }
        let bits: u64 = (32 - mask) as u64;
        assert(1 <= (1u64 << bits) <= 0x1_0000_0000u64) by (bit_vector)
            requires
                bits <= 32,
        ;
        let size: u64 = 1u64 << bits;
        if base as u64 + size - 1 > u32::MAX as u64 {
            return None;
        }
        Some(Self::new(base, mask))
    }

    /// At most one address is the lowest free one, and there is one unless
    /// the pool is exhausted.
    pub proof fn lemma_next_free(&self, a: u32, b: u32)
        ensures
            self.is_next_free(a) && self.is_next_free(b) ==> a == b,
            self.is_next_free(a) ==> !self.exhausted(),
    {
    }

    /// Hands out the lowest host address that is free, if there is one.
    pub fn allocate(&mut self) -> (r: Option<u32>)
        requires
            old(self).wf(),
        ensures
            final(self).wf(),
            final(self).base() == old(self).base(),
            final(self).mask() == old(self).mask(),
            r is None <==> old(self).exhausted(),
            r is None ==> final(self).allocated() == old(self).allocated(),
            r matches Some(a) ==> old(self).is_next_free(a) && final(self).allocated() == old(
                self,
            ).allocated().insert(a),
    {
        let bits: u64 = (32 - self.mask) as u64;
        assert(1 <= (1u64 << bits) <= 0x1_0000_0000u64) by (bit_vector)
            requires
                bits <= 32,
        ;
        let size: u64 = 1u64 << bits;
        let broadcast: u64 = self.base as u64 + size - 1;
        let mut ip: u64 = self.base as u64 + 1;
        while ip < broadcast
            invariant
                *self == *old(self),
                self.wf(),
                broadcast == self.broadcast(),
                self.base() + 1 <= ip,
                forall|b: u32|
                    self.is_host(b as int) && b < ip ==> #[trigger] self.allocated().contains(b),
            decreases broadcast - ip,
        {
            let a: u32 = ip as u32;
            if !self.allocated.contains(&a) {
                self.allocated.insert(a);
                return Some(a);
            }
            ip = ip + 1;
        }
        None
    }

    /// Takes `ip` back. An address that is not handed out is left alone.
    pub fn release(&mut self, ip: &u32)
        requires
            old(self).wf(),
        ensures
            final(self).wf(),
            final(self).base() == old(self).base(),
            final(self).mask() == old(self).mask(),
            final(self).allocated() == old(self).allocated().remove(*ip),
    {
        self.allocated.remove(ip);
    }
}

} // verus!
