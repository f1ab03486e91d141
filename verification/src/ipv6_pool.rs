//! Pool of virtual IPv6 addresses drawn from one prefix.

use std::collections::HashSet;
use vstd::prelude::*;

verus! {

broadcast use vstd::std_specs::hash::group_hash_axioms;

/// Base of the server's IPv6 prefix: fd00:0:0:1::.
pub const BASE_IPV6: u128 = 0xfd00_0000_0000_0001_0000_0000_0000_0000;

/// Length of the server's IPv6 prefix, in bits.
pub const BASE_IPV6_PREFIX: u8 = 64;

/// Offset of the last address of an IPv6 prefix of `prefix` bits from its
/// base, for `prefix <= 128`: the prefix's size less one.
pub open spec fn ipv6_last_offset(prefix: u8) -> u128 {
    if prefix == 0 {
        u128::MAX
    } else {
        ((1u128 << ((128 - prefix) as u128)) - 1) as u128
    }
}

/// A prefix that a pool can be made of: at most 128 bits long and, counted
/// from `base`, within the 128-bit address space.
pub open spec fn ipv6_prefix_fits(base: u128, prefix: u8) -> bool {
    prefix <= 128 && base + ipv6_last_offset(prefix) <= u128::MAX
}

/// Allocator of host addresses from `base/prefix`. The first address of the
/// prefix is never handed out.
pub struct IPv6Pool {
    base: u128,
    prefix: u8,
    allocated: HashSet<u128>,
}

impl IPv6Pool {
    /// First address of the prefix.
    pub closed spec fn base(&self) -> u128 {
        self.base
    }

    /// Length of the prefix, in bits.
    pub closed spec fn prefix(&self) -> u8 {
        self.prefix
    }

    /// The addresses that are handed out at present.
    pub closed spec fn allocated(&self) -> Set<u128> {
        self.allocated@
    }

    /// The last address of the prefix.
    pub open spec fn edge(&self) -> int {
        self.base() + ipv6_last_offset(self.prefix())
    }

    /// Whether `a` is a host address of the prefix.
    pub open spec fn is_host(&self, a: int) -> bool {
        self.base() + 1 <= a <= self.edge()
    }

    /// Whether `a` is the lowest host address that is free.
    pub open spec fn is_next_free(&self, a: u128) -> bool {
        &&& self.is_host(a as int)
        &&& !self.allocated().contains(a)
        &&& forall|b: u128| self.is_host(b as int) && b < a ==> #[trigger] self.allocated().contains(b)
    }

    /// Whether every host address is handed out.
    pub open spec fn exhausted(&self) -> bool {
        forall|a: u128| self.is_host(a as int) ==> #[trigger] self.allocated().contains(a)
    }

    /// The pool's invariant.
    pub open spec fn wf(&self) -> bool {
        ipv6_prefix_fits(self.base(), self.prefix()) && self.allocated().finite()
    }

    /// A pool over `base/prefix` with nothing handed out.
    pub fn new(base: u128, prefix: u8) -> (pool: Self)
        requires
            ipv6_prefix_fits(base, prefix),
        ensures
            pool.wf(),
            pool.base() == base,
            pool.prefix() == prefix,
            pool.allocated() == Set::<u128>::empty(),
    {
        IPv6Pool { base, prefix, allocated: HashSet::new() }
    }

    /// A pool over `base/prefix` with nothing handed out, where the prefix
    /// is one that a pool can be made of.
    pub fn try_new(base: u128, prefix: u8) -> (r: Option<Self>)
        ensures
            r is Some <==> ipv6_prefix_fits(base, prefix),
            r matches Some(pool) ==> {
                &&& pool.wf()
                &&& pool.base() == base
                &&& pool.prefix() == prefix
                &&& pool.allocated() == Set::<u128>::empty()
            },
    {
        if prefix > 128 {
            return None;
        }
        let last: u128 = if prefix == 0 {
            u128::MAX
        } else {
            let bits: u128 = (128 - prefix) as u128;
            assert(1 <= (1u128 << bits)) by (bit_vector)
                requires
                    bits < 128,
            ;
            (1u128 << bits) - 1
        };
        if base > u128::MAX - last {
            return None;
        }
        Some(Self::new(base, prefix))
    }

    /// At most one address is the lowest free one, and there is one unless
    /// the pool is exhausted.
    pub proof fn lemma_next_free(&self, a: u128, b: u128)
        ensures
            self.is_next_free(a) && self.is_next_free(b) ==> a == b,
            self.is_next_free(a) ==> !self.exhausted(),
    {
    }

    /// Hands out the lowest host address that is free, if there is one.
    pub fn allocate(&mut self) -> (r: Option<u128>)
        requires
            old(self).wf(),
        ensures
            final(self).wf(),
            final(self).base() == old(self).base(),
            final(self).prefix() == old(self).prefix(),
            r is None <==> old(self).exhausted(),
            r is None ==> final(self).allocated() == old(self).allocated(),
            r matches Some(a) ==> old(self).is_next_free(a) && final(self).allocated() == old(
                self,
            ).allocated().insert(a),
    {
        let last: u128 = if self.prefix == 0 {
            u128::MAX
        } else {
            let bits: u128 = (128 - self.prefix) as u128;
            assert(1 <= (1u128 << bits)) by (bit_vector)
                requires
                    bits < 128,
            ;
            (1u128 << bits) - 1
        };
        if last == 0 {
            return None;
        }
        let mut offset: u128 = 1;
        loop
            invariant
                *self == *old(self),
                self.wf(),
                last == ipv6_last_offset(self.prefix()),
                1 <= offset <= last,
                forall|b: u128|
                    self.is_host(b as int) && b < self.base() + offset
                        ==> #[trigger] self.allocated().contains(b),
            decreases last - offset,
        {
            let a: u128 = self.base + offset;
            if !self.allocated.contains(&a) {
                self.allocated.insert(a);
                return Some(a);
            }
            if offset == last {
                return None;
            }
            offset = offset + 1;
        }
    }

    /// Takes `ip` back. An address that is not handed out is left alone.
    pub fn release(&mut self, ip: &u128)
        requires
            old(self).wf(),
        ensures
            final(self).wf(),
            final(self).base() == old(self).base(),
            final(self).prefix() == old(self).prefix(),
            final(self).allocated() == old(self).allocated().remove(*ip),
    {
        self.allocated.remove(ip);
    }
}

} // verus!
