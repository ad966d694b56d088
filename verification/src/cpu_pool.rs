//! The pool of pinned host memory that blocks are offloaded to.

use crate::num::sat_sub;
use crate::ranges::{
    can_give, count, give, given, lemma_given, lemma_taking, lemma_total_bounded, ordered,
    separated, take, taking, total, within,
};
use std::collections::HashMap;
use vstd::prelude::*;

verus! {

broadcast use vstd::std_specs::hash::group_hash_axioms;

/// Buffers start at a page.
pub const PAGE: u64 = 4096;

/// Host memory that was pinned in advance, and what of it is used.
pub struct CpuPool {
    pub base: u64,
    pub total: u64,
    pub used: u64,
    /// Free ranges as start and size.
    pub free_ranges: Vec<(u64, u64)>,
    /// Buffers by block.
    pub allocations: HashMap<u64, u64>,
}

/// The pool as mathematical values.
#[verifier::ext_equal]
pub struct CpuView {
    pub base: u64,
    pub total: u64,
    pub used: u64,
    pub free: Seq<(u64, u64)>,
    pub allocations: Map<u64, u64>,
}

impl View for CpuPool {
    type V = CpuView;

    open spec fn view(&self) -> CpuView {
        CpuView {
            base: self.base,
            total: self.total,
            used: self.used,
            free: self.free_ranges@,
            allocations: self.allocations@,
        }
    }
}

impl CpuView {
    /// The free list is in order, and the books can be kept in a machine word.
    pub open spec fn wf(self) -> bool {
        ordered(self.free) && self.used + total(self.free) <= u64::MAX
    }

    /// What is used and what is free make up the pool.
    pub open spec fn balanced(self) -> bool {
        &&& self.used + total(self.free) == self.total
        &&& within(self.free, self.base as int, self.base + self.total)
    }

    /// A buffer by first fit.
    pub open spec fn allocating(self, size: u64) -> (Option<u64>, CpuView) {
        match taking(self.free, size, PAGE) {
            (Some(addr), left) => (
                Some(addr),
                CpuView { used: (self.used + size) as u64, free: left, ..self },
            ),
            (None, _) => (None, self),
        }
    }

    /// With a buffer given back.
    pub open spec fn freed(self, addr: u64, size: u64) -> CpuView {
        if size == 0 {
            self
        } else {
            CpuView { used: sat_sub(self.used, size), free: given(self.free, addr, size), ..self }
        }
    }

    /// With a buffer noted for a block.
    pub open spec fn with_buffer(self, block_id: u64, addr: u64) -> CpuView {
        CpuView { allocations: self.allocations.insert(block_id, addr), ..self }
    }

    /// Without the buffer of a block.
    pub open spec fn without_buffer(self, block_id: u64) -> CpuView {
        CpuView { allocations: self.allocations.remove(block_id), ..self }
    }

    /// The buffer of a block.
    pub open spec fn buffer_of(self, block_id: u64) -> Option<u64> {
        if self.allocations.contains_key(block_id) {
            Some(self.allocations[block_id])
        } else {
            None
        }
    }
}

impl CpuPool {
    /// A pool in which everything is free.
    pub fn new(base: u64, total: u64) -> (pool: CpuPool)
        requires
            base + total <= u64::MAX,
        ensures
            pool@ == (CpuView {
                base,
                total,
                used: 0,
                free: seq![(base, total)],
                allocations: Map::empty(),
            }),
            pool@.wf(),
            pool@.balanced(),
            separated(pool@.free),
    {
        let mut free_ranges: Vec<(u64, u64)> = Vec::new();
        free_ranges.push((base, total));
        proof {
            let f = free_ranges@;
            assert(f =~= seq![(base, total)]);
            assert(f.drop_last() =~= Seq::empty());
            assert(crate::ranges::total(f.drop_last()) == 0);
            assert(crate::ranges::total(f) == total);
        }
        CpuPool { base, total, used: 0, free_ranges, allocations: HashMap::new() }
    }

    /// Take a buffer of `size` bytes that starts at a page. There is none where
    /// no free range can hold it.
    pub fn allocate(&mut self, size: u64) -> (r: Option<u64>)
        requires
            old(self)@.wf(),
        ensures
            (r, final(self)@) == old(self)@.allocating(size),
            final(self)@.wf(),
            old(self)@.balanced() ==> final(self)@.balanced(),
            separated(old(self)@.free) && size > 0 ==> separated(final(self)@.free),
            r matches Some(addr) ==> can_give(final(self)@.free, addr, size),
    {
        let ghost before = self@;
        proof {
            if separated(before.free) {
                law_free_buffers_stay_separated(before, size, 0);
            }
            lemma_taking(self.free_ranges@, size, PAGE);
        }
        match take(&mut self.free_ranges, size, PAGE) {
            Some(addr) => {
                proof {
                    lemma_total_bounded(self.free_ranges@, 0, u64::MAX as int);
                }
                self.used = self.used + size;
                Some(addr)
            },
            None => None,
        }
    }

    /// Give a buffer back.
    pub fn free(&mut self, addr: u64, size: u64)
        requires
            old(self)@.wf(),
            can_give(old(self)@.free, addr, size),
        ensures
            final(self)@ == old(self)@.freed(addr, size),
            final(self)@.wf(),
            old(self)@.balanced() && old(self)@.base <= addr && addr + size <= old(self)@.base
                + old(self)@.total ==> final(self)@.balanced(),
            separated(old(self)@.free) ==> separated(final(self)@.free),
    {
        if size == 0 {
            return;
        }
        let ghost before = self@;
        proof {
            if separated(before.free) {
                law_free_buffers_stay_separated(before, size, addr);
            }
            lemma_given(self.free_ranges@, addr, size);
            lemma_total_bounded(given(self.free_ranges@, addr, size), 0, u64::MAX as int);
            if before.balanced() && before.base <= addr && addr + size <= before.base
                + before.total {
                lemma_total_bounded(
                    given(self.free_ranges@, addr, size),
                    before.base as int,
                    before.base + before.total,
                );
            }
        }
        self.used = self.used.saturating_sub(size);
        give(&mut self.free_ranges, addr, size);
    }

    /// How much is used.
    pub fn used_bytes(&self) -> (r: u64)
        ensures
            r == self@.used,
    {
        self.used
    }

    /// How much is free.
    pub fn free_bytes(&self) -> (r: u64)
        requires
            self@.wf(),
        ensures
            r == total(self@.free),
    {
        count(&self.free_ranges)
    }

    /// Note the buffer of a block.
    pub fn track(&mut self, block_id: u64, addr: u64)
        ensures
            final(self)@ == old(self)@.with_buffer(block_id, addr),
    {
        self.allocations.insert(block_id, addr);
    }

    /// Forget the buffer of a block.
    pub fn untrack(&mut self, block_id: u64) -> (r: Option<u64>)
        ensures
            r == old(self)@.buffer_of(block_id),
            final(self)@ == old(self)@.without_buffer(block_id),
    {
        let r = self.get(block_id);
        self.allocations.remove(&block_id);
        r
    }

    /// The buffer of a block.
    pub fn get(&self, block_id: u64) -> (r: Option<u64>)
        ensures
            r == self@.buffer_of(block_id),
    {
        match self.allocations.get(&block_id) {
            Some(addr) => Some(*addr),
            None => None,
        }
    }
}

/// A pool with room between its free ranges keeps it, whatever is taken and given
/// back.
pub proof fn law_free_buffers_stay_separated(v: CpuView, size: u64, addr: u64)
    requires
        separated(v.free),
    ensures
        size > 0 ==> separated(v.allocating(size).1.free),
        can_give(v.free, addr, size) ==> separated(v.freed(addr, size).free),
{
    if size > 0 {
        crate::ranges::law_free_ranges_stay_separated(v.free, size, PAGE, addr);
    }
}

/// A buffer that was taken and given back leaves the books as they were: where
/// there was room between the free ranges, the whole pool is the same.
pub proof fn law_allocate_then_free_balances(v: CpuView, size: u64)
    requires
        v.wf(),
        v.allocating(size).0 is Some,
    ensures
        ({
            let (addr, w) = v.allocating(size);
            let x = w.freed(addr->0, size);
            &&& x.used == v.used
            &&& total(x.free) == total(v.free)
            &&& forall|a: int| #[trigger]
                crate::ranges::covers(x.free, a) <==> crate::ranges::covers(v.free, a)
            &&& x.allocations == v.allocations
            &&& separated(v.free) && size > 0 ==> x == v
        }),
{
    lemma_taking(v.free, size, PAGE);
    lemma_total_bounded(taking(v.free, size, PAGE).1, 0, u64::MAX as int);
    crate::ranges::law_take_then_give_restores(v.free, size, PAGE);
}

/// The pool gives out no more than it has.
pub proof fn law_pool_is_not_overdrawn(v: CpuView, size: u64)
    requires
        v.wf(),
        v.balanced(),
        v.allocating(size).0 is Some,
    ensures
        size <= v.total - v.used,
        v.base <= v.allocating(size).0->0,
        v.allocating(size).0->0 + size <= v.base + v.total,
{
    lemma_taking(v.free, size, PAGE);
    lemma_total_bounded(taking(v.free, size, PAGE).1, 0, u64::MAX as int);
}

} // verus!
