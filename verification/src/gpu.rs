//! What an executor keeps of a GPU: a pool of addresses, and which blocks have
//! memory and addresses.

use crate::num::{greatest, larger, sat_add};
use crate::ranges::{
    self, can_give, count, give, given, law_free_ranges_stay_separated, lemma_given,
    lemma_removing, lemma_taking, ordered, removing, separated, snapped, take, taking, total,
    within,
};
use std::collections::HashMap;
use vstd::prelude::*;

verus! {

broadcast use vstd::std_specs::hash::group_hash_axioms;

/// A reserved stretch of GPU addresses with a sorted list of what is free.
pub struct GpuVaPool {
    pub base: u64,
    pub size: u64,
    /// Free ranges as start and size.
    pub free_ranges: Vec<(u64, u64)>,
}

impl GpuVaPool {
    /// The free list is in order.
    pub open spec fn wf(&self) -> bool {
        ordered(self.free_ranges@)
    }

    /// The free ranges lie in the reserved stretch.
    pub open spec fn bounded(&self) -> bool {
        within(self.free_ranges@, self.base as int, self.base + self.size)
    }

    /// A pool in which everything is free.
    pub fn new(base: u64, size: u64) -> (pool: GpuVaPool)
        requires
            base + size <= u64::MAX,
        ensures
            pool.base == base,
            pool.size == size,
            pool.free_ranges@ == seq![(base, size)],
            pool.wf(),
            pool.bounded(),
            separated(pool.free_ranges@),
            total(pool.free_ranges@) == size,
    {
        let mut free_ranges: Vec<(u64, u64)> = Vec::new();
        free_ranges.push((base, size));
        proof {
            let f = free_ranges@;
            assert(f =~= seq![(base, size)]);
            assert(f.drop_last() =~= Seq::empty());
            assert(total(f.drop_last()) == 0);
            assert(total(f) == size);
        }
        GpuVaPool { base, size, free_ranges }
    }

    /// Take `size` bytes, aligned, from the first range that can hold them.
    pub fn allocate(&mut self, size: u64, alignment: u64) -> (r: Option<u64>)
        requires
            old(self).wf(),
        ensures
            final(self).wf(),
            (r, final(self).free_ranges@) == taking(
                old(self).free_ranges@,
                size,
                greatest(alignment, 1),
            ),
            final(self).base == old(self).base,
            final(self).size == old(self).size,
            old(self).bounded() ==> final(self).bounded() && (r matches Some(a) ==> old(self).base
                <= a && a + size <= old(self).base + old(self).size),
            separated(old(self).free_ranges@) && size > 0 ==> separated(final(self).free_ranges@),
            r matches Some(a) ==> can_give(final(self).free_ranges@, a, size),
    {
        proof {
            if separated(self.free_ranges@) && size > 0 {
                law_free_ranges_stay_separated(
                    self.free_ranges@,
                    size,
                    greatest(alignment, 1),
                    0,
                );
            }
            lemma_taking(self.free_ranges@, size, greatest(alignment, 1));
        }
        take(&mut self.free_ranges, size, larger(alignment, 1))
    }

    /// Give a range back that was taken from the pool.
    pub fn free(&mut self, vaddr: u64, size: u64)
        requires
            old(self).wf(),
            can_give(old(self).free_ranges@, vaddr, size),
        ensures
            final(self).wf(),
            final(self).free_ranges@ == given(old(self).free_ranges@, vaddr, size),
            final(self).base == old(self).base,
            final(self).size == old(self).size,
            old(self).bounded() && old(self).base <= vaddr && vaddr + size <= old(self).base + old(
                self,
            ).size ==> final(self).bounded(),
            separated(old(self).free_ranges@) ==> separated(final(self).free_ranges@),
    {
        proof {
            if separated(self.free_ranges@) && size > 0 {
                law_free_ranges_stay_separated(self.free_ranges@, size, 1, vaddr);
            }
            lemma_given(self.free_ranges@, vaddr, size);
        }
        give(&mut self.free_ranges, vaddr, size);
    }

    /// Take a range that was chosen elsewhere out of the pool.
    pub fn remove(&mut self, vaddr: u64, size: u64)
        requires
            old(self).wf(),
        ensures
            final(self).wf(),
            final(self).free_ranges@ == removing(old(self).free_ranges@, vaddr, size),
            final(self).base == old(self).base,
            final(self).size == old(self).size,
            old(self).bounded() ==> final(self).bounded(),
            separated(old(self).free_ranges@) ==> separated(final(self).free_ranges@),
    {
        proof {
            if separated(self.free_ranges@) && size > 0 {
                law_free_ranges_stay_separated(self.free_ranges@, size, 1, vaddr);
            }
            lemma_removing(self.free_ranges@, vaddr, size);
        }
        ranges::remove(&mut self.free_ranges, vaddr, size);
    }

    /// How much is free.
    pub fn free_bytes(&self) -> (r: u64)
        requires
            self.wf(),
        ensures
            r == total(self.free_ranges@),
    {
        count(&self.free_ranges)
    }
}

/// The addresses of a block, and whether they came out of the pool.
#[derive(Clone, Copy, Debug, PartialEq, Eq)]
pub struct VaAlloc {
    pub vaddr: u64,
    pub size: u64,
    pub from_pool: bool,
}

/// What an executor keeps of a GPU.
pub struct GpuState {
    pub gpu_id: u32,
    pub total_bytes: u64,
    pub used_bytes: u64,
    pub budget_bytes: u64,
    pub cpu_pool_bytes: u64,
    pub cpu_pool_used_bytes: u64,
    pub cpu_pool_base: u64,
    pub device_ordinal: i32,
    pub vas: GpuVaPool,
    pub granule: u64,
    pub phys_handles: HashMap<u64, u64>,
    pub va_allocs: HashMap<u64, VaAlloc>,
}

/// What an executor keeps of a GPU, as mathematical values.
#[verifier::ext_equal]
pub struct GpuView {
    pub gpu_id: u32,
    pub total_bytes: u64,
    pub used_bytes: u64,
    pub budget_bytes: u64,
    pub cpu_pool_bytes: u64,
    pub cpu_pool_used_bytes: u64,
    pub cpu_pool_base: u64,
    pub device_ordinal: i32,
    pub va_base: u64,
    pub va_size: u64,
    pub granule: u64,
    /// Free ranges of the address pool.
    pub free: Seq<(u64, u64)>,
    /// Memory handles by block.
    pub handles: Map<u64, u64>,
    /// Addresses by block.
    pub vas: Map<u64, VaAlloc>,
}

impl View for GpuState {
    type V = GpuView;

    open spec fn view(&self) -> GpuView {
        GpuView {
            gpu_id: self.gpu_id,
            total_bytes: self.total_bytes,
            used_bytes: self.used_bytes,
            budget_bytes: self.budget_bytes,
            cpu_pool_bytes: self.cpu_pool_bytes,
            cpu_pool_used_bytes: self.cpu_pool_used_bytes,
            cpu_pool_base: self.cpu_pool_base,
            device_ordinal: self.device_ordinal,
            va_base: self.vas.base,
            va_size: self.vas.size,
            granule: self.granule,
            free: self.vas.free_ranges@,
            handles: self.phys_handles@,
            vas: self.va_allocs@,
        }
    }
}

impl GpuView {
    /// The free list of the address pool is in order, and the reserved stretch
    /// ends where addresses end.
    pub open spec fn wf(self) -> bool {
        ordered(self.free) && self.va_base + self.va_size <= u64::MAX
    }

    /// The handle of a block, or zero.
    pub open spec fn handle_of(self, block_id: u64) -> u64 {
        if self.handles.contains_key(block_id) {
            self.handles[block_id]
        } else {
            0
        }
    }

    /// The addresses of a block.
    pub open spec fn va_of(self, block_id: u64) -> Option<VaAlloc> {
        if self.vas.contains_key(block_id) {
            Some(self.vas[block_id])
        } else {
            None
        }
    }

    /// The first address of a block, or zero.
    pub open spec fn vaddr_of(self, block_id: u64) -> u64 {
        match self.va_of(block_id) {
            Some(va) => va.vaddr,
            None => 0,
        }
    }

    /// The size of the addresses of a block, or zero.
    pub open spec fn va_size_of(self, block_id: u64) -> u64 {
        match self.va_of(block_id) {
            Some(va) => va.size,
            None => 0,
        }
    }

    /// A size in whole granules.
    pub open spec fn in_granules(self, size: u64) -> u64 {
        snapped(size, self.granule)
    }

    /// With a handle noted for a block.
    pub open spec fn with_handle(self, block_id: u64, handle: u64) -> GpuView {
        GpuView { handles: self.handles.insert(block_id, handle), ..self }
    }

    /// With addresses noted for a block. What did not come out of the pool is
    /// taken out of it.
    pub open spec fn with_va(self, block_id: u64, vaddr: u64, size: u64, from_pool: bool) -> GpuView {
        GpuView {
            vas: self.vas.insert(block_id, VaAlloc { vaddr, size, from_pool }),
            free: if from_pool {
                self.free
            } else {
                removing(self.free, vaddr, size)
            },
            ..self
        }
    }

    /// Without the handle of a block.
    pub open spec fn without_handle(self, block_id: u64) -> GpuView {
        GpuView { handles: self.handles.remove(block_id), ..self }
    }

    /// Without a block. Addresses that came out of the pool go back.
    pub open spec fn without_block(self, block_id: u64) -> GpuView {
        GpuView {
            handles: self.handles.remove(block_id),
            vas: self.vas.remove(block_id),
            free: match self.va_of(block_id) {
                Some(va) => if va.from_pool {
                    given(self.free, va.vaddr, va.size)
                } else {
                    self.free
                },
                None => self.free,
            },
            ..self
        }
    }

    /// Whether a block can go: what goes back to the pool is not free.
    pub open spec fn can_remove(self, block_id: u64) -> bool {
        self.va_of(block_id) matches Some(va) ==> (va.from_pool ==> can_give(
            self.free,
            va.vaddr,
            va.size,
        ))
    }

    /// With a range given back to the pool.
    pub open spec fn with_given(self, vaddr: u64, size: u64) -> GpuView {
        GpuView { free: given(self.free, vaddr, size), ..self }
    }

    /// A block with a handle, if there is one.
    pub open spec fn has_handle(self, handle: u64, found: Option<u64>) -> bool {
        match found {
            Some(b) => self.handles.contains_key(b) && self.handles[b] == handle,
            None => forall|b: u64| #[trigger]
                self.handles.contains_key(b) ==> self.handles[b] != handle,
        }
    }

    /// There always is an answer.
    pub proof fn lemma_has_handle(self, handle: u64)
        ensures
            exists|found: Option<u64>| #[trigger] self.has_handle(handle, found),
    {
        if exists|b: u64| #[trigger] self.handles.contains_key(b) && self.handles[b] == handle {
            let b = choose|b: u64| #[trigger]
                self.handles.contains_key(b) && self.handles[b] == handle;
            assert(self.has_handle(handle, Some(b)));
        } else {
            assert(self.has_handle(handle, None));
        }
    }

    /// A block at an address, if there is one.
    pub open spec fn has_vaddr(self, vaddr: u64, found: Option<u64>) -> bool {
        match found {
            Some(b) => self.vas.contains_key(b) && self.vas[b].vaddr == vaddr,
            None => forall|b: u64| #[trigger]
                self.vas.contains_key(b) ==> self.vas[b].vaddr != vaddr,
        }
    }

    /// Whether addresses lie in the reserved stretch.
    pub open spec fn holds_va(self, vaddr: u64, size: u64) -> bool {
        size > 0 && vaddr >= self.va_base && sat_add(vaddr, size) <= self.va_base + self.va_size
    }
}

impl GpuState {
    /// A GPU with nothing on it.
    pub fn new(
        gpu_id: u32,
        device_ordinal: i32,
        vas_base: u64,
        vas_size: u64,
        granule: u64,
        total_bytes: u64,
        budget_bytes: u64,
        cpu_pool_bytes: u64,
        cpu_pool_base: u64,
    ) -> (gpu: GpuState)
        requires
            vas_base + vas_size <= u64::MAX,
        ensures
            gpu@ == (GpuView {
                gpu_id,
                total_bytes,
                used_bytes: 0,
                budget_bytes,
                cpu_pool_bytes,
                cpu_pool_used_bytes: 0,
                cpu_pool_base,
                device_ordinal,
                va_base: vas_base,
                va_size: vas_size,
                granule,
                free: seq![(vas_base, vas_size)],
                handles: Map::empty(),
                vas: Map::empty(),
            }),
            gpu@.wf(),
    {
        GpuState {
            gpu_id,
            total_bytes,
            used_bytes: 0,
            budget_bytes,
            cpu_pool_bytes,
            cpu_pool_used_bytes: 0,
            cpu_pool_base,
            device_ordinal,
            vas: GpuVaPool::new(vas_base, vas_size),
            granule,
            phys_handles: HashMap::new(),
            va_allocs: HashMap::new(),
        }
    }

    /// Note the memory handle of a block.
    pub fn track_handle(&mut self, block_id: u64, phys_handle: u64)
        ensures
            final(self)@ == old(self)@.with_handle(block_id, phys_handle),
    {
        self.phys_handles.insert(block_id, phys_handle);
    }

    /// Note the addresses of a block. What did not come out of the pool is taken
    /// out of it.
    pub fn track_va(&mut self, block_id: u64, vaddr: u64, size: u64, from_pool: bool)
        requires
            old(self)@.wf(),
        ensures
            final(self)@ == old(self)@.with_va(block_id, vaddr, size, from_pool),
            final(self)@.wf(),
    {
        self.va_allocs.insert(block_id, VaAlloc { vaddr, size, from_pool });
        if !from_pool {
            self.vas.remove(vaddr, size);
        }
    }

    /// The memory handle of a block.
    pub fn get_handle(&self, block_id: u64) -> (r: Option<u64>)
        ensures
            r == (if self@.handles.contains_key(block_id) {
                Some(self@.handles[block_id])
            } else {
                None
            }),
    {
        match self.phys_handles.get(&block_id) {
            Some(handle) => Some(*handle),
            None => None,
        }
    }

    /// The addresses of a block.
    pub fn get_va_alloc(&self, block_id: u64) -> (r: Option<VaAlloc>)
        ensures
            r == self@.va_of(block_id),
    {
        match self.va_allocs.get(&block_id) {
            Some(va) => Some(*va),
            None => None,
        }
    }

    /// A block at an address.
    pub fn find_block_by_vaddr(&self, vaddr: u64) -> (r: Option<u64>)
        ensures
            self@.has_vaddr(vaddr, r),
    {
        for entry in it: self.va_allocs.iter()
            invariant
                forall|k: int|
                    0 <= k < it.index() ==> (#[trigger] it.seq()[k]).1.vaddr != vaddr,
        {
            if entry.1.vaddr == vaddr {
                return Some(*entry.0);
            }
        }
        None
    }

    /// A block with a memory handle. It serves where the address that memory is
    /// copied from is not known.
    pub fn find_block_by_phys(&self, phys_handle: u64) -> (r: Option<u64>)
        ensures
            self@.has_handle(phys_handle, r),
    {
        for entry in it: self.phys_handles.iter()
            invariant
                forall|k: int| 0 <= k < it.index() ==> *(#[trigger] it.seq()[k]).1 != phys_handle,
        {
            if *entry.1 == phys_handle {
                return Some(*entry.0);
            }
        }
        None
    }

    /// Whether addresses lie in the reserved stretch.
    pub fn contains_va(&self, vaddr: u64, size: u64) -> (r: bool)
        requires
            self@.wf(),
        ensures
            r == self@.holds_va(vaddr, size),
    {
        size > 0 && vaddr >= self.vas.base && vaddr.saturating_add(size) <= self.vas.base
            + self.vas.size
    }

    /// Forget a block. Addresses that came out of the pool go back.
    pub fn remove_block(&mut self, block_id: u64)
        requires
            old(self)@.wf(),
            old(self)@.can_remove(block_id),
        ensures
            final(self)@ == old(self)@.without_block(block_id),
            final(self)@.wf(),
    {
        let va = self.get_va_alloc(block_id);
        self.phys_handles.remove(&block_id);
        self.va_allocs.remove(&block_id);
        if let Some(va) = va {
            if va.from_pool {
                self.vas.free(va.vaddr, va.size);
            }
        }
    }

    /// Forget the memory handle of a block.
    pub fn clear_handle(&mut self, block_id: u64)
        ensures
            final(self)@ == old(self)@.without_handle(block_id),
    {
        self.phys_handles.remove(&block_id);
    }
}

} // verus!
