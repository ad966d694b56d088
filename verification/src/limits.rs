//! Whether a request stays within what machine words and the pools can hold.
//! Callers that cannot tell otherwise ask here first.

use crate::abi::{
    PolarisBlockReserveArg, PolarisBlockState, PolarisCompleteOperationArg, PolarisDecision, PolarisDecisionOp,
    PolarisSessionBranchArg, PolarisSessionCreateArg, POLARIS_DEFAULT_SESSION_VA_BYTES,
    POLARIS_VA_ALIGNMENT,
};
use crate::blocks::reserve_fits;
use crate::cpu_pool::{CpuPool, PAGE};
use crate::decisions::{awaits, completion_fits};
use crate::dispatch::{dispatch_fits, rm_view};
use crate::fault::fault_fits;
use crate::gpu::GpuState;
use crate::kv::{kv_fits, RuntimeInner};
use crate::num::larger;
use crate::policy::SHARING_WEIGHT;
use crate::ranges::{can_give, is_taken, snap_fits, snap_up};
use crate::rm::RmBackend;
use crate::runtime::{decision_fits, paged_can_free};
use crate::seqs::{find, lemma_sum_step, sum};
use crate::sessions::{align_va, branch_fits, create_fits, va_fits};
use crate::state::PolarisInner;
use crate::stats::{
    cpu_total, cpu_used, gpu_budget, gpu_total, gpu_used, private_bytes, shared_bytes, totals_fit,
};
use crate::types::{PolarisBlock, PolarisGpu};
use vstd::prelude::*;

verus! {

broadcast use vstd::std_specs::hash::group_hash_axioms;

// ─── The device ─────────────────────────────────────────────────────────────

/// Whether taking `bytes` from a GPU's range can be computed.
fn has_addresses(gpu: &PolarisGpu, bytes: u64) -> (r: bool)
    ensures
        r == va_fits(*gpu, bytes),
{
    if !gpu.va_range_registered {
        return true;
    }
    if bytes > u64::MAX - POLARIS_VA_ALIGNMENT {
        return false;
    }
    gpu.next_va_offset.checked_add(align_va(bytes)).is_some() && gpu.va_range_base.checked_add(
        gpu.next_va_offset,
    ).is_some()
}

impl PolarisInner {
    /// Whether there is room for a session.
    pub fn can_create(&self, arg: &PolarisSessionCreateArg) -> (r: bool)
        ensures
            r == create_fits(self@, *arg),
    {
        let bytes = if arg.gpu_vas_bytes > 0 {
            arg.gpu_vas_bytes
        } else {
            POLARIS_DEFAULT_SESSION_VA_BYTES
        };
        self.next_session_id < u64::MAX && match self.find_gpu(arg.home_gpu) {
            Some(g) => has_addresses(&self.gpus[g], bytes),
            None => true,
        }
    }

    /// Whether there is room for a branch.
    pub fn can_branch(&self, arg: &PolarisSessionBranchArg) -> (r: bool)
        ensures
            r == branch_fits(self@, *arg),
    {
        if self.next_session_id == u64::MAX {
            return false;
        }
        let p: usize = match self.find_session(arg.parent_session_id) {
            Some(p) => p,
            None => {
                return true;
            },
        };
        assert(self@.sessions[p as int] == self.sessions@[p as int]@);
        if let Some(g) = self.find_gpu(self.sessions[p].home_gpu) {
            if !has_addresses(&self.gpus[g], self.sessions[p].gpu_vas_size) {
                return false;
            }
        }
        let more: u64 = self.sessions[p].block_ids.len() as u64;
        let mut i: usize = 0;
        while i < self.blocks.len()
            invariant
                i <= self.blocks@.len(),
                self@.find_session(arg.parent_session_id) == Some(p as int),
                more == self@.sessions[p as int].block_ids.len(),
                forall|j: int|
                    0 <= j < i ==> (#[trigger] self.blocks@[j]).refcount + more <= u64::MAX,
            decreases self.blocks@.len() - i,
        {
            if self.blocks[i].refcount > u64::MAX - more {
                assert(self@.blocks[i as int].refcount + more > u64::MAX);
                return false;
            }
            i += 1;
        }
        true
    }

    /// Whether there is room for a reservation.
    pub fn can_reserve(&self, arg: &PolarisBlockReserveArg) -> (r: bool)
        ensures
            r == reserve_fits(self@, *arg),
    {
        if self.next_block_id == u64::MAX {
            return false;
        }
        match self.find_session(arg.session_id) {
            Some(k) => {
                assert(self@.sessions[k as int] == self.sessions@[k as int]@);
                match (arg.token_start as u64).checked_mul(self.sessions[k].bytes_per_token) {
                    Some(offset) => self.sessions[k].gpu_vas_base.checked_add(offset).is_some(),
                    None => false,
                }
            },
            None => true,
        }
    }

    /// Whether there is room for the records of a fault.
    pub fn can_fault(&self) -> (r: bool)
        ensures
            r == fault_fits(self@),
    {
        if self.next_fault_id == u64::MAX || self.next_block_id == u64::MAX || self.next_decision_id
            >= u64::MAX - 1 {
            return false;
        }
        let most: u64 = (i64::MAX as u64 - 1_500_500) / (SHARING_WEIGHT as u64);
        let mut i: usize = 0;
        while i < self.blocks.len()
            invariant
                i <= self.blocks@.len(),
                most == (i64::MAX - 1_500_500) / SHARING_WEIGHT as int,
                forall|j: int|
                    0 <= j < i ==> SHARING_WEIGHT * (#[trigger] self.blocks@[j]).refcount
                        + 1_500_500 <= i64::MAX,
            decreases self.blocks@.len() - i,
        {
            if self.blocks[i].refcount > most {
                assert(SHARING_WEIGHT * self@.blocks[i as int].refcount + 1_500_500 > i64::MAX);
                return false;
            }
            i += 1;
        }
        let furthest: u64 = i64::MAX as u64 - 2_000_000;
        let mut k: usize = 0;
        while k < self.sessions.len()
            invariant
                k <= self.sessions@.len(),
                self@.sessions.len() == self.sessions@.len(),
                furthest == i64::MAX - 2_000_000,
                forall|j: int|
                    0 <= j < k ==> (#[trigger] self@.sessions[j]).active_read_start_token
                        <= furthest,
            decreases self.sessions@.len() - k,
        {
            assert(self@.sessions[k as int] == self.sessions@[k as int]@);
            if self.sessions[k].active_read_start_token > furthest {
                return false;
            }
            k += 1;
        }
        true
    }

    /// Whether there is room for what a completion reports.
    pub fn can_complete(&self, arg: &PolarisCompleteOperationArg) -> (r: bool)
        ensures
            r == completion_fits(self@, *arg),
    {
        let id = arg.decision_id;
        let found = find(
            &self.blocks,
            |b: &PolarisBlock| -> (r: bool)
                ensures
                    r == (b.pending_decision_id == id)
                { b.pending_decision_id == id },
            Ghost(awaits(id)),
        );
        let i: usize = match found {
            Some(i) => i,
            None => {
                return true;
            },
        };
        let b = self.blocks[i];
        if arg.result != 0 {
            return b.retry_count < u32::MAX && self.next_decision_id < u64::MAX;
        }
        match self.find_gpu(b.home_gpu) {
            None => true,
            Some(g) => match b.state {
                PolarisBlockState::AllocPending | PolarisBlockState::CowPending
                | PolarisBlockState::ReloadPending => self.gpus[g].used_bytes.checked_add(
                    b.size_bytes,
                ).is_some(),
                PolarisBlockState::OffloadPending => self.gpus[g].cpu_pool_used_bytes.checked_add(
                    b.size_bytes,
                ).is_some(),
                _ => true,
            },
        }
    }

    /// Whether the totals can be computed.
    pub fn can_total(&self) -> (r: bool)
        ensures
            r == totals_fit(self@),
    {
        if self.blocks.len() as u64 > u32::MAX as u64 || self.gpus.len() as u64 > u32::MAX as u64 {
            return false;
        }
        let ghost blocks = self@.blocks;
        let ghost gpus = self@.gpus;
        let mut shared: u128 = 0;
        let mut private: u128 = 0;
        let mut i: usize = 0;
        assert(blocks.take(0) =~= Seq::empty());
        while i < self.blocks.len()
            invariant
                i <= blocks.len() <= u32::MAX,
                blocks == self.blocks@,
                shared == sum(blocks.take(i as int), shared_bytes()),
                private == sum(blocks.take(i as int), private_bytes()),
                shared <= i * u64::MAX,
                private <= i * u64::MAX,
            decreases blocks.len() - i,
        {
            let b = self.blocks[i];
            proof {
                lemma_sum_step(blocks, shared_bytes(), i as int);
                lemma_sum_step(blocks, private_bytes(), i as int);
            }
            if b.flags.shared {
                shared = shared + b.size_bytes as u128;
            } else {
                private = private + b.size_bytes as u128;
            }
            i += 1;
        }
        assert(blocks.take(i as int) =~= blocks);
        let mut total: u128 = 0;
        let mut used: u128 = 0;
        let mut budget: u128 = 0;
        let mut host_total: u128 = 0;
        let mut host_used: u128 = 0;
        let mut k: usize = 0;
        assert(gpus.take(0) =~= Seq::empty());
        while k < self.gpus.len()
            invariant
                k <= gpus.len() <= u32::MAX,
                gpus == self.gpus@,
                total == sum(gpus.take(k as int), gpu_total()),
                used == sum(gpus.take(k as int), gpu_used()),
                budget == sum(gpus.take(k as int), gpu_budget()),
                host_total == sum(gpus.take(k as int), cpu_total()),
                host_used == sum(gpus.take(k as int), cpu_used()),
                total <= k * u64::MAX,
                used <= k * u64::MAX,
                budget <= k * u64::MAX,
                host_total <= k * u64::MAX,
                host_used <= k * u64::MAX,
            decreases gpus.len() - k,
        {
            proof {
                lemma_sum_step(gpus, gpu_total(), k as int);
                lemma_sum_step(gpus, gpu_used(), k as int);
                lemma_sum_step(gpus, gpu_budget(), k as int);
                lemma_sum_step(gpus, cpu_total(), k as int);
                lemma_sum_step(gpus, cpu_used(), k as int);
            }
            total = total + self.gpus[k].total_bytes as u128;
            used = used + self.gpus[k].used_bytes as u128;
            budget = budget + self.gpus[k].budget_bytes as u128;
            host_total = host_total + self.gpus[k].cpu_pool_total_bytes as u128;
            host_used = host_used + self.gpus[k].cpu_pool_used_bytes as u128;
            k += 1;
        }
        assert(gpus.take(k as int) =~= gpus);
        let most: u128 = u64::MAX as u128;
        shared <= most && private <= most && total <= most && used <= most && budget <= most
            && host_total <= most && host_used <= most
    }
}

// ─── The executor ───────────────────────────────────────────────────────────

/// Whether a value can be snapped up.
pub fn can_snap(val: u64, align: u64) -> (r: bool)
    ensures
        r == snap_fits(val, align),
{
    align == 0 || val <= u64::MAX - (align - 1)
}

/// How many addresses a block has, or zero.
fn addresses_of(gpu: &GpuState, block_id: u64) -> (r: u64)
    ensures
        r == gpu@.va_size_of(block_id),
{
    match gpu.get_va_alloc(block_id) {
        Some(va) => va.size,
        None => 0,
    }
}

/// Whether the addresses of a block can go back to the pool.
fn can_remove_block(gpu: &GpuState, block_id: u64) -> (r: bool)
    requires
        gpu@.wf(),
    ensures
        r == gpu@.can_remove(block_id),
{
    match gpu.get_va_alloc(block_id) {
        Some(va) => !va.from_pool || is_taken(&gpu.vas.free_ranges, va.vaddr, va.size),
        None => true,
    }
}

/// Whether the executor can carry a decision out.
pub fn can_dispatch(
    dec: &PolarisDecision,
    gpu: &GpuState,
    cpu_pool: &CpuPool,
    rm_backend: &Option<RmBackend>,
) -> (r: bool)
    requires
        gpu@.wf(),
        cpu_pool@.wf(),
    ensures
        r == dispatch_fits(gpu@, cpu_pool@, rm_view(rm_backend), *dec),
{
    if !can_snap(dec.size_bytes, gpu.granule) {
        return false;
    }
    let granules = snap_up(dec.size_bytes, gpu.granule);
    let size = larger(granules, addresses_of(gpu, dec.block_id));
    if gpu.used_bytes.checked_add(size).is_none() {
        return false;
    }
    if dec.op == PolarisDecisionOp::Free.to_u32() {
        if !can_remove_block(gpu, dec.block_id) {
            return false;
        }
        return match cpu_pool.get(dec.block_id) {
            Some(addr) => is_taken(&cpu_pool.free_ranges, addr, larger(dec.size_bytes, 1)),
            None => true,
        };
    }
    if dec.op == PolarisDecisionOp::CowBreak.to_u32() {
        return match gpu.get_va_alloc(dec.block_id) {
            Some(va) => dec.dst_vaddr == 0 || va.vaddr == dec.dst_vaddr || is_taken(
                &gpu.vas.free_ranges,
                va.vaddr,
                va.size,
            ),
            None => true,
        };
    }
    if dec.op == PolarisDecisionOp::Reload.to_u32() && dec.cpu_addr != 0 {
        let memory = rm_backend.is_some() && dec.src_handle == 0;
        return is_taken(
            &cpu_pool.free_ranges,
            dec.cpu_addr,
            if memory {
                size
            } else {
                granules
            },
        );
    }
    true
}

/// Whether a buffer of whole pages can go back to the pool.
fn can_free_pages(pool: &crate::runtime::CpuPool, addr: u64, size: u64) -> (r: bool)
    requires
        pool@.wf(),
    ensures
        r == paged_can_free(pool@, addr, size),
{
    if addr == 0 || size == 0 {
        return true;
    }
    can_snap(size, PAGE) && is_taken(&pool.free_ranges, addr, snap_up(size, PAGE))
}

/// Whether the runtime can carry a decision out.
pub fn can_decide(dec: &PolarisDecision, gpu: &GpuState, cpu_pool: &crate::runtime::CpuPool) -> (r: bool)
    requires
        gpu@.wf(),
        cpu_pool@.wf(),
    ensures
        r == decision_fits(gpu@, cpu_pool@, *dec),
{
    let whole = larger(dec.size_bytes, addresses_of(gpu, dec.block_id));
    if !can_snap(whole, gpu.granule) || !can_snap(dec.size_bytes, gpu.granule) {
        return false;
    }
    if !can_snap(snap_up(whole, gpu.granule), PAGE) {
        return false;
    }
    let granules = snap_up(dec.size_bytes, gpu.granule);
    if gpu.used_bytes.checked_add(granules).is_none() {
        return false;
    }
    if dec.op == PolarisDecisionOp::Free.to_u32() {
        if !can_snap(dec.size_bytes, PAGE) || !can_remove_block(gpu, dec.block_id) {
            return false;
        }
        return match cpu_pool.get(dec.block_id) {
            Some(addr) => can_free_pages(cpu_pool, addr, snap_up(dec.size_bytes, PAGE)),
            None => true,
        };
    }
    if dec.op == PolarisDecisionOp::Reload.to_u32() {
        let source = if dec.cpu_addr != 0 {
            dec.cpu_addr
        } else {
            match cpu_pool.get(dec.block_id) {
                Some(addr) => addr,
                None => 0,
            }
        };
        return can_free_pages(cpu_pool, source, granules);
    }
    true
}

impl RuntimeInner {
    /// Whether the size of KV memory can be computed.
    pub fn can_alloc_kv(&self, size: u64, alignment: u64) -> (r: bool)
        ensures
            r == kv_fits(self@, size, alignment),
    {
        let wanted = larger(larger(self.gpu.granule, alignment), 1);
        if !can_snap(wanted, self.gpu.granule) {
            return false;
        }
        let block_size = snap_up(wanted, self.gpu.granule);
        can_snap(size, block_size) && snap_up(size, block_size) <= usize::MAX as u64
    }

    /// Whether the books have room for all of the KV memory.
    pub fn can_map_kv(&self, va: u64) -> (r: bool)
        requires
            self@.wf(),
        ensures
            r == (self@.kv.contains_key(va) ==> {
                &&& self@.kv[va].va == va
                &&& self@.gpu.used_bytes + self@.kv[va].block_size * self@.kv[va].handles.len()
                    <= u64::MAX
            }),
    {
        match self.explicit_kv.get(&va) {
            Some(alloc) => {
                assert(self@.kv.contains_key(va) && self@.kv[va] == alloc@);
                alloc.va == va && match alloc.block_size.checked_mul(alloc.handles.len() as u64) {
                    Some(bytes) => self.gpu.used_bytes.checked_add(bytes).is_some(),
                    None => false,
                }
            },
            None => true,
        }
    }

    /// Whether the addresses of KV memory can go back to the pool.
    pub fn can_free_kv(&self, va: u64) -> (r: bool)
        requires
            self@.wf(),
        ensures
            r == (self@.kv.contains_key(va) ==> can_give(
                self@.gpu.free,
                self@.kv[va].va,
                self@.kv[va].size,
            )),
    {
        match self.explicit_kv.get(&va) {
            Some(alloc) => is_taken(&self.gpu.vas.free_ranges, alloc.va, alloc.size),
            None => true,
        }
    }
}

} // verus!
