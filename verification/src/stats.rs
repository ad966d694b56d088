//! Totals over the whole device, as a record and as text.

use crate::abi::{PolarisBlockState, PolarisGetGlobalStatsArg};
use crate::num::{sat_add, sat_mul, sat_sub, saturating_mul};
use crate::seqs::{count, lemma_count_step, lemma_sum_part, lemma_sum_step, sum};
use crate::state::{PolarisInner, PolarisView};
use crate::text::{
    decimal, fitting, hexadecimal, push_decimal, push_hexadecimal, push_signed_decimal, push_str,
    signed_decimal, BufWriter,
};
use crate::types::{PolarisBlock, PolarisFastVaSpaceSlot, PolarisGpu, PolarisVaSpace};
use vstd::prelude::*;
use vstd::string::*;

verus! {

pub const MIB: u64 = 1_048_576;

/// The size of the buffer that the text is written to.
pub const STATS_BUFFER_BYTES: usize = 4096;

// ─── Totals ─────────────────────────────────────────────────────────────────

/// Blocks in a state.
pub open spec fn in_state(state: PolarisBlockState) -> spec_fn(PolarisBlock) -> bool {
    |b: PolarisBlock| b.state == state
}

/// Blocks in none of the states that are counted apart.
pub open spec fn in_other_state() -> spec_fn(PolarisBlock) -> bool {
    |b: PolarisBlock|
        !(b.state is Resident) && !(b.state is CpuOffloaded) && !(b.state is Evicted)
}

/// The bytes of a shared block.
pub open spec fn shared_bytes() -> spec_fn(PolarisBlock) -> int {
    |b: PolarisBlock|
        if b.flags.shared {
            b.size_bytes as int
        } else {
            0
        }
}

/// The bytes of a private block.
pub open spec fn private_bytes() -> spec_fn(PolarisBlock) -> int {
    |b: PolarisBlock|
        if b.flags.shared {
            0
        } else {
            b.size_bytes as int
        }
}

/// The bytes that sharing saves: each reference but the first would need a copy.
pub open spec fn saved_by_sharing(blocks: Seq<PolarisBlock>) -> u64
    decreases blocks.len(),
{
    if blocks.len() == 0 {
        0
    } else {
        let before = saved_by_sharing(blocks.drop_last());
        let b = blocks.last();
        if b.flags.shared {
            sat_add(before, sat_mul(sat_sub(b.refcount, 1), b.size_bytes))
        } else {
            before
        }
    }
}

pub open spec fn gpu_total() -> spec_fn(PolarisGpu) -> int {
    |g: PolarisGpu| g.total_bytes as int
}

pub open spec fn gpu_used() -> spec_fn(PolarisGpu) -> int {
    |g: PolarisGpu| g.used_bytes as int
}

pub open spec fn gpu_budget() -> spec_fn(PolarisGpu) -> int {
    |g: PolarisGpu| g.budget_bytes as int
}

pub open spec fn cpu_total() -> spec_fn(PolarisGpu) -> int {
    |g: PolarisGpu| g.cpu_pool_total_bytes as int
}

pub open spec fn cpu_used() -> spec_fn(PolarisGpu) -> int {
    |g: PolarisGpu| g.cpu_pool_used_bytes as int
}

pub open spec fn unhealthy() -> spec_fn(PolarisGpu) -> bool {
    |g: PolarisGpu| !g.healthy
}

pub open spec fn has_process() -> spec_fn(PolarisVaSpace) -> bool {
    |s: PolarisVaSpace| s.pid != 0
}

pub open spec fn slot_in_use() -> spec_fn(PolarisFastVaSpaceSlot) -> bool {
    |s: PolarisFastVaSpaceSlot| s.va_space_token != 0
}

/// The totals fit the machine.
pub open spec fn totals_fit(v: PolarisView) -> bool {
    &&& v.blocks.len() <= u32::MAX
    &&& v.gpus.len() <= u32::MAX
    &&& sum(v.blocks, shared_bytes()) <= u64::MAX
    &&& sum(v.blocks, private_bytes()) <= u64::MAX
    &&& sum(v.gpus, gpu_total()) <= u64::MAX
    &&& sum(v.gpus, gpu_used()) <= u64::MAX
    &&& sum(v.gpus, gpu_budget()) <= u64::MAX
    &&& sum(v.gpus, cpu_total()) <= u64::MAX
    &&& sum(v.gpus, cpu_used()) <= u64::MAX
}

/// Totals over the blocks.
#[derive(Clone, Copy, PartialEq, Eq, Structural, Debug)]
pub struct BlockTotals {
    pub resident: u32,
    pub offloaded: u32,
    pub evicted: u32,
    pub pending: u32,
    pub shared: u64,
    pub private: u64,
    pub memory_saved: u64,
}

/// Totals over the GPUs.
#[derive(Clone, Copy, PartialEq, Eq, Structural, Debug)]
pub struct GpuTotals {
    pub total: u64,
    pub used: u64,
    pub budget: u64,
    pub cpu_total: u64,
    pub cpu_used: u64,
    pub unhealthy: u32,
}

/// The totals over the blocks are right.
pub open spec fn block_totals_of(t: BlockTotals, blocks: Seq<PolarisBlock>) -> bool {
    &&& t.resident == count(blocks, in_state(PolarisBlockState::Resident))
    &&& t.offloaded == count(blocks, in_state(PolarisBlockState::CpuOffloaded))
    &&& t.evicted == count(blocks, in_state(PolarisBlockState::Evicted))
    &&& t.pending == count(blocks, in_other_state())
    &&& t.shared == sum(blocks, shared_bytes())
    &&& t.private == sum(blocks, private_bytes())
    &&& t.memory_saved == saved_by_sharing(blocks)
}

/// The totals over the GPUs are right.
pub open spec fn gpu_totals_of(t: GpuTotals, gpus: Seq<PolarisGpu>) -> bool {
    &&& t.total == sum(gpus, gpu_total())
    &&& t.used == sum(gpus, gpu_used())
    &&& t.budget == sum(gpus, gpu_budget())
    &&& t.cpu_total == sum(gpus, cpu_total())
    &&& t.cpu_used == sum(gpus, cpu_used())
    &&& t.unhealthy == count(gpus, unhealthy())
}

// ─── Text ───────────────────────────────────────────────────────────────────

/// A label, a number, and the end of the line.
pub open spec fn line(label: &str, n: int) -> Seq<u8> {
    label.spec_bytes() + decimal(n as nat) + "\n".spec_bytes()
}

/// A label, a number in hexadecimal, and the end of the line.
pub open spec fn hex_line(label: &str, n: int) -> Seq<u8> {
    label.spec_bytes() + hexadecimal(n as nat) + "\n".spec_bytes()
}

/// A label, a signed number, and the end of the line.
pub open spec fn signed_line(label: &str, n: int) -> Seq<u8> {
    label.spec_bytes() + signed_decimal(n) + "\n".spec_bytes()
}

/// The lines on sessions, blocks and GPUs.
pub open spec fn table_lines(v: PolarisView) -> Seq<u8> {
    let t = Seq::<u8>::empty();
    let t = t + line("sessions:       ", v.sessions.len() as int);
    let t = t + line("blocks:         ", v.blocks.len() as int);
    let t = t + line(
        "  resident:     ",
        count(v.blocks, in_state(PolarisBlockState::Resident)) as int,
    );
    let t = t + line(
        "  offloaded:    ",
        count(v.blocks, in_state(PolarisBlockState::CpuOffloaded)) as int,
    );
    let t = t + line(
        "  evicted:      ",
        count(v.blocks, in_state(PolarisBlockState::Evicted)) as int,
    );
    let t = t + line("  pending:      ", count(v.blocks, in_other_state()) as int);
    let t = t + line("gpus:           ", v.gpus.len() as int);
    let t = t + line("  unhealthy:    ", count(v.gpus, unhealthy()) as int);
    t + line("daemon:         ", v.daemon_attached as int)
}

/// The lines on the policy and on what it did.
pub open spec fn policy_lines(v: PolarisView) -> Seq<u8> {
    let t = Seq::<u8>::empty();
    let t = t + ("policy:         ".spec_bytes() + decimal(v.eviction_policy.code() as nat)
        + " (0=fifo,1=lru,2=phase_aware)\n".spec_bytes());
    let t = t + line("offloads:       ", v.offload_count as int);
    let t = t + line("reloads:        ", v.reload_count as int);
    let t = t + line("evictions:      ", v.total_evictions as int);
    let t = t + line("cow_breaks:     ", v.cow_break_count as int);
    let t = t + line("cow_copy_mib:   ", v.cow_copy_bytes as int / MIB as int);
    t + line(
        "cow_saved_mib:  ",
        sat_sub(saved_by_sharing(v.blocks), v.cow_copy_bytes) as int / MIB as int,
    )
}

/// The lines on memory.
pub open spec fn memory_lines(v: PolarisView) -> Seq<u8> {
    let t = Seq::<u8>::empty();
    let t = t + line("gpu_total_mib:  ", sum(v.gpus, gpu_total()) / MIB as int);
    let t = t + line("gpu_budget_mib: ", sum(v.gpus, gpu_budget()) / MIB as int);
    let t = t + line("gpu_used_mib:   ", sum(v.gpus, gpu_used()) / MIB as int);
    let t = t + line("cpu_pool_mib:   ", sum(v.gpus, cpu_total()) / MIB as int);
    let t = t + line("cpu_used_mib:   ", sum(v.gpus, cpu_used()) / MIB as int);
    let t = t + line("shared_mib:     ", sum(v.blocks, shared_bytes()) / MIB as int);
    let t = t + line("private_mib:    ", sum(v.blocks, private_bytes()) / MIB as int);
    let t = t + line("pending_decs:   ", v.pending_decisions.len() as int);
    let t = t + line("v4_va_spaces:   ", count(v.fast_va_spaces, slot_in_use()) as int);
    let t = t + line("v4_worker_pids: ", count(v.va_spaces, has_process()) as int);
    let t = t + line("static_blocks:  ", v.static_blocks.len() as int);
    t + line("block_mappings: ", v.block_mappings.len() as int)
}

/// The lines on the fault hook.
pub open spec fn uvm_lines(v: PolarisView) -> Seq<u8> {
    let t = Seq::<u8>::empty();
    let t = t + line("uvm_hook_calls: ", v.uvm.hook_calls as int);
    let t = t + line("uvm_fast_hits:  ", v.uvm.fast_matches as int);
    let t = t + line("uvm_fast_miss:  ", v.uvm.fast_misses as int);
    let t = t + line("uvm_no_pte:     ", v.uvm.unserviceable as int);
    let t = t + line("uvm_handled:    ", v.uvm.handled as int);
    let t = t + line("uvm_errors:     ", v.uvm.errors as int);
    let t = t + line("uvm_last_gpu:   ", v.uvm.last_gpu_id as int);
    let t = t + hex_line("uvm_last_client:0x", v.uvm.last_rm_client_token as int);
    let t = t + hex_line("uvm_last_token: 0x", v.uvm.last_va_space_token as int);
    let t = t + hex_line("uvm_last_va:    0x", v.uvm.last_gpu_va_space_ptr as int);
    let t = t + hex_line("uvm_last_fault: 0x", v.uvm.last_fault_address as int);
    let t = t + line("uvm_last_access:", v.uvm.last_access_type as int);
    let t = t + signed_line("uvm_last_map_ret:", v.uvm.last_map_ret as int);
    let t = t + signed_line("uvm_last_ensure_ret:", v.uvm.last_ensure_ret as int);
    t + signed_line("uvm_last_result:", v.uvm.last_result as int)
}

/// The whole text.
pub open spec fn stats_text(v: PolarisView) -> Seq<u8> {
    table_lines(v) + policy_lines(v) + memory_lines(v) + uvm_lines(v)
}

// ─── Handling ───────────────────────────────────────────────────────────────

/// Append a label, a number, and the end of the line.
fn push_line(out: &mut Vec<u8>, label: &str, n: u64)
    ensures
        final(out)@ == old(out)@ + line(label, n as int),
{
    push_str(out, label);
    push_decimal(out, n);
    push_str(out, "\n");
    assert(out@ =~= old(out)@ + line(label, n as int));
}

/// Append a label, a number in hexadecimal, and the end of the line.
fn push_hex_line(out: &mut Vec<u8>, label: &str, n: u64)
    ensures
        final(out)@ == old(out)@ + hex_line(label, n as int),
{
    push_str(out, label);
    push_hexadecimal(out, n);
    push_str(out, "\n");
    assert(out@ =~= old(out)@ + hex_line(label, n as int));
}

/// Append a label, a signed number, and the end of the line.
fn push_signed_line(out: &mut Vec<u8>, label: &str, n: i32)
    ensures
        final(out)@ == old(out)@ + signed_line(label, n as int),
{
    push_str(out, label);
    push_signed_decimal(out, n);
    push_str(out, "\n");
    assert(out@ =~= old(out)@ + signed_line(label, n as int));
}

/// What a query for the totals is answered.
pub open spec fn totals_told(
    v: PolarisView,
    arg: PolarisGetGlobalStatsArg,
    r: PolarisGetGlobalStatsArg,
) -> bool {
    &&& r.total_gpus == v.gpus.len()
    &&& r.total_sessions == v.sessions.len() as u32
    &&& r.total_blocks == v.blocks.len()
    &&& r.blocks_resident == count(v.blocks, in_state(PolarisBlockState::Resident))
    &&& r.blocks_offloaded == count(v.blocks, in_state(PolarisBlockState::CpuOffloaded))
    &&& r.blocks_evicted == count(v.blocks, in_state(PolarisBlockState::Evicted))
    &&& r.shared_gpu_bytes == sum(v.blocks, shared_bytes())
    &&& r.private_gpu_bytes == sum(v.blocks, private_bytes())
    &&& r.cow_break_count == v.cow_break_count
    &&& r.cow_copy_bytes == v.cow_copy_bytes
    &&& r.memory_saved_vs_naive == sat_sub(saved_by_sharing(v.blocks), v.cow_copy_bytes)
    &&& r.total_gpu_bytes == sum(v.gpus, gpu_total())
    &&& r.used_gpu_bytes == sum(v.gpus, gpu_used())
    &&& r.cpu_pool_total == sum(v.gpus, cpu_total())
    &&& r.cpu_pool_used == sum(v.gpus, cpu_used())
    &&& r.eviction_policy == v.eviction_policy.code()
    &&& r._policy_pad == arg._policy_pad
    &&& r.offload_count == v.offload_count
    &&& r.reload_count == v.reload_count
    &&& r.total_evictions == v.total_evictions
}

impl PolarisInner {
    /// Totals over the blocks.
    pub fn block_totals(&self) -> (r: BlockTotals)
        requires
            totals_fit(self@),
        ensures
            block_totals_of(r, self@.blocks),
    {
        let ghost all = self@.blocks;
        let mut t = BlockTotals {
            resident: 0,
            offloaded: 0,
            evicted: 0,
            pending: 0,
            shared: 0,
            private: 0,
            memory_saved: 0,
        };
        let mut i: usize = 0;
        proof {
            reveal(Seq::filter);
            assert(all.take(0) =~= Seq::empty());
        }
        while i < self.blocks.len()
            invariant
                0 <= i <= all.len() <= u32::MAX,
                all == self@.blocks,
                sum(all, shared_bytes()) <= u64::MAX,
                sum(all, private_bytes()) <= u64::MAX,
                block_totals_of(t, all.take(i as int)),
            decreases all.len() - i,
        {
            let b = self.blocks[i];
            proof {
                lemma_count_step(all, in_state(PolarisBlockState::Resident), i as int);
                lemma_count_step(all, in_state(PolarisBlockState::CpuOffloaded), i as int);
                lemma_count_step(all, in_state(PolarisBlockState::Evicted), i as int);
                lemma_count_step(all, in_other_state(), i as int);
                lemma_sum_step(all, shared_bytes(), i as int);
                lemma_sum_step(all, private_bytes(), i as int);
                lemma_sum_part(all, shared_bytes(), i as int + 1);
                lemma_sum_part(all, private_bytes(), i as int + 1);
                assert(all.take(i as int + 1).drop_last() =~= all.take(i as int));
            }
            match b.state {
                PolarisBlockState::Resident => {
                    t.resident = t.resident + 1;
                },
                PolarisBlockState::CpuOffloaded => {
                    t.offloaded = t.offloaded + 1;
                },
                PolarisBlockState::Evicted => {
                    t.evicted = t.evicted + 1;
                },
                _ => {
                    t.pending = t.pending + 1;
                },
            }
            if b.flags.shared {
                t.shared = t.shared + b.size_bytes;
                t.memory_saved =
                t.memory_saved.saturating_add(
                    saturating_mul(b.refcount.saturating_sub(1), b.size_bytes),
                );
            } else {
                t.private = t.private + b.size_bytes;
            }
            i += 1;
        }
        assert(all.take(i as int) =~= all);
        t
    }

    /// Totals over the GPUs.
    pub fn gpu_totals(&self) -> (r: GpuTotals)
        requires
            totals_fit(self@),
        ensures
            gpu_totals_of(r, self@.gpus),
    {
        let ghost all = self@.gpus;
        let mut t = GpuTotals {
            total: 0,
            used: 0,
            budget: 0,
            cpu_total: 0,
            cpu_used: 0,
            unhealthy: 0,
        };
        let mut i: usize = 0;
        proof {
            reveal(Seq::filter);
            assert(all.take(0) =~= Seq::empty());
        }
        while i < self.gpus.len()
            invariant
                0 <= i <= all.len() <= u32::MAX,
                all == self@.gpus,
                sum(all, gpu_total()) <= u64::MAX,
                sum(all, gpu_used()) <= u64::MAX,
                sum(all, gpu_budget()) <= u64::MAX,
                sum(all, cpu_total()) <= u64::MAX,
                sum(all, cpu_used()) <= u64::MAX,
                gpu_totals_of(t, all.take(i as int)),
            decreases all.len() - i,
        {
            let g = self.gpus[i];
            proof {
                lemma_count_step(all, unhealthy(), i as int);
                lemma_sum_step(all, gpu_total(), i as int);
                lemma_sum_step(all, gpu_used(), i as int);
                lemma_sum_step(all, gpu_budget(), i as int);
                lemma_sum_step(all, cpu_total(), i as int);
                lemma_sum_step(all, cpu_used(), i as int);
                lemma_sum_part(all, gpu_total(), i as int + 1);
                lemma_sum_part(all, gpu_used(), i as int + 1);
                lemma_sum_part(all, gpu_budget(), i as int + 1);
                lemma_sum_part(all, cpu_total(), i as int + 1);
                lemma_sum_part(all, cpu_used(), i as int + 1);
            }
            t.total = t.total + g.total_bytes;
            t.used = t.used + g.used_bytes;
            t.budget = t.budget + g.budget_bytes;
            t.cpu_total = t.cpu_total + g.cpu_pool_total_bytes;
            t.cpu_used = t.cpu_used + g.cpu_pool_used_bytes;
            if !g.healthy {
                t.unhealthy = t.unhealthy + 1;
            }
            i += 1;
        }
        assert(all.take(i as int) =~= all);
        t
    }

    /// How many address spaces have a process.
    fn worker_count(&self) -> (r: usize)
        ensures
            r == count(self@.va_spaces, has_process()),
    {
        let ghost all = self@.va_spaces;
        let mut n: usize = 0;
        let mut i: usize = 0;
        proof {
            reveal(Seq::filter);
            assert(all.take(0) =~= Seq::empty());
        }
        while i < self.va_spaces.len()
            invariant
                0 <= i <= all.len(),
                all == self@.va_spaces,
                n <= i,
                n == count(all.take(i as int), has_process()),
            decreases all.len() - i,
        {
            proof {
                lemma_count_step(all, has_process(), i as int);
            }
            if self.va_spaces[i].pid != 0 {
                n += 1;
            }
            i += 1;
        }
        assert(all.take(i as int) =~= all);
        n
    }

    /// How many slots of the lookup table of address spaces are in use.
    fn slots_in_use(&self) -> (r: usize)
        ensures
            r == count(self@.fast_va_spaces, slot_in_use()),
    {
        let ghost all = self@.fast_va_spaces;
        let mut n: usize = 0;
        let mut i: usize = 0;
        proof {
            reveal(Seq::filter);
            assert(all.take(0) =~= Seq::empty());
        }
        while i < self.fast_va_spaces.len()
            invariant
                0 <= i <= all.len(),
                all == self@.fast_va_spaces,
                n <= i,
                n == count(all.take(i as int), slot_in_use()),
            decreases all.len() - i,
        {
            proof {
                lemma_count_step(all, slot_in_use(), i as int);
            }
            if self.fast_va_spaces[i].va_space_token != 0 {
                n += 1;
            }
            i += 1;
        }
        assert(all.take(i as int) =~= all);
        n
    }

    /// Totals over the whole device. The count of sessions is given modulo 2^32.
    pub fn get_global_stats(&self, arg: PolarisGetGlobalStatsArg) -> (r: PolarisGetGlobalStatsArg)
        requires
            totals_fit(self@),
        ensures
            totals_told(self@, arg, r),
    {
        let b = self.block_totals();
        let g = self.gpu_totals();
        PolarisGetGlobalStatsArg {
            total_gpus: self.gpus.len() as u32,
            total_sessions: self.sessions.len() as u32,
            total_blocks: self.blocks.len() as u32,
            blocks_resident: b.resident,
            blocks_offloaded: b.offloaded,
            blocks_evicted: b.evicted,
            shared_gpu_bytes: b.shared,
            private_gpu_bytes: b.private,
            cow_break_count: self.cow_break_count,
            cow_copy_bytes: self.cow_copy_bytes,
            memory_saved_vs_naive: b.memory_saved.saturating_sub(self.cow_copy_bytes),
            total_gpu_bytes: g.total,
            used_gpu_bytes: g.used,
            cpu_pool_total: g.cpu_total,
            cpu_pool_used: g.cpu_used,
            eviction_policy: self.eviction_policy.to_u32(),
            _policy_pad: arg._policy_pad,
            offload_count: self.offload_count,
            reload_count: self.reload_count,
            total_evictions: self.total_evictions,
        }
    }

    /// The lines on sessions, blocks and GPUs.
    fn push_table_lines(&self, b: &BlockTotals, g: &GpuTotals) -> (out: Vec<u8>)
        requires
            block_totals_of(*b, self@.blocks),
            gpu_totals_of(*g, self@.gpus),
        ensures
            out@ == table_lines(self@),
    {
        let mut out: Vec<u8> = Vec::new();
        push_line(&mut out, "sessions:       ", self.sessions.len() as u64);
        push_line(&mut out, "blocks:         ", self.blocks.len() as u64);
        push_line(&mut out, "  resident:     ", b.resident as u64);
        push_line(&mut out, "  offloaded:    ", b.offloaded as u64);
        push_line(&mut out, "  evicted:      ", b.evicted as u64);
        push_line(&mut out, "  pending:      ", b.pending as u64);
        push_line(&mut out, "gpus:           ", self.gpus.len() as u64);
        push_line(&mut out, "  unhealthy:    ", g.unhealthy as u64);
        push_line(&mut out, "daemon:         ", self.daemon_attached as u64);
        out
    }

    /// The lines on the policy and on what it did.
    fn push_policy_lines(&self, b: &BlockTotals) -> (out: Vec<u8>)
        requires
            block_totals_of(*b, self@.blocks),
        ensures
            out@ == policy_lines(self@),
    {
        let mut out: Vec<u8> = Vec::new();
        push_str(&mut out, "policy:         ");
        push_decimal(&mut out, self.eviction_policy.to_u32() as u64);
        push_str(&mut out, " (0=fifo,1=lru,2=phase_aware)\n");
        assert(out@ =~= Seq::<u8>::empty() + ("policy:         ".spec_bytes() + decimal(
            self@.eviction_policy.code() as nat,
        ) + " (0=fifo,1=lru,2=phase_aware)\n".spec_bytes()));
        push_line(&mut out, "offloads:       ", self.offload_count);
        push_line(&mut out, "reloads:        ", self.reload_count);
        push_line(&mut out, "evictions:      ", self.total_evictions);
        push_line(&mut out, "cow_breaks:     ", self.cow_break_count);
        push_line(&mut out, "cow_copy_mib:   ", self.cow_copy_bytes / MIB);
        push_line(
            &mut out,
            "cow_saved_mib:  ",
            b.memory_saved.saturating_sub(self.cow_copy_bytes) / MIB,
        );
        out
    }

    /// The lines on memory.
    fn push_memory_lines(&self, b: &BlockTotals, g: &GpuTotals) -> (out: Vec<u8>)
        requires
            block_totals_of(*b, self@.blocks),
            gpu_totals_of(*g, self@.gpus),
        ensures
            out@ == memory_lines(self@),
    {
        let mut out: Vec<u8> = Vec::new();
        push_line(&mut out, "gpu_total_mib:  ", g.total / MIB);
        push_line(&mut out, "gpu_budget_mib: ", g.budget / MIB);
        push_line(&mut out, "gpu_used_mib:   ", g.used / MIB);
        push_line(&mut out, "cpu_pool_mib:   ", g.cpu_total / MIB);
        push_line(&mut out, "cpu_used_mib:   ", g.cpu_used / MIB);
        push_line(&mut out, "shared_mib:     ", b.shared / MIB);
        push_line(&mut out, "private_mib:    ", b.private / MIB);
        push_line(&mut out, "pending_decs:   ", self.pending_decisions.len() as u64);
        push_line(&mut out, "v4_va_spaces:   ", self.slots_in_use() as u64);
        push_line(&mut out, "v4_worker_pids: ", self.worker_count() as u64);
        push_line(&mut out, "static_blocks:  ", self.static_blocks.len() as u64);
        push_line(&mut out, "block_mappings: ", self.block_mappings.len() as u64);
        out
    }

    /// The lines on the fault hook.
    fn push_uvm_lines(&self) -> (out: Vec<u8>)
        ensures
            out@ == uvm_lines(self@),
    {
        let mut out: Vec<u8> = Vec::new();
        push_line(&mut out, "uvm_hook_calls: ", self.uvm.hook_calls);
        push_line(&mut out, "uvm_fast_hits:  ", self.uvm.fast_matches);
        push_line(&mut out, "uvm_fast_miss:  ", self.uvm.fast_misses);
        push_line(&mut out, "uvm_no_pte:     ", self.uvm.unserviceable);
        push_line(&mut out, "uvm_handled:    ", self.uvm.handled);
        push_line(&mut out, "uvm_errors:     ", self.uvm.errors);
        push_line(&mut out, "uvm_last_gpu:   ", self.uvm.last_gpu_id as u64);
        push_hex_line(&mut out, "uvm_last_client:0x", self.uvm.last_rm_client_token);
        push_hex_line(&mut out, "uvm_last_token: 0x", self.uvm.last_va_space_token);
        push_hex_line(&mut out, "uvm_last_va:    0x", self.uvm.last_gpu_va_space_ptr);
        push_hex_line(&mut out, "uvm_last_fault: 0x", self.uvm.last_fault_address);
        push_line(&mut out, "uvm_last_access:", self.uvm.last_access_type as u64);
        push_signed_line(&mut out, "uvm_last_map_ret:", self.uvm.last_map_ret);
        push_signed_line(&mut out, "uvm_last_ensure_ret:", self.uvm.last_ensure_ret);
        push_signed_line(&mut out, "uvm_last_result:", self.uvm.last_result);
        out
    }

    /// Write the totals as text to a buffer of at least one byte, as far as they
    /// fit, and end them with a zero byte. Returns the buffer and the length of
    /// the text.
    pub fn stats_show(&self, buf: Vec<u8>) -> (r: (Vec<u8>, usize))
        requires
            totals_fit(self@),
            buf@.len() >= 1,
        ensures
            r.0@.len() == buf@.len(),
            r.1 < buf@.len(),
            r.0@.take(r.1 as int) == fitting(stats_text(self@), buf@.len() - 1),
            r.0@[r.1 as int] == 0,
    {
        let b = self.block_totals();
        let g = self.gpu_totals();
        let mut text = self.push_table_lines(&b, &g);
        let policy = self.push_policy_lines(&b);
        let memory = self.push_memory_lines(&b, &g);
        let uvm = self.push_uvm_lines();
        crate::text::push_bytes(&mut text, policy.as_slice());
        crate::text::push_bytes(&mut text, memory.as_slice());
        crate::text::push_bytes(&mut text, uvm.as_slice());
        assert(text@ =~= stats_text(self@));
        let mut w = BufWriter::new(buf);
        w.write_str(text.as_slice());
        let len: usize = w.pos;
        let mut out = w.buf;
        assert(out@.take(len as int) =~= fitting(stats_text(self@), buf@.len() - 1));
        let ghost before = out@;
        out[len] = 0;
        assert(out@.take(len as int) =~= before.take(len as int));
        (out, len)
    }
}

} // verus!
