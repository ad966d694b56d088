//! The executor as a library inside an inference process, with KV memory that
//! the process asks for itself.

use crate::abi::{PolarisDecision, PolarisDecisionOp};
use crate::cpu_pool::{CpuView, PAGE};
use crate::dispatch::{destination, done, plain_reply, preferred_dst_vaddr, replies_left};
use crate::errno::{EFAULT, EINVAL, ENODEV, ENOMEM};
use crate::executor::{After, Bring, Brought, DeviceCall, ExecutionResult, Fill, Reply};
use crate::gpu::{GpuState, GpuView};
use crate::num::{greatest, larger, sat_sub};
use crate::offload::{begin_bring, bringing, offload_source, with_block_up, Run, Step};
use crate::ranges::{
    can_give, lemma_inserted, lemma_snapped, lemma_taking, lemma_total_bounded, place, place_of,
    snap_fits, snap_up, snapped, take, taking, total,
};
use std::collections::HashMap;
use vstd::prelude::*;

verus! {

broadcast use vstd::std_specs::hash::group_hash_axioms;

// ─── The host pool ──────────────────────────────────────────────────────────

/// Pinned host memory in whole pages. Ranges that are given back are not joined.
pub struct CpuPool {
    pub base: u64,
    pub total: u64,
    pub used: u64,
    pub free_ranges: Vec<(u64, u64)>,
    pub allocations: HashMap<u64, u64>,
}

impl View for CpuPool {
    type V = CpuView;

    open spec fn view(&self) -> CpuView {
        CpuView {
            base: self.base,
            total: self.total,
            used: self.used,
            free: self.free_ranges@,
            allocations: self.allocations@,
        }
    }
}

/// A buffer of whole pages by first fit.
pub open spec fn paged_allocating(v: CpuView, size: u64) -> (Option<u64>, CpuView) {
    let paged = snapped(size, PAGE);
    match taking(v.free, paged, PAGE) {
        (Some(addr), left) => (
            Some(addr),
            CpuView { used: (v.used + paged) as u64, free: left, ..v },
        ),
        (None, _) => (None, v),
    }
}

/// With a buffer of whole pages given back.
pub open spec fn paged_freed(v: CpuView, addr: u64, size: u64) -> CpuView {
    if addr == 0 || size == 0 {
        v
    } else {
        let paged = snapped(size, PAGE);
        CpuView {
            used: sat_sub(v.used, paged),
            free: v.free.insert(place_of(v.free, addr), (addr, paged)),
            ..v
        }
    }
}

/// Whether a buffer of whole pages can be given back.
pub open spec fn paged_can_free(v: CpuView, addr: u64, size: u64) -> bool {
    addr != 0 && size != 0 ==> snap_fits(size, PAGE) && can_give(v.free, addr, snapped(size, PAGE))
}

impl CpuPool {
    /// A pool in which everything is free.
    pub fn new(base: u64, total: u64) -> (pool: CpuPool)
        requires
            base + total <= u64::MAX,
        ensures
            pool@ == (CpuView {
                base,
                total,
                used: 0,
                free: if total == 0 {
                    seq![]
                } else {
                    seq![(base, total)]
                },
                allocations: Map::empty(),
            }),
            pool@.wf(),
            pool@.balanced(),
    {
        let mut free_ranges: Vec<(u64, u64)> = Vec::new();
        if total != 0 {
            free_ranges.push((base, total));
        }
        proof {
            let f = free_ranges@;
            if total != 0 {
                assert(f =~= seq![(base, total)]);
                assert(f.drop_last() =~= Seq::empty());
                assert(crate::ranges::total(f.drop_last()) == 0);
            } else {
                assert(f =~= seq![]);
            }
            assert(crate::ranges::total(f) == total);
        }
        CpuPool { base, total, used: 0, free_ranges, allocations: HashMap::new() }
    }

    /// Take a buffer of whole pages.
    pub fn allocate(&mut self, size: u64) -> (r: Option<u64>)
        requires
            old(self)@.wf(),
            snap_fits(size, PAGE),
        ensures
            (r, final(self)@) == paged_allocating(old(self)@, size),
            final(self)@.wf(),
            r matches Some(addr) ==> paged_can_free(final(self)@, addr, size),
    {
        let paged = snap_up(size, PAGE);
        proof {
            lemma_taking(self.free_ranges@, paged, PAGE);
        }
        match take(&mut self.free_ranges, paged, PAGE) {
            Some(addr) => {
                proof {
                    lemma_total_bounded(self.free_ranges@, 0, u64::MAX as int);
                }
                self.used = self.used + paged;
                Some(addr)
            },
            None => None,
        }
    }

    /// Give a buffer of whole pages back.
    pub fn free(&mut self, addr: u64, size: u64)
        requires
            old(self)@.wf(),
            paged_can_free(old(self)@, addr, size),
        ensures
            final(self)@ == paged_freed(old(self)@, addr, size),
            final(self)@.wf(),
    {
        if addr == 0 || size == 0 {
            return;
        }
        let paged = snap_up(size, PAGE);
        let at = place(&self.free_ranges, addr);
        proof {
            lemma_snapped(size, PAGE);
            lemma_inserted(self.free_ranges@, addr, paged);
            lemma_total_bounded(
                self.free_ranges@.insert(at as int, (addr, paged)),
                0,
                u64::MAX as int,
            );
            crate::ranges::lemma_place(self.free_ranges@, addr);
        }
        self.used = self.used.saturating_sub(paged);
        self.free_ranges.insert(at, (addr, paged));
    }

    /// Note the buffer of a block.
    pub fn track(&mut self, block_id: u64, addr: u64)
        ensures
            final(self)@ == old(self)@.with_buffer(block_id, addr),
    {
        self.allocations.insert(block_id, addr);
    }

    /// Forget the buffer of a block.
    pub fn untrack(&mut self, block_id: u64) -> (r: Option<u64>)
        ensures
            r == old(self)@.buffer_of(block_id),
            final(self)@ == old(self)@.without_buffer(block_id),
    {
        let r = self.get(block_id);
        self.allocations.remove(&block_id);
        r
    }

    /// The buffer of a block.
    pub fn get(&self, block_id: u64) -> (r: Option<u64>)
        ensures
            r == self@.buffer_of(block_id),
    {
        match self.allocations.get(&block_id) {
            Some(addr) => Some(*addr),
            None => None,
        }
    }
}

/// A buffer that was taken and given back leaves the books as they were.
pub proof fn law_paged_allocate_then_free_balances(v: CpuView, size: u64)
    requires
        v.wf(),
        snap_fits(size, PAGE),
        size > 0,
        paged_allocating(v, size).0 is Some,
        paged_allocating(v, size).0 != Some(0u64),
    ensures
        ({
            let (addr, w) = paged_allocating(v, size);
            let x = paged_freed(w, addr->0, size);
            &&& x.used == v.used
            &&& total(x.free) == total(v.free)
            &&& forall|a: int| #[trigger]
                crate::ranges::covers(x.free, a) <==> crate::ranges::covers(v.free, a)
        }),
{
    let paged = snapped(size, PAGE);
    lemma_snapped(size, PAGE);
    lemma_taking(v.free, paged, PAGE);
    let (addr, left) = taking(v.free, paged, PAGE);
    lemma_total_bounded(left, 0, u64::MAX as int);
    lemma_inserted(left, addr->0, paged);
    let x = paged_freed(paged_allocating(v, size).1, addr->0, size);
    assert forall|a: int| #[trigger]
        crate::ranges::covers(x.free, a) <==> crate::ranges::covers(v.free, a) by {
        assert(crate::ranges::covers(left, a) <==> crate::ranges::covers(v.free, a) && !(addr->0
            <= a < addr->0 + paged));
    }
}

// ─── Decisions ──────────────────────────────────────────────────────────────

/// The size of a block in whole granules, or what its addresses take up if that
/// is more.
pub open spec fn granules_to_move(gpu: GpuView, dec: PolarisDecision) -> u64 {
    snapped(greatest(dec.size_bytes, gpu.va_size_of(dec.block_id)), gpu.granule)
}

/// Whether the size of a block can be rounded up.
pub open spec fn sizes_fit(gpu: GpuView, dec: PolarisDecision) -> bool {
    snap_fits(greatest(dec.size_bytes, gpu.va_size_of(dec.block_id)), gpu.granule)
}

/// What the driver is told when a block is freed.
pub open spec fn free_calls(gpu: GpuView, dec: PolarisDecision) -> After {
    let phys = if dec.src_handle != 0 {
        dec.src_handle
    } else {
        gpu.handle_of(dec.block_id)
    };
    let release = DeviceCall::ReleasePhysical { handle: phys };
    match gpu.va_of(dec.block_id) {
        Some(va) => {
            let unmap = DeviceCall::UnmapMemory {
                vaddr: greatest(dec.src_vaddr, va.vaddr),
                size: va.size,
            };
            if phys != 0 {
                After::Two(unmap, release)
            } else {
                After::One(unmap)
            }
        },
        None => if phys != 0 {
            After::One(release)
        } else {
            After::Nothing
        },
    }
}

/// A block is freed at once: its memory, its buffer and its addresses go back.
pub open spec fn freeing_at_once(gpu: GpuView, cpu: CpuView, dec: PolarisDecision) -> (
    Step,
    GpuView,
    CpuView,
) {
    (
        done(0, free_calls(gpu, dec), 0),
        GpuView {
            used_bytes: sat_sub(gpu.used_bytes, gpu.va_size_of(dec.block_id)),
            ..gpu
        }.without_block(dec.block_id),
        match cpu.buffer_of(dec.block_id) {
            Some(addr) => paged_freed(
                cpu.without_buffer(dec.block_id),
                addr,
                snapped(dec.size_bytes, PAGE),
            ),
            None => cpu.without_buffer(dec.block_id),
        },
    )
}

/// Whether a block can be freed.
pub open spec fn free_fits(gpu: GpuView, cpu: CpuView, dec: PolarisDecision) -> bool {
    &&& snap_fits(dec.size_bytes, PAGE)
    &&& gpu.can_remove(dec.block_id)
    &&& cpu.buffer_of(dec.block_id) matches Some(addr) ==> paged_can_free(
        cpu,
        addr,
        snapped(dec.size_bytes, PAGE),
    )
}

/// Free a block.
pub fn free_block(dec: &PolarisDecision, gpu: &mut GpuState, cpu_pool: &mut CpuPool) -> (r: Step)
    requires
        old(gpu)@.wf(),
        old(cpu_pool)@.wf(),
        free_fits(old(gpu)@, old(cpu_pool)@, *dec),
    ensures
        (r, final(gpu)@, final(cpu_pool)@) == freeing_at_once(
            old(gpu)@,
            old(cpu_pool)@,
            *dec,
        ),
        final(gpu)@.wf(),
        final(cpu_pool)@.wf(),
{
    let phys = if dec.src_handle != 0 {
        dec.src_handle
    } else {
        match gpu.get_handle(dec.block_id) {
            Some(handle) => handle,
            None => 0,
        }
    };
    let release = DeviceCall::ReleasePhysical { handle: phys };
    let va = gpu.get_va_alloc(dec.block_id);
    let after = match va {
        Some(va) => {
            let unmap = DeviceCall::UnmapMemory {
                vaddr: larger(dec.src_vaddr, va.vaddr),
                size: va.size,
            };
            if phys != 0 {
                After::Two(unmap, release)
            } else {
                After::One(unmap)
            }
        },
        None => if phys != 0 {
            After::One(release)
        } else {
            After::Nothing
        },
    };
    if let Some(va) = va {
        gpu.used_bytes = gpu.used_bytes.saturating_sub(va.size);
    }
    if let Some(addr) = cpu_pool.untrack(dec.block_id) {
        cpu_pool.free(addr, snap_up(dec.size_bytes, PAGE));
    }
    gpu.remove_block(dec.block_id);
    Step::Finish { after, result: ExecutionResult::of(0, 0, 0) }
}

/// The first step of an allocation.
pub open spec fn allocating_block(gpu: GpuView, dec: PolarisDecision) -> (Step, GpuView) {
    let size = gpu.in_granules(dec.size_bytes);
    match destination(gpu, dec, size) {
        (None, g) => (Step::failed(ENOMEM), g),
        (Some(dst), g) => (
            bringing(dec.block_id, dst.vaddr, size, Fill::Nothing, dst.release_to_pool, 0),
            g,
        ),
    }
}

/// The address that a private copy is made from, or zero.
pub open spec fn copy_source(gpu: GpuView, dec: PolarisDecision, found: Option<u64>) -> u64 {
    if dec.src_vaddr != 0 {
        dec.src_vaddr
    } else {
        match found {
            Some(b) => gpu.vaddr_of(b),
            None => 0,
        }
    }
}

/// The first step of making a private copy.
pub open spec fn copying_block(gpu: GpuView, dec: PolarisDecision, found: Option<u64>) -> (
    Step,
    GpuView,
) {
    let size = gpu.in_granules(dec.size_bytes);
    let src = copy_source(gpu, dec, found);
    if src == 0 {
        (Step::failed(EINVAL), gpu)
    } else {
        match destination(gpu, dec, size) {
            (None, g) => (Step::failed(ENOMEM), g),
            (Some(dst), g) => (
                bringing(dec.block_id, dst.vaddr, size, Fill::Device(src), dst.release_to_pool, 0),
                g,
            ),
        }
    }
}

/// The first step of mapping memory at one more address.
pub open spec fn mapping_block(gpu: GpuView, dec: PolarisDecision) -> Step {
    let size = gpu.in_granules(dec.size_bytes);
    if dec.src_handle == 0 || dec.dst_vaddr == 0 {
        Step::failed(EINVAL)
    } else {
        Step::Ask {
            call: DeviceCall::MapMemory { vaddr: dec.dst_vaddr, handle: dec.src_handle, size },
            run: Run::MapExisting {
                block_id: dec.block_id,
                vaddr: dec.dst_vaddr,
                size,
                mapped: false,
                output_cpu_addr: 0,
            },
        }
    }
}

/// The first step of unmapping a block.
pub open spec fn unmapping_block(gpu: GpuView, dec: PolarisDecision) -> Step {
    let vaddr = if dec.dst_vaddr != 0 {
        dec.dst_vaddr
    } else {
        gpu.vaddr_of(dec.block_id)
    };
    let size = granules_to_move(gpu, dec);
    if vaddr != 0 && size != 0 {
        Step::Ask {
            call: DeviceCall::UnmapMemory { vaddr, size },
            run: Run::Unmap { output_cpu_addr: 0 },
        }
    } else {
        done(0, After::Nothing, 0)
    }
}

/// The first step of an offload.
pub open spec fn offloading_block(gpu: GpuView, cpu: CpuView, dec: PolarisDecision) -> (
    Step,
    CpuView,
) {
    let src_vaddr = if dec.src_vaddr != 0 {
        dec.src_vaddr
    } else {
        gpu.vaddr_of(dec.block_id)
    };
    let size = granules_to_move(gpu, dec);
    if src_vaddr == 0 || size == 0 {
        (Step::failed(EINVAL), cpu)
    } else {
        match paged_allocating(cpu, size) {
            (None, _) => (Step::failed(ENOMEM), cpu),
            (Some(cpu_addr), c) => (
                Step::Ask {
                    call: DeviceCall::CopyDeviceToHost { dst: cpu_addr, src: src_vaddr, size },
                    run: Run::Offload {
                        block_id: dec.block_id,
                        src_vaddr,
                        size,
                        cpu_addr,
                        copied: false,
                    },
                },
                c,
            ),
        }
    }
}

/// The host copy that a block is reloaded from: the one that the decision names,
/// or the one that the block is known with.
pub open spec fn reload_source(cpu: CpuView, dec: PolarisDecision) -> u64 {
    if dec.cpu_addr != 0 {
        dec.cpu_addr
    } else {
        match cpu.buffer_of(dec.block_id) {
            Some(addr) => addr,
            None => 0,
        }
    }
}

/// The first step of a reload.
pub open spec fn reloading_block(gpu: GpuView, cpu: CpuView, dec: PolarisDecision) -> Step {
    let vaddr = if dec.dst_vaddr != 0 {
        dec.dst_vaddr
    } else {
        gpu.vaddr_of(dec.block_id)
    };
    let cpu_addr = reload_source(cpu, dec);
    if vaddr == 0 || cpu_addr == 0 {
        Step::failed(EINVAL)
    } else {
        bringing(
            dec.block_id,
            vaddr,
            gpu.in_granules(dec.size_bytes),
            Fill::Host(cpu_addr),
            false,
            0,
        )
    }
}

/// The first step of a decision. `found` is the block that is known with the
/// handle of the source.
pub open spec fn dispatching_decision(
    gpu: GpuView,
    cpu: CpuView,
    dec: PolarisDecision,
    found: Option<u64>,
) -> (Step, GpuView, CpuView) {
    if dec.op == PolarisDecisionOp::Alloc.code() {
        let (step, g) = allocating_block(gpu, dec);
        (step, g, cpu)
    } else if dec.op == PolarisDecisionOp::Free.code() {
        freeing_at_once(gpu, cpu, dec)
    } else if dec.op == PolarisDecisionOp::MapExisting.code() {
        (mapping_block(gpu, dec), gpu, cpu)
    } else if dec.op == PolarisDecisionOp::Unmap.code() {
        (unmapping_block(gpu, dec), gpu, cpu)
    } else if dec.op == PolarisDecisionOp::Offload.code() {
        let (step, c) = offloading_block(gpu, cpu, dec);
        (step, gpu, c)
    } else if dec.op == PolarisDecisionOp::Reload.code() {
        (reloading_block(gpu, cpu, dec), gpu, cpu)
    } else if dec.op == PolarisDecisionOp::CowBreak.code() {
        let (step, g) = copying_block(gpu, dec, found);
        (step, g, cpu)
    } else {
        (Step::failed(EINVAL), gpu, cpu)
    }
}

/// Whether a decision can be carried out.
pub open spec fn decision_fits(gpu: GpuView, cpu: CpuView, dec: PolarisDecision) -> bool {
    &&& gpu.wf()
    &&& cpu.wf()
    &&& sizes_fit(gpu, dec)
    &&& snap_fits(granules_to_move(gpu, dec), PAGE)
    &&& snap_fits(dec.size_bytes, gpu.granule)
    &&& gpu.used_bytes + gpu.in_granules(dec.size_bytes) <= u64::MAX
    &&& dec.op == PolarisDecisionOp::Free.code() ==> free_fits(gpu, cpu, dec)
    &&& dec.op == PolarisDecisionOp::Reload.code() ==> paged_can_free(
        cpu,
        reload_source(cpu, dec),
        gpu.in_granules(dec.size_bytes),
    )
}

/// Whether a run can go on with any reply.
pub open spec fn step_fits(gpu: GpuView, cpu: CpuView, run: Run) -> bool {
    &&& gpu.wf()
    &&& cpu.wf()
    &&& match run {
        Run::Bring { bring, release, .. } => {
            &&& gpu.used_bytes + bring.size <= u64::MAX
            &&& release ==> can_give(gpu.free, bring.vaddr, bring.size)
            &&& bring.fill matches Fill::Host(src) ==> paged_can_free(cpu, src, bring.size)
        },
        Run::MapExisting { .. } => true,
        Run::Unmap { .. } => true,
        Run::Offload { size, cpu_addr, .. } => paged_can_free(cpu, cpu_addr, size),
        _ => false,
    }
}

/// Begin an allocation.
pub fn alloc_block(dec: &PolarisDecision, gpu: &mut GpuState) -> (r: Step)
    requires
        old(gpu)@.wf(),
        snap_fits(dec.size_bytes, old(gpu)@.granule),
        old(gpu)@.used_bytes + old(gpu)@.in_granules(dec.size_bytes) <= u64::MAX,
    ensures
        (r, final(gpu)@) == allocating_block(old(gpu)@, *dec),
        final(gpu)@.wf(),
        forall|cpu: CpuView|
            cpu.wf() && r is Ask ==> #[trigger] step_fits(final(gpu)@, cpu, r->run),
{
    let size = snap_up(dec.size_bytes, gpu.granule);
    match preferred_dst_vaddr(dec, gpu, size) {
        Some(dst) => begin_bring(
            dec.block_id,
            dst.vaddr,
            size,
            Fill::Nothing,
            dst.release_to_pool,
            0,
        ),
        None => Step::fail(ENOMEM),
    }
}

/// Begin to make a private copy.
pub fn cow_break(dec: &PolarisDecision, gpu: &mut GpuState) -> (r: Step)
    requires
        old(gpu)@.wf(),
        snap_fits(dec.size_bytes, old(gpu)@.granule),
        old(gpu)@.used_bytes + old(gpu)@.in_granules(dec.size_bytes) <= u64::MAX,
    ensures
        exists|found: Option<u64>| #[trigger]
            old(gpu)@.has_handle(dec.src_handle, found) && (r, final(gpu)@) == copying_block(
                old(gpu)@,
                *dec,
                found,
            ),
        final(gpu)@.wf(),
        forall|cpu: CpuView|
            cpu.wf() && r is Ask ==> #[trigger] step_fits(final(gpu)@, cpu, r->run),
{
    let size = snap_up(dec.size_bytes, gpu.granule);
    let found = gpu.find_block_by_phys(dec.src_handle);
    let src_vaddr = if dec.src_vaddr != 0 {
        dec.src_vaddr
    } else {
        match found {
            Some(b) => match gpu.get_va_alloc(b) {
                Some(va) => va.vaddr,
                None => 0,
            },
            None => 0,
        }
    };
    if src_vaddr == 0 {
        return Step::fail(EINVAL);
    }
    match preferred_dst_vaddr(dec, gpu, size) {
        Some(dst) => begin_bring(
            dec.block_id,
            dst.vaddr,
            size,
            Fill::Device(src_vaddr),
            dst.release_to_pool,
            0,
        ),
        None => Step::fail(ENOMEM),
    }
}

/// Begin to map memory at one more address.
pub fn map_existing(dec: &PolarisDecision, gpu: &GpuState) -> (r: Step)
    requires
        snap_fits(dec.size_bytes, gpu@.granule),
    ensures
        r == mapping_block(gpu@, *dec),
{
    let size = snap_up(dec.size_bytes, gpu.granule);
    if dec.src_handle == 0 || dec.dst_vaddr == 0 {
        return Step::fail(EINVAL);
    }
    Step::Ask {
        call: DeviceCall::MapMemory { vaddr: dec.dst_vaddr, handle: dec.src_handle, size },
        run: Run::MapExisting {
            block_id: dec.block_id,
            vaddr: dec.dst_vaddr,
            size,
            mapped: false,
            output_cpu_addr: 0,
        },
    }
}

/// Where a block is known to be, or zeros.
fn known_va(gpu: &GpuState, block_id: u64) -> (r: (u64, u64))
    ensures
        r == (gpu@.vaddr_of(block_id), gpu@.va_size_of(block_id)),
{
    match gpu.get_va_alloc(block_id) {
        Some(va) => (va.vaddr, va.size),
        None => (0, 0),
    }
}

/// Begin to unmap a block.
pub fn unmap_block(dec: &PolarisDecision, gpu: &GpuState) -> (r: Step)
    requires
        sizes_fit(gpu@, *dec),
    ensures
        r == unmapping_block(gpu@, *dec),
{
    let (known_vaddr, known_size) = known_va(gpu, dec.block_id);
    let vaddr = if dec.dst_vaddr != 0 {
        dec.dst_vaddr
    } else {
        known_vaddr
    };
    let size = snap_up(larger(dec.size_bytes, known_size), gpu.granule);
    if vaddr != 0 && size != 0 {
        Step::Ask {
            call: DeviceCall::UnmapMemory { vaddr, size },
            run: Run::Unmap { output_cpu_addr: 0 },
        }
    } else {
        Step::Finish { after: After::Nothing, result: ExecutionResult::of(0, 0, 0) }
    }
}

/// Begin an offload.
pub fn offload_block(dec: &PolarisDecision, gpu: &GpuState, cpu_pool: &mut CpuPool) -> (r: Step)
    requires
        gpu@.wf(),
        old(cpu_pool)@.wf(),
        sizes_fit(gpu@, *dec),
        snap_fits(granules_to_move(gpu@, *dec), PAGE),
    ensures
        (r, final(cpu_pool)@) == offloading_block(gpu@, old(cpu_pool)@, *dec),
        final(cpu_pool)@.wf(),
        r matches Step::Ask { run, .. } ==> step_fits(gpu@, final(cpu_pool)@, run),
{
    let (known_vaddr, known_size) = known_va(gpu, dec.block_id);
    let src_vaddr = if dec.src_vaddr != 0 {
        dec.src_vaddr
    } else {
        known_vaddr
    };
    let size = snap_up(larger(dec.size_bytes, known_size), gpu.granule);
    if src_vaddr == 0 || size == 0 {
        return Step::fail(EINVAL);
    }
    match cpu_pool.allocate(size) {
        Some(cpu_addr) => Step::Ask {
            call: DeviceCall::CopyDeviceToHost { dst: cpu_addr, src: src_vaddr, size },
            run: Run::Offload {
                block_id: dec.block_id,
                src_vaddr,
                size,
                cpu_addr,
                copied: false,
            },
        },
        None => Step::fail(ENOMEM),
    }
}

/// Begin a reload.
pub fn reload_block(dec: &PolarisDecision, gpu: &GpuState, cpu_pool: &CpuPool) -> (r: Step)
    requires
        snap_fits(dec.size_bytes, gpu@.granule),
    ensures
        r == reloading_block(gpu@, cpu_pool@, *dec),
{
    let size = snap_up(dec.size_bytes, gpu.granule);
    let (known_vaddr, _known_size) = known_va(gpu, dec.block_id);
    let vaddr = if dec.dst_vaddr != 0 {
        dec.dst_vaddr
    } else {
        known_vaddr
    };
    let cpu_addr = if dec.cpu_addr != 0 {
        dec.cpu_addr
    } else {
        match cpu_pool.get(dec.block_id) {
            Some(addr) => addr,
            None => 0,
        }
    };
    if vaddr == 0 || cpu_addr == 0 {
        return Step::fail(EINVAL);
    }
    begin_bring(dec.block_id, vaddr, size, Fill::Host(cpu_addr), false, 0)
}

/// Begin to carry a decision out.
pub fn dispatch_decision(dec: &PolarisDecision, gpu: &mut GpuState, cpu_pool: &mut CpuPool) -> (r:
    Step)
    requires
        decision_fits(old(gpu)@, old(cpu_pool)@, *dec),
    ensures
        exists|found: Option<u64>| #[trigger]
            old(gpu)@.has_handle(dec.src_handle, found) && (r, final(gpu)@, final(cpu_pool)@)
                == dispatching_decision(old(gpu)@, old(cpu_pool)@, *dec, found),
        final(gpu)@.wf(),
        final(cpu_pool)@.wf(),
        r matches Step::Ask { run, .. } ==> step_fits(final(gpu)@, final(cpu_pool)@, run),
{
    proof {
        gpu@.lemma_has_handle(dec.src_handle);
    }
    match PolarisDecisionOp::from_u32(dec.op) {
        Some(PolarisDecisionOp::Alloc) => alloc_block(dec, gpu),
        Some(PolarisDecisionOp::Free) => free_block(dec, gpu, cpu_pool),
        Some(PolarisDecisionOp::MapExisting) => map_existing(dec, gpu),
        Some(PolarisDecisionOp::Unmap) => unmap_block(dec, gpu),
        Some(PolarisDecisionOp::Offload) => offload_block(dec, gpu, cpu_pool),
        Some(PolarisDecisionOp::Reload) => reload_block(dec, gpu, cpu_pool),
        Some(PolarisDecisionOp::CowBreak) => cow_break(dec, gpu),
        None => Step::fail(EINVAL),
    }
}

/// Begin to carry a decision out, if it is for this GPU and its context could be
/// made current.
pub fn execute_decision(
    dec: &PolarisDecision,
    gpu: &mut GpuState,
    cpu_pool: &mut CpuPool,
    context_is_current: bool,
) -> (r: Step)
    requires
        decision_fits(old(gpu)@, old(cpu_pool)@, *dec),
    ensures
        dec.gpu_id != old(gpu)@.gpu_id || !context_is_current ==> {
            &&& r == Step::failed(ENODEV)
            &&& final(gpu)@ == old(gpu)@
            &&& final(cpu_pool)@ == old(cpu_pool)@
        },
        dec.gpu_id == old(gpu)@.gpu_id && context_is_current ==> exists|found: Option<u64>| #[trigger]
            old(gpu)@.has_handle(dec.src_handle, found) && (r, final(gpu)@, final(cpu_pool)@)
                == dispatching_decision(old(gpu)@, old(cpu_pool)@, *dec, found),
        final(gpu)@.wf(),
        final(cpu_pool)@.wf(),
        r matches Step::Ask { run, .. } ==> step_fits(final(gpu)@, final(cpu_pool)@, run),
{
    if dec.gpu_id != gpu.gpu_id || !context_is_current {
        return Step::fail(ENODEV);
    }
    dispatch_decision(dec, gpu, cpu_pool)
}

/// How a decision goes on after a reply.
pub open spec fn going_on(gpu: GpuView, cpu: CpuView, run: Run, reply: Reply) -> (
    Step,
    GpuView,
    CpuView,
) {
    match run {
        Run::Bring { block_id, bring, release, output_cpu_addr } => match bring.next(reply) {
            Brought::Ask { call, bring: next } => (
                Step::Ask {
                    call,
                    run: Run::Bring { block_id, bring: next, release, output_cpu_addr },
                },
                gpu,
                cpu,
            ),
            Brought::Failed { errno, after } => (
                Step::Finish { after, result: ExecutionResult::failure(errno) },
                if release {
                    gpu.with_given(bring.vaddr, bring.size)
                } else {
                    gpu
                },
                cpu,
            ),
            Brought::Up { phys } => (
                Step::Finish {
                    after: After::Nothing,
                    result: ExecutionResult::plain(0, phys, output_cpu_addr),
                },
                with_block_up(gpu, block_id, bring.vaddr, bring.size, phys, release),
                match bring.fill {
                    Fill::Host(src) => paged_freed(cpu.without_buffer(block_id), src, bring.size),
                    _ => cpu,
                },
            ),
        },
        Run::MapExisting { block_id, vaddr, size, mapped, output_cpu_addr } => if reply.errno != 0 {
            (
                Step::Finish {
                    after: if mapped {
                        After::One(DeviceCall::UnmapMemory { vaddr, size })
                    } else {
                        After::Nothing
                    },
                    result: ExecutionResult::failure(EINVAL),
                },
                gpu,
                cpu,
            )
        } else if !mapped {
            (
                Step::Ask {
                    call: DeviceCall::SetAccess { vaddr, size },
                    run: Run::MapExisting { block_id, vaddr, size, mapped: true, output_cpu_addr },
                },
                gpu,
                cpu,
            )
        } else {
            (done(0, After::Nothing, 0), gpu.with_va(block_id, vaddr, size, false), cpu)
        },
        Run::Unmap { .. } => (
            if reply.errno != 0 {
                Step::failed(EINVAL)
            } else {
                done(0, After::Nothing, 0)
            },
            gpu,
            cpu,
        ),
        Run::Offload { block_id, src_vaddr, size, cpu_addr, copied } => if reply.errno != 0 {
            (
                Step::failed(
                    if copied {
                        EINVAL
                    } else {
                        EFAULT
                    },
                ),
                gpu,
                paged_freed(cpu, cpu_addr, size),
            )
        } else if !copied {
            (
                Step::Ask {
                    call: DeviceCall::UnmapMemory { vaddr: src_vaddr, size },
                    run: Run::Offload { block_id, src_vaddr, size, cpu_addr, copied: true },
                },
                gpu,
                cpu,
            )
        } else {
            let g = gpu.without_handle(block_id);
            (
                Step::Finish {
                    after: if gpu.handles.contains_key(block_id) {
                        After::One(DeviceCall::ReleasePhysical { handle: gpu.handles[block_id] })
                    } else {
                        After::Nothing
                    },
                    result: ExecutionResult::plain(0, 0, cpu_addr),
                },
                GpuView { used_bytes: sat_sub(g.used_bytes, size), ..g }.with_va(
                    block_id,
                    src_vaddr,
                    size,
                    false,
                ),
                cpu.with_buffer(block_id, cpu_addr),
            )
        },
        _ => (Step::failed(EINVAL), gpu, cpu),
    }
}

/// Go on carrying a decision out.
pub fn resume_decision(run: Run, reply: &Reply, gpu: &mut GpuState, cpu_pool: &mut CpuPool) -> (r:
    Step)
    requires
        step_fits(old(gpu)@, old(cpu_pool)@, run),
    ensures
        (r, final(gpu)@, final(cpu_pool)@) == going_on(
            old(gpu)@,
            old(cpu_pool)@,
            run,
            *reply,
        ),
        final(gpu)@.wf(),
        final(cpu_pool)@.wf(),
        r matches Step::Ask { run: next, .. } ==> step_fits(final(gpu)@, final(cpu_pool)@, next),
{
    match run {
        Run::Bring { block_id, bring, release, output_cpu_addr } => match bring.step(reply) {
            Brought::Ask { call, bring: next } => Step::Ask {
                call,
                run: Run::Bring { block_id, bring: next, release, output_cpu_addr },
            },
            Brought::Failed { errno, after } => {
                if release {
                    gpu.vas.free(bring.vaddr, bring.size);
                }
                Step::Finish { after, result: ExecutionResult::failed(errno) }
            },
            Brought::Up { phys } => {
                if let Fill::Host(src) = bring.fill {
                    cpu_pool.untrack(block_id);
                    cpu_pool.free(src, bring.size);
                }
                gpu.track_handle(block_id, phys);
                gpu.track_va(block_id, bring.vaddr, bring.size, release);
                gpu.used_bytes = gpu.used_bytes + bring.size;
                Step::Finish {
                    after: After::Nothing,
                    result: ExecutionResult::of(0, phys, output_cpu_addr),
                }
            },
        },
        Run::MapExisting { block_id, vaddr, size, mapped, output_cpu_addr } => {
            if reply.errno != 0 {
                let after = if mapped {
                    After::One(DeviceCall::UnmapMemory { vaddr, size })
                } else {
                    After::Nothing
                };
                return Step::Finish { after, result: ExecutionResult::failed(EINVAL) };
            }
            if !mapped {
                return Step::Ask {
                    call: DeviceCall::SetAccess { vaddr, size },
                    run: Run::MapExisting { block_id, vaddr, size, mapped: true, output_cpu_addr },
                };
            }
            gpu.track_va(block_id, vaddr, size, false);
            Step::Finish { after: After::Nothing, result: ExecutionResult::of(0, 0, 0) }
        },
        Run::Unmap { .. } => {
            if reply.errno != 0 {
                Step::fail(EINVAL)
            } else {
                Step::Finish { after: After::Nothing, result: ExecutionResult::of(0, 0, 0) }
            }
        },
        Run::Offload { block_id, src_vaddr, size, cpu_addr, copied } => {
            if reply.errno != 0 {
                cpu_pool.free(cpu_addr, size);
                return Step::fail(
                    if copied {
                        EINVAL
                    } else {
                        EFAULT
                    },
                );
            }
            if !copied {
                return Step::Ask {
                    call: DeviceCall::UnmapMemory { vaddr: src_vaddr, size },
                    run: Run::Offload { block_id, src_vaddr, size, cpu_addr, copied: true },
                };
            }
            let after = match gpu.get_handle(block_id) {
                Some(handle) => After::One(DeviceCall::ReleasePhysical { handle }),
                None => After::Nothing,
            };
            cpu_pool.track(block_id, cpu_addr);
            gpu.clear_handle(block_id);
            gpu.used_bytes = gpu.used_bytes.saturating_sub(size);
            gpu.track_va(block_id, src_vaddr, size, false);
            Step::Finish { after, result: ExecutionResult::of(0, 0, cpu_addr) }
        },
        _ => Step::fail(EINVAL),
    }
}

/// Every decision comes to an end: each reply brings it nearer.
pub proof fn law_runtime_decisions_end(gpu: GpuView, cpu: CpuView, run: Run, reply: Reply)
    ensures
        going_on(gpu, cpu, run, reply).0 matches Step::Ask { run: next, .. } ==> 0
            < replies_left(next) < replies_left(run),
{
}

/// Where a decision ends up when every call works; `phys` is the memory that a call
/// for some hands out.
pub open spec fn carried_out(step: Step, gpu: GpuView, cpu: CpuView, phys: u64) -> (
    Step,
    GpuView,
    CpuView,
)
    decreases
            match step {
                Step::Ask { run, .. } => replies_left(run),
                Step::Finish { .. } => 0,
            },
{
    match step {
        Step::Ask { run, .. } => {
            proof {
                law_runtime_decisions_end(gpu, cpu, run, works(phys));
            }
            let (next, g, c) = going_on(gpu, cpu, run, works(phys));
            carried_out(next, g, c, phys)
        },
        Step::Finish { .. } => (step, gpu, cpu),
    }
}

/// The reply of a call that worked.
pub open spec fn works(phys: u64) -> Reply {
    Reply { handle: phys, ..plain_reply() }
}

/// A block that goes to the host and comes back to the same addresses: its bytes
/// are copied to a buffer and from there to where they were, it counts as before
/// under its new handle, and the buffer is free again.
pub proof fn law_runtime_offload_then_reload_restores(
    gpu: GpuView,
    cpu: CpuView,
    dec: PolarisDecision,
    back: PolarisDecision,
    phys: u64,
)
    requires
        gpu.wf(),
        cpu.wf(),
        offloading_block(gpu, cpu, dec).0 is Ask,
        snap_fits(granules_to_move(gpu, dec), PAGE),
        granules_to_move(gpu, dec) <= gpu.used_bytes,
        granules_to_move(gpu, dec) == gpu.in_granules(back.size_bytes),
        paged_allocating(cpu, granules_to_move(gpu, dec)).0->0 != 0,
        back.block_id == dec.block_id,
        back.dst_vaddr == 0 || back.dst_vaddr == offload_source(gpu, dec),
        back.cpu_addr == 0 || back.cpu_addr == paged_allocating(
            cpu,
            granules_to_move(gpu, dec),
        ).0->0,
    ensures
        ({
            let k = dec.block_id;
            let size = granules_to_move(gpu, dec);
            let src = offload_source(gpu, dec);
            let buffer = paged_allocating(cpu, size).0->0;
            let (begun, c) = offloading_block(gpu, cpu, dec);
            let (gone, g1, c1) = carried_out(begun, gpu, c, phys);
            let reload = reloading_block(g1, c1, back);
            let (home, g2, c2) = carried_out(reload, g1, c1, phys);
            &&& begun->call == (DeviceCall::CopyDeviceToHost { dst: buffer, src, size })
            &&& gone matches Step::Finish { result, .. } && result == ExecutionResult::plain(
                0,
                0,
                buffer,
            )
            &&& c1.buffer_of(k) == Some(buffer)
            &&& reload == bringing(k, src, size, Fill::Host(buffer), false, 0)
            &&& home matches Step::Finish { result, .. } && result == ExecutionResult::plain(
                0,
                phys,
                0,
            )
            &&& g2.used_bytes == gpu.used_bytes
            &&& g2.handle_of(k) == phys
            &&& g2.vaddr_of(k) == src
            &&& c2.used == cpu.used
            &&& c2.buffer_of(k) is None
            &&& forall|a: int| #[trigger]
                crate::ranges::covers(c2.free, a) <==> crate::ranges::covers(cpu.free, a)
        }),
{
    reveal_with_fuel(carried_out, 6);
    let size = granules_to_move(gpu, dec);
    law_paged_allocate_then_free_balances(cpu, size);
}

} // verus!
