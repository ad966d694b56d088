//! Carrying decisions out on a GPU, step by step.

use crate::abi::{
    PolarisDecision, PolarisDecisionOp, POLARIS_DECISION_FLAG_SOURCE_BLOCK_ID_VALID,
    POLARIS_RM_COPY_FROM_CPU, POLARIS_RM_COPY_TO_CPU,
};
use crate::cpu_pool::{CpuPool, CpuView};
use crate::errno::{EFAULT, EINVAL, EIO, ENODEV, ENOMEM};
use crate::executor::{After, Bring, DeviceCall, ExecutionResult, Fill, Reply};
use crate::gpu::{GpuState, GpuView};
use crate::num::{greatest, larger, sat_sub};
use crate::offload::{
    begin_bring, bring_fits, bringing, brought, copy_error, copy_record, error_of_copy,
    execute_offload, execute_reload, execute_rm_offload, execute_rm_reload, make_copy,
    memory_result, move_size, offload_source, offloaded, offloading, reloading, resume_bring, resume_offload,
    resume_rm_offload_copy, resume_rm_offload_free, resume_rm_reload_copy, resume_rm_reload_memory,
    resume_undo, result_with_memory, rm_offload_copied, rm_offload_freed, rm_offloading,
    rm_reload_copied, rm_reload_memory, rm_reloading, rm_undoing, rm_undone, undo_memory,
    with_block_up, RmCow, Run, Step,
};
use crate::ranges::{can_give, lemma_taking, snap_fits, snap_up, taking};
use crate::rm::{allocation_of, replied, MemoryStep, RmAllocation, RmBackend, RmPurpose, RmView};
use vstd::prelude::*;

verus! {

/// The name of a decision's operation.
pub open spec fn name_of(op: u32) -> &'static str {
    if op == PolarisDecisionOp::Alloc.code() {
        "ALLOC"
    } else if op == PolarisDecisionOp::Free.code() {
        "FREE"
    } else if op == PolarisDecisionOp::MapExisting.code() {
        "MAP_EXISTING"
    } else if op == PolarisDecisionOp::Unmap.code() {
        "UNMAP"
    } else if op == PolarisDecisionOp::Offload.code() {
        "OFFLOAD"
    } else if op == PolarisDecisionOp::Reload.code() {
        "RELOAD"
    } else if op == PolarisDecisionOp::CowBreak.code() {
        "COW_BREAK"
    } else {
        "UNKNOWN"
    }
}

/// The name of a decision's operation.
pub fn decision_name(op: u32) -> (r: &'static str)
    ensures
        r == name_of(op),
{
    match PolarisDecisionOp::from_u32(op) {
        Some(PolarisDecisionOp::Alloc) => "ALLOC",
        Some(PolarisDecisionOp::Free) => "FREE",
        Some(PolarisDecisionOp::MapExisting) => "MAP_EXISTING",
        Some(PolarisDecisionOp::Unmap) => "UNMAP",
        Some(PolarisDecisionOp::Offload) => "OFFLOAD",
        Some(PolarisDecisionOp::Reload) => "RELOAD",
        Some(PolarisDecisionOp::CowBreak) => "COW_BREAK",
        None => "UNKNOWN",
    }
}

// ─── Where a block goes ─────────────────────────────────────────────────────

/// Addresses for a block, and whether they came out of the pool just now.
#[derive(Clone, Copy, Debug, PartialEq, Eq)]
pub struct DstVa {
    pub vaddr: u64,
    pub release_to_pool: bool,
}

/// Addresses for a block: those that the decision names, those that the block is
/// known at, or else some out of the pool.
pub open spec fn destination(gpu: GpuView, dec: PolarisDecision, size: u64) -> (Option<DstVa>, GpuView) {
    if dec.dst_vaddr != 0 {
        (Some(DstVa { vaddr: dec.dst_vaddr, release_to_pool: false }), gpu)
    } else {
        match gpu.va_of(dec.block_id) {
            Some(va) => (Some(DstVa { vaddr: va.vaddr, release_to_pool: false }), gpu),
            None => match taking(gpu.free, size, greatest(gpu.granule, 1)) {
                (Some(vaddr), left) => (
                    Some(DstVa { vaddr, release_to_pool: true }),
                    GpuView { free: left, ..gpu },
                ),
                (None, _) => (None, gpu),
            },
        }
    }
}

/// Addresses for a block.
pub fn preferred_dst_vaddr(dec: &PolarisDecision, gpu: &mut GpuState, size: u64) -> (r: Option<DstVa>)
    requires
        old(gpu)@.wf(),
    ensures
        (r, final(gpu)@) == destination(old(gpu)@, *dec, size),
        final(gpu)@.wf(),
        r matches Some(dst) ==> (dst.release_to_pool ==> can_give(
            final(gpu)@.free,
            dst.vaddr,
            size,
        )),
{
    if dec.dst_vaddr != 0 {
        return Some(DstVa { vaddr: dec.dst_vaddr, release_to_pool: false });
    }
    if let Some(existing) = gpu.get_va_alloc(dec.block_id) {
        return Some(DstVa { vaddr: existing.vaddr, release_to_pool: false });
    }
    proof {
        lemma_taking(gpu@.free, size, greatest(gpu@.granule, 1));
    }
    let granule = gpu.granule;
    match gpu.vas.allocate(size, granule) {
        Some(vaddr) => Some(DstVa { vaddr, release_to_pool: true }),
        None => None,
    }
}

/// Addresses that came out of the pool go back.
pub open spec fn abandoned(gpu: GpuView, vaddr: u64, size: u64, release: bool) -> GpuView {
    if release {
        gpu.with_given(vaddr, size)
    } else {
        gpu
    }
}

// ─── Allocation ─────────────────────────────────────────────────────────────

/// A block that memory of the resource manager was found for.
pub open spec fn memory_noted(
    gpu: GpuView,
    rm: RmView,
    block_id: u64,
    vaddr: u64,
    size: u64,
    release: bool,
    memory: RmAllocation,
) -> (Step, GpuView) {
    let g = gpu.with_va(block_id, vaddr, size, release);
    (
        Step::Finish { after: After::Nothing, result: memory_result(rm, memory) },
        GpuView { used_bytes: (g.used_bytes + size) as u64, ..g },
    )
}

/// The first step of an allocation: addresses are chosen, then memory is asked
/// for, of the resource manager where it is in use.
pub open spec fn allocating_block(gpu: GpuView, rm: Option<RmView>, dec: PolarisDecision) -> (
    Step,
    GpuView,
) {
    let size = gpu.in_granules(dec.size_bytes);
    match destination(gpu, dec, size) {
        (None, g) => (Step::failed(ENOMEM), g),
        (Some(dst), g) => match rm {
            None => (
                bringing(
                    dec.block_id,
                    dst.vaddr,
                    size,
                    Fill::Nothing,
                    dst.release_to_pool,
                    dec.cpu_addr,
                ),
                g,
            ),
            Some(rm) => match rm.asking(dec.block_id, size) {
                MemoryStep::Have(memory) => memory_noted(
                    g,
                    rm,
                    dec.block_id,
                    dst.vaddr,
                    size,
                    dst.release_to_pool,
                    memory,
                ),
                MemoryStep::Ask(params) => (
                    Step::Ask {
                        call: DeviceCall::RmAlloc { params },
                        run: Run::AllocMemory {
                            block_id: dec.block_id,
                            vaddr: dst.vaddr,
                            size,
                            release: dst.release_to_pool,
                        },
                    },
                    g,
                ),
                MemoryStep::Refused(_) => (
                    Step::failed(ENOMEM),
                    abandoned(g, dst.vaddr, size, dst.release_to_pool),
                ),
            },
        },
    }
}

/// Note the memory of the resource manager that was found for a block.
fn note_memory(
    gpu: &mut GpuState,
    backend: &RmBackend,
    block_id: u64,
    vaddr: u64,
    size: u64,
    release: bool,
    memory: RmAllocation,
) -> (r: Step)
    requires
        old(gpu)@.wf(),
        old(gpu)@.used_bytes + size <= u64::MAX,
    ensures
        (r, final(gpu)@) == memory_noted(
            old(gpu)@,
            backend@,
            block_id,
            vaddr,
            size,
            release,
            memory,
        ),
        final(gpu)@.wf(),
{
    gpu.track_va(block_id, vaddr, size, release);
    gpu.used_bytes = gpu.used_bytes + size;
    Step::Finish { after: After::Nothing, result: result_with_memory(backend, memory) }
}

/// Begin an allocation.
fn alloc_block(dec: &PolarisDecision, gpu: &mut GpuState, rm_backend: &Option<RmBackend>) -> (r: Step)
    requires
        old(gpu)@.wf(),
        snap_fits(dec.size_bytes, old(gpu)@.granule),
        old(gpu)@.used_bytes + old(gpu)@.in_granules(dec.size_bytes) <= u64::MAX,
    ensures
        (r, final(gpu)@) == allocating_block(old(gpu)@, rm_view(rm_backend), *dec),
        final(gpu)@.wf(),
        r matches Step::Ask { run, .. } ==> match run {
            Run::Bring { bring, release, .. } => bring.size == old(gpu)@.in_granules(dec.size_bytes)
                && bring.fill is Nothing && final(gpu)@.used_bytes == old(gpu)@.used_bytes && (
            release ==> can_give(final(gpu)@.free, bring.vaddr, bring.size)),
            Run::AllocMemory { vaddr, size, release, .. } => rm_backend is Some && size == old(
                gpu,
            )@.in_granules(dec.size_bytes) && final(gpu)@.used_bytes == old(gpu)@.used_bytes && (
            release ==> can_give(final(gpu)@.free, vaddr, size)),
            _ => false,
        },
{
    let size = snap_up(dec.size_bytes, gpu.granule);
    let dst = match preferred_dst_vaddr(dec, gpu, size) {
        Some(dst) => dst,
        None => {
            return Step::fail(ENOMEM);
        },
    };
    match rm_backend {
        None => begin_bring(
            dec.block_id,
            dst.vaddr,
            size,
            Fill::Nothing,
            dst.release_to_pool,
            dec.cpu_addr,
        ),
        Some(backend) => match backend.alloc_for_block(dec.block_id, size) {
            MemoryStep::Have(memory) => note_memory(
                gpu,
                backend,
                dec.block_id,
                dst.vaddr,
                size,
                dst.release_to_pool,
                memory,
            ),
            MemoryStep::Ask(params) => Step::Ask {
                call: DeviceCall::RmAlloc { params },
                run: Run::AllocMemory {
                    block_id: dec.block_id,
                    vaddr: dst.vaddr,
                    size,
                    release: dst.release_to_pool,
                },
            },
            MemoryStep::Refused(_) => {
                if dst.release_to_pool {
                    gpu.vas.free(dst.vaddr, size);
                }
                Step::fail(ENOMEM)
            },
        },
    }
}

/// The resource manager in use, as mathematical values.
pub open spec fn rm_view(rm_backend: &Option<RmBackend>) -> Option<RmView> {
    match rm_backend {
        Some(b) => Some(b@),
        None => None,
    }
}

/// How an allocation goes on after memory of the resource manager was asked for.
pub open spec fn memory_replied(
    gpu: GpuView,
    rm: RmView,
    block_id: u64,
    vaddr: u64,
    size: u64,
    release: bool,
    reply: Reply,
) -> (Step, GpuView, RmView) {
    match replied(RmPurpose::MakeMemory, reply.rm) {
        Err(_) => (Step::failed(ENOMEM), abandoned(gpu, vaddr, size, release), rm),
        Ok(_) => {
            let memory = allocation_of(reply.rm);
            let (step, g) = memory_noted(gpu, rm, block_id, vaddr, size, release, memory);
            (step, g, rm.with(block_id, memory))
        },
    }
}

/// Go on with an allocation after memory of the resource manager was asked for.
fn resume_alloc_memory(
    gpu: &mut GpuState,
    backend: &mut RmBackend,
    block_id: u64,
    vaddr: u64,
    size: u64,
    release: bool,
    reply: &Reply,
) -> (r: Step)
    requires
        old(gpu)@.wf(),
        old(gpu)@.used_bytes + size <= u64::MAX,
        release ==> can_give(old(gpu)@.free, vaddr, size),
    ensures
        (r, final(gpu)@, final(backend)@) == memory_replied(
            old(gpu)@,
            old(backend)@,
            block_id,
            vaddr,
            size,
            release,
            *reply,
        ),
        final(gpu)@.wf(),
{
    match backend.note_allocation(block_id, &reply.rm) {
        Ok(memory) => note_memory(gpu, backend, block_id, vaddr, size, release, memory),
        Err(_) => {
            if release {
                gpu.vas.free(vaddr, size);
            }
            Step::fail(ENOMEM)
        },
    }
}

// ─── Freeing ────────────────────────────────────────────────────────────────

/// The memory handle that is given back: the one that the decision names, or the
/// one that the block is known with.
pub open spec fn freed_handle(gpu: GpuView, dec: PolarisDecision) -> u64 {
    if dec.src_handle != 0 {
        dec.src_handle
    } else {
        gpu.handle_of(dec.block_id)
    }
}

/// What gives the memory of a block back, if it is not the resource manager's.
pub open spec fn freeing_calls(gpu: GpuView, has_rm: bool, dec: PolarisDecision) -> After {
    let phys = freed_handle(gpu, dec);
    let vaddr = if dec.src_vaddr != 0 {
        dec.src_vaddr
    } else {
        gpu.vaddr_of(dec.block_id)
    };
    let release = DeviceCall::ReleasePhysical { handle: phys };
    if phys == 0 && has_rm {
        After::Nothing
    } else {
        match gpu.va_of(dec.block_id) {
            Some(va) => {
                let unmap = DeviceCall::UnmapMemory { vaddr, size: va.size };
                if phys != 0 {
                    After::Two(unmap, release)
                } else {
                    After::One(unmap)
                }
            },
            None => if phys != 0 {
                After::One(release)
            } else {
                After::Nothing
            },
        }
    }
}

/// A block is forgotten: it counts no more, and its buffer and its addresses go
/// back.
pub open spec fn forgetting(
    gpu: GpuView,
    cpu: CpuView,
    has_rm: bool,
    dec: PolarisDecision,
    result: int,
) -> (Step, GpuView, CpuView) {
    (
        Step::Finish {
            after: freeing_calls(gpu, has_rm, dec),
            result: ExecutionResult::plain(result, 0, dec.cpu_addr),
        },
        GpuView {
            used_bytes: sat_sub(gpu.used_bytes, gpu.va_size_of(dec.block_id)),
            ..gpu
        }.without_block(dec.block_id),
        match cpu.buffer_of(dec.block_id) {
            Some(addr) => cpu.without_buffer(dec.block_id).freed(addr, greatest(dec.size_bytes, 1)),
            None => cpu.without_buffer(dec.block_id),
        },
    )
}

/// Whether a block can be forgotten: what goes back is not free.
pub open spec fn forget_fits(gpu: GpuView, cpu: CpuView, dec: PolarisDecision) -> bool {
    &&& gpu.can_remove(dec.block_id)
    &&& cpu.buffer_of(dec.block_id) matches Some(addr) ==> can_give(
        cpu.free,
        addr,
        greatest(dec.size_bytes, 1),
    )
}

/// Forget a block.
fn forget_block(
    dec: &PolarisDecision,
    gpu: &mut GpuState,
    cpu_pool: &mut CpuPool,
    has_rm: bool,
    result: i32,
) -> (r: Step)
    requires
        old(gpu)@.wf(),
        old(cpu_pool)@.wf(),
        forget_fits(old(gpu)@, old(cpu_pool)@, *dec),
    ensures
        (r, final(gpu)@, final(cpu_pool)@) == forgetting(
            old(gpu)@,
            old(cpu_pool)@,
            has_rm,
            *dec,
            result as int,
        ),
        final(gpu)@.wf(),
        final(cpu_pool)@.wf(),
{
    let phys = if dec.src_handle != 0 {
        dec.src_handle
    } else {
        match gpu.get_handle(dec.block_id) {
            Some(handle) => handle,
            None => 0,
        }
    };
    let va = gpu.get_va_alloc(dec.block_id);
    let vaddr = if dec.src_vaddr != 0 {
        dec.src_vaddr
    } else {
        match va {
            Some(va) => va.vaddr,
            None => 0,
        }
    };
    let release = DeviceCall::ReleasePhysical { handle: phys };
    let after = if phys == 0 && has_rm {
        After::Nothing
    } else {
        match va {
            Some(va) => {
                let unmap = DeviceCall::UnmapMemory { vaddr, size: va.size };
                if phys != 0 {
                    After::Two(unmap, release)
                } else {
                    After::One(unmap)
                }
            },
            None => if phys != 0 {
                After::One(release)
            } else {
                After::Nothing
            },
        }
    };
    if let Some(va) = va {
        gpu.used_bytes = gpu.used_bytes.saturating_sub(va.size);
    }
    if let Some(addr) = cpu_pool.untrack(dec.block_id) {
        cpu_pool.free(addr, larger(dec.size_bytes, 1));
    }
    gpu.remove_block(dec.block_id);
    Step::Finish { after, result: ExecutionResult::of(result, 0, dec.cpu_addr) }
}

/// The first step of freeing a block.
pub open spec fn freeing_block(
    gpu: GpuView,
    cpu: CpuView,
    rm: Option<RmView>,
    dec: PolarisDecision,
) -> (Step, GpuView, CpuView, Option<RmView>) {
    match rm {
        None => {
            let (step, g, c) = forgetting(gpu, cpu, false, dec, 0);
            (step, g, c, rm)
        },
        Some(r) => match r.freeing_block(dec.block_id) {
            Some(params) => (
                Step::Ask {
                    call: DeviceCall::RmFree { free: params },
                    run: Run::FreeMemory { dec },
                },
                gpu,
                cpu,
                rm,
            ),
            None => {
                let (step, g, c) = forgetting(gpu, cpu, true, dec, 0);
                (step, g, c, Some(r.without(dec.block_id)))
            },
        },
    }
}

/// Begin to free a block.
fn free_block(
    dec: &PolarisDecision,
    gpu: &mut GpuState,
    cpu_pool: &mut CpuPool,
    rm_backend: &mut Option<RmBackend>,
) -> (r: Step)
    requires
        old(gpu)@.wf(),
        old(cpu_pool)@.wf(),
        forget_fits(old(gpu)@, old(cpu_pool)@, *dec),
    ensures
        (r, final(gpu)@, final(cpu_pool)@, rm_view(final(rm_backend))) == freeing_block(
            old(gpu)@,
            old(cpu_pool)@,
            rm_view(old(rm_backend)),
            *dec,
        ),
        final(gpu)@.wf(),
        final(cpu_pool)@.wf(),
        r matches Step::Ask { run, .. } ==> (*old(rm_backend)) is Some && run == (Run::FreeMemory {
            dec: *dec,
        }),
        ((*final(rm_backend)) is Some) == ((*old(rm_backend)) is Some),
{
    match rm_backend {
        None => forget_block(dec, gpu, cpu_pool, false, 0),
        Some(backend) => match backend.free_block(dec.block_id) {
            Some(params) => Step::Ask {
                call: DeviceCall::RmFree { free: params },
                run: Run::FreeMemory { dec: *dec },
            },
            None => forget_block(dec, gpu, cpu_pool, true, 0),
        },
    }
}

/// How freeing a block goes on after the resource manager took its memory back.
pub open spec fn memory_freed(
    gpu: GpuView,
    cpu: CpuView,
    rm: RmView,
    dec: PolarisDecision,
    reply: Reply,
) -> (Step, GpuView, CpuView, RmView) {
    match replied(RmPurpose::FreeMemory, reply.rm) {
        Ok(_) => {
            let (step, g, c) = forgetting(gpu, cpu, true, dec, 0);
            (step, g, c, rm.without(dec.block_id))
        },
        Err(_) => {
            let (step, g, c) = forgetting(gpu, cpu, true, dec, -EIO);
            (step, g, c, rm)
        },
    }
}

/// Go on freeing a block after the resource manager took its memory back.
fn resume_free_memory(
    dec: &PolarisDecision,
    gpu: &mut GpuState,
    cpu_pool: &mut CpuPool,
    backend: &mut RmBackend,
    reply: &Reply,
) -> (r: Step)
    requires
        old(gpu)@.wf(),
        old(cpu_pool)@.wf(),
        forget_fits(old(gpu)@, old(cpu_pool)@, *dec),
    ensures
        (r, final(gpu)@, final(cpu_pool)@, final(backend)@) == memory_freed(
            old(gpu)@,
            old(cpu_pool)@,
            old(backend)@,
            *dec,
            *reply,
        ),
        final(gpu)@.wf(),
        final(cpu_pool)@.wf(),
{
    let result = match backend.note_free(dec.block_id, &reply.rm) {
        Ok(_) => 0,
        Err(_) => -EIO,
    };
    forget_block(dec, gpu, cpu_pool, true, result)
}

// ─── Mapping and unmapping ──────────────────────────────────────────────────

/// A decision that is done without memory, and names the buffer it came with.
pub open spec fn done(result: int, after: After, output_cpu_addr: u64) -> Step {
    Step::Finish { after, result: ExecutionResult::plain(result, 0, output_cpu_addr) }
}

/// The first step of mapping memory at one more address.
pub open spec fn mapping_existing(gpu: GpuView, dec: PolarisDecision) -> Step {
    let size = gpu.in_granules(dec.size_bytes);
    if dec.src_handle == 0 || dec.dst_vaddr == 0 {
        done(-EINVAL, After::Nothing, dec.cpu_addr)
    } else {
        Step::Ask {
            call: DeviceCall::MapMemory { vaddr: dec.dst_vaddr, handle: dec.src_handle, size },
            run: Run::MapExisting {
                block_id: dec.block_id,
                vaddr: dec.dst_vaddr,
                size,
                mapped: false,
                output_cpu_addr: dec.cpu_addr,
            },
        }
    }
}

/// How mapping memory at one more address goes on.
pub open spec fn mapped_existing(
    gpu: GpuView,
    block_id: u64,
    vaddr: u64,
    size: u64,
    mapped: bool,
    output_cpu_addr: u64,
    reply: Reply,
) -> (Step, GpuView) {
    if reply.errno != 0 {
        (
            done(
                -EINVAL,
                if mapped {
                    After::One(DeviceCall::UnmapMemory { vaddr, size })
                } else {
                    After::Nothing
                },
                output_cpu_addr,
            ),
            gpu,
        )
    } else if !mapped {
        (
            Step::Ask {
                call: DeviceCall::SetAccess { vaddr, size },
                run: Run::MapExisting { block_id, vaddr, size, mapped: true, output_cpu_addr },
            },
            gpu,
        )
    } else {
        (
            done(0, After::Nothing, output_cpu_addr),
            gpu.with_va(block_id, vaddr, size, false),
        )
    }
}

/// Begin to map memory at one more address.
fn map_existing(dec: &PolarisDecision, gpu: &GpuState) -> (r: Step)
    requires
        snap_fits(dec.size_bytes, gpu@.granule),
    ensures
        r == mapping_existing(gpu@, *dec),
{
    let size = snap_up(dec.size_bytes, gpu.granule);
    if dec.src_handle == 0 || dec.dst_vaddr == 0 {
        return Step::Finish {
            after: After::Nothing,
            result: ExecutionResult::of(-EINVAL, 0, dec.cpu_addr),
        };
    }
    Step::Ask {
        call: DeviceCall::MapMemory { vaddr: dec.dst_vaddr, handle: dec.src_handle, size },
        run: Run::MapExisting {
            block_id: dec.block_id,
            vaddr: dec.dst_vaddr,
            size,
            mapped: false,
            output_cpu_addr: dec.cpu_addr,
        },
    }
}

/// Go on mapping memory at one more address.
fn resume_map_existing(
    gpu: &mut GpuState,
    block_id: u64,
    vaddr: u64,
    size: u64,
    mapped: bool,
    output_cpu_addr: u64,
    reply: &Reply,
) -> (r: Step)
    requires
        old(gpu)@.wf(),
    ensures
        (r, final(gpu)@) == mapped_existing(
            old(gpu)@,
            block_id,
            vaddr,
            size,
            mapped,
            output_cpu_addr,
            *reply,
        ),
        final(gpu)@.wf(),
{
    if reply.errno != 0 {
        let after = if mapped {
            After::One(DeviceCall::UnmapMemory { vaddr, size })
        } else {
            After::Nothing
        };
        return Step::Finish {
            after,
            result: ExecutionResult::of(-EINVAL, 0, output_cpu_addr),
        };
    }
    if !mapped {
        return Step::Ask {
            call: DeviceCall::SetAccess { vaddr, size },
            run: Run::MapExisting { block_id, vaddr, size, mapped: true, output_cpu_addr },
        };
    }
    gpu.track_va(block_id, vaddr, size, false);
    Step::Finish { after: After::Nothing, result: ExecutionResult::of(0, 0, output_cpu_addr) }
}

/// The first step of unmapping a block.
pub open spec fn unmapping(gpu: GpuView, dec: PolarisDecision) -> Step {
    let vaddr = if dec.dst_vaddr != 0 {
        dec.dst_vaddr
    } else {
        gpu.vaddr_of(dec.block_id)
    };
    if vaddr != 0 {
        Step::Ask {
            call: DeviceCall::UnmapMemory {
                vaddr,
                size: greatest(dec.size_bytes, gpu.va_size_of(dec.block_id)),
            },
            run: Run::Unmap { output_cpu_addr: dec.cpu_addr },
        }
    } else {
        done(0, After::Nothing, dec.cpu_addr)
    }
}

/// How unmapping a block goes on.
pub open spec fn unmapped(output_cpu_addr: u64, reply: Reply) -> Step {
    done(
        if reply.errno != 0 {
            -EINVAL
        } else {
            0
        },
        After::Nothing,
        output_cpu_addr,
    )
}

/// Begin to unmap a block.
fn unmap_block(dec: &PolarisDecision, gpu: &GpuState) -> (r: Step)
    ensures
        r == unmapping(gpu@, *dec),
{
    let va = gpu.get_va_alloc(dec.block_id);
    let (known_vaddr, known_size) = match va {
        Some(va) => (va.vaddr, va.size),
        None => (0, 0),
    };
    let vaddr = if dec.dst_vaddr != 0 {
        dec.dst_vaddr
    } else {
        known_vaddr
    };
    if vaddr != 0 {
        Step::Ask {
            call: DeviceCall::UnmapMemory { vaddr, size: larger(dec.size_bytes, known_size) },
            run: Run::Unmap { output_cpu_addr: dec.cpu_addr },
        }
    } else {
        Step::Finish { after: After::Nothing, result: ExecutionResult::of(0, 0, dec.cpu_addr) }
    }
}

/// Go on unmapping a block.
fn resume_unmap(output_cpu_addr: u64, reply: &Reply) -> (r: Step)
    ensures
        r == unmapped(output_cpu_addr, *reply),
{
    let result = if reply.errno != 0 {
        -EINVAL
    } else {
        0
    };
    Step::Finish { after: After::Nothing, result: ExecutionResult::of(result, 0, output_cpu_addr) }
}

// ─── Copy on write ──────────────────────────────────────────────────────────

/// The address that a private copy is made from: the one that the decision
/// names, or where a block with its handle is known.
pub open spec fn cow_source(gpu: GpuView, dec: PolarisDecision, found: Option<u64>) -> Option<u64> {
    if dec.src_vaddr != 0 {
        Some(dec.src_vaddr)
    } else {
        match found {
            Some(b) => match gpu.va_of(b) {
                Some(va) => Some(va.vaddr),
                None => None,
            },
            None => None,
        }
    }
}

/// The first step of making a private copy. `found` is the block that is known
/// with the handle of the source. Other addresses of the block go back first.
pub open spec fn cow_breaking(gpu: GpuView, dec: PolarisDecision, found: Option<u64>) -> (
    Step,
    GpuView,
) {
    let size = gpu.in_granules(dec.size_bytes);
    match cow_source(gpu, dec, found) {
        None => (Step::failed(EINVAL), gpu),
        Some(src) => match destination(gpu, dec, size) {
            (None, g) => (Step::failed(ENOMEM), g),
            (Some(dst), g) => (
                bringing(
                    dec.block_id,
                    dst.vaddr,
                    size,
                    Fill::Device(src),
                    dst.release_to_pool,
                    dec.cpu_addr,
                ),
                match g.va_of(dec.block_id) {
                    Some(va) => if va.vaddr != dst.vaddr {
                        g.with_given(va.vaddr, va.size)
                    } else {
                        g
                    },
                    None => g,
                },
            ),
        },
    }
}

/// Whether a private copy can be made: other addresses of the block are not
/// free.
pub open spec fn cow_fits(gpu: GpuView, dec: PolarisDecision) -> bool {
    &&& gpu.used_bytes + gpu.in_granules(dec.size_bytes) <= u64::MAX
    &&& gpu.va_of(dec.block_id) matches Some(va) ==> (dec.dst_vaddr != 0 && va.vaddr
        != dec.dst_vaddr ==> can_give(gpu.free, va.vaddr, va.size))
}

/// Begin to make a private copy.
fn cow_break(dec: &PolarisDecision, gpu: &mut GpuState) -> (r: Step)
    requires
        old(gpu)@.wf(),
        snap_fits(dec.size_bytes, old(gpu)@.granule),
        cow_fits(old(gpu)@, *dec),
    ensures
        exists|found: Option<u64>| #[trigger]
            old(gpu)@.has_handle(dec.src_handle, found) && (r, final(gpu)@) == cow_breaking(
                old(gpu)@,
                *dec,
                found,
            ),
        final(gpu)@.wf(),
        r matches Step::Ask { run, .. } ==> (run matches Run::Bring { bring, release, .. }
            && bring.size == old(gpu)@.in_granules(dec.size_bytes) && bring.fill is Device
            && final(gpu)@.used_bytes == old(gpu)@.used_bytes && (release ==> can_give(
            final(gpu)@.free,
            bring.vaddr,
            bring.size,
        ))),
{
    let size = snap_up(dec.size_bytes, gpu.granule);
    let found = gpu.find_block_by_phys(dec.src_handle);
    let src_vaddr = if dec.src_vaddr != 0 {
        dec.src_vaddr
    } else {
        let known = match found {
            Some(b) => gpu.get_va_alloc(b),
            None => None,
        };
        match known {
            Some(va) => va.vaddr,
            None => {
                return Step::fail(EINVAL);
            },
        }
    };
    let dst = match preferred_dst_vaddr(dec, gpu, size) {
        Some(dst) => dst,
        None => {
            return Step::fail(ENOMEM);
        },
    };
    if let Some(existing) = gpu.get_va_alloc(dec.block_id) {
        if existing.vaddr != dst.vaddr {
            gpu.vas.free(existing.vaddr, existing.size);
        }
    }
    begin_bring(
        dec.block_id,
        dst.vaddr,
        size,
        Fill::Device(src_vaddr),
        dst.release_to_pool,
        dec.cpu_addr,
    )
}

/// The decision names the block that a private copy is made of.
pub open spec fn names_source(dec: PolarisDecision) -> bool {
    dec._reserved[1] & POLARIS_DECISION_FLAG_SOURCE_BLOCK_ID_VALID != 0
}

/// Whether the decision names the block that a private copy is made of.
fn has_source(dec: &PolarisDecision) -> (r: bool)
    ensures
        r == names_source(*dec),
{
    dec._reserved[1] & POLARIS_DECISION_FLAG_SOURCE_BLOCK_ID_VALID != 0
}

/// The step that copies shared memory of the resource manager to a buffer.
pub open spec fn rm_cow_out(cow: RmCow, memory: RmAllocation) -> Step {
    Step::Ask {
        call: DeviceCall::RmCopy {
            arg: copy_record(cow.source, cow.size, cow.buffer, POLARIS_RM_COPY_TO_CPU, 0, 0, 0),
        },
        run: Run::RmCowOut { cow, memory },
    }
}

/// The first step of making a private copy in memory of the resource manager:
/// addresses and a buffer are taken, then memory is asked for.
pub open spec fn rm_cow_breaking(gpu: GpuView, cpu: CpuView, rm: RmView, dec: PolarisDecision) -> (
    Step,
    GpuView,
    CpuView,
) {
    let size = gpu.in_granules(dec.size_bytes);
    if size == 0 || !names_source(dec) {
        (Step::failed(EINVAL), gpu, cpu)
    } else {
        match destination(gpu, dec, size) {
            (None, g) => (Step::failed(ENOMEM), g, cpu),
            (Some(dst), g) => match cpu.allocating(size) {
                (None, _) => (
                    Step::failed(ENOMEM),
                    abandoned(g, dst.vaddr, size, dst.release_to_pool),
                    cpu,
                ),
                (Some(buffer), c) => {
                    let cow = RmCow {
                        block_id: dec.block_id,
                        source: dec._reserved[0],
                        size,
                        vaddr: dst.vaddr,
                        release: dst.release_to_pool,
                        buffer,
                    };
                    match rm.asking(dec.block_id, size) {
                        MemoryStep::Have(memory) => (rm_cow_out(cow, memory), g, c),
                        MemoryStep::Ask(params) => (
                            Step::Ask {
                                call: DeviceCall::RmAlloc { params },
                                run: Run::RmCowMemory { cow },
                            },
                            g,
                            c,
                        ),
                        MemoryStep::Refused(_) => (
                            Step::failed(ENOMEM),
                            abandoned(g, cow.vaddr, size, cow.release),
                            c.freed(buffer, size),
                        ),
                    }
                },
            },
        }
    }
}

/// Whether making a private copy can go on: the books have room, and what may
/// go back is not free.
pub open spec fn rm_cow_fits(gpu: GpuView, cpu: CpuView, cow: RmCow) -> bool {
    &&& gpu.used_bytes + cow.size <= u64::MAX
    &&& can_give(cpu.free, cow.buffer, cow.size)
    &&& cow.release ==> can_give(gpu.free, cow.vaddr, cow.size)
}

/// Copy shared memory of the resource manager to a buffer.
fn ask_cow_out(cow: RmCow, memory: RmAllocation) -> (r: Step)
    ensures
        r == rm_cow_out(cow, memory),
{
    Step::Ask {
        call: DeviceCall::RmCopy {
            arg: make_copy(cow.source, cow.size, cow.buffer, POLARIS_RM_COPY_TO_CPU, 0, 0, 0),
        },
        run: Run::RmCowOut { cow, memory },
    }
}

/// Begin to make a private copy in memory of the resource manager.
pub fn execute_rm_cow_break(
    dec: &PolarisDecision,
    gpu: &mut GpuState,
    cpu_pool: &mut CpuPool,
    backend: &RmBackend,
) -> (r: Step)
    requires
        old(gpu)@.wf(),
        old(cpu_pool)@.wf(),
        snap_fits(dec.size_bytes, old(gpu)@.granule),
        old(gpu)@.used_bytes + old(gpu)@.in_granules(dec.size_bytes) <= u64::MAX,
    ensures
        (r, final(gpu)@, final(cpu_pool)@) == rm_cow_breaking(
            old(gpu)@,
            old(cpu_pool)@,
            backend@,
            *dec,
        ),
        final(gpu)@.wf(),
        final(cpu_pool)@.wf(),
        r matches Step::Ask { run, .. } ==> match run {
            Run::RmCowMemory { cow } => rm_cow_fits(final(gpu)@, final(cpu_pool)@, cow),
            Run::RmCowOut { cow, .. } => rm_cow_fits(final(gpu)@, final(cpu_pool)@, cow),
            _ => false,
        },
{
    let size = snap_up(dec.size_bytes, gpu.granule);
    if size == 0 || !has_source(dec) {
        return Step::fail(EINVAL);
    }
    let dst = match preferred_dst_vaddr(dec, gpu, size) {
        Some(dst) => dst,
        None => {
            return Step::fail(ENOMEM);
        },
    };
    let buffer = match cpu_pool.allocate(size) {
        Some(buffer) => buffer,
        None => {
            if dst.release_to_pool {
                gpu.vas.free(dst.vaddr, size);
            }
            return Step::fail(ENOMEM);
        },
    };
    let cow = RmCow {
        block_id: dec.block_id,
        source: dec._reserved[0],
        size,
        vaddr: dst.vaddr,
        release: dst.release_to_pool,
        buffer,
    };
    match backend.alloc_for_block(dec.block_id, size) {
        MemoryStep::Have(memory) => ask_cow_out(cow, memory),
        MemoryStep::Ask(params) => Step::Ask {
            call: DeviceCall::RmAlloc { params },
            run: Run::RmCowMemory { cow },
        },
        MemoryStep::Refused(_) => {
            give_cow_back(gpu, cpu_pool, &cow);
            Step::fail(ENOMEM)
        },
    }
}

/// The buffer and the addresses of a private copy go back.
pub open spec fn cow_given_back(gpu: GpuView, cpu: CpuView, cow: RmCow) -> (GpuView, CpuView) {
    (abandoned(gpu, cow.vaddr, cow.size, cow.release), cpu.freed(cow.buffer, cow.size))
}

/// Give the buffer and the addresses of a private copy back.
fn give_cow_back(gpu: &mut GpuState, cpu_pool: &mut CpuPool, cow: &RmCow)
    requires
        old(gpu)@.wf(),
        old(cpu_pool)@.wf(),
        rm_cow_fits(old(gpu)@, old(cpu_pool)@, *cow),
    ensures
        (final(gpu)@, final(cpu_pool)@) == cow_given_back(old(gpu)@, old(cpu_pool)@, *cow),
        final(gpu)@.wf(),
        final(cpu_pool)@.wf(),
{
    if cow.release {
        gpu.vas.free(cow.vaddr, cow.size);
    }
    cpu_pool.free(cow.buffer, cow.size);
}

/// How making a private copy goes on after memory was asked for.
pub open spec fn rm_cow_memory(gpu: GpuView, cpu: CpuView, rm: RmView, cow: RmCow, reply: Reply) -> (
    Step,
    GpuView,
    CpuView,
    RmView,
) {
    match replied(RmPurpose::MakeMemory, reply.rm) {
        Err(_) => {
            let (g, c) = cow_given_back(gpu, cpu, cow);
            (Step::failed(ENOMEM), g, c, rm)
        },
        Ok(_) => {
            let memory = allocation_of(reply.rm);
            (rm_cow_out(cow, memory), gpu, cpu, rm.with(cow.block_id, memory))
        },
    }
}

/// Go on making a private copy after memory was asked for.
fn resume_cow_memory(
    gpu: &mut GpuState,
    cpu_pool: &mut CpuPool,
    backend: &mut RmBackend,
    cow: RmCow,
    reply: &Reply,
) -> (r: Step)
    requires
        old(gpu)@.wf(),
        old(cpu_pool)@.wf(),
        rm_cow_fits(old(gpu)@, old(cpu_pool)@, cow),
    ensures
        (r, final(gpu)@, final(cpu_pool)@, final(backend)@) == rm_cow_memory(
            old(gpu)@,
            old(cpu_pool)@,
            old(backend)@,
            cow,
            *reply,
        ),
        final(gpu)@.wf(),
        final(cpu_pool)@.wf(),
{
    match backend.note_allocation(cow.block_id, &reply.rm) {
        Ok(memory) => ask_cow_out(cow, memory),
        Err(_) => {
            give_cow_back(gpu, cpu_pool, &cow);
            Step::fail(ENOMEM)
        },
    }
}

/// How making a private copy goes on after a copy: `inward` to the private
/// memory, or out of the shared memory.
pub open spec fn rm_cow_copied(
    gpu: GpuView,
    cpu: CpuView,
    rm: RmView,
    cow: RmCow,
    memory: RmAllocation,
    inward: bool,
    reply: Reply,
) -> (Step, GpuView, CpuView, RmView) {
    match copy_error(reply, cow.size) {
        Some(errno) => {
            let (g, c) = cow_given_back(gpu, cpu, cow);
            let (step, r) = rm_undoing(rm, cow.block_id, errno);
            (step, g, c, r)
        },
        None => if inward {
            let (step, g) = memory_noted(
                gpu,
                rm,
                cow.block_id,
                cow.vaddr,
                cow.size,
                cow.release,
                memory,
            );
            (step, g, cpu.freed(cow.buffer, cow.size), rm)
        } else {
            (
                Step::Ask {
                    call: DeviceCall::RmCopy {
                        arg: copy_record(
                            cow.block_id,
                            cow.size,
                            cow.buffer,
                            POLARIS_RM_COPY_FROM_CPU,
                            rm.control_fd,
                            rm.h_client,
                            memory.h_memory,
                        ),
                    },
                    run: Run::RmCowIn { cow, memory },
                },
                gpu,
                cpu,
                rm,
            )
        },
    }
}

/// Go on making a private copy after a copy.
fn resume_cow_copy(
    gpu: &mut GpuState,
    cpu_pool: &mut CpuPool,
    backend: &mut RmBackend,
    cow: RmCow,
    memory: RmAllocation,
    inward: bool,
    reply: &Reply,
) -> (r: Step)
    requires
        old(gpu)@.wf(),
        old(cpu_pool)@.wf(),
        rm_cow_fits(old(gpu)@, old(cpu_pool)@, cow),
        reply.errno >= 0,
    ensures
        (r, final(gpu)@, final(cpu_pool)@, final(backend)@) == rm_cow_copied(
            old(gpu)@,
            old(cpu_pool)@,
            old(backend)@,
            cow,
            memory,
            inward,
            *reply,
        ),
        final(gpu)@.wf(),
        final(cpu_pool)@.wf(),
{
    if let Some(errno) = error_of_copy(reply, cow.size) {
        give_cow_back(gpu, cpu_pool, &cow);
        return undo_memory(backend, cow.block_id, errno);
    }
    if inward {
        cpu_pool.free(cow.buffer, cow.size);
        return note_memory(
            gpu,
            backend,
            cow.block_id,
            cow.vaddr,
            cow.size,
            cow.release,
            memory,
        );
    }
    Step::Ask {
        call: DeviceCall::RmCopy {
            arg: make_copy(
                cow.block_id,
                cow.size,
                cow.buffer,
                POLARIS_RM_COPY_FROM_CPU,
                backend.rm_control_fd(),
                backend.h_client,
                memory.h_memory,
            ),
        },
        run: Run::RmCowIn { cow, memory },
    }
}

// ─── Any decision ───────────────────────────────────────────────────────────

/// A block is offloaded from memory of the resource manager.
pub open spec fn offloads_memory(rm: Option<RmView>, dec: PolarisDecision) -> bool {
    rm matches Some(r) && r.allocations.contains_key(dec.block_id) && dec.src_handle == 0
}

/// A block is reloaded into memory of the resource manager.
pub open spec fn reloads_memory(rm: Option<RmView>, dec: PolarisDecision) -> bool {
    rm is Some && dec.src_handle == 0
}

/// A private copy is made in memory of the resource manager.
pub open spec fn copies_memory(rm: Option<RmView>, dec: PolarisDecision) -> bool {
    rm matches Some(r) && (names_source(dec) || r.allocations.contains_key(dec.block_id)
        || dec.src_handle == 0)
}

/// The first step of a decision. `found` is the block that is known with the
/// handle of the source.
pub open spec fn dispatching(
    gpu: GpuView,
    cpu: CpuView,
    rm: Option<RmView>,
    dec: PolarisDecision,
    found: Option<u64>,
) -> (Step, GpuView, CpuView, Option<RmView>) {
    if dec.op == PolarisDecisionOp::Alloc.code() {
        let (step, g) = allocating_block(gpu, rm, dec);
        (step, g, cpu, rm)
    } else if dec.op == PolarisDecisionOp::Free.code() {
        freeing_block(gpu, cpu, rm, dec)
    } else if dec.op == PolarisDecisionOp::MapExisting.code() {
        (mapping_existing(gpu, dec), gpu, cpu, rm)
    } else if dec.op == PolarisDecisionOp::Unmap.code() {
        (unmapping(gpu, dec), gpu, cpu, rm)
    } else if dec.op == PolarisDecisionOp::Offload.code() {
        let (step, c) = if offloads_memory(rm, dec) {
            rm_offloading(gpu, cpu, rm->0, dec)
        } else {
            offloading(gpu, cpu, dec)
        };
        (step, gpu, c, rm)
    } else if dec.op == PolarisDecisionOp::Reload.code() {
        (
            if reloads_memory(rm, dec) {
                rm_reloading(gpu, rm->0, dec)
            } else {
                reloading(gpu, dec)
            },
            gpu,
            cpu,
            rm,
        )
    } else if dec.op == PolarisDecisionOp::CowBreak.code() {
        if copies_memory(rm, dec) {
            let (step, g, c) = rm_cow_breaking(gpu, cpu, rm->0, dec);
            (step, g, c, rm)
        } else {
            let (step, g) = cow_breaking(gpu, dec, found);
            (step, g, cpu, rm)
        }
    } else {
        (done(-EINVAL, After::Nothing, dec.cpu_addr), gpu, cpu, rm)
    }
}

/// Whether a decision can be carried out: sizes and books fit machine words, and
/// what goes back to a pool is not free there.
pub open spec fn dispatch_fits(
    gpu: GpuView,
    cpu: CpuView,
    rm: Option<RmView>,
    dec: PolarisDecision,
) -> bool {
    &&& gpu.wf()
    &&& cpu.wf()
    &&& snap_fits(dec.size_bytes, gpu.granule)
    &&& gpu.used_bytes + move_size(gpu, dec) <= u64::MAX
    &&& dec.op == PolarisDecisionOp::Free.code() ==> forget_fits(gpu, cpu, dec)
    &&& dec.op == PolarisDecisionOp::CowBreak.code() ==> cow_fits(gpu, dec)
    &&& dec.op == PolarisDecisionOp::Reload.code() && dec.cpu_addr != 0 ==> can_give(
        cpu.free,
        dec.cpu_addr,
        if reloads_memory(rm, dec) {
            move_size(gpu, dec)
        } else {
            gpu.in_granules(dec.size_bytes)
        },
    )
}

/// Whether a run can go on with any reply.
pub open spec fn run_fits(gpu: GpuView, cpu: CpuView, rm: Option<RmView>, run: Run) -> bool {
    &&& gpu.wf()
    &&& cpu.wf()
    &&& match run {
        Run::Bring { bring, release, .. } => bring_fits(gpu, cpu, bring, release),
        Run::MapExisting { .. } => true,
        Run::Unmap { .. } => true,
        Run::Offload { size, cpu_addr, .. } => can_give(cpu.free, cpu_addr, size),
        Run::AllocMemory { vaddr, size, release, .. } => rm is Some && gpu.used_bytes + size
            <= u64::MAX && (release ==> can_give(gpu.free, vaddr, size)),
        Run::FreeMemory { dec } => rm is Some && forget_fits(gpu, cpu, dec),
        Run::RmOffloadCopy { size, cpu_addr, .. } => rm is Some && can_give(
            cpu.free,
            cpu_addr,
            size,
        ),
        Run::RmOffloadFree { size, cpu_addr, .. } => rm is Some && can_give(
            cpu.free,
            cpu_addr,
            size,
        ),
        Run::RmReloadMemory { size, cpu_addr, .. } => rm is Some && gpu.used_bytes + size
            <= u64::MAX && can_give(cpu.free, cpu_addr, size),
        Run::RmReloadCopy { size, cpu_addr, .. } => rm is Some && gpu.used_bytes + size <= u64::MAX
            && can_give(cpu.free, cpu_addr, size),
        Run::RmUndo { errno, .. } => rm is Some && errno > i32::MIN,
        Run::RmCowMemory { cow } => rm is Some && rm_cow_fits(gpu, cpu, cow),
        Run::RmCowOut { cow, .. } => rm is Some && rm_cow_fits(gpu, cpu, cow),
        Run::RmCowIn { cow, .. } => rm is Some && rm_cow_fits(gpu, cpu, cow),
    }
}

/// Begin to carry a decision out.
pub fn dispatch(
    dec: &PolarisDecision,
    gpu: &mut GpuState,
    cpu_pool: &mut CpuPool,
    rm_backend: &mut Option<RmBackend>,
) -> (r: Step)
    requires
        dispatch_fits(old(gpu)@, old(cpu_pool)@, rm_view(old(rm_backend)), *dec),
    ensures
        exists|found: Option<u64>| #[trigger]
            old(gpu)@.has_handle(dec.src_handle, found) && (
                r,
                final(gpu)@,
                final(cpu_pool)@,
                rm_view(final(rm_backend)),
            ) == dispatching(
                old(gpu)@,
                old(cpu_pool)@,
                rm_view(old(rm_backend)),
                *dec,
                found,
            ),
        final(gpu)@.wf(),
        final(cpu_pool)@.wf(),
        r matches Step::Ask { run, .. } ==> run_fits(
            final(gpu)@,
            final(cpu_pool)@,
            rm_view(final(rm_backend)),
            run,
        ),
{
    proof {
        gpu@.lemma_has_handle(dec.src_handle);
    }
    match PolarisDecisionOp::from_u32(dec.op) {
        Some(PolarisDecisionOp::Alloc) => alloc_block(dec, gpu, rm_backend),
        Some(PolarisDecisionOp::Free) => free_block(dec, gpu, cpu_pool, rm_backend),
        Some(PolarisDecisionOp::MapExisting) => map_existing(dec, gpu),
        Some(PolarisDecisionOp::Unmap) => unmap_block(dec, gpu),
        Some(PolarisDecisionOp::Offload) => {
            if let Some(backend) = rm_backend {
                if backend.has_block(dec.block_id) && dec.src_handle == 0 {
                    return execute_rm_offload(dec, gpu, cpu_pool, backend);
                }
            }
            execute_offload(dec, gpu, cpu_pool)
        },
        Some(PolarisDecisionOp::Reload) => {
            if let Some(backend) = rm_backend {
                if dec.src_handle == 0 {
                    return execute_rm_reload(dec, gpu, backend);
                }
            }
            execute_reload(dec, gpu)
        },
        Some(PolarisDecisionOp::CowBreak) => {
            if let Some(backend) = rm_backend {
                if has_source(dec) || backend.has_block(dec.block_id) || dec.src_handle == 0 {
                    return execute_rm_cow_break(dec, gpu, cpu_pool, backend);
                }
            }
            cow_break(dec, gpu)
        },
        None => Step::Finish {
            after: After::Nothing,
            result: ExecutionResult::of(-EINVAL, 0, dec.cpu_addr),
        },
    }
}

/// A step that leaves the resource manager as the last part says.
pub open spec fn with_rm(x: (Step, GpuView, CpuView, RmView)) -> (
    Step,
    GpuView,
    CpuView,
    Option<RmView>,
) {
    (x.0, x.1, x.2, Some(x.3))
}

/// How a decision goes on after a reply.
pub open spec fn resuming(
    gpu: GpuView,
    cpu: CpuView,
    rm: Option<RmView>,
    run: Run,
    reply: Reply,
) -> (Step, GpuView, CpuView, Option<RmView>) {
    match run {
        Run::Bring { block_id, bring, release, output_cpu_addr } => {
            let (step, g, c) = brought(gpu, cpu, block_id, bring, release, output_cpu_addr, reply);
            (step, g, c, rm)
        },
        Run::MapExisting { block_id, vaddr, size, mapped, output_cpu_addr } => {
            let (step, g) = mapped_existing(
                gpu,
                block_id,
                vaddr,
                size,
                mapped,
                output_cpu_addr,
                reply,
            );
            (step, g, cpu, rm)
        },
        Run::Unmap { output_cpu_addr } => (unmapped(output_cpu_addr, reply), gpu, cpu, rm),
        Run::Offload { block_id, src_vaddr, size, cpu_addr, copied } => {
            let (step, g, c) = offloaded(
                gpu,
                cpu,
                block_id,
                src_vaddr,
                size,
                cpu_addr,
                copied,
                reply,
            );
            (step, g, c, rm)
        },
        Run::AllocMemory { block_id, vaddr, size, release } => {
            let (step, g, r) = memory_replied(gpu, rm->0, block_id, vaddr, size, release, reply);
            (step, g, cpu, Some(r))
        },
        Run::FreeMemory { dec } => with_rm(memory_freed(gpu, cpu, rm->0, dec, reply)),
        Run::RmOffloadCopy { block_id, size, cpu_addr } => with_rm(
            rm_offload_copied(gpu, cpu, rm->0, block_id, size, cpu_addr, reply),
        ),
        Run::RmOffloadFree { block_id, size, cpu_addr } => with_rm(
            rm_offload_freed(gpu, cpu, rm->0, block_id, size, cpu_addr, reply),
        ),
        Run::RmReloadMemory { block_id, size, cpu_addr } => {
            let (step, r) = rm_reload_memory(rm->0, block_id, size, cpu_addr, reply);
            (step, gpu, cpu, Some(r))
        },
        Run::RmReloadCopy { block_id, size, cpu_addr, memory } => with_rm(
            rm_reload_copied(gpu, cpu, rm->0, block_id, size, cpu_addr, memory, reply),
        ),
        Run::RmUndo { block_id, errno } => {
            let (step, r) = rm_undone(rm->0, block_id, errno, reply);
            (step, gpu, cpu, Some(r))
        },
        Run::RmCowMemory { cow } => with_rm(rm_cow_memory(gpu, cpu, rm->0, cow, reply)),
        Run::RmCowOut { cow, memory } => with_rm(
            rm_cow_copied(gpu, cpu, rm->0, cow, memory, false, reply),
        ),
        Run::RmCowIn { cow, memory } => with_rm(
            rm_cow_copied(gpu, cpu, rm->0, cow, memory, true, reply),
        ),
    }
}

/// Go on carrying a decision out.
pub fn resume(
    run: Run,
    reply: &Reply,
    gpu: &mut GpuState,
    cpu_pool: &mut CpuPool,
    rm_backend: &mut Option<RmBackend>,
) -> (r: Step)
    requires
        run_fits(old(gpu)@, old(cpu_pool)@, rm_view(old(rm_backend)), run),
        reply.errno >= 0,
    ensures
        (r, final(gpu)@, final(cpu_pool)@, rm_view(final(rm_backend))) == resuming(
            old(gpu)@,
            old(cpu_pool)@,
            rm_view(old(rm_backend)),
            run,
            *reply,
        ),
        final(gpu)@.wf(),
        final(cpu_pool)@.wf(),
        r matches Step::Ask { run: next, .. } ==> run_fits(
            final(gpu)@,
            final(cpu_pool)@,
            rm_view(final(rm_backend)),
            next,
        ),
{
    match run {
        Run::Bring { block_id, bring, release, output_cpu_addr } => {
            return resume_bring(gpu, cpu_pool, block_id, bring, release, output_cpu_addr, reply);
        },
        Run::MapExisting { block_id, vaddr, size, mapped, output_cpu_addr } => {
            return resume_map_existing(gpu, block_id, vaddr, size, mapped, output_cpu_addr, reply);
        },
        Run::Unmap { output_cpu_addr } => {
            return resume_unmap(output_cpu_addr, reply);
        },
        Run::Offload { block_id, src_vaddr, size, cpu_addr, copied } => {
            return resume_offload(
                gpu,
                cpu_pool,
                block_id,
                src_vaddr,
                size,
                cpu_addr,
                copied,
                reply,
            );
        },
        _ => {},
    }
    match rm_backend {
        Some(backend) => match run {
            Run::RmOffloadCopy { .. } | Run::RmOffloadFree { .. } => resume_rm_offload(
                run,
                reply,
                gpu,
                cpu_pool,
                backend,
            ),
            Run::RmReloadMemory { .. } | Run::RmReloadCopy { .. } => resume_rm_reload(
                run,
                reply,
                gpu,
                cpu_pool,
                backend,
            ),
            Run::RmCowMemory { .. } | Run::RmCowOut { .. } | Run::RmCowIn { .. } => resume_rm_cow(
                run,
                reply,
                gpu,
                cpu_pool,
                backend,
            ),
            _ => resume_memory(run, reply, gpu, cpu_pool, backend),
        },
        None => {
            assert(false);
            Step::fail(EINVAL)
        },
    }
}

/// Go on asking for memory of the resource manager, or giving it back.
fn resume_memory(
    run: Run,
    reply: &Reply,
    gpu: &mut GpuState,
    cpu_pool: &mut CpuPool,
    backend: &mut RmBackend,
) -> (r: Step)
    requires
        run_fits(old(gpu)@, old(cpu_pool)@, Some(old(backend)@), run),
        reply.errno >= 0,
        run is AllocMemory || run is FreeMemory || run is RmUndo,
    ensures
        (r, final(gpu)@, final(cpu_pool)@, Some(final(backend)@)) == resuming(
            old(gpu)@,
            old(cpu_pool)@,
            Some(old(backend)@),
            run,
            *reply,
        ),
        final(gpu)@.wf(),
        final(cpu_pool)@.wf(),
        r matches Step::Ask { run: next, .. } ==> run_fits(
            final(gpu)@,
            final(cpu_pool)@,
            Some(final(backend)@),
            next,
        ),
{
    match run {
        Run::AllocMemory { block_id, vaddr, size, release } => resume_alloc_memory(
            gpu,
            backend,
            block_id,
            vaddr,
            size,
            release,
            reply,
        ),
        Run::FreeMemory { dec } => resume_free_memory(&dec, gpu, cpu_pool, backend, reply),
        Run::RmUndo { block_id, errno } => resume_undo(backend, block_id, errno, reply),
        _ => {
            assert(false);
            Step::fail(EINVAL)
        },
    }
}

/// Go on offloading memory of the resource manager.
fn resume_rm_offload(
    run: Run,
    reply: &Reply,
    gpu: &mut GpuState,
    cpu_pool: &mut CpuPool,
    backend: &mut RmBackend,
) -> (r: Step)
    requires
        run_fits(old(gpu)@, old(cpu_pool)@, Some(old(backend)@), run),
        reply.errno >= 0,
        run is RmOffloadCopy || run is RmOffloadFree,
    ensures
        (r, final(gpu)@, final(cpu_pool)@, Some(final(backend)@)) == resuming(
            old(gpu)@,
            old(cpu_pool)@,
            Some(old(backend)@),
            run,
            *reply,
        ),
        final(gpu)@.wf(),
        final(cpu_pool)@.wf(),
        r matches Step::Ask { run: next, .. } ==> run_fits(
            final(gpu)@,
            final(cpu_pool)@,
            Some(final(backend)@),
            next,
        ),
{
    match run {
        Run::RmOffloadCopy { block_id, size, cpu_addr } => resume_rm_offload_copy(
            gpu,
            cpu_pool,
            backend,
            block_id,
            size,
            cpu_addr,
            reply,
        ),
        Run::RmOffloadFree { block_id, size, cpu_addr } => resume_rm_offload_free(
            gpu,
            cpu_pool,
            backend,
            block_id,
            size,
            cpu_addr,
            reply,
        ),
        _ => {
            assert(false);
            Step::fail(EINVAL)
        },
    }
}

/// Go on reloading into memory of the resource manager.
fn resume_rm_reload(
    run: Run,
    reply: &Reply,
    gpu: &mut GpuState,
    cpu_pool: &mut CpuPool,
    backend: &mut RmBackend,
) -> (r: Step)
    requires
        run_fits(old(gpu)@, old(cpu_pool)@, Some(old(backend)@), run),
        reply.errno >= 0,
        run is RmReloadMemory || run is RmReloadCopy,
    ensures
        (r, final(gpu)@, final(cpu_pool)@, Some(final(backend)@)) == resuming(
            old(gpu)@,
            old(cpu_pool)@,
            Some(old(backend)@),
            run,
            *reply,
        ),
        final(gpu)@.wf(),
        final(cpu_pool)@.wf(),
        r matches Step::Ask { run: next, .. } ==> run_fits(
            final(gpu)@,
            final(cpu_pool)@,
            Some(final(backend)@),
            next,
        ),
{
    match run {
        Run::RmReloadMemory { block_id, size, cpu_addr } => resume_rm_reload_memory(
            backend,
            block_id,
            size,
            cpu_addr,
            reply,
        ),
        Run::RmReloadCopy { block_id, size, cpu_addr, memory } => resume_rm_reload_copy(
            gpu,
            cpu_pool,
            backend,
            block_id,
            size,
            cpu_addr,
            memory,
            reply,
        ),
        _ => {
            assert(false);
            Step::fail(EINVAL)
        },
    }
}

/// Go on making a private copy in memory of the resource manager.
fn resume_rm_cow(
    run: Run,
    reply: &Reply,
    gpu: &mut GpuState,
    cpu_pool: &mut CpuPool,
    backend: &mut RmBackend,
) -> (r: Step)
    requires
        run_fits(old(gpu)@, old(cpu_pool)@, Some(old(backend)@), run),
        reply.errno >= 0,
        run is RmCowMemory || run is RmCowOut || run is RmCowIn,
    ensures
        (r, final(gpu)@, final(cpu_pool)@, Some(final(backend)@)) == resuming(
            old(gpu)@,
            old(cpu_pool)@,
            Some(old(backend)@),
            run,
            *reply,
        ),
        final(gpu)@.wf(),
        final(cpu_pool)@.wf(),
        r matches Step::Ask { run: next, .. } ==> run_fits(
            final(gpu)@,
            final(cpu_pool)@,
            Some(final(backend)@),
            next,
        ),
{
    match run {
        Run::RmCowMemory { cow } => resume_cow_memory(gpu, cpu_pool, backend, cow, reply),
        Run::RmCowOut { cow, memory } => resume_cow_copy(
            gpu,
            cpu_pool,
            backend,
            cow,
            memory,
            false,
            reply,
        ),
        Run::RmCowIn { cow, memory } => resume_cow_copy(
            gpu,
            cpu_pool,
            backend,
            cow,
            memory,
            true,
            reply,
        ),
        _ => {
            assert(false);
            Step::fail(EINVAL)
        },
    }
}

/// The error that is reported for a block in place of carrying a decision out,
/// when failures are to be tried out.
pub open spec fn injected_error(block_id: u64) -> i32 {
    if block_id % 5 == 0 {
        ENOMEM
    } else if block_id % 5 == 1 {
        ENODEV
    } else if block_id % 5 == 2 {
        EINVAL
    } else if block_id % 5 == 3 {
        EFAULT
    } else {
        EIO
    }
}

/// Begin to carry a decision out, unless failures are to be tried out or the
/// context could not be made current.
pub fn execute(
    dec: &PolarisDecision,
    gpu: &mut GpuState,
    cpu_pool: &mut CpuPool,
    rm_backend: &mut Option<RmBackend>,
    context_is_current: bool,
    test_err: i32,
) -> (r: Step)
    requires
        dispatch_fits(old(gpu)@, old(cpu_pool)@, rm_view(old(rm_backend)), *dec),
    ensures
        test_err != 0 || !context_is_current ==> {
            &&& r == Step::failed(
                if test_err != 0 {
                    injected_error(dec.block_id)
                } else {
                    ENODEV
                },
            )
            &&& final(gpu)@ == old(gpu)@
            &&& final(cpu_pool)@ == old(cpu_pool)@
            &&& rm_view(final(rm_backend)) == rm_view(old(rm_backend))
        },
        test_err == 0 && context_is_current ==> exists|found: Option<u64>| #[trigger]
            old(gpu)@.has_handle(dec.src_handle, found) && (
                r,
                final(gpu)@,
                final(cpu_pool)@,
                rm_view(final(rm_backend)),
            ) == dispatching(
                old(gpu)@,
                old(cpu_pool)@,
                rm_view(old(rm_backend)),
                *dec,
                found,
            ),
        final(gpu)@.wf(),
        final(cpu_pool)@.wf(),
        r matches Step::Ask { run, .. } ==> run_fits(
            final(gpu)@,
            final(cpu_pool)@,
            rm_view(final(rm_backend)),
            run,
        ),
{
    if test_err != 0 {
        let err = match dec.block_id % 5 {
            0 => ENOMEM,
            1 => ENODEV,
            2 => EINVAL,
            3 => EFAULT,
            _ => EIO,
        };
        return Step::fail(err);
    }
    if !context_is_current {
        return Step::fail(ENODEV);
    }
    dispatch(dec, gpu, cpu_pool, rm_backend)
}

// ─── What holds of every decision ───────────────────────────────────────────

/// How many replies a run can take at most.
pub open spec fn replies_left(run: Run) -> int {
    match run {
        Run::Bring { bring, .. } => crate::executor::steps_left(bring),
        Run::MapExisting { mapped, .. } => if mapped {
            1
        } else {
            2
        },
        Run::Unmap { .. } => 1,
        Run::Offload { copied, .. } => if copied {
            1
        } else {
            2
        },
        Run::AllocMemory { .. } => 1,
        Run::FreeMemory { .. } => 1,
        Run::RmOffloadCopy { .. } => 2,
        Run::RmOffloadFree { .. } => 1,
        Run::RmReloadMemory { .. } => 3,
        Run::RmReloadCopy { .. } => 2,
        Run::RmUndo { .. } => 1,
        Run::RmCowMemory { .. } => 4,
        Run::RmCowOut { .. } => 3,
        Run::RmCowIn { .. } => 2,
    }
}

/// Every decision comes to an end: each reply brings it nearer.
#[verifier::rlimit(60)]
pub proof fn law_decisions_end(
    gpu: GpuView,
    cpu: CpuView,
    rm: Option<RmView>,
    run: Run,
    reply: Reply,
)
    ensures
        resuming(gpu, cpu, rm, run, reply).0 matches Step::Ask { run: next, .. } ==> 0
            < replies_left(next) < replies_left(run),
{
}

/// An allocation that fails while memory is brought up leaves the books as they
/// were, and the pool with the addresses it had.
pub proof fn law_failed_alloc_changes_nothing(
    gpu: GpuView,
    cpu: CpuView,
    dec: PolarisDecision,
    bring: Bring,
    reply: Reply,
)
    requires
        gpu.wf(),
        destination(gpu, dec, gpu.in_granules(dec.size_bytes)).0 is Some,
        ({
            let dst = destination(gpu, dec, gpu.in_granules(dec.size_bytes)).0->0;
            bring.vaddr == dst.vaddr && bring.size == gpu.in_granules(dec.size_bytes)
        }),
        bring.next(reply) is Failed,
    ensures
        ({
            let size = gpu.in_granules(dec.size_bytes);
            let (dst, g) = destination(gpu, dec, size);
            let end = brought(
                g,
                cpu,
                dec.block_id,
                bring,
                dst->0.release_to_pool,
                dec.cpu_addr,
                reply,
            );
            &&& end.0 matches Step::Finish { result, .. } && result.result < 0
            &&& end.1.used_bytes == gpu.used_bytes
            &&& end.1.handles == gpu.handles
            &&& end.1.vas == gpu.vas
            &&& forall|a: int| #[trigger]
                crate::ranges::covers(end.1.free, a) <==> crate::ranges::covers(gpu.free, a)
            &&& end.2 == cpu
        }),
{
    let size = gpu.in_granules(dec.size_bytes);
    let (dst, g) = destination(gpu, dec, size);
    if dst->0.release_to_pool {
        crate::ranges::law_take_then_give_restores(gpu.free, size, greatest(gpu.granule, 1));
    }
}

/// A block that was freed is not known any more: no handle, no addresses, no
/// buffer, and its size does not count.
pub proof fn law_freed_block_is_gone(
    gpu: GpuView,
    cpu: CpuView,
    rm: Option<RmView>,
    dec: PolarisDecision,
)
    requires
        freeing_block(gpu, cpu, rm, dec).0 is Finish,
    ensures
        ({
            let (step, g, c, r) = freeing_block(gpu, cpu, rm, dec);
            &&& !g.handles.contains_key(dec.block_id)
            &&& !g.vas.contains_key(dec.block_id)
            &&& !c.allocations.contains_key(dec.block_id)
            &&& g.used_bytes == sat_sub(gpu.used_bytes, gpu.va_size_of(dec.block_id))
            &&& r matches Some(r) ==> !r.allocations.contains_key(dec.block_id)
        }),
{
}

/// A block that goes to the host and comes back to the same addresses counts as
/// before, and its buffer is free again.
pub proof fn law_offload_then_reload_restores(
    gpu: GpuView,
    cpu: CpuView,
    dec: PolarisDecision,
    back: PolarisDecision,
    phys: u64,
)
    requires
        gpu.wf(),
        cpu.wf(),
        offloading(gpu, cpu, dec).0 is Ask,
        move_size(gpu, dec) <= gpu.used_bytes,
        move_size(gpu, dec) == gpu.in_granules(back.size_bytes),
        back.block_id == dec.block_id,
        back.dst_vaddr == 0 || back.dst_vaddr == offload_source(gpu, dec),
        back.cpu_addr == cpu.allocating(move_size(gpu, dec)).0->0,
    ensures
        ({
            let size = move_size(gpu, dec);
            let src = offload_source(gpu, dec);
            let c = offloading(gpu, cpu, dec).1;
            let works = plain_reply();
            let (_, g2, c2) = offloaded(
                gpu,
                c,
                dec.block_id,
                src,
                size,
                back.cpu_addr,
                true,
                works,
            );
            let g3 = with_block_up(g2, dec.block_id, src, size, phys, false);
            let c3 = c2.without_buffer(dec.block_id).freed(back.cpu_addr, size);
            &&& back.cpu_addr != 0 ==> reloading(g2, back) == bringing(
                dec.block_id,
                src,
                size,
                Fill::Host(back.cpu_addr),
                false,
                0,
            )
            &&& g3.used_bytes == gpu.used_bytes
            &&& g3.handle_of(dec.block_id) == phys
            &&& g3.vaddr_of(dec.block_id) == src
            &&& c3.used == cpu.used
            &&& !c3.allocations.contains_key(dec.block_id)
            &&& forall|a: int| #[trigger]
                crate::ranges::covers(c3.free, a) <==> crate::ranges::covers(cpu.free, a)
            &&& crate::ranges::separated(cpu.free) ==> c3.free == cpu.free
        }),
{
    let size = move_size(gpu, dec);
    crate::cpu_pool::law_allocate_then_free_balances(cpu, size);
}

/// Where a decision ends up when every call gets the same reply.
pub open spec fn carried_out(
    step: Step,
    gpu: GpuView,
    cpu: CpuView,
    rm: Option<RmView>,
    reply: Reply,
) -> (Step, GpuView, CpuView, Option<RmView>)
    decreases
            match step {
                Step::Ask { run, .. } => replies_left(run),
                Step::Finish { .. } => 0,
            },
{
    match step {
        Step::Ask { run, .. } => {
            proof {
                law_decisions_end(gpu, cpu, rm, run, reply);
            }
            let (next, g, c, r) = resuming(gpu, cpu, rm, run, reply);
            carried_out(next, g, c, r, reply)
        },
        Step::Finish { .. } => (step, gpu, cpu, rm),
    }
}

/// A block with memory of the resource manager that goes to the host and comes
/// back: it keeps its addresses, counts as before, and has memory again; the
/// buffer that it was copied to and from is free again. `reply` is one that every
/// call works with.
pub proof fn law_rm_offload_then_reload_restores(
    gpu: GpuView,
    cpu: CpuView,
    rm: RmView,
    dec: PolarisDecision,
    back: PolarisDecision,
    reply: Reply,
)
    requires
        gpu.wf(),
        cpu.wf(),
        rm_offloading(gpu, cpu, rm, dec).0 is Ask,
        move_size(gpu, dec) <= gpu.used_bytes,
        reply.errno == 0,
        reply.bytes == move_size(gpu, dec),
        replied(RmPurpose::MakeMemory, reply.rm) is Ok,
        rm.without(dec.block_id).asking(dec.block_id, move_size(gpu, dec)) is Ask,
        back.block_id == dec.block_id,
        back.size_bytes == dec.size_bytes,
        back.cpu_addr == cpu.allocating(move_size(gpu, dec)).0->0,
        back.cpu_addr != 0,
    ensures
        ({
            let k = dec.block_id;
            let size = move_size(gpu, dec);
            let buffer = back.cpu_addr;
            let memory = allocation_of(reply.rm);
            let (begun, c) = rm_offloading(gpu, cpu, rm, dec);
            let (gone, g1, c1, r1) = carried_out(begun, gpu, c, Some(rm), reply);
            let reload = rm_reloading(g1, r1->0, back);
            let (home, g2, c2, r2) = carried_out(reload, g1, c1, r1, reply);
            &&& begun->call == (DeviceCall::RmCopy {
                arg: copy_record(k, size, buffer, POLARIS_RM_COPY_TO_CPU, 0, 0, 0),
            })
            &&& gone matches Step::Finish { result, .. } && result == ExecutionResult::plain(
                0,
                0,
                buffer,
            )
            &&& r1 == Some(rm.without(k))
            &&& c1.buffer_of(k) == Some(buffer)
            &&& home matches Step::Finish { result, .. } && result == memory_result(rm, memory)
            &&& g2.used_bytes == gpu.used_bytes
            &&& g2.vaddr_of(k) == gpu.vaddr_of(k)
            &&& g2.va_size_of(k) == gpu.va_size_of(k)
            &&& r2 == Some(rm.with(k, memory))
            &&& c2.used == cpu.used
            &&& c2.buffer_of(k) is None
            &&& forall|a: int| #[trigger]
                crate::ranges::covers(c2.free, a) <==> crate::ranges::covers(cpu.free, a)
            &&& crate::ranges::separated(cpu.free) ==> c2.free == cpu.free
        }),
{
    reveal_with_fuel(carried_out, 4);
    let k = dec.block_id;
    let memory = allocation_of(reply.rm);
    crate::cpu_pool::law_allocate_then_free_balances(cpu, move_size(gpu, dec));
    assert(rm.without(k).with(k, memory).allocations =~= rm.with(k, memory).allocations);
}

/// The reply of a call that worked and has nothing to hand back.
pub open spec fn plain_reply() -> Reply {
    Reply {
        errno: 0,
        handle: 0,
        bytes: 0,
        rm: crate::rm::RmReply {
            ret: 0,
            status: 0,
            h_object_new: 0,
            h_client: 0,
            size: 0,
            offset: 0,
        },
    }
}

} // verus!
