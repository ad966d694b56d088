//! Moving blocks between the GPU and the host, step by step.

use crate::abi::{
    PolarisDecision, PolarisRmCopyArg, POLARIS_RM_COPY_FROM_CPU, POLARIS_RM_COPY_TO_CPU,
};
use crate::cpu_pool::{CpuPool, CpuView};
use crate::errno::{EINVAL, EIO, ENOENT, ENOMEM};
use crate::executor::{
    asking, After, Bring, Brought, DeviceCall, ExecutionResult, Fill, Reply, Stage,
};
use crate::gpu::{GpuState, GpuView};
use crate::num::{greatest, larger, sat_sub};
use crate::ranges::{can_give, snap_fits, snap_up};
use crate::rm::{
    allocation_of, replied, MemoryStep, RmAllocation, RmBackend, RmPurpose, RmView,
};
use vstd::prelude::*;

verus! {

/// A decision under way: what was asked of the driver last, and what is needed
/// to go on.
#[derive(Clone, Copy, Debug, PartialEq, Eq)]
pub enum Run {
    /// Memory is brought up for a block, at addresses that go back to the pool
    /// if that fails and they came out of it.
    Bring { block_id: u64, bring: Bring, release: bool, output_cpu_addr: u64 },
    /// Memory is mapped at one more address.
    MapExisting { block_id: u64, vaddr: u64, size: u64, mapped: bool, output_cpu_addr: u64 },
    /// Something is unmapped.
    Unmap { output_cpu_addr: u64 },
    /// A block is copied to the host, then unmapped.
    Offload { block_id: u64, src_vaddr: u64, size: u64, cpu_addr: u64, copied: bool },
    /// The resource manager is asked for memory for a block.
    AllocMemory { block_id: u64, vaddr: u64, size: u64, release: bool },
    /// The resource manager takes the memory of a block back, whose addresses
    /// and buffer go next.
    FreeMemory { dec: PolarisDecision },
    /// Memory of the resource manager is copied to the host.
    RmOffloadCopy { block_id: u64, size: u64, cpu_addr: u64 },
    /// The resource manager takes copied memory back.
    RmOffloadFree { block_id: u64, size: u64, cpu_addr: u64 },
    /// The resource manager is asked for memory to reload into.
    RmReloadMemory { block_id: u64, size: u64, cpu_addr: u64 },
    /// The host copy goes to memory of the resource manager.
    RmReloadCopy { block_id: u64, size: u64, cpu_addr: u64, memory: RmAllocation },
    /// The resource manager takes memory back that was of no use. The failure
    /// stands.
    RmUndo { block_id: u64, errno: i32 },
    /// The resource manager is asked for memory for a private copy.
    RmCowMemory { cow: RmCow },
    /// The shared memory is copied to a buffer.
    RmCowOut { cow: RmCow, memory: RmAllocation },
    /// The buffer is copied to the private memory.
    RmCowIn { cow: RmCow, memory: RmAllocation },
}

/// A private copy in the making, by way of a buffer on the host.
#[derive(Clone, Copy, Debug, PartialEq, Eq)]
pub struct RmCow {
    pub block_id: u64,
    pub source: u64,
    pub size: u64,
    pub vaddr: u64,
    pub release: bool,
    pub buffer: u64,
}

/// How a decision goes on.
#[derive(Clone, Copy, Debug, PartialEq, Eq)]
pub enum Step {
    /// The driver is to be called, and the run goes on with its reply.
    Ask { call: DeviceCall, run: Run },
    /// The decision is done.
    Finish { after: After, result: ExecutionResult },
}

impl Step {
    /// The decision failed, with nothing left to do.
    pub open spec fn failed(errno: i32) -> Step {
        Step::Finish { after: After::Nothing, result: ExecutionResult::failure(errno) }
    }

    /// The decision failed, with nothing left to do.
    pub fn fail(errno: i32) -> (r: Step)
        requires
            errno > i32::MIN,
        ensures
            r == Step::failed(errno),
    {
        Step::Finish { after: After::Nothing, result: ExecutionResult::failed(errno) }
    }
}

/// The size of a block in whole granules, or what its addresses take up if that
/// is more.
pub open spec fn move_size(gpu: GpuView, dec: PolarisDecision) -> u64 {
    greatest(gpu.in_granules(dec.size_bytes), gpu.va_size_of(dec.block_id))
}

/// The size of a block in whole granules, or what its addresses take up if that
/// is more.
fn size_to_move(gpu: &GpuState, dec: &PolarisDecision) -> (r: u64)
    requires
        snap_fits(dec.size_bytes, gpu@.granule),
    ensures
        r == move_size(gpu@, *dec),
{
    let tracked_size = match gpu.get_va_alloc(dec.block_id) {
        Some(va) => va.size,
        None => 0,
    };
    larger(snap_up(dec.size_bytes, gpu.granule), tracked_size)
}

// ─── Bringing memory up for a block ─────────────────────────────────────────

/// The first step of bringing memory up for a block.
pub open spec fn bringing(
    block_id: u64,
    vaddr: u64,
    size: u64,
    fill: Fill,
    release: bool,
    output_cpu_addr: u64,
) -> Step {
    let bring = Bring { stage: Stage::Create, vaddr, size, phys: 0, fill };
    Step::Ask {
        call: bring.call(),
        run: Run::Bring { block_id, bring, release, output_cpu_addr },
    }
}

/// Begin to bring memory up for a block.
pub fn begin_bring(
    block_id: u64,
    vaddr: u64,
    size: u64,
    fill: Fill,
    release: bool,
    output_cpu_addr: u64,
) -> (r: Step)
    ensures
        r == bringing(block_id, vaddr, size, fill, release, output_cpu_addr),
{
    let bring = Bring::new(vaddr, size, fill);
    Step::Ask {
        call: bring.to_call(),
        run: Run::Bring { block_id, bring, release, output_cpu_addr },
    }
}

/// A block that memory was brought up for: it has a handle and addresses, and
/// counts as used.
pub open spec fn with_block_up(
    gpu: GpuView,
    block_id: u64,
    vaddr: u64,
    size: u64,
    phys: u64,
    from_pool: bool,
) -> GpuView {
    let g = gpu.with_handle(block_id, phys).with_va(block_id, vaddr, size, from_pool);
    GpuView { used_bytes: (g.used_bytes + size) as u64, ..g }
}

/// How bringing memory up for a block goes on. What came out of the pool goes
/// back where it fails. A host copy that was its source is given back where it
/// works.
pub open spec fn brought(
    gpu: GpuView,
    cpu: CpuView,
    block_id: u64,
    bring: Bring,
    release: bool,
    output_cpu_addr: u64,
    reply: Reply,
) -> (Step, GpuView, CpuView) {
    match bring.next(reply) {
        Brought::Ask { call, bring: next } => (
            Step::Ask { call, run: Run::Bring { block_id, bring: next, release, output_cpu_addr } },
            gpu,
            cpu,
        ),
        Brought::Failed { errno, after } => (
            Step::Finish { after, result: ExecutionResult::failure(errno) },
            if release {
                gpu.with_given(bring.vaddr, bring.size)
            } else {
                gpu
            },
            cpu,
        ),
        Brought::Up { phys } => (
            Step::Finish {
                after: After::Nothing,
                result: ExecutionResult::plain(0, phys, output_cpu_addr),
            },
            with_block_up(gpu, block_id, bring.vaddr, bring.size, phys, release),
            match bring.fill {
                Fill::Host(src) => cpu.without_buffer(block_id).freed(src, bring.size),
                _ => cpu,
            },
        ),
    }
}

/// Whether bringing memory up can go on: the books have room, and what may go
/// back is not free.
pub open spec fn bring_fits(gpu: GpuView, cpu: CpuView, bring: Bring, release: bool) -> bool {
    &&& gpu.used_bytes + bring.size <= u64::MAX
    &&& release ==> can_give(gpu.free, bring.vaddr, bring.size)
    &&& bring.fill matches Fill::Host(src) ==> can_give(cpu.free, src, bring.size)
}

/// Go on bringing memory up for a block.
pub fn resume_bring(
    gpu: &mut GpuState,
    cpu_pool: &mut CpuPool,
    block_id: u64,
    bring: Bring,
    release: bool,
    output_cpu_addr: u64,
    reply: &Reply,
) -> (r: Step)
    requires
        old(gpu)@.wf(),
        old(cpu_pool)@.wf(),
        bring_fits(old(gpu)@, old(cpu_pool)@, bring, release),
    ensures
        (r, final(gpu)@, final(cpu_pool)@) == brought(
            old(gpu)@,
            old(cpu_pool)@,
            block_id,
            bring,
            release,
            output_cpu_addr,
            *reply,
        ),
        final(gpu)@.wf(),
        final(cpu_pool)@.wf(),
{
    match bring.step(reply) {
        Brought::Ask { call, bring: next } => Step::Ask {
            call,
            run: Run::Bring { block_id, bring: next, release, output_cpu_addr },
        },
        Brought::Failed { errno, after } => {
            if release {
                gpu.vas.free(bring.vaddr, bring.size);
            }
            Step::Finish { after, result: ExecutionResult::failed(errno) }
        },
        Brought::Up { phys } => {
            if let Fill::Host(src) = bring.fill {
                cpu_pool.untrack(block_id);
                cpu_pool.free(src, bring.size);
            }
            gpu.track_handle(block_id, phys);
            gpu.track_va(block_id, bring.vaddr, bring.size, release);
            gpu.used_bytes = gpu.used_bytes + bring.size;
            Step::Finish {
                after: After::Nothing,
                result: ExecutionResult::of(0, phys, output_cpu_addr),
            }
        },
    }
}

// ─── Offload and reload ─────────────────────────────────────────────────────

/// The address that a block is offloaded from: the one the decision names, or
/// the one the block is known at.
pub open spec fn offload_source(gpu: GpuView, dec: PolarisDecision) -> u64 {
    if dec.src_vaddr != 0 {
        dec.src_vaddr
    } else {
        gpu.vaddr_of(dec.block_id)
    }
}

/// The first step of an offload: a buffer is taken, and the block copied to it.
/// An address that no block is known at must lie in the reserved stretch.
pub open spec fn offloading(gpu: GpuView, cpu: CpuView, dec: PolarisDecision) -> (Step, CpuView) {
    let src_vaddr = offload_source(gpu, dec);
    let size = move_size(gpu, dec);
    if src_vaddr == 0 || size == 0 {
        (Step::failed(EINVAL), cpu)
    } else if gpu.va_of(dec.block_id) is None && dec.src_vaddr != 0 && !gpu.holds_va(
        dec.src_vaddr,
        size,
    ) {
        (Step::failed(EINVAL), cpu)
    } else {
        match cpu.allocating(size) {
            (None, _) => (Step::failed(ENOMEM), cpu),
            (Some(cpu_addr), c) => (
                Step::Ask {
                    call: DeviceCall::CopyDeviceToHost { dst: cpu_addr, src: src_vaddr, size },
                    run: Run::Offload {
                        block_id: dec.block_id,
                        src_vaddr,
                        size,
                        cpu_addr,
                        copied: false,
                    },
                },
                c,
            ),
        }
    }
}

/// Copy a block to the host, unmap it, and give its memory back. The addresses
/// stay reserved for the reload.
pub fn execute_offload(dec: &PolarisDecision, gpu: &GpuState, cpu_pool: &mut CpuPool) -> (r: Step)
    requires
        gpu@.wf(),
        old(cpu_pool)@.wf(),
        snap_fits(dec.size_bytes, gpu@.granule),
    ensures
        (r, final(cpu_pool)@) == offloading(gpu@, old(cpu_pool)@, *dec),
        final(cpu_pool)@.wf(),
        r matches Step::Ask { run, .. } ==> (run matches Run::Offload { size, cpu_addr, .. }
            && can_give(final(cpu_pool)@.free, cpu_addr, size)),
{
    let va = gpu.get_va_alloc(dec.block_id);
    let src_vaddr = if dec.src_vaddr != 0 {
        dec.src_vaddr
    } else {
        match va {
            Some(va) => va.vaddr,
            None => 0,
        }
    };
    let size = size_to_move(gpu, dec);
    if src_vaddr == 0 || size == 0 {
        return Step::fail(EINVAL);
    }
    if va.is_none() && dec.src_vaddr != 0 {
        if !gpu.contains_va(dec.src_vaddr, size) {
            return Step::fail(EINVAL);
        }
    }
    match cpu_pool.allocate(size) {
        Some(cpu_addr) => Step::Ask {
            call: DeviceCall::CopyDeviceToHost { dst: cpu_addr, src: src_vaddr, size },
            run: Run::Offload {
                block_id: dec.block_id,
                src_vaddr,
                size,
                cpu_addr,
                copied: false,
            },
        },
        None => Step::fail(ENOMEM),
    }
}

/// How an offload goes on.
pub open spec fn offloaded(
    gpu: GpuView,
    cpu: CpuView,
    block_id: u64,
    src_vaddr: u64,
    size: u64,
    cpu_addr: u64,
    copied: bool,
    reply: Reply,
) -> (Step, GpuView, CpuView) {
    if reply.errno != 0 {
        (
            Step::failed(
                if copied {
                    EINVAL
                } else {
                    crate::errno::EFAULT
                },
            ),
            gpu,
            cpu.freed(cpu_addr, size),
        )
    } else if !copied {
        (
            Step::Ask {
                call: DeviceCall::UnmapMemory { vaddr: src_vaddr, size },
                run: Run::Offload { block_id, src_vaddr, size, cpu_addr, copied: true },
            },
            gpu,
            cpu,
        )
    } else {
        let g = gpu.without_handle(block_id);
        (
            Step::Finish {
                after: if gpu.handles.contains_key(block_id) {
                    After::One(DeviceCall::ReleasePhysical { handle: gpu.handles[block_id] })
                } else {
                    After::Nothing
                },
                result: ExecutionResult::plain(0, 0, cpu_addr),
            },
            GpuView { used_bytes: sat_sub(g.used_bytes, size), ..g }.with_va(
                block_id,
                src_vaddr,
                size,
                false,
            ),
            cpu.with_buffer(block_id, cpu_addr),
        )
    }
}

/// Go on with an offload.
pub fn resume_offload(
    gpu: &mut GpuState,
    cpu_pool: &mut CpuPool,
    block_id: u64,
    src_vaddr: u64,
    size: u64,
    cpu_addr: u64,
    copied: bool,
    reply: &Reply,
) -> (r: Step)
    requires
        old(gpu)@.wf(),
        old(cpu_pool)@.wf(),
        can_give(old(cpu_pool)@.free, cpu_addr, size),
    ensures
        (r, final(gpu)@, final(cpu_pool)@) == offloaded(
            old(gpu)@,
            old(cpu_pool)@,
            block_id,
            src_vaddr,
            size,
            cpu_addr,
            copied,
            *reply,
        ),
        final(gpu)@.wf(),
        final(cpu_pool)@.wf(),
{
    if reply.errno != 0 {
        cpu_pool.free(cpu_addr, size);
        return Step::fail(
            if copied {
                EINVAL
            } else {
                crate::errno::EFAULT
            },
        );
    }
    if !copied {
        return Step::Ask {
            call: DeviceCall::UnmapMemory { vaddr: src_vaddr, size },
            run: Run::Offload { block_id, src_vaddr, size, cpu_addr, copied: true },
        };
    }
    let after = match gpu.get_handle(block_id) {
        Some(handle) => After::One(DeviceCall::ReleasePhysical { handle }),
        None => After::Nothing,
    };
    cpu_pool.track(block_id, cpu_addr);
    gpu.clear_handle(block_id);
    gpu.used_bytes = gpu.used_bytes.saturating_sub(size);
    gpu.track_va(block_id, src_vaddr, size, false);
    Step::Finish { after, result: ExecutionResult::of(0, 0, cpu_addr) }
}

/// The first step of a reload.
pub open spec fn reloading(gpu: GpuView, dec: PolarisDecision) -> Step {
    let size = gpu.in_granules(dec.size_bytes);
    if dec.dst_vaddr == 0 && gpu.va_of(dec.block_id) is None {
        Step::failed(EINVAL)
    } else if dec.cpu_addr == 0 {
        Step::failed(EINVAL)
    } else {
        let vaddr = if dec.dst_vaddr != 0 {
            dec.dst_vaddr
        } else {
            gpu.vaddr_of(dec.block_id)
        };
        bringing(dec.block_id, vaddr, size, Fill::Host(dec.cpu_addr), false, 0)
    }
}

/// Bring memory up for a block at its addresses, fill it from the host copy, and
/// give that back.
pub fn execute_reload(dec: &PolarisDecision, gpu: &GpuState) -> (r: Step)
    requires
        snap_fits(dec.size_bytes, gpu@.granule),
    ensures
        r == reloading(gpu@, *dec),
{
    let size = snap_up(dec.size_bytes, gpu.granule);
    let vaddr = if dec.dst_vaddr != 0 {
        dec.dst_vaddr
    } else {
        match gpu.get_va_alloc(dec.block_id) {
            Some(va) => va.vaddr,
            None => {
                return Step::fail(EINVAL);
            },
        }
    };
    if dec.cpu_addr == 0 {
        return Step::fail(EINVAL);
    }
    begin_bring(dec.block_id, vaddr, size, Fill::Host(dec.cpu_addr), false, 0)
}

// ─── Memory of the resource manager ─────────────────────────────────────────

/// A copy between memory of the resource manager and the host.
pub open spec fn copy_record(
    block_id: u64,
    size: u64,
    user_cpu_addr: u64,
    direction: u32,
    rm_control_fd: i32,
    rm_h_client: u32,
    rm_h_memory: u32,
) -> PolarisRmCopyArg {
    PolarisRmCopyArg {
        block_id,
        offset: 0,
        length: size,
        user_cpu_addr,
        direction,
        _pad: 0,
        rm_control_fd,
        rm_h_client,
        rm_h_memory,
        _pad2: 0,
        page_size: 0,
        phys_addr_count: 0,
        first_phys_addr: 0,
        last_phys_addr: 0,
        flags: 0,
        bytes_copied: 0,
        _reserved: [0u64, 0u64],
    }
}

/// A copy between memory of the resource manager and the host.
pub fn make_copy(
    block_id: u64,
    size: u64,
    user_cpu_addr: u64,
    direction: u32,
    rm_control_fd: i32,
    rm_h_client: u32,
    rm_h_memory: u32,
) -> (r: PolarisRmCopyArg)
    ensures
        r == copy_record(
            block_id,
            size,
            user_cpu_addr,
            direction,
            rm_control_fd,
            rm_h_client,
            rm_h_memory,
        ),
{
    PolarisRmCopyArg {
        block_id,
        offset: 0,
        length: size,
        user_cpu_addr,
        direction,
        _pad: 0,
        rm_control_fd,
        rm_h_client,
        rm_h_memory,
        _pad2: 0,
        page_size: 0,
        phys_addr_count: 0,
        first_phys_addr: 0,
        last_phys_addr: 0,
        flags: 0,
        bytes_copied: 0,
        _reserved: [0u64, 0u64],
    }
}

/// The error of a copy: what the call failed with, or an input/output error
/// where it fell short.
pub open spec fn copy_error(reply: Reply, size: u64) -> Option<i32> {
    if reply.errno != 0 {
        Some(reply.errno)
    } else if reply.bytes != size {
        Some(EIO)
    } else {
        None
    }
}

/// The error of a copy.
pub fn error_of_copy(reply: &Reply, size: u64) -> (r: Option<i32>)
    ensures
        r == copy_error(*reply, size),
{
    if reply.errno != 0 {
        Some(reply.errno)
    } else if reply.bytes != size {
        Some(EIO)
    } else {
        None
    }
}

/// The first step of an offload of memory of the resource manager.
pub open spec fn rm_offloading(gpu: GpuView, cpu: CpuView, rm: RmView, dec: PolarisDecision) -> (
    Step,
    CpuView,
) {
    let size = move_size(gpu, dec);
    if size == 0 {
        (Step::failed(EINVAL), cpu)
    } else if !rm.allocations.contains_key(dec.block_id) {
        (Step::failed(ENOENT), cpu)
    } else {
        match cpu.allocating(size) {
            (None, _) => (Step::failed(ENOMEM), cpu),
            (Some(cpu_addr), c) => (
                Step::Ask {
                    call: DeviceCall::RmCopy {
                        arg: copy_record(
                            dec.block_id,
                            size,
                            cpu_addr,
                            POLARIS_RM_COPY_TO_CPU,
                            0,
                            0,
                            0,
                        ),
                    },
                    run: Run::RmOffloadCopy { block_id: dec.block_id, size, cpu_addr },
                },
                c,
            ),
        }
    }
}

/// Copy memory of the resource manager to the host, and give it back. The
/// addresses stay reserved.
pub fn execute_rm_offload(
    dec: &PolarisDecision,
    gpu: &GpuState,
    cpu_pool: &mut CpuPool,
    backend: &RmBackend,
) -> (r: Step)
    requires
        old(cpu_pool)@.wf(),
        snap_fits(dec.size_bytes, gpu@.granule),
    ensures
        (r, final(cpu_pool)@) == rm_offloading(gpu@, old(cpu_pool)@, backend@, *dec),
        final(cpu_pool)@.wf(),
        r matches Step::Ask { run, .. } ==> (run matches Run::RmOffloadCopy { size, cpu_addr, .. }
            && can_give(final(cpu_pool)@.free, cpu_addr, size)),
{
    let size = size_to_move(gpu, dec);
    if size == 0 {
        return Step::fail(EINVAL);
    }
    if !backend.has_block(dec.block_id) {
        return Step::fail(ENOENT);
    }
    match cpu_pool.allocate(size) {
        Some(cpu_addr) => Step::Ask {
            call: DeviceCall::RmCopy {
                arg: make_copy(dec.block_id, size, cpu_addr, POLARIS_RM_COPY_TO_CPU, 0, 0, 0),
            },
            run: Run::RmOffloadCopy { block_id: dec.block_id, size, cpu_addr },
        },
        None => Step::fail(ENOMEM),
    }
}

/// A block whose memory was copied to the host and given back.
pub open spec fn rm_offload_done(
    gpu: GpuView,
    cpu: CpuView,
    block_id: u64,
    size: u64,
    cpu_addr: u64,
) -> (Step, GpuView, CpuView) {
    let g = GpuView { used_bytes: sat_sub(gpu.used_bytes, size), ..gpu }.without_handle(block_id);
    (
        Step::Finish {
            after: After::Nothing,
            result: ExecutionResult::plain(0, 0, cpu_addr),
        },
        match g.va_of(block_id) {
            Some(va) => g.with_va(block_id, va.vaddr, va.size, false),
            None => g,
        },
        cpu.with_buffer(block_id, cpu_addr),
    )
}

/// How an offload of memory of the resource manager goes on after the copy.
pub open spec fn rm_offload_copied(
    gpu: GpuView,
    cpu: CpuView,
    rm: RmView,
    block_id: u64,
    size: u64,
    cpu_addr: u64,
    reply: Reply,
) -> (Step, GpuView, CpuView, RmView) {
    match copy_error(reply, size) {
        Some(errno) => (Step::failed(errno), gpu, cpu.freed(cpu_addr, size), rm),
        None => match rm.freeing_block(block_id) {
            Some(params) => (
                Step::Ask {
                    call: DeviceCall::RmFree { free: params },
                    run: Run::RmOffloadFree { block_id, size, cpu_addr },
                },
                gpu,
                cpu,
                rm,
            ),
            None => {
                let (step, g, c) = rm_offload_done(gpu, cpu, block_id, size, cpu_addr);
                (step, g, c, rm.without(block_id))
            },
        },
    }
}

/// How an offload of memory of the resource manager goes on after the memory was
/// given back.
pub open spec fn rm_offload_freed(
    gpu: GpuView,
    cpu: CpuView,
    rm: RmView,
    block_id: u64,
    size: u64,
    cpu_addr: u64,
    reply: Reply,
) -> (Step, GpuView, CpuView, RmView) {
    match replied(RmPurpose::FreeMemory, reply.rm) {
        Err(_) => (Step::failed(EIO), gpu, cpu.freed(cpu_addr, size), rm),
        Ok(_) => {
            let (step, g, c) = rm_offload_done(gpu, cpu, block_id, size, cpu_addr);
            (step, g, c, rm.without(block_id))
        },
    }
}

/// Note that a block was copied to the host and its memory given back.
fn finish_rm_offload(
    gpu: &mut GpuState,
    cpu_pool: &mut CpuPool,
    block_id: u64,
    size: u64,
    cpu_addr: u64,
) -> (r: Step)
    requires
        old(gpu)@.wf(),
    ensures
        (r, final(gpu)@, final(cpu_pool)@) == rm_offload_done(
            old(gpu)@,
            old(cpu_pool)@,
            block_id,
            size,
            cpu_addr,
        ),
        final(gpu)@.wf(),
{
    cpu_pool.track(block_id, cpu_addr);
    gpu.used_bytes = gpu.used_bytes.saturating_sub(size);
    gpu.clear_handle(block_id);
    if let Some(va) = gpu.get_va_alloc(block_id) {
        gpu.track_va(block_id, va.vaddr, va.size, false);
    }
    Step::Finish { after: After::Nothing, result: ExecutionResult::of(0, 0, cpu_addr) }
}

/// Go on with an offload of memory of the resource manager after the copy.
pub fn resume_rm_offload_copy(
    gpu: &mut GpuState,
    cpu_pool: &mut CpuPool,
    backend: &mut RmBackend,
    block_id: u64,
    size: u64,
    cpu_addr: u64,
    reply: &Reply,
) -> (r: Step)
    requires
        old(gpu)@.wf(),
        old(cpu_pool)@.wf(),
        can_give(old(cpu_pool)@.free, cpu_addr, size),
        reply.errno >= 0,
    ensures
        (r, final(gpu)@, final(cpu_pool)@, final(backend)@) == rm_offload_copied(
            old(gpu)@,
            old(cpu_pool)@,
            old(backend)@,
            block_id,
            size,
            cpu_addr,
            *reply,
        ),
        final(gpu)@.wf(),
        final(cpu_pool)@.wf(),
{
    if let Some(errno) = error_of_copy(reply, size) {
        cpu_pool.free(cpu_addr, size);
        return Step::fail(errno);
    }
    match backend.free_block(block_id) {
        Some(params) => Step::Ask {
            call: DeviceCall::RmFree { free: params },
            run: Run::RmOffloadFree { block_id, size, cpu_addr },
        },
        None => finish_rm_offload(gpu, cpu_pool, block_id, size, cpu_addr),
    }
}

/// Go on with an offload of memory of the resource manager after the memory was
/// given back.
pub fn resume_rm_offload_free(
    gpu: &mut GpuState,
    cpu_pool: &mut CpuPool,
    backend: &mut RmBackend,
    block_id: u64,
    size: u64,
    cpu_addr: u64,
    reply: &Reply,
) -> (r: Step)
    requires
        old(gpu)@.wf(),
        old(cpu_pool)@.wf(),
        can_give(old(cpu_pool)@.free, cpu_addr, size),
    ensures
        (r, final(gpu)@, final(cpu_pool)@, final(backend)@) == rm_offload_freed(
            old(gpu)@,
            old(cpu_pool)@,
            old(backend)@,
            block_id,
            size,
            cpu_addr,
            *reply,
        ),
        final(gpu)@.wf(),
        final(cpu_pool)@.wf(),
{
    match backend.note_free(block_id, &reply.rm) {
        Ok(_) => finish_rm_offload(gpu, cpu_pool, block_id, size, cpu_addr),
        Err(_) => {
            cpu_pool.free(cpu_addr, size);
            Step::fail(EIO)
        },
    }
}

/// The step that copies a host copy to memory of the resource manager.
pub open spec fn rm_reload_copying(
    rm: RmView,
    block_id: u64,
    size: u64,
    cpu_addr: u64,
    memory: RmAllocation,
) -> Step {
    Step::Ask {
        call: DeviceCall::RmCopy {
            arg: copy_record(
                block_id,
                size,
                cpu_addr,
                POLARIS_RM_COPY_FROM_CPU,
                rm.control_fd,
                rm.h_client,
                memory.h_memory,
            ),
        },
        run: Run::RmReloadCopy { block_id, size, cpu_addr, memory },
    }
}

/// The first step of a reload into memory of the resource manager.
pub open spec fn rm_reloading(gpu: GpuView, rm: RmView, dec: PolarisDecision) -> Step {
    let size = move_size(gpu, dec);
    if size == 0 || dec.cpu_addr == 0 {
        Step::failed(EINVAL)
    } else {
        match rm.asking(dec.block_id, size) {
            MemoryStep::Have(memory) => rm_reload_copying(
                rm,
                dec.block_id,
                size,
                dec.cpu_addr,
                memory,
            ),
            MemoryStep::Ask(params) => Step::Ask {
                call: DeviceCall::RmAlloc { params },
                run: Run::RmReloadMemory { block_id: dec.block_id, size, cpu_addr: dec.cpu_addr },
            },
            MemoryStep::Refused(_) => Step::failed(ENOMEM),
        }
    }
}

/// Copy a host copy to memory of the resource manager.
fn ask_rm_reload_copy(
    backend: &RmBackend,
    block_id: u64,
    size: u64,
    cpu_addr: u64,
    memory: RmAllocation,
) -> (r: Step)
    ensures
        r == rm_reload_copying(backend@, block_id, size, cpu_addr, memory),
{
    Step::Ask {
        call: DeviceCall::RmCopy {
            arg: make_copy(
                block_id,
                size,
                cpu_addr,
                POLARIS_RM_COPY_FROM_CPU,
                backend.rm_control_fd(),
                backend.h_client,
                memory.h_memory,
            ),
        },
        run: Run::RmReloadCopy { block_id, size, cpu_addr, memory },
    }
}

/// Get memory of the resource manager for a block, fill it from the host copy,
/// and give that back.
pub fn execute_rm_reload(dec: &PolarisDecision, gpu: &GpuState, backend: &RmBackend) -> (r: Step)
    requires
        snap_fits(dec.size_bytes, gpu@.granule),
    ensures
        r == rm_reloading(gpu@, backend@, *dec),
{
    let size = size_to_move(gpu, dec);
    if size == 0 || dec.cpu_addr == 0 {
        return Step::fail(EINVAL);
    }
    match backend.alloc_for_block(dec.block_id, size) {
        MemoryStep::Have(memory) => ask_rm_reload_copy(
            backend,
            dec.block_id,
            size,
            dec.cpu_addr,
            memory,
        ),
        MemoryStep::Ask(params) => Step::Ask {
            call: DeviceCall::RmAlloc { params },
            run: Run::RmReloadMemory { block_id: dec.block_id, size, cpu_addr: dec.cpu_addr },
        },
        MemoryStep::Refused(_) => Step::fail(ENOMEM),
    }
}

/// How a reload goes on after memory was asked for.
pub open spec fn rm_reload_memory(
    rm: RmView,
    block_id: u64,
    size: u64,
    cpu_addr: u64,
    reply: Reply,
) -> (Step, RmView) {
    match replied(RmPurpose::MakeMemory, reply.rm) {
        Err(_) => (Step::failed(ENOMEM), rm),
        Ok(_) => {
            let memory = allocation_of(reply.rm);
            (
                rm_reload_copying(rm, block_id, size, cpu_addr, memory),
                rm.with(block_id, memory),
            )
        },
    }
}

/// Go on with a reload after memory was asked for.
pub fn resume_rm_reload_memory(
    backend: &mut RmBackend,
    block_id: u64,
    size: u64,
    cpu_addr: u64,
    reply: &Reply,
) -> (r: Step)
    ensures
        (r, final(backend)@) == rm_reload_memory(
            old(backend)@,
            block_id,
            size,
            cpu_addr,
            *reply,
        ),
{
    match backend.note_allocation(block_id, &reply.rm) {
        Ok(memory) => ask_rm_reload_copy(backend, block_id, size, cpu_addr, memory),
        Err(_) => Step::fail(ENOMEM),
    }
}

/// Memory of the resource manager that was of no use goes back. The failure
/// stands, whatever becomes of it.
pub open spec fn rm_undoing(rm: RmView, block_id: u64, errno: i32) -> (Step, RmView) {
    match rm.freeing_block(block_id) {
        Some(params) => (
            Step::Ask {
                call: DeviceCall::RmFree { free: params },
                run: Run::RmUndo { block_id, errno },
            },
            rm,
        ),
        None => (Step::failed(errno), rm.without(block_id)),
    }
}

/// The failure stands once the memory went back.
pub open spec fn rm_undone(rm: RmView, block_id: u64, errno: i32, reply: Reply) -> (Step, RmView) {
    (
        Step::failed(errno),
        match replied(RmPurpose::FreeMemory, reply.rm) {
            Ok(_) => rm.without(block_id),
            Err(_) => rm,
        },
    )
}

/// Give memory of the resource manager back that was of no use.
pub fn undo_memory(backend: &mut RmBackend, block_id: u64, errno: i32) -> (r: Step)
    requires
        errno > i32::MIN,
    ensures
        (r, final(backend)@) == rm_undoing(old(backend)@, block_id, errno),
{
    match backend.free_block(block_id) {
        Some(params) => Step::Ask {
            call: DeviceCall::RmFree { free: params },
            run: Run::RmUndo { block_id, errno },
        },
        None => Step::fail(errno),
    }
}

/// Go on after memory of no use went back.
pub fn resume_undo(backend: &mut RmBackend, block_id: u64, errno: i32, reply: &Reply) -> (r: Step)
    requires
        errno > i32::MIN,
    ensures
        (r, final(backend)@) == rm_undone(old(backend)@, block_id, errno, *reply),
{
    let _ = backend.note_free(block_id, &reply.rm);
    Step::fail(errno)
}

/// The result of a decision that left a block with memory of the resource
/// manager.
pub open spec fn memory_result(rm: RmView, memory: RmAllocation) -> ExecutionResult {
    ExecutionResult {
        result: 0,
        output_handle: 0,
        output_cpu_addr: 0,
        rm_control_fd: rm.control_fd,
        rm_h_client: rm.h_client,
        rm_h_memory: memory.h_memory,
        rm_backing_length: memory.size,
    }
}

/// The result of a decision that left a block with memory of the resource
/// manager.
pub fn result_with_memory(backend: &RmBackend, memory: RmAllocation) -> (r: ExecutionResult)
    ensures
        r == memory_result(backend@, memory),
{
    ExecutionResult {
        result: 0,
        output_handle: 0,
        output_cpu_addr: 0,
        rm_control_fd: backend.rm_control_fd(),
        rm_h_client: backend.h_client,
        rm_h_memory: memory.h_memory,
        rm_backing_length: memory.size,
    }
}

/// How a reload into memory of the resource manager goes on after the copy.
pub open spec fn rm_reload_copied(
    gpu: GpuView,
    cpu: CpuView,
    rm: RmView,
    block_id: u64,
    size: u64,
    cpu_addr: u64,
    memory: RmAllocation,
    reply: Reply,
) -> (Step, GpuView, CpuView, RmView) {
    match copy_error(reply, size) {
        Some(errno) => {
            let (step, r) = rm_undoing(rm, block_id, errno);
            (step, gpu, cpu, r)
        },
        None => {
            let g = match gpu.va_of(block_id) {
                Some(va) => gpu.with_va(block_id, va.vaddr, va.size, false),
                None => gpu,
            };
            (
                Step::Finish { after: After::Nothing, result: memory_result(rm, memory) },
                GpuView { used_bytes: (g.used_bytes + size) as u64, ..g },
                cpu.without_buffer(block_id).freed(cpu_addr, size),
                rm,
            )
        },
    }
}

/// Go on with a reload into memory of the resource manager after the copy.
pub fn resume_rm_reload_copy(
    gpu: &mut GpuState,
    cpu_pool: &mut CpuPool,
    backend: &mut RmBackend,
    block_id: u64,
    size: u64,
    cpu_addr: u64,
    memory: RmAllocation,
    reply: &Reply,
) -> (r: Step)
    requires
        old(gpu)@.wf(),
        old(cpu_pool)@.wf(),
        old(gpu)@.used_bytes + size <= u64::MAX,
        can_give(old(cpu_pool)@.free, cpu_addr, size),
        reply.errno >= 0,
    ensures
        (r, final(gpu)@, final(cpu_pool)@, final(backend)@) == rm_reload_copied(
            old(gpu)@,
            old(cpu_pool)@,
            old(backend)@,
            block_id,
            size,
            cpu_addr,
            memory,
            *reply,
        ),
        final(gpu)@.wf(),
        final(cpu_pool)@.wf(),
{
    if let Some(errno) = error_of_copy(reply, size) {
        return undo_memory(backend, block_id, errno);
    }
    cpu_pool.untrack(block_id);
    cpu_pool.free(cpu_addr, size);
    if let Some(va) = gpu.get_va_alloc(block_id) {
        gpu.track_va(block_id, va.vaddr, va.size, false);
    }
    gpu.used_bytes = gpu.used_bytes + size;
    Step::Finish { after: After::Nothing, result: result_with_memory(backend, memory) }
}

} // verus!
