//! What the runtime inside a process does with decisions, and with memory that the
//! process asks for itself.

use crate::abi::PolarisDecision;
use crate::cpu_pool::{CpuView, PAGE};
use crate::executor::{After, Bring, DeviceCall, Fill, Reply};
use crate::executor_laws::{
    books_kept, fails_with, in_whole_units, makes_memory, makes_memory_for, others_kept, put_back,
    sizes_in_order, taken_out, worked,
};
use crate::gpu::{GpuView, VaAlloc};
use crate::kv::{
    allocating_kv, freeing_all, kv_block_size, kv_going_on, lemma_next_with, lemma_next_without,
    mapping_all, next_with, next_without, or_error, taking_down, unmapping_all, without_zeros,
    KvError, KvRun, KvStep, KvView, RuntimeConfig, RuntimeView,
};
use crate::num::greatest;
use crate::offload::{Run, Step};
use crate::ranges::{
    can_give, law_snap_up_rounds, lemma_given, lemma_inserted, lemma_taking, lemma_total_bounded,
    ordered, power_of_two, snap_fits, snapped, taking,
};
use crate::runtime::{dispatching_decision, going_on};
use vstd::arithmetic::power2::pow2;
use vstd::prelude::*;

verus! {

// ─── In plain terms ─────────────────────────────────────────────────────────

/// A size in whole pages.
pub open spec fn in_pages(paged: u64, bytes: u64) -> bool {
    in_whole_units(paged, bytes, 4096)
}

/// A page is a power of two.
proof fn lemma_page()
    ensures
        power_of_two(PAGE),
{
    vstd::arithmetic::power2::lemma2_to64();
    assert(pow2(12) == PAGE);
}

/// The size of a block and of its addresses can be rounded up.
pub open spec fn block_sizes_in_order(gpu: GpuView, dec: PolarisDecision) -> bool {
    &&& sizes_in_order(gpu, dec)
    &&& gpu.vas.contains_key(dec.block_id) ==> snap_fits(
        gpu.vas[dec.block_id].size,
        gpu.granule,
    )
}

// ─── Decisions ──────────────────────────────────────────────────────────────

/// New memory comes to the named addresses, or to where the block is known; a private
/// copy is filled from its source. The answer names no buffer.
pub proof fn law_runtime_makes_memory_where_it_is_wanted(
    gpu: GpuView,
    cpu: CpuView,
    dec: PolarisDecision,
    found: Option<u64>,
)
    requires
        sizes_in_order(gpu, dec),
        dec.dst_vaddr != 0 || gpu.vas.contains_key(dec.block_id),
    ensures
        ({
            let (step, g, c) = dispatching_decision(gpu, cpu, dec, found);
            let k = dec.block_id;
            let at = if dec.dst_vaddr != 0 {
                dec.dst_vaddr
            } else {
                gpu.vas[k].vaddr
            };
            let from: u64 = if dec.src_vaddr != 0 {
                dec.src_vaddr
            } else if found is Some && gpu.vas.contains_key(found->0) {
                gpu.vas[found->0].vaddr
            } else {
                0
            };
            let copy: u64 = if dec.cpu_addr != 0 {
                dec.cpu_addr
            } else if cpu.allocations.contains_key(k) {
                cpu.allocations[k]
            } else {
                0
            };
            &&& dec.op == 0 || dec.op == 5 || dec.op == 6 ==> g == gpu && c == cpu
            &&& dec.op == 0 ==> makes_memory_for(step, gpu, dec, at, Fill::Nothing)
            &&& dec.op == 6 && from == 0 ==> fails_with(step, 22)
            &&& dec.op == 6 && from != 0 ==> makes_memory_for(step, gpu, dec, at, Fill::Device(from))
            &&& dec.op == 5 && (copy == 0 || at == 0) ==> fails_with(step, 22)
            &&& dec.op == 5 && copy != 0 && at != 0 ==> makes_memory_for(step, gpu, dec, at, Fill::Host(copy))
        }),
{
    law_snap_up_rounds(dec.size_bytes, gpu.granule);
}

/// New memory of a block that has no addresses yet comes to free addresses of the
/// pool; without any the decision fails for want of memory.
pub proof fn law_runtime_takes_addresses_of_the_pool(
    gpu: GpuView,
    cpu: CpuView,
    dec: PolarisDecision,
    found: Option<u64>,
)
    requires
        dec.op == 0,
        sizes_in_order(gpu, dec),
        ordered(gpu.free),
        dec.dst_vaddr == 0,
        !gpu.vas.contains_key(dec.block_id),
    ensures
        ({
            let (step, g, c) = dispatching_decision(gpu, cpu, dec, found);
            &&& c == cpu && books_kept(gpu, g)
            &&& {
                ||| g == gpu && fails_with(step, 12)
                ||| exists|vaddr: u64, size: u64|
                    in_whole_units(size, dec.size_bytes, gpu.granule) && taken_out(
                        gpu.free,
                        g.free,
                        vaddr,
                        size,
                    ) && #[trigger] makes_memory(
                        step,
                        dec.block_id,
                        vaddr,
                        size,
                        Fill::Nothing,
                        true,
                    )
            }
        }),
{
    law_snap_up_rounds(dec.size_bytes, gpu.granule);
    let size = gpu.in_granules(dec.size_bytes);
    let align = greatest(gpu.granule, 1);
    lemma_taking(gpu.free, size, align);
    let (step, g, c) = dispatching_decision(gpu, cpu, dec, found);
    if let Some(vaddr) = taking(gpu.free, size, align).0 {
        assert(taken_out(gpu.free, g.free, vaddr, size));
        assert(makes_memory(step, dec.block_id, vaddr, size, Fill::Nothing, true));
    }
}

/// A block that goes is copied from where it lies, over all that it takes up, to a free
/// buffer of whole pages.
pub proof fn law_runtime_copies_a_block_before_it_goes(
    gpu: GpuView,
    cpu: CpuView,
    dec: PolarisDecision,
    found: Option<u64>,
)
    requires
        dec.op == 4,
        block_sizes_in_order(gpu, dec),
        cpu.wf(),
        gpu.vas.contains_key(dec.block_id),
        dec.size_bytes > 0,
        dec.src_vaddr != 0 || gpu.vas[dec.block_id].vaddr != 0,
        dec.size_bytes + gpu.granule + PAGE <= u64::MAX,
        gpu.vas[dec.block_id].size + gpu.granule + PAGE <= u64::MAX,
    ensures
        ({
            let (step, g, c) = dispatching_decision(gpu, cpu, dec, found);
            let k = dec.block_id;
            let from = if dec.src_vaddr != 0 {
                dec.src_vaddr
            } else {
                gpu.vas[k].vaddr
            };
            &&& g == gpu && c.allocations == cpu.allocations
            &&& {
                ||| fails_with(step, 12) && c == cpu
                ||| step matches Step::Ask {
                    call: DeviceCall::CopyDeviceToHost { dst, src, size },
                    run,
                } && src == from && size >= dec.size_bytes && size >= gpu.vas[k].size && size
                    % gpu.granule == 0 && run == (Run::Offload {
                    block_id: k,
                    src_vaddr: from,
                    size,
                    cpu_addr: dst,
                    copied: false,
                }) && exists|paged: u64| #[trigger]
                    in_pages(paged, size) && taken_out(cpu.free, c.free, dst, paged) && c.used
                        == cpu.used + paged
            }
        }),
{
    let most = greatest(dec.size_bytes, gpu.vas[dec.block_id].size);
    law_snap_up_rounds(most, gpu.granule);
    let size = snapped(most, gpu.granule);
    lemma_page();
    law_snap_up_rounds(size, PAGE);
    let paged = snapped(size, PAGE);
    lemma_taking(cpu.free, paged, PAGE);
    lemma_total_bounded(taking(cpu.free, paged, PAGE).1, 0, u64::MAX as int);
    let c = dispatching_decision(gpu, cpu, dec, found).2;
    assert(in_pages(paged, size));
    if let Some(dst) = taking(cpu.free, paged, PAGE).0 {
        assert(taken_out(cpu.free, c.free, dst, paged));
    }
}

/// Memory comes up in order: made, mapped with the handle that it was made with, made
/// accessible, filled. When it is up the block is known with it and counts, and a host
/// copy is given up.
pub proof fn law_runtime_brings_memory_up(
    gpu: GpuView,
    cpu: CpuView,
    block_id: u64,
    bring: Bring,
    release: bool,
    reply: Reply,
)
    requires
        reply.errno == 0,
        gpu.used_bytes + bring.size <= u64::MAX,
    ensures
        ({
            let run = Run::Bring { block_id, bring, release, output_cpu_addr: 0 };
            let (step, g, c) = going_on(gpu, cpu, run, reply);
            &&& bring.stage is Create ==> step is Ask && step->call == (DeviceCall::MapMemory {
                vaddr: bring.vaddr,
                handle: reply.handle,
                size: bring.size,
            })
            &&& bring.stage is Mapping ==> step is Ask && step->call == (DeviceCall::SetAccess {
                vaddr: bring.vaddr,
                size: bring.size,
            })
            &&& bring.stage is Access && bring.fill is Device ==> step is Ask && step->call == (
            DeviceCall::CopyDeviceToDevice {
                dst: bring.vaddr,
                src: bring.fill->Device_0,
                size: bring.size,
            })
            &&& bring.stage is Access && bring.fill is Host ==> step is Ask && step->call == (
            DeviceCall::CopyHostToDevice {
                dst: bring.vaddr,
                src: bring.fill->Host_0,
                size: bring.size,
            })
            &&& step is Ask ==> g == gpu && c == cpu
            &&& bring.stage is Copying || (bring.stage is Access && bring.fill is Nothing) ==> {
                &&& worked(step) && step->result.output_handle == bring.phys && step->after is Nothing
                &&& g.handles.contains_key(block_id) && g.handles[block_id] == bring.phys
                &&& g.vas.contains_key(block_id) && g.vas[block_id] == (VaAlloc {
                    vaddr: bring.vaddr,
                    size: bring.size,
                    from_pool: release,
                })
                &&& g.used_bytes == gpu.used_bytes + bring.size
                &&& others_kept(gpu, g, block_id)
                &&& bring.fill is Host ==> !c.allocations.contains_key(block_id)
                &&& !(bring.fill is Host) ==> c == cpu
            }
        }),
{
}

/// The buffer that a block came back from is free again, in whole pages.
pub proof fn law_runtime_gives_the_buffer_back(
    gpu: GpuView,
    cpu: CpuView,
    block_id: u64,
    bring: Bring,
    release: bool,
    reply: Reply,
    src: u64,
)
    requires
        reply.errno == 0,
        bring.stage is Copying,
        bring.fill == Fill::Host(src),
        src != 0,
        bring.size > 0,
        snap_fits(bring.size, PAGE),
        ordered(cpu.free),
        can_give(cpu.free, src, snapped(bring.size, PAGE)),
    ensures
        ({
            let run = Run::Bring { block_id, bring, release, output_cpu_addr: 0 };
            let c = going_on(gpu, cpu, run, reply).2;
            exists|paged: u64| #[trigger]
                in_pages(paged, bring.size) && put_back(cpu.free, c.free, src, paged) && (paged
                    <= cpu.used ==> c.used == cpu.used - paged)
        }),
{
    lemma_page();
    law_snap_up_rounds(bring.size, PAGE);
    let paged = snapped(bring.size, PAGE);
    lemma_inserted(cpu.free, src, paged);
    assert(in_pages(paged, bring.size));
}

/// Where a step fails what was done before is undone, and addresses of the pool go
/// back to it.
pub proof fn law_runtime_undoes_failed_memory(
    gpu: GpuView,
    cpu: CpuView,
    block_id: u64,
    bring: Bring,
    release: bool,
    reply: Reply,
)
    requires
        reply.errno != 0,
        ordered(gpu.free),
        release ==> can_give(gpu.free, bring.vaddr, bring.size),
    ensures
        ({
            let run = Run::Bring { block_id, bring, release, output_cpu_addr: 0 };
            let (step, g, c) = going_on(gpu, cpu, run, reply);
            let unmap = DeviceCall::UnmapMemory { vaddr: bring.vaddr, size: bring.size };
            let back = DeviceCall::ReleasePhysical { handle: bring.phys };
            &&& c == cpu && books_kept(gpu, g)
            &&& release ==> put_back(gpu.free, g.free, bring.vaddr, bring.size)
            &&& !release ==> g.free == gpu.free
            &&& bring.stage is Create ==> fails_with(step, 12)
            &&& bring.stage is Mapping ==> step is Finish && step->after == After::One(back)
                && step->result.result == -22
            &&& bring.stage is Access ==> step is Finish && step->after == After::Two(unmap, back)
                && step->result.result == -22
            &&& bring.stage is Copying ==> step is Finish && step->after == After::Two(unmap, back)
                && step->result.result == -14
        }),
{
    if release {
        lemma_given(gpu.free, bring.vaddr, bring.size);
    }
}

/// Once a block was copied it is unmapped, and once that worked its memory is released
/// and the buffer noted as its copy. A failure leaves the card as it was.
pub proof fn law_runtime_gives_the_memory_of_a_copied_block_up(
    gpu: GpuView,
    cpu: CpuView,
    block_id: u64,
    src_vaddr: u64,
    size: u64,
    cpu_addr: u64,
    reply: Reply,
)
    ensures
        ({
            let begun = Run::Offload { block_id, src_vaddr, size, cpu_addr, copied: false };
            let copied = Run::Offload { block_id, src_vaddr, size, cpu_addr, copied: true };
            let (first, g1, c1) = going_on(gpu, cpu, begun, reply);
            let (step, g, c) = going_on(gpu, cpu, copied, reply);
            &&& reply.errno == 0 ==> {
                &&& first == (Step::Ask {
                    call: DeviceCall::UnmapMemory { vaddr: src_vaddr, size },
                    run: copied,
                })
                &&& g1 == gpu && c1 == cpu
                &&& worked(step) && step->result.output_cpu_addr == cpu_addr
                &&& gpu.handles.contains_key(block_id) ==> step->after == After::One(
                    DeviceCall::ReleasePhysical { handle: gpu.handles[block_id] },
                )
                &&& !gpu.handles.contains_key(block_id) ==> step->after is Nothing
                &&& !g.handles.contains_key(block_id)
                &&& g.vas.contains_key(block_id) && g.vas[block_id].vaddr == src_vaddr
                    && g.vas[block_id].size == size && !g.vas[block_id].from_pool
                &&& size <= gpu.used_bytes ==> g.used_bytes == gpu.used_bytes - size
                &&& others_kept(gpu, g, block_id)
                &&& c.allocations.contains_key(block_id) && c.allocations[block_id] == cpu_addr
                &&& c.free == cpu.free && c.used == cpu.used
            }
            &&& reply.errno != 0 ==> {
                &&& fails_with(first, 14) && fails_with(step, 22)
                &&& g1 == gpu && g == gpu && c1.allocations == cpu.allocations && c.allocations
                    == cpu.allocations
            }
        }),
{
}

/// A buffer of an offload that failed is free again, in whole pages.
pub proof fn law_runtime_gives_an_unused_buffer_back(
    gpu: GpuView,
    cpu: CpuView,
    block_id: u64,
    src_vaddr: u64,
    size: u64,
    cpu_addr: u64,
    copied: bool,
    reply: Reply,
)
    requires
        reply.errno != 0,
        cpu_addr != 0,
        size > 0,
        snap_fits(size, PAGE),
        ordered(cpu.free),
        can_give(cpu.free, cpu_addr, snapped(size, PAGE)),
    ensures
        ({
            let run = Run::Offload { block_id, src_vaddr, size, cpu_addr, copied };
            let c = going_on(gpu, cpu, run, reply).2;
            exists|paged: u64| #[trigger]
                in_pages(paged, size) && put_back(cpu.free, c.free, cpu_addr, paged) && (paged
                    <= cpu.used ==> c.used == cpu.used - paged)
        }),
{
    lemma_page();
    law_snap_up_rounds(size, PAGE);
    let paged = snapped(size, PAGE);
    lemma_inserted(cpu.free, cpu_addr, paged);
    assert(in_pages(paged, size));
}

/// A freed block is unmapped, then its memory is released; it is forgotten, and
/// addresses that came out of the pool go back to it.
pub proof fn law_runtime_frees_a_block(
    gpu: GpuView,
    cpu: CpuView,
    dec: PolarisDecision,
    found: Option<u64>,
)
    requires
        dec.op == 1,
        ordered(gpu.free),
        gpu.can_remove(dec.block_id),
    ensures
        ({
            let (step, g, c) = dispatching_decision(gpu, cpu, dec, found);
            let k = dec.block_id;
            let handle = if dec.src_handle != 0 {
                dec.src_handle
            } else if gpu.handles.contains_key(k) {
                gpu.handles[k]
            } else {
                0
            };
            let release = DeviceCall::ReleasePhysical { handle };
            &&& worked(step) && !g.handles.contains_key(k) && !g.vas.contains_key(k)
                && !c.allocations.contains_key(k)
            &&& others_kept(gpu, g, k)
            &&& gpu.vas.contains_key(k) && (dec.src_vaddr == 0 || dec.src_vaddr
                == gpu.vas[k].vaddr) ==> {
                let va = gpu.vas[k];
                let unmap = DeviceCall::UnmapMemory { vaddr: va.vaddr, size: va.size };
                &&& handle != 0 ==> step->after == After::Two(unmap, release)
                &&& handle == 0 ==> step->after == After::One(unmap)
            }
            &&& gpu.vas.contains_key(k) ==> {
                let va = gpu.vas[k];
                &&& va.from_pool ==> put_back(gpu.free, g.free, va.vaddr, va.size)
                &&& !va.from_pool ==> g.free == gpu.free
                &&& va.size <= gpu.used_bytes ==> g.used_bytes == gpu.used_bytes - va.size
            }
            &&& !gpu.vas.contains_key(k) ==> {
                &&& handle != 0 ==> step->after == After::One(release)
                &&& handle == 0 ==> step->after is Nothing
                &&& g.free == gpu.free && g.used_bytes == gpu.used_bytes
            }
            &&& !cpu.allocations.contains_key(k) ==> c.free == cpu.free && c.used == cpu.used
        }),
{
    let k = dec.block_id;
    if gpu.vas.contains_key(k) && gpu.vas[k].from_pool {
        lemma_given(gpu.free, gpu.vas[k].vaddr, gpu.vas[k].size);
    }
}

/// Memory is mapped at one more address and made accessible there before it is noted;
/// what is mapped is unmapped over all that the block takes up; anything else than
/// the seven kinds of decisions is refused.
pub proof fn law_runtime_maps_and_unmaps(
    gpu: GpuView,
    cpu: CpuView,
    dec: PolarisDecision,
    found: Option<u64>,
    ok: Reply,
    bad: Reply,
)
    requires
        block_sizes_in_order(gpu, dec),
        ok.errno == 0,
        bad.errno != 0,
    ensures
        ({
            let (step, g, c) = dispatching_decision(gpu, cpu, dec, found);
            let k = dec.block_id;
            let at: u64 = if dec.dst_vaddr != 0 {
                dec.dst_vaddr
            } else if gpu.vas.contains_key(k) {
                gpu.vas[k].vaddr
            } else {
                0
            };
            &&& dec.op == 2 || dec.op == 3 || dec.op > 6 ==> g == gpu && c == cpu
            &&& dec.op > 6 ==> fails_with(step, 22)
            &&& dec.op == 2 && (dec.src_handle == 0 || dec.dst_vaddr == 0) ==> fails_with(step, 22)
            &&& dec.op == 2 && dec.src_handle != 0 && dec.dst_vaddr != 0 ==> {
                &&& step matches Step::Ask { call: DeviceCall::MapMemory { vaddr, handle, size }, run }
                    && vaddr == dec.dst_vaddr && handle == dec.src_handle && in_whole_units(
                    size,
                    dec.size_bytes,
                    gpu.granule,
                ) && ({
                    let (second, g2, _) = going_on(gpu, cpu, run, ok);
                    let (third, g3, _) = going_on(gpu, cpu, second->run, ok);
                    let (lost, g4, _) = going_on(gpu, cpu, second->run, bad);
                    &&& second is Ask && second->call == (DeviceCall::SetAccess { vaddr, size })
                    &&& g2 == gpu && g4 == gpu
                    &&& worked(third) && g3.vas.contains_key(k) && g3.vas[k].vaddr == vaddr
                        && g3.vas[k].size == size && !g3.vas[k].from_pool
                    &&& g3.handles == gpu.handles && others_kept(gpu, g3, k)
                    &&& fails_with(going_on(gpu, cpu, run, bad).0, 22)
                    &&& lost is Finish && lost->result.result == -22 && lost->after == After::One(
                        DeviceCall::UnmapMemory { vaddr, size },
                    )
                })
            }
            &&& dec.op == 3 && at == 0 ==> worked(step)
            &&& dec.op == 3 && at != 0 && dec.size_bytes > 0 ==> {
                &&& step matches Step::Ask { call: DeviceCall::UnmapMemory { vaddr, size }, run }
                    && vaddr == at && size >= dec.size_bytes && (gpu.vas.contains_key(k) ==> size
                    >= gpu.vas[k].size) && size % gpu.granule == 0 && worked(
                    going_on(gpu, cpu, run, ok).0,
                ) && fails_with(going_on(gpu, cpu, run, bad).0, 22) && going_on(
                    gpu,
                    cpu,
                    run,
                    ok,
                ).1 == gpu
            }
        }),
{
    law_snap_up_rounds(dec.size_bytes, gpu.granule);
    law_snap_up_rounds(greatest(dec.size_bytes, gpu.va_size_of(dec.block_id)), gpu.granule);
}

// ─── Memory that the process asks for ───────────────────────────────────────

/// KV memory lies at free addresses, holds what was asked for, and is made of blocks of
/// one size; no block has memory yet. Nothing is handed out for nothing.
pub proof fn law_kv_memory_is_as_asked(v: RuntimeView, size: u64, alignment: u64)
    requires
        ordered(v.gpu.free),
        power_of_two(v.gpu.granule),
        power_of_two(kv_block_size(v.gpu.granule, alignment)),
        snap_fits(greatest(greatest(v.gpu.granule, alignment), 1), v.gpu.granule),
        snap_fits(size, kv_block_size(v.gpu.granule, alignment)),
    ensures
        ({
            let (r, w) = allocating_kv(v, size, alignment);
            &&& size == 0 ==> r is Err && r->Err_0 is ZeroSize
            &&& r is Err ==> w == v
            &&& r matches Ok(info) ==> {
                &&& size > 0 && size <= info.size < size + info.block_size
                &&& info.block_size >= v.gpu.granule && info.block_size >= alignment
                &&& info.block_size % v.gpu.granule == 0
                &&& info.block_count * info.block_size == info.size
                &&& taken_out(v.gpu.free, w.gpu.free, info.va, info.size)
                &&& w.gpu.used_bytes == v.gpu.used_bytes && w.gpu.handles == v.gpu.handles && w.cpu
                    == v.cpu
                &&& w.kv.contains_key(info.va)
                &&& ({
                    let a = w.kv[info.va];
                    &&& a.va == info.va && a.size == info.size && a.block_size == info.block_size
                    &&& a.handles.len() == info.block_count
                    &&& forall|i: int| 0 <= i < a.handles.len() ==> #[trigger] a.handles[i] == 0
                })
                &&& forall|at: u64|
                    at != info.va ==> (#[trigger] w.kv.contains_key(at) <==> v.kv.contains_key(at))
                        && w.kv[at] == v.kv[at]
            }
        }),
{
    let block_size = kv_block_size(v.gpu.granule, alignment);
    let wanted = greatest(greatest(v.gpu.granule, alignment), 1);
    law_snap_up_rounds(wanted, v.gpu.granule);
    law_snap_up_rounds(size, block_size);
    let padded = snapped(size, block_size);
    lemma_taking(v.gpu.free, padded, greatest(greatest(alignment, v.gpu.granule), 1));
    vstd::arithmetic::div_mod::lemma_fundamental_div_mod(padded as int, block_size as int);
    assert((padded / block_size) * block_size == padded) by (nonlinear_arith)
        requires
            padded as int == block_size as int * (padded as int / block_size as int) + padded as int
                % block_size as int,
            padded as int % block_size as int == 0,
            block_size > 0,
    ;
}

/// Memory is brought up for the first block that has none, where that block lies, over
/// its whole size; when every block has some it is done.
pub proof fn law_kv_blocks_get_memory_in_turn(v: RuntimeView, va: u64)
    requires
        v.kv.contains_key(va),
        v.kv[va].wf(),
        v.kv[va].handles.len() <= usize::MAX,
    ensures
        ({
            let a = v.kv[va];
            let step = mapping_all(v, va, true);
            &&& (forall|i: int| 0 <= i < a.handles.len() ==> #[trigger] a.handles[i] != 0)
                ==> (step matches KvStep::Finish { result, .. } && result is Ok)
            &&& forall|i: int|
                0 <= i < a.handles.len() && #[trigger] a.handles[i] == 0 && (forall|j: int|
                    0 <= j < i ==> #[trigger] a.handles[j] != 0) ==> {
                    &&& step matches KvStep::Ask {
                        call: DeviceCall::CreatePhysical { size },
                        run: KvRun::Up { va: of, block, bring },
                    } && size == a.block_size && of == a.va && block == i && bring.stage is Create
                        && bring.vaddr == a.va + i * a.block_size && bring.size == a.block_size
                        && bring.fill is Nothing
                }
            &&& mapping_all(v, va, false) matches KvStep::Finish { result, .. } && result
                == Err::<(), KvError>(KvError::Context)
        }),
{
    let a = v.kv[va];
    lemma_next_without(a.handles, 0);
    let n = next_without(a.handles, 0);
    if n < a.handles.len() {
        assert(a.handles[n] == 0);
        assert(n * a.block_size <= a.block_size * a.handles.len()) by (nonlinear_arith)
            requires
                0 <= n < a.handles.len(),
                a.block_size >= 0,
        ;
    }
    assert forall|i: int|
        0 <= i < a.handles.len() && #[trigger] a.handles[i] == 0 && (forall|j: int|
            0 <= j < i ==> #[trigger] a.handles[j] != 0) implies i == n by {
        if n < i {
            assert(a.handles[n] != 0);
        }
    }
}

/// A block whose memory is up is noted with it and counts; the other blocks stay as
/// they are. A block whose memory does not come up is named in the error, and stays
/// without.
pub proof fn law_kv_block_with_memory_is_noted(
    v: RuntimeView,
    va: u64,
    block: usize,
    bring: Bring,
    reply: Reply,
)
    requires
        v.kv.contains_key(va),
        block < v.kv[va].handles.len(),
        v.gpu.used_bytes + v.kv[va].block_size <= u64::MAX,
        bring.fill is Nothing,
    ensures
        ({
            let (step, w) = kv_going_on(v, KvRun::Up { va, block, bring }, reply);
            let a = v.kv[va];
            &&& reply.errno == 0 && bring.stage is Create ==> w == v && (step matches KvStep::Ask {
                call,
                ..
            } && call == (DeviceCall::MapMemory {
                vaddr: bring.vaddr,
                handle: reply.handle,
                size: bring.size,
            }))
            &&& reply.errno == 0 && bring.stage is Mapping ==> w == v && (step matches KvStep::Ask {
                call,
                ..
            } && call == (DeviceCall::SetAccess { vaddr: bring.vaddr, size: bring.size }))
            &&& reply.errno == 0 && bring.stage is Access ==> {
                &&& w.kv.contains_key(va) && w.kv[va].handles.len() == a.handles.len()
                &&& w.kv[va].handles[block as int] == bring.phys
                &&& forall|i: int|
                    0 <= i < a.handles.len() && i != block ==> #[trigger] w.kv[va].handles[i]
                        == a.handles[i]
                &&& w.gpu.used_bytes == v.gpu.used_bytes + a.block_size
                &&& w.gpu.free == v.gpu.free && w.cpu == v.cpu
            }
            &&& reply.errno != 0 ==> w == v && step is Finish
            &&& reply.errno != 0 && bring.stage is Create ==> step->after is Nothing
                && step->result == Err::<(), KvError>(
                KvError::Create { block, vaddr: bring.vaddr },
            )
            &&& reply.errno != 0 && bring.stage is Mapping ==> step->after == After::One(
                DeviceCall::ReleasePhysical { handle: bring.phys },
            ) && step->result == Err::<(), KvError>(KvError::MapBlock { block, vaddr: bring.vaddr })
            &&& reply.errno != 0 && bring.stage is Access ==> step->after == After::Two(
                DeviceCall::UnmapMemory { vaddr: bring.vaddr, size: bring.size },
                DeviceCall::ReleasePhysical { handle: bring.phys },
            ) && step->result == Err::<(), KvError>(KvError::MapBlock { block, vaddr: bring.vaddr })
        }),
{
}

/// Giving memory back starts with the first block that has some: it is unmapped where
/// it lies, over its whole size. KV memory without any is done with at once.
pub proof fn law_kv_blocks_give_memory_back_in_turn(v: RuntimeView, va: u64)
    requires
        v.kv.contains_key(va),
        v.kv[va].va == va,
        v.kv[va].wf(),
        v.kv[va].handles.len() <= usize::MAX,
        ordered(v.gpu.free),
        can_give(v.gpu.free, va, v.kv[va].size),
    ensures
        ({
            let a = v.kv[va];
            let (keeps, w) = unmapping_all(v, va, true);
            let (frees, x) = freeing_all(v, va, true);
            &&& w == v
            &&& forall|i: int|
                0 <= i < a.handles.len() && #[trigger] a.handles[i] != 0 && (forall|j: int|
                    0 <= j < i ==> #[trigger] a.handles[j] == 0) ==> {
                    &&& x == v
                    &&& keeps matches KvStep::Ask {
                        call: DeviceCall::UnmapMemory { vaddr, size },
                        run: KvRun::Down { va: of, block, unmapped, free, .. },
                    } && vaddr == va + i * a.block_size && size == a.block_size && of == va && block
                        == i && !unmapped && !free
                    &&& frees matches KvStep::Ask {
                        call: DeviceCall::UnmapMemory { vaddr, size },
                        run: KvRun::Down { va: of, block, unmapped, free, .. },
                    } && vaddr == va + i * a.block_size && size == a.block_size && of == va && block
                        == i && !unmapped && free
                }
            &&& (forall|i: int| 0 <= i < a.handles.len() ==> #[trigger] a.handles[i] == 0) ==> {
                &&& keeps matches KvStep::Finish { result, .. } && result is Ok
                &&& frees matches KvStep::Finish { result, .. } && result is Ok
                &&& !x.kv.contains_key(va) && put_back(v.gpu.free, x.gpu.free, va, a.size)
                &&& forall|at: u64|
                    at != va ==> (#[trigger] x.kv.contains_key(at) <==> v.kv.contains_key(at))
            }
        }),
{
    let a = v.kv[va];
    lemma_next_with(a.handles, 0);
    let n = next_with(a.handles, 0);
    lemma_given(v.gpu.free, va, a.size);
    if n < a.handles.len() {
        assert(a.handles[n] != 0);
        assert(n * a.block_size <= a.block_size * a.handles.len()) by (nonlinear_arith)
            requires
                0 <= n < a.handles.len(),
                a.block_size >= 0,
        ;
    }
    assert forall|i: int|
        0 <= i < a.handles.len() && #[trigger] a.handles[i] != 0 && (forall|j: int|
            0 <= j < i ==> #[trigger] a.handles[j] == 0) implies i == n by {
        if n < i {
            assert(a.handles[n] == 0);
        }
    }
}

/// An unmapped block's memory is released, with the handle that it is known with, even
/// if unmapping failed; then the block has none and counts no more. The first failure
/// is the one that is reported.
pub proof fn law_kv_block_gives_its_memory_back(
    v: RuntimeView,
    va: u64,
    block: usize,
    first_error: Option<KvError>,
    reply: Reply,
)
    requires
        v.kv.contains_key(va),
        v.kv[va].va == va,
        v.kv[va].wf(),
        block < v.kv[va].handles.len(),
        v.kv[va].handles.len() <= usize::MAX,
    ensures
        ({
            let a = v.kv[va];
            let at = (va + block * a.block_size) as u64;
            let (first, u) = kv_going_on(
                v,
                KvRun::Down { va, block, unmapped: false, first_error, free: false },
                reply,
            );
            let (_, w) = kv_going_on(
                v,
                KvRun::Down { va, block, unmapped: true, first_error, free: false },
                reply,
            );
            &&& u == v
            &&& first matches KvStep::Ask {
                call: DeviceCall::ReleasePhysical { handle },
                run: KvRun::Down { va: of, block: same, unmapped, first_error: e, free },
            } && handle == a.handles[block as int] && of == va && same == block && unmapped && !free
                && (first_error is Some ==> e == first_error) && (first_error is None && reply.errno
                == 0 ==> e is None) && (first_error is None && reply.errno != 0 ==> e == Some(
                KvError::UnmapBlock { block, vaddr: at },
            ))
            &&& w.kv.contains_key(va) && w.kv[va].handles[block as int] == 0
            &&& forall|i: int|
                0 <= i < a.handles.len() && i != block ==> #[trigger] w.kv[va].handles[i]
                    == a.handles[i]
            &&& a.block_size <= v.gpu.used_bytes ==> w.gpu.used_bytes == v.gpu.used_bytes
                - a.block_size
            &&& w.gpu.free == v.gpu.free
        }),
{
}

/// What fails first is what is reported.
pub proof fn law_first_failure_is_reported(first: Option<KvError>, reply: Reply, e: KvError)
    ensures
        first is Some ==> or_error(first, reply, e) == first,
        first is None && reply.errno == 0 ==> or_error(first, reply, e) is None,
        first is None && reply.errno != 0 ==> or_error(first, reply, e) == Some(e),
{
}

/// KV memory that nobody knows cannot be worked on.
pub proof fn law_unknown_kv_memory_is_refused(v: RuntimeView, va: u64, current: bool)
    requires
        !v.kv.contains_key(va),
    ensures
        mapping_all(v, va, current) matches KvStep::Finish { result, .. } && result == Err::<
            (),
            KvError,
        >(KvError::Unknown { va }),
        unmapping_all(v, va, current).0 == mapping_all(v, va, current),
        freeing_all(v, va, current).0 == mapping_all(v, va, current),
        unmapping_all(v, va, current).1 == v,
        freeing_all(v, va, current).1 == v,
{
}

/// Taking KV memory down unmaps every block that has memory, where it lies, and
/// releases that memory directly after.
pub proof fn law_every_kv_block_is_taken_down(a: KvView, n: int, i: int)
    requires
        0 <= i < n <= a.handles.len(),
        a.handles[i] != 0,
    ensures
        exists|j: int|
            0 <= j < taking_down(a, n).len() - 1 && #[trigger] taking_down(a, n)[j] == (
            DeviceCall::UnmapMemory {
                vaddr: (a.va + i * a.block_size) as u64,
                size: a.block_size,
            }) && taking_down(a, n)[j + 1] == (DeviceCall::ReleasePhysical {
                handle: a.handles[i],
            }),
    decreases n,
{
    let all = taking_down(a, n);
    let fewer = taking_down(a, n - 1);
    let unmap = DeviceCall::UnmapMemory {
        vaddr: (a.va + i * a.block_size) as u64,
        size: a.block_size,
    };
    if i == n - 1 {
        let j = fewer.len() as int;
        assert(all[j] == unmap);
    } else {
        law_every_kv_block_is_taken_down(a, n - 1, i);
        let j = choose|j: int|
            0 <= j < fewer.len() - 1 && #[trigger] fewer[j] == unmap && fewer[j + 1] == (
            DeviceCall::ReleasePhysical { handle: a.handles[i] });
        assert(all[j] == fewer[j]);
        assert(all[j + 1] == fewer[j + 1]);
    }
}

/// Reserved addresses hold what the settings ask for and at least a granule, in whole
/// granules; pinned memory holds what they ask for, in whole pages.
pub proof fn law_runtime_reserves_enough(config: RuntimeConfig, granule: u64)
    requires
        config.fits(granule),
        power_of_two(granule),
    ensures
        config.va_bytes(granule) >= config.va_reserve_bytes,
        config.va_bytes(granule) >= granule,
        config.va_bytes(granule) % granule == 0,
        config.va_reserve_bytes >= granule ==> config.va_bytes(granule) < config.va_reserve_bytes
            + granule,
        config.pool_bytes() >= config.cpu_pool_bytes,
        config.pool_bytes() < config.cpu_pool_bytes + 4096,
        config.pool_bytes() % 4096 == 0,
{
    lemma_page();
    law_snap_up_rounds(greatest(config.va_reserve_bytes, granule), granule);
    law_snap_up_rounds(config.cpu_pool_bytes, PAGE);
}

/// Text for C has no zero in it, keeps its length, and is otherwise the same.
pub proof fn law_text_for_c_has_no_zeros(s: Seq<u8>)
    ensures
        without_zeros(s).len() == s.len(),
        forall|i: int| 0 <= i < s.len() ==> #[trigger] without_zeros(s)[i] != 0,
        forall|i: int|
            0 <= i < s.len() && s[i] != 0 ==> #[trigger] without_zeros(s)[i] == s[i],
        without_zeros(without_zeros(s)) == without_zeros(s),
{
    assert(without_zeros(without_zeros(s)) =~= without_zeros(s));
}

} // verus!
