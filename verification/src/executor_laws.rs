//! What carrying a decision out does: which calls the driver gets, in which order,
//! and what the executor's books say when they are made.

use crate::abi::PolarisDecision;
use crate::cpu_pool::CpuView;
use crate::dispatch::{dispatching, injected_error, resuming};
use crate::executor::{After, Bring, DeviceCall, Fill, Reply};
use crate::gpu::{GpuView, VaAlloc};
use crate::offload::{Run, Step};
use crate::ranges::{
    can_give, covers, law_snap_up_rounds, lemma_given, lemma_removing, lemma_taking, ordered,
    power_of_two, snap_fits,
};
use crate::rm::RmView;
use vstd::prelude::*;

verus! {

// ─── In plain terms ─────────────────────────────────────────────────────────

/// The least number of bytes in whole units that holds `bytes`.
pub open spec fn in_whole_units(size: u64, bytes: u64, unit: u64) -> bool {
    unit > 0 && bytes <= size < bytes + unit && size % unit == 0
}

/// The granule is a power of two, and the size of the decision can be rounded up.
pub open spec fn sizes_in_order(gpu: GpuView, dec: PolarisDecision) -> bool {
    power_of_two(gpu.granule) && snap_fits(dec.size_bytes, gpu.granule)
}

/// The larger of two numbers.
pub open spec fn at_least_both(size: u64, a: u64, b: u64) -> bool {
    size >= a && size >= b && (size == a || size == b)
}

/// The free ranges hold the same addresses as before, less `size` from `start`.
pub open spec fn taken_out(
    before: Seq<(u64, u64)>,
    after: Seq<(u64, u64)>,
    start: u64,
    size: u64,
) -> bool {
    &&& forall|a: int| start <= a < start + size ==> #[trigger] covers(before, a)
    &&& forall|a: int| #[trigger]
        covers(after, a) <==> covers(before, a) && !(start <= a < start + size)
}

/// The free ranges hold the same addresses as before, and `size` from `start`.
pub open spec fn put_back(
    before: Seq<(u64, u64)>,
    after: Seq<(u64, u64)>,
    start: u64,
    size: u64,
) -> bool {
    forall|a: int| #[trigger]
        covers(after, a) <==> covers(before, a) || start <= a < start + size
}

/// What the executor knows of every other block is the same.
pub open spec fn others_kept(before: GpuView, after: GpuView, block_id: u64) -> bool {
    &&& forall|k: u64|
        k != block_id ==> (#[trigger] after.handles.contains_key(k) <==> before.handles.contains_key(
            k,
        ))
    &&& forall|k: u64|
        k != block_id && before.handles.contains_key(k) ==> #[trigger] after.handles[k]
            == before.handles[k]
    &&& forall|k: u64|
        k != block_id ==> (#[trigger] after.vas.contains_key(k) <==> before.vas.contains_key(k))
    &&& forall|k: u64|
        k != block_id && before.vas.contains_key(k) ==> #[trigger] after.vas[k] == before.vas[k]
}

/// Nothing that the executor knows of the blocks changed.
pub open spec fn books_kept(before: GpuView, after: GpuView) -> bool {
    after.handles == before.handles && after.vas == before.vas && after.used_bytes
        == before.used_bytes
}

/// The decision is done and failed with an error number; nothing is left to do.
pub open spec fn fails_with(step: Step, errno: int) -> bool {
    step matches Step::Finish { after, result } && after is Nothing && result.result == -errno
        && result.output_handle == 0
}

/// The decision is done and worked.
pub open spec fn worked(step: Step) -> bool {
    step matches Step::Finish { result, .. } && result.result == 0
}

/// Memory of `size` bytes is asked for, to be brought up at `vaddr`.
pub open spec fn makes_memory(
    step: Step,
    block_id: u64,
    vaddr: u64,
    size: u64,
    fill: Fill,
    release: bool,
) -> bool {
    step matches Step::Ask { call: DeviceCall::CreatePhysical { size: asked }, run: Run::Bring {
        block_id: of,
        bring,
        release: goes_back,
        ..
    } } && asked == size && of == block_id && bring.stage is Create && bring.vaddr == vaddr
        && bring.size == size && bring.fill == fill && goes_back == release
}

/// Memory that holds the size of the decision in whole granules is asked for, to be
/// brought up at `vaddr`.
pub open spec fn makes_memory_for(
    step: Step,
    gpu: GpuView,
    dec: PolarisDecision,
    vaddr: u64,
    fill: Fill,
) -> bool {
    step matches Step::Ask { call: DeviceCall::CreatePhysical { size }, .. } && in_whole_units(
        size,
        dec.size_bytes,
        gpu.granule,
    ) && makes_memory(step, dec.block_id, vaddr, size, fill, false)
}

// ─── New memory ─────────────────────────────────────────────────────────────

/// A new block gets memory of its size in whole granules. It comes to the addresses
/// that the decision names, else to those that the block is known at, else to free
/// addresses of the pool; without any the decision fails for want of memory. The
/// books change only when the memory is there.
pub proof fn law_new_block_gets_memory(
    gpu: GpuView,
    cpu: CpuView,
    dec: PolarisDecision,
    found: Option<u64>,
)
    requires
        dec.op == 0,
        sizes_in_order(gpu, dec),
        ordered(gpu.free),
    ensures
        ({
            let (step, g, c, r) = dispatching(gpu, cpu, None, dec, found);
            let k = dec.block_id;
            &&& c == cpu && r is None && books_kept(gpu, g)
            &&& dec.dst_vaddr != 0 ==> g == gpu && exists|size: u64|
                in_whole_units(size, dec.size_bytes, gpu.granule) && #[trigger] makes_memory(
                    step,
                    k,
                    dec.dst_vaddr,
                    size,
                    Fill::Nothing,
                    false,
                )
            &&& dec.dst_vaddr == 0 && gpu.vas.contains_key(k) ==> g == gpu && exists|size: u64|
                in_whole_units(size, dec.size_bytes, gpu.granule) && #[trigger] makes_memory(
                    step,
                    k,
                    gpu.vas[k].vaddr,
                    size,
                    Fill::Nothing,
                    false,
                )
            &&& dec.dst_vaddr == 0 && !gpu.vas.contains_key(k) ==> {
                ||| g == gpu && fails_with(step, 12)
                ||| exists|vaddr: u64, size: u64|
                    in_whole_units(size, dec.size_bytes, gpu.granule) && taken_out(
                        gpu.free,
                        g.free,
                        vaddr,
                        size,
                    ) && #[trigger] makes_memory(step, k, vaddr, size, Fill::Nothing, true)
            }
        }),
{
    let size = gpu.in_granules(dec.size_bytes);
    let k = dec.block_id;
    law_snap_up_rounds(dec.size_bytes, gpu.granule);
    let (step, g, c, r) = dispatching(gpu, cpu, None, dec, found);
    let align = crate::num::greatest(gpu.granule, 1);
    lemma_taking(gpu.free, size, align);
    if dec.dst_vaddr != 0 {
        assert(makes_memory(step, k, dec.dst_vaddr, size, Fill::Nothing, false));
    } else if gpu.vas.contains_key(k) {
        assert(makes_memory(step, k, gpu.vas[k].vaddr, size, Fill::Nothing, false));
    } else if let Some(vaddr) = crate::ranges::taking(gpu.free, size, align).0 {
        assert(taken_out(gpu.free, g.free, vaddr, size));
        assert(makes_memory(step, k, vaddr, size, Fill::Nothing, true));
    }
}

/// A private copy is made at addresses of its own, in memory of its own, from the
/// address that the decision names, or else from where a block with its handle is
/// known; where there is none the decision is refused.
pub proof fn law_private_copy_is_made_from_its_source(
    gpu: GpuView,
    cpu: CpuView,
    dec: PolarisDecision,
    found: Option<u64>,
)
    requires
        dec.op == 6,
        sizes_in_order(gpu, dec),
        ordered(gpu.free),
    ensures
        ({
            let (step, g, c, r) = dispatching(gpu, cpu, None, dec, found);
            let k = dec.block_id;
            &&& c == cpu && r is None && books_kept(gpu, g)
            &&& dec.src_vaddr != 0 && dec.dst_vaddr != 0 ==> exists|size: u64|
                in_whole_units(size, dec.size_bytes, gpu.granule) && #[trigger] makes_memory(
                    step,
                    k,
                    dec.dst_vaddr,
                    size,
                    Fill::Device(dec.src_vaddr),
                    false,
                )
            &&& dec.src_vaddr == 0 && dec.dst_vaddr != 0 && found is Some && gpu.vas.contains_key(
                found->0,
            ) ==> exists|size: u64|
                in_whole_units(size, dec.size_bytes, gpu.granule) && #[trigger] makes_memory(
                    step,
                    k,
                    dec.dst_vaddr,
                    size,
                    Fill::Device(gpu.vas[found->0].vaddr),
                    false,
                )
            &&& dec.src_vaddr == 0 && (found is None || !gpu.vas.contains_key(found->0))
                ==> fails_with(step, 22) && g == gpu
        }),
{
    let size = gpu.in_granules(dec.size_bytes);
    law_snap_up_rounds(dec.size_bytes, gpu.granule);
    lemma_taking(gpu.free, size, crate::num::greatest(gpu.granule, 1));
    let (step, g, c, r) = dispatching(gpu, cpu, None, dec, found);
    if dec.src_vaddr != 0 && dec.dst_vaddr != 0 {
        assert(makes_memory(
            step,
            dec.block_id,
            dec.dst_vaddr,
            size,
            Fill::Device(dec.src_vaddr),
            false,
        ));
    } else if found is Some && gpu.vas.contains_key(found->0) && dec.dst_vaddr != 0 {
        assert(makes_memory(
            step,
            dec.block_id,
            dec.dst_vaddr,
            size,
            Fill::Device(gpu.vas[found->0].vaddr),
            false,
        ));
    }
}

/// A private copy that comes to other addresses than the block had gives those back
/// to the pool; where it comes to the same addresses the pool stays as it is.
pub proof fn law_private_copy_gives_old_addresses_back(
    gpu: GpuView,
    cpu: CpuView,
    dec: PolarisDecision,
    found: Option<u64>,
)
    requires
        dec.op == 6,
        ordered(gpu.free),
        dec.src_vaddr != 0,
        dec.dst_vaddr != 0,
        gpu.vas.contains_key(dec.block_id),
        can_give(gpu.free, gpu.vas[dec.block_id].vaddr, gpu.vas[dec.block_id].size),
    ensures
        ({
            let g = dispatching(gpu, cpu, None, dec, found).1;
            let va = gpu.vas[dec.block_id];
            &&& va.vaddr != dec.dst_vaddr ==> put_back(gpu.free, g.free, va.vaddr, va.size)
            &&& va.vaddr == dec.dst_vaddr ==> g.free == gpu.free
        }),
{
    let va = gpu.vas[dec.block_id];
    lemma_given(gpu.free, va.vaddr, va.size);
}

/// Memory is made, then mapped with the handle that it was made with, then made
/// accessible, then filled: each where the block is to lie, over its whole size, and
/// each only when the one before worked.
pub proof fn law_memory_comes_up_in_order(
    gpu: GpuView,
    cpu: CpuView,
    rm: Option<RmView>,
    block_id: u64,
    bring: Bring,
    release: bool,
    named: u64,
    reply: Reply,
)
    requires
        reply.errno == 0,
    ensures
        ({
            let run = Run::Bring { block_id, bring, release, output_cpu_addr: named };
            let (step, g, c, r) = resuming(gpu, cpu, rm, run, reply);
            &&& r == rm
            &&& step is Ask ==> g == gpu && c == cpu && (step->run matches Run::Bring {
                block_id: of,
                bring: next,
                release: goes_back,
                output_cpu_addr,
            } && of == block_id && next.vaddr == bring.vaddr && next.size == bring.size && next.fill
                == bring.fill && goes_back == release && output_cpu_addr == named)
            &&& bring.stage is Create ==> (step matches Step::Ask {
                call: DeviceCall::MapMemory { vaddr, handle, size },
                run: Run::Bring { bring: next, .. },
            } && vaddr == bring.vaddr && size == bring.size && handle == reply.handle && next.phys
                == reply.handle && next.stage is Mapping)
            &&& bring.stage is Mapping ==> (step matches Step::Ask {
                call: DeviceCall::SetAccess { vaddr, size },
                run: Run::Bring { bring: next, .. },
            } && vaddr == bring.vaddr && size == bring.size && next.phys == bring.phys
                && next.stage is Access)
            &&& bring.stage is Access ==> match bring.fill {
                Fill::Nothing => worked(step),
                Fill::Device(from) => step matches Step::Ask {
                    call: DeviceCall::CopyDeviceToDevice { dst, src, size },
                    run: Run::Bring { bring: next, .. },
                } && dst == bring.vaddr && src == from && size == bring.size && next.phys
                    == bring.phys && next.stage is Copying,
                Fill::Host(from) => step matches Step::Ask {
                    call: DeviceCall::CopyHostToDevice { dst, src, size },
                    run: Run::Bring { bring: next, .. },
                } && dst == bring.vaddr && src == from && size == bring.size && next.phys
                    == bring.phys && next.stage is Copying,
            }
            &&& bring.stage is Copying ==> worked(step)
        }),
{
}

/// When the memory is up the block is known with its handle and where it lies, and
/// counts; the answer names the handle. A host copy that it was filled from is given
/// up. No other block is touched.
pub proof fn law_block_with_memory_is_known(
    gpu: GpuView,
    cpu: CpuView,
    rm: Option<RmView>,
    block_id: u64,
    bring: Bring,
    release: bool,
    named: u64,
    reply: Reply,
)
    requires
        reply.errno == 0,
        bring.stage is Copying || (bring.stage is Access && bring.fill is Nothing),
        gpu.used_bytes + bring.size <= u64::MAX,
        ordered(cpu.free),
        bring.fill matches Fill::Host(src) ==> can_give(cpu.free, src, bring.size),
    ensures
        ({
            let run = Run::Bring { block_id, bring, release, output_cpu_addr: named };
            let (step, g, c, r) = resuming(gpu, cpu, rm, run, reply);
            &&& step matches Step::Finish { after, result } && after is Nothing && result.result
                == 0 && result.output_handle == bring.phys && result.output_cpu_addr == named
                && result.rm_h_memory == 0
            &&& g.handles.contains_key(block_id) && g.handles[block_id] == bring.phys
            &&& g.vas.contains_key(block_id) && g.vas[block_id] == (VaAlloc {
                vaddr: bring.vaddr,
                size: bring.size,
                from_pool: release,
            })
            &&& g.used_bytes == gpu.used_bytes + bring.size
            &&& others_kept(gpu, g, block_id)
            &&& release ==> g.free == gpu.free
            &&& !(bring.fill is Host) ==> c == cpu
            &&& bring.fill matches Fill::Host(src) ==> !c.allocations.contains_key(block_id)
                && put_back(cpu.free, c.free, src, bring.size) && (bring.size <= cpu.used ==> c.used
                == cpu.used - bring.size)
        }),
{
    if let Fill::Host(src) = bring.fill {
        lemma_given(cpu.free, src, bring.size);
    }
}

/// Where a step fails the decision fails with what that step stands for, and what
/// was done before is undone: what was made is released, and what was mapped is
/// unmapped first. Addresses of the pool go back to it.
pub proof fn law_failed_memory_is_undone(
    gpu: GpuView,
    cpu: CpuView,
    rm: Option<RmView>,
    block_id: u64,
    bring: Bring,
    release: bool,
    named: u64,
    reply: Reply,
)
    requires
        reply.errno != 0,
        ordered(gpu.free),
        release ==> can_give(gpu.free, bring.vaddr, bring.size),
    ensures
        ({
            let run = Run::Bring { block_id, bring, release, output_cpu_addr: named };
            let (step, g, c, r) = resuming(gpu, cpu, rm, run, reply);
            &&& r == rm && c == cpu && books_kept(gpu, g)
            &&& release ==> put_back(gpu.free, g.free, bring.vaddr, bring.size)
            &&& !release ==> g.free == gpu.free
            &&& step is Finish && step->result.output_handle == 0
            &&& bring.stage is Create ==> step->after is Nothing && step->result.result == -12
            &&& bring.stage is Mapping ==> step->after == After::One(
                DeviceCall::ReleasePhysical { handle: bring.phys },
            ) && step->result.result == -22
            &&& bring.stage is Access || bring.stage is Copying ==> step->after == After::Two(
                DeviceCall::UnmapMemory { vaddr: bring.vaddr, size: bring.size },
                DeviceCall::ReleasePhysical { handle: bring.phys },
            )
            &&& bring.stage is Access ==> step->result.result == -22
            &&& bring.stage is Copying ==> step->result.result == -14
        }),
{
    if release {
        lemma_given(gpu.free, bring.vaddr, bring.size);
    }
}

// ─── To the host and back ───────────────────────────────────────────────────

/// An offload copies the block from where it lies to a free buffer on the host that
/// holds all of it: what the decision names, or where the block is known. The books
/// of the card stay as they are until that is done.
pub proof fn law_block_is_copied_before_it_goes(
    gpu: GpuView,
    cpu: CpuView,
    dec: PolarisDecision,
    found: Option<u64>,
)
    requires
        dec.op == 4,
        sizes_in_order(gpu, dec),
        cpu.wf(),
        gpu.vas.contains_key(dec.block_id),
    ensures
        ({
            let (step, g, c, r) = dispatching(gpu, cpu, None, dec, found);
            let k = dec.block_id;
            let from = if dec.src_vaddr != 0 {
                dec.src_vaddr
            } else {
                gpu.vas[k].vaddr
            };
            &&& g == gpu && r is None && c.allocations == cpu.allocations
            &&& from == 0 || (dec.size_bytes == 0 && gpu.vas[k].size == 0) ==> fails_with(step, 22)
                && c == cpu
            &&& from != 0 && (dec.size_bytes > 0 || gpu.vas[k].size > 0) ==> {
                ||| fails_with(step, 12) && c == cpu
                ||| step matches Step::Ask {
                    call: DeviceCall::CopyDeviceToHost { dst, src, size },
                    run: Run::Offload { block_id, src_vaddr, size: len, cpu_addr, copied },
                } && src == from && size >= dec.size_bytes && size >= gpu.vas[k].size && (size
                    == gpu.vas[k].size || in_whole_units(size, dec.size_bytes, gpu.granule))
                    && block_id == k && src_vaddr == from && len == size && cpu_addr == dst && !copied
                    && taken_out(cpu.free, c.free, dst, size) && c.used == cpu.used + size
            }
        }),
{
    law_snap_up_rounds(dec.size_bytes, gpu.granule);
    let size = crate::offload::move_size(gpu, dec);
    if dec.size_bytes == 0 {
        vstd::arithmetic::div_mod::lemma_small_mod(
            gpu.in_granules(dec.size_bytes) as nat,
            gpu.granule as nat,
        );
    }
    lemma_taking(cpu.free, size, crate::cpu_pool::PAGE);
    crate::ranges::lemma_total_bounded(
        crate::ranges::taking(cpu.free, size, crate::cpu_pool::PAGE).1,
        0,
        u64::MAX as int,
    );
}

/// A block that is not known can be offloaded only from the addresses that are
/// reserved on the card.
pub proof fn law_unknown_block_goes_only_from_reserved_addresses(
    gpu: GpuView,
    cpu: CpuView,
    dec: PolarisDecision,
    found: Option<u64>,
)
    requires
        dec.op == 4,
        sizes_in_order(gpu, dec),
        !gpu.vas.contains_key(dec.block_id),
        dec.src_vaddr == 0 || dec.src_vaddr < gpu.va_base || dec.src_vaddr + dec.size_bytes
            > gpu.va_base + gpu.va_size,
        gpu.va_base + gpu.va_size < u64::MAX,
    ensures
        fails_with(dispatching(gpu, cpu, None, dec, found).0, 22),
        dispatching(gpu, cpu, None, dec, found).1 == gpu,
        dispatching(gpu, cpu, None, dec, found).2 == cpu,
{
    law_snap_up_rounds(dec.size_bytes, gpu.granule);
}

/// Once the block was copied it is unmapped where it lay, and once that worked its
/// memory is released and the buffer is noted as its copy. Its addresses stay its
/// own, out of the pool. The answer names the buffer.
pub proof fn law_copied_block_gives_its_memory_up(
    gpu: GpuView,
    cpu: CpuView,
    rm: Option<RmView>,
    block_id: u64,
    src_vaddr: u64,
    size: u64,
    cpu_addr: u64,
    reply: Reply,
)
    requires
        reply.errno == 0,
        ordered(gpu.free),
    ensures
        ({
            let begun = Run::Offload { block_id, src_vaddr, size, cpu_addr, copied: false };
            let copied = Run::Offload { block_id, src_vaddr, size, cpu_addr, copied: true };
            let (unmaps, g1, c1, r1) = resuming(gpu, cpu, rm, begun, reply);
            let (step, g, c, r) = resuming(gpu, cpu, rm, copied, reply);
            &&& unmaps == (Step::Ask {
                call: DeviceCall::UnmapMemory { vaddr: src_vaddr, size },
                run: copied,
            })
            &&& g1 == gpu && c1 == cpu && r1 == rm && r == rm
            &&& worked(step) && step->result.output_cpu_addr == cpu_addr
                && step->result.output_handle == 0
            &&& gpu.handles.contains_key(block_id) ==> step->after == After::One(
                DeviceCall::ReleasePhysical { handle: gpu.handles[block_id] },
            )
            &&& !gpu.handles.contains_key(block_id) ==> step->after is Nothing
            &&& !g.handles.contains_key(block_id)
            &&& g.vas.contains_key(block_id) && g.vas[block_id] == (VaAlloc {
                vaddr: src_vaddr,
                size,
                from_pool: false,
            })
            &&& forall|a: int| #[trigger] covers(g.free, a) ==> covers(gpu.free, a)
            &&& size <= gpu.used_bytes ==> g.used_bytes == gpu.used_bytes - size
            &&& others_kept(gpu, g, block_id)
            &&& c.allocations.contains_key(block_id) && c.allocations[block_id] == cpu_addr
            &&& c.free == cpu.free && c.used == cpu.used
        }),
{
    lemma_removing(gpu.free, src_vaddr, size);
}

/// An offload that fails leaves the card as it was and gives the buffer back.
pub proof fn law_failed_offload_keeps_the_block(
    gpu: GpuView,
    cpu: CpuView,
    rm: Option<RmView>,
    block_id: u64,
    src_vaddr: u64,
    size: u64,
    cpu_addr: u64,
    copied: bool,
    reply: Reply,
)
    requires
        reply.errno != 0,
        ordered(cpu.free),
        can_give(cpu.free, cpu_addr, size),
        size > 0,
    ensures
        ({
            let run = Run::Offload { block_id, src_vaddr, size, cpu_addr, copied };
            let (step, g, c, r) = resuming(gpu, cpu, rm, run, reply);
            &&& g == gpu && r == rm && c.allocations == cpu.allocations
            &&& put_back(cpu.free, c.free, cpu_addr, size)
            &&& size <= cpu.used ==> c.used == cpu.used - size
            &&& !copied ==> fails_with(step, 14)
            &&& copied ==> fails_with(step, 22)
        }),
{
    lemma_given(cpu.free, cpu_addr, size);
}

/// A reload makes memory where the decision says, or where the block was, and fills
/// it from the host copy that the decision names. Without a copy or a place it is
/// refused.
pub proof fn law_block_comes_back_from_its_copy(
    gpu: GpuView,
    cpu: CpuView,
    dec: PolarisDecision,
    found: Option<u64>,
)
    requires
        dec.op == 5,
        sizes_in_order(gpu, dec),
    ensures
        ({
            let (step, g, c, r) = dispatching(gpu, cpu, None, dec, found);
            let k = dec.block_id;
            &&& g == gpu && c == cpu && r is None
            &&& dec.cpu_addr == 0 ==> fails_with(step, 22)
            &&& dec.dst_vaddr == 0 && !gpu.vas.contains_key(k) ==> fails_with(step, 22)
            &&& dec.cpu_addr != 0 && dec.dst_vaddr != 0 ==> exists|size: u64|
                in_whole_units(size, dec.size_bytes, gpu.granule) && #[trigger] makes_memory(
                    step,
                    k,
                    dec.dst_vaddr,
                    size,
                    Fill::Host(dec.cpu_addr),
                    false,
                )
            &&& dec.cpu_addr != 0 && dec.dst_vaddr == 0 && gpu.vas.contains_key(k) ==> exists|
                size: u64,
            |
                in_whole_units(size, dec.size_bytes, gpu.granule) && #[trigger] makes_memory(
                    step,
                    k,
                    gpu.vas[k].vaddr,
                    size,
                    Fill::Host(dec.cpu_addr),
                    false,
                )
        }),
{
    law_snap_up_rounds(dec.size_bytes, gpu.granule);
    let size = gpu.in_granules(dec.size_bytes);
    let step = dispatching(gpu, cpu, None, dec, found).0;
    let vaddr = if dec.dst_vaddr != 0 {
        dec.dst_vaddr
    } else {
        gpu.vaddr_of(dec.block_id)
    };
    if dec.cpu_addr != 0 && (dec.dst_vaddr != 0 || gpu.vas.contains_key(dec.block_id)) {
        assert(makes_memory(step, dec.block_id, vaddr, size, Fill::Host(dec.cpu_addr), false));
    }
}

// ─── Giving up, mapping, unmapping ──────────────────────────────────────────

/// A freed block is unmapped over all of its addresses, and its memory is released
/// after that: the handle that the decision names, or the one that the block is
/// known with.
pub proof fn law_freed_block_gives_all_back(
    gpu: GpuView,
    cpu: CpuView,
    dec: PolarisDecision,
    found: Option<u64>,
)
    requires
        dec.op == 1,
        ordered(gpu.free),
        ordered(cpu.free),
        gpu.can_remove(dec.block_id),
        cpu.allocations.contains_key(dec.block_id) ==> can_give(
            cpu.free,
            cpu.allocations[dec.block_id],
            dec.size_bytes,
        ),
        dec.size_bytes > 0,
    ensures
        ({
            let (step, g, c, r) = dispatching(gpu, cpu, None, dec, found);
            let k = dec.block_id;
            let handle = if dec.src_handle != 0 {
                dec.src_handle
            } else if gpu.handles.contains_key(k) {
                gpu.handles[k]
            } else {
                0
            };
            let release = DeviceCall::ReleasePhysical { handle };
            &&& r is None && worked(step)
            &&& gpu.vas.contains_key(k) ==> {
                let va = gpu.vas[k];
                let unmap = DeviceCall::UnmapMemory {
                    vaddr: if dec.src_vaddr != 0 {
                        dec.src_vaddr
                    } else {
                        va.vaddr
                    },
                    size: va.size,
                };
                &&& handle != 0 ==> step->after == After::Two(unmap, release)
                &&& handle == 0 ==> step->after == After::One(unmap)
                &&& va.from_pool ==> put_back(gpu.free, g.free, va.vaddr, va.size)
                &&& !va.from_pool ==> g.free == gpu.free
                &&& va.size <= gpu.used_bytes ==> g.used_bytes == gpu.used_bytes - va.size
            }
            &&& !gpu.vas.contains_key(k) ==> {
                &&& handle != 0 ==> step->after == After::One(release)
                &&& handle == 0 ==> step->after is Nothing
                &&& g.free == gpu.free && g.used_bytes == gpu.used_bytes
            }
            &&& !g.handles.contains_key(k) && !g.vas.contains_key(k)
                && !c.allocations.contains_key(k)
            &&& others_kept(gpu, g, k)
            &&& cpu.allocations.contains_key(k) ==> put_back(
                cpu.free,
                c.free,
                cpu.allocations[k],
                dec.size_bytes,
            ) && (dec.size_bytes <= cpu.used ==> c.used == cpu.used - dec.size_bytes)
            &&& !cpu.allocations.contains_key(k) ==> c.free == cpu.free && c.used == cpu.used
        }),
{
    let k = dec.block_id;
    if gpu.vas.contains_key(k) && gpu.vas[k].from_pool {
        lemma_given(gpu.free, gpu.vas[k].vaddr, gpu.vas[k].size);
    }
    if cpu.allocations.contains_key(k) {
        lemma_given(cpu.free, cpu.allocations[k], dec.size_bytes);
    }
}

/// Memory that another block has is mapped at the named address, made accessible
/// there, and only then noted; if the address cannot be made accessible the mapping
/// is taken away. Without a handle or an address the decision is refused.
pub proof fn law_memory_is_mapped_once_more(
    gpu: GpuView,
    cpu: CpuView,
    rm: Option<RmView>,
    dec: PolarisDecision,
    found: Option<u64>,
    works: Reply,
    fails: Reply,
)
    requires
        dec.op == 2,
        sizes_in_order(gpu, dec),
        works.errno == 0,
        fails.errno != 0,
    ensures
        ({
            let (step, g, c, r) = dispatching(gpu, cpu, rm, dec, found);
            let k = dec.block_id;
            &&& g == gpu && c == cpu && r == rm
            &&& dec.src_handle == 0 || dec.dst_vaddr == 0 ==> fails_with(step, 22)
            &&& dec.src_handle != 0 && dec.dst_vaddr != 0 ==> {
                &&& step matches Step::Ask { call: DeviceCall::MapMemory { vaddr, handle, size }, run }
                    && vaddr == dec.dst_vaddr && handle == dec.src_handle && in_whole_units(
                    size,
                    dec.size_bytes,
                    gpu.granule,
                ) && ({
                    let (second, g2, _, _) = resuming(gpu, cpu, rm, run, works);
                    let (third, g3, _, _) = resuming(g2, cpu, rm, second->run, works);
                    &&& second is Ask && second->call == (DeviceCall::SetAccess { vaddr, size })
                    &&& g2 == gpu
                    &&& worked(third) && third->after is Nothing
                    &&& g3.vas.contains_key(k) && g3.vas[k].vaddr == vaddr && g3.vas[k].size == size
                        && !g3.vas[k].from_pool
                    &&& g3.handles == gpu.handles && g3.used_bytes == gpu.used_bytes
                    &&& others_kept(gpu, g3, k)
                    &&& fails_with(resuming(gpu, cpu, rm, run, fails).0, 22)
                    &&& resuming(gpu, cpu, rm, run, fails).1 == gpu
                    &&& resuming(gpu, cpu, rm, second->run, fails).1 == gpu
                    &&& resuming(gpu, cpu, rm, second->run, fails).0 matches Step::Finish {
                        after,
                        result,
                    } && result.result == -22 && after == After::One(
                        DeviceCall::UnmapMemory { vaddr, size },
                    )
                })
            }
        }),
{
    law_snap_up_rounds(dec.size_bytes, gpu.granule);
}

/// Unmapping takes away what is at the named address, or where the block is known,
/// over all that the block takes up there; the books stay as they are. Where there
/// is no address nothing is to be done.
pub proof fn law_block_is_unmapped_where_it_lies(
    gpu: GpuView,
    cpu: CpuView,
    rm: Option<RmView>,
    dec: PolarisDecision,
    found: Option<u64>,
    reply: Reply,
)
    requires
        dec.op == 3,
    ensures
        ({
            let (step, g, c, r) = dispatching(gpu, cpu, rm, dec, found);
            let k = dec.block_id;
            let known: u64 = if gpu.vas.contains_key(k) {
                gpu.vas[k].vaddr
            } else {
                0
            };
            let taken: u64 = if gpu.vas.contains_key(k) {
                gpu.vas[k].size
            } else {
                0
            };
            let at = if dec.dst_vaddr != 0 {
                dec.dst_vaddr
            } else {
                known
            };
            &&& g == gpu && c == cpu && r == rm
            &&& at == 0 ==> worked(step) && step->after is Nothing
            &&& at != 0 ==> {
                &&& step matches Step::Ask { call: DeviceCall::UnmapMemory { vaddr, size }, run }
                    && vaddr == at && at_least_both(size, dec.size_bytes, taken) && ({
                    let (end, g2, c2, r2) = resuming(gpu, cpu, rm, run, reply);
                    &&& g2 == gpu && c2 == cpu && r2 == rm
                    &&& reply.errno == 0 ==> worked(end) && end->after is Nothing
                    &&& reply.errno != 0 ==> fails_with(end, 22)
                })
            }
        }),
{
}

/// A decision of no known kind is refused, and nothing changes.
pub proof fn law_unknown_decision_is_refused(
    gpu: GpuView,
    cpu: CpuView,
    rm: Option<RmView>,
    dec: PolarisDecision,
    found: Option<u64>,
)
    requires
        dec.op > 6,
    ensures
        fails_with(dispatching(gpu, cpu, rm, dec, found).0, 22),
        dispatching(gpu, cpu, rm, dec, found).1 == gpu,
        dispatching(gpu, cpu, rm, dec, found).2 == cpu,
        dispatching(gpu, cpu, rm, dec, found).3 == rm,
{
}

/// Failures that are tried out go through five errors in turn, block by block, and
/// each is an error.
pub proof fn law_failures_tried_out_take_turns(block_id: u64)
    requires
        block_id <= u64::MAX - 5,
    ensures
        injected_error(block_id) > 0,
        injected_error((block_id + 5) as u64) == injected_error(block_id),
        forall|d: u64|
            #![trigger injected_error((block_id + d) as u64)]
            0 < d < 5 ==> injected_error((block_id + d) as u64) != injected_error(block_id),
{
}

} // verus!
