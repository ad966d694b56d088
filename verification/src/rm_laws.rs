//! What memory of the resource manager is used for: what is asked of it, block by
//! block, and what an executor says of it.

use crate::abi::PolarisDecision;
use crate::cpu_pool::CpuView;
use crate::dispatch::{dispatching, resuming};
use crate::executor::{DeviceCall, Reply};
use crate::executor_laws::{
    books_kept, fails_with, in_whole_units, others_kept, put_back, sizes_in_order, taken_out, worked,
};
use crate::gpu::GpuView;
use crate::offload::{RmCow, Run, Step};
use crate::ranges::{
    can_give, law_snap_up_rounds, lemma_given, lemma_taking, lemma_total_bounded, ordered, taking,
};
use crate::rm::{status_ok, MemoryStep, RmAllocation, RmReply, RmSetup, RmView};
use vstd::prelude::*;

verus! {

// ─── In plain terms ─────────────────────────────────────────────────────────

/// The call worked, and the resource manager has nothing against it.
pub open spec fn went_well(reply: RmReply) -> bool {
    reply.ret == 0 && reply.status == 0
}

/// The call did not work, or the resource manager names an error.
pub open spec fn went_wrong(reply: RmReply) -> bool {
    reply.ret != 0 || 0 < reply.status < 0x1_0000
}

/// The client can give memory back.
pub open spec fn can_free(rm: RmView) -> bool {
    rm.control_fd >= 0 && rm.h_client != 0
}

/// The call gives an object of the client's device back.
pub open spec fn frees_memory(call: DeviceCall, rm: RmView, h_memory: u32) -> bool {
    call matches DeviceCall::RmFree { free } && free.h_root == rm.h_client && free.h_object_parent
        == rm.h_device && free.h_object_old == h_memory
}

/// The call asks for `size` bytes for the client.
pub open spec fn asks_for_memory(call: DeviceCall, rm: RmView, size: u64) -> bool {
    call matches DeviceCall::RmAlloc { params } && params.owner == rm.h_client && params.size
        == size
}

/// The call copies all of a block to a buffer on the host.
pub open spec fn copies_out(call: DeviceCall, block_id: u64, size: u64, buffer: u64) -> bool {
    call matches DeviceCall::RmCopy { arg } && arg.block_id == block_id && arg.offset == 0
        && arg.length == size && arg.user_cpu_addr == buffer && arg.direction == 0
        && arg.rm_h_memory == 0
}

/// The call copies all of a buffer on the host to memory of the client.
pub open spec fn copies_in(
    call: DeviceCall,
    rm: RmView,
    block_id: u64,
    size: u64,
    buffer: u64,
    h_memory: u32,
) -> bool {
    call matches DeviceCall::RmCopy { arg } && arg.block_id == block_id && arg.offset == 0
        && arg.length == size && arg.user_cpu_addr == buffer && arg.direction == 1
        && arg.rm_control_fd == rm.control_fd && arg.rm_h_client == rm.h_client && arg.rm_h_memory
        == h_memory
}

/// The decision is done, and names the memory that the block has now.
pub open spec fn names_memory(step: Step, rm: RmView, memory: RmAllocation) -> bool {
    step matches Step::Finish { after, result } && after is Nothing && result.result == 0
        && result.output_handle == 0 && result.rm_control_fd == rm.control_fd && result.rm_h_client
        == rm.h_client && result.rm_h_memory == memory.h_memory && result.rm_backing_length
        == memory.size
}

/// The block has the memory that the reply tells of; no other block's memory changed.
pub open spec fn memory_is_the_blocks(
    before: RmView,
    after: RmView,
    block_id: u64,
    reply: RmReply,
) -> bool {
    &&& after.allocations.contains_key(block_id)
    &&& after.allocations[block_id].h_memory == reply.h_object_new
    &&& after.allocations[block_id].size == reply.size
    &&& after.allocations[block_id].phys_fb_addr == reply.offset
    &&& forall|k: u64|
        k != block_id ==> (#[trigger] after.allocations.contains_key(k)
            <==> before.allocations.contains_key(k)) && after.allocations[k]
            == before.allocations[k]
    &&& after.h_client == before.h_client && after.h_device == before.h_device && after.control_fd
        == before.control_fd
}

/// The block has no memory any more; no other block's memory changed.
pub open spec fn memory_is_gone(before: RmView, after: RmView, block_id: u64) -> bool {
    &&& !after.allocations.contains_key(block_id)
    &&& forall|k: u64|
        k != block_id ==> (#[trigger] after.allocations.contains_key(k)
            <==> before.allocations.contains_key(k)) && (before.allocations.contains_key(k)
            ==> after.allocations[k] == before.allocations[k])
}

// ─── Asking ─────────────────────────────────────────────────────────────────

/// A call worked where the system and the resource manager both say so. A warning is
/// no error; an error is one.
pub proof fn law_errors_are_told_from_warnings(status: u32)
    ensures
        status == 0 ==> status_ok(status),
        0 < status < 0x1_0000 ==> !status_ok(status),
        0x1_0000 <= status < 0x2_0000 ==> status_ok(status),
{
    assert(status < 0x1_0000u32 ==> status & 0x1_0000u32 == 0) by (bit_vector);
    assert(0x1_0000u32 <= status < 0x2_0000u32 ==> status & 0x1_0000u32 != 0) by (bit_vector);
}

/// A block without memory is asked memory for, of the client, with its size and
/// without a place of its own; it lies in one piece where that is wanted.
pub proof fn law_memory_is_asked_for(rm: RmView, block_id: u64, size: u64)
    requires
        !rm.allocations.contains_key(block_id),
        !rm.options.pressure_outside_fb_range,
    ensures
        rm.asking(block_id, size) matches MemoryStep::Ask(record) && record.owner == rm.h_client
            && record.size == size && record.flags == 0 && record.range_lo == 0 && record.range_hi
            == 0 && record.attr == (if rm.options.force_contiguous {
            0x1000_0000u32
        } else {
            0
        }),
{
}

/// Where memory is to lie at a place, the range that is asked for starts there and
/// holds the size exactly; a range that does not fit is not asked for.
pub proof fn law_memory_is_asked_for_at_its_place(rm: RmView, block_id: u64, size: u64)
    requires
        !rm.allocations.contains_key(block_id),
        rm.options.pressure_outside_fb_range,
        size > 0,
    ensures
        rm.options.pressure_range_base + size > u64::MAX ==> rm.asking(block_id, size) is Refused,
        rm.options.pressure_range_base + size <= u64::MAX ==> (rm.asking(
            block_id,
            size,
        ) matches MemoryStep::Ask(record) && record.owner == rm.h_client && record.size == size
            && record.flags == 0x2_0000 && record.attr == 0x1000_0000 && record.range_lo
            == rm.options.pressure_range_base && record.range_hi - record.range_lo + 1 == size),
{
}

// ─── New memory ─────────────────────────────────────────────────────────────

/// A new block is asked memory for over its size in whole granules; no book changes
/// until there is an answer.
pub proof fn law_new_block_asks_for_memory(
    gpu: GpuView,
    cpu: CpuView,
    rm: RmView,
    dec: PolarisDecision,
    found: Option<u64>,
)
    requires
        dec.op == 0,
        dec.dst_vaddr != 0,
        sizes_in_order(gpu, dec),
        !rm.allocations.contains_key(dec.block_id),
        !rm.options.pressure_outside_fb_range,
    ensures
        ({
            let (step, g, c, r) = dispatching(gpu, cpu, Some(rm), dec, found);
            &&& g == gpu && c == cpu && r == Some(rm)
            &&& step matches Step::Ask { call, run: Run::AllocMemory {
                block_id,
                vaddr,
                size,
                release,
            } } && asks_for_memory(call, rm, size) && in_whole_units(
                size,
                dec.size_bytes,
                gpu.granule,
            ) && block_id == dec.block_id && vaddr == dec.dst_vaddr && !release
        }),
{
    law_snap_up_rounds(dec.size_bytes, gpu.granule);
}

/// A block that has memory keeps it: nothing is asked for, and the answer names it.
pub proof fn law_memory_is_not_asked_for_twice(
    gpu: GpuView,
    cpu: CpuView,
    rm: RmView,
    dec: PolarisDecision,
    found: Option<u64>,
)
    requires
        dec.op == 0,
        dec.dst_vaddr != 0,
        rm.allocations.contains_key(dec.block_id),
    ensures
        ({
            let (step, g, c, r) = dispatching(gpu, cpu, Some(rm), dec, found);
            &&& names_memory(step, rm, rm.allocations[dec.block_id])
            &&& g.vas.contains_key(dec.block_id) && g.vas[dec.block_id].vaddr == dec.dst_vaddr
            &&& g.handles == gpu.handles && c == cpu && r == Some(rm)
        }),
{
}

/// Memory that was handed out is the block's: the answer names it, the block is known
/// where it lies and counts. Where none was handed out the decision fails for want of
/// memory, nothing is noted, and addresses of the pool go back.
pub proof fn law_memory_handed_out_is_the_blocks(
    gpu: GpuView,
    cpu: CpuView,
    rm: RmView,
    block_id: u64,
    vaddr: u64,
    size: u64,
    release: bool,
    reply: Reply,
)
    requires
        gpu.used_bytes + size <= u64::MAX,
        ordered(gpu.free),
        release ==> can_give(gpu.free, vaddr, size),
    ensures
        ({
            let run = Run::AllocMemory { block_id, vaddr, size, release };
            let (step, g, c, r) = resuming(gpu, cpu, Some(rm), run, reply);
            &&& c == cpu && r is Some && g.handles == gpu.handles
            &&& went_well(reply.rm) ==> {
                &&& memory_is_the_blocks(rm, r->0, block_id, reply.rm)
                &&& names_memory(step, rm, r->0.allocations[block_id])
                &&& g.vas.contains_key(block_id) && g.vas[block_id].vaddr == vaddr
                    && g.vas[block_id].size == size && g.vas[block_id].from_pool == release
                &&& g.used_bytes == gpu.used_bytes + size
                &&& others_kept(gpu, g, block_id)
                &&& release ==> g.free == gpu.free
            }
            &&& went_wrong(reply.rm) ==> {
                &&& r == Some(rm) && fails_with(step, 12) && books_kept(gpu, g)
                &&& release ==> put_back(gpu.free, g.free, vaddr, size)
                &&& !release ==> g.free == gpu.free
            }
        }),
{
    law_errors_are_told_from_warnings(reply.rm.status);
    if release {
        lemma_given(gpu.free, vaddr, size);
    }
}

/// A freed block's memory is given back first. Whether or not that works, the block
/// is forgotten; if it does not work the decision fails, and the memory stays noted.
pub proof fn law_freed_block_gives_its_memory_back(
    gpu: GpuView,
    cpu: CpuView,
    rm: RmView,
    dec: PolarisDecision,
    found: Option<u64>,
    reply: Reply,
)
    requires
        dec.op == 1,
        can_free(rm),
        rm.allocations.contains_key(dec.block_id),
        rm.allocations[dec.block_id].h_memory != 0,
    ensures
        ({
            let k = dec.block_id;
            let (step, g, c, r) = dispatching(gpu, cpu, Some(rm), dec, found);
            let (end, g2, c2, r2) = resuming(gpu, cpu, Some(rm), Run::FreeMemory { dec }, reply);
            &&& g == gpu && c == cpu && r == Some(rm)
            &&& step matches Step::Ask { call, run } && frees_memory(
                call,
                rm,
                rm.allocations[k].h_memory,
            ) && run == (Run::FreeMemory { dec })
            &&& went_well(reply.rm) || went_wrong(reply.rm) ==> {
                &&& !g2.handles.contains_key(k) && !g2.vas.contains_key(k)
                &&& !c2.allocations.contains_key(k)
                &&& others_kept(gpu, g2, k)
                &&& gpu.vas.contains_key(k) && gpu.vas[k].size <= gpu.used_bytes ==> g2.used_bytes
                    == gpu.used_bytes - gpu.vas[k].size
            }
            &&& dec.src_handle == 0 && !gpu.handles.contains_key(k) && (went_well(reply.rm)
                || went_wrong(reply.rm)) ==> end is Finish && end->after is Nothing
            &&& went_well(reply.rm) ==> worked(end) && r2 is Some && memory_is_gone(rm, r2->0, k)
            &&& went_wrong(reply.rm) ==> end is Finish && end->result.result == -5 && r2 == Some(rm)
        }),
{
    law_errors_are_told_from_warnings(reply.rm.status);
}

// ─── To the host and back ───────────────────────────────────────────────────

/// A block that goes is copied as a whole to a free buffer on the host that holds all
/// of it.
pub proof fn law_memory_is_copied_before_it_goes(
    gpu: GpuView,
    cpu: CpuView,
    rm: RmView,
    dec: PolarisDecision,
    found: Option<u64>,
)
    requires
        dec.op == 4,
        dec.src_handle == 0,
        dec.size_bytes > 0,
        sizes_in_order(gpu, dec),
        cpu.wf(),
        rm.allocations.contains_key(dec.block_id),
    ensures
        ({
            let k = dec.block_id;
            let (step, g, c, r) = dispatching(gpu, cpu, Some(rm), dec, found);
            &&& g == gpu && r == Some(rm) && c.allocations == cpu.allocations
            &&& {
                ||| fails_with(step, 12) && c == cpu
                ||| step matches Step::Ask { call, run: Run::RmOffloadCopy {
                    block_id,
                    size,
                    cpu_addr,
                } } && copies_out(call, k, size, cpu_addr) && block_id == k && size
                    >= dec.size_bytes && (gpu.vas.contains_key(k) ==> size >= gpu.vas[k].size)
                    && taken_out(cpu.free, c.free, cpu_addr, size) && c.used == cpu.used + size
            }
        }),
{
    law_snap_up_rounds(dec.size_bytes, gpu.granule);
    let size = crate::offload::move_size(gpu, dec);
    lemma_taking(cpu.free, size, crate::cpu_pool::PAGE);
    lemma_total_bounded(taking(cpu.free, size, crate::cpu_pool::PAGE).1, 0, u64::MAX as int);
}

/// Only a block that was copied whole gives its memory back. A copy that failed or
/// fell short leaves everything as it was but for the buffer, which goes back.
pub proof fn law_only_a_whole_copy_counts(
    gpu: GpuView,
    cpu: CpuView,
    rm: RmView,
    block_id: u64,
    size: u64,
    cpu_addr: u64,
    reply: Reply,
)
    requires
        can_free(rm),
        rm.allocations.contains_key(block_id),
        rm.allocations[block_id].h_memory != 0,
        ordered(cpu.free),
        can_give(cpu.free, cpu_addr, size),
        size > 0,
        reply.errno > i32::MIN,
    ensures
        ({
            let run = Run::RmOffloadCopy { block_id, size, cpu_addr };
            let (step, g, c, r) = resuming(gpu, cpu, Some(rm), run, reply);
            &&& g == gpu && r == Some(rm)
            &&& reply.errno == 0 && reply.bytes == size ==> c == cpu && (step matches Step::Ask {
                call,
                run: next,
            } && frees_memory(call, rm, rm.allocations[block_id].h_memory) && next
                == (Run::RmOffloadFree { block_id, size, cpu_addr }))
            &&& reply.errno == 0 && reply.bytes != size ==> fails_with(step, 5)
            &&& reply.errno != 0 ==> fails_with(step, reply.errno as int)
            &&& reply.errno != 0 || reply.bytes != size ==> put_back(
                cpu.free,
                c.free,
                cpu_addr,
                size,
            ) && c.allocations == cpu.allocations
        }),
{
    lemma_given(cpu.free, cpu_addr, size);
}

/// When the memory went back, the block is on the host: the buffer is its copy, it
/// counts no more on the card and keeps its addresses. If the memory does not go back
/// the block stays, and the buffer goes back instead.
pub proof fn law_memory_that_went_leaves_a_copy(
    gpu: GpuView,
    cpu: CpuView,
    rm: RmView,
    block_id: u64,
    size: u64,
    cpu_addr: u64,
    reply: Reply,
)
    requires
        ordered(cpu.free),
        can_give(cpu.free, cpu_addr, size),
        size > 0,
    ensures
        ({
            let run = Run::RmOffloadFree { block_id, size, cpu_addr };
            let (step, g, c, r) = resuming(gpu, cpu, Some(rm), run, reply);
            &&& went_well(reply.rm) ==> {
                &&& worked(step) && step->after is Nothing && step->result.output_cpu_addr
                    == cpu_addr
                &&& r is Some && memory_is_gone(rm, r->0, block_id)
                &&& c.allocations.contains_key(block_id) && c.allocations[block_id] == cpu_addr
                &&& c.free == cpu.free && c.used == cpu.used
                &&& size <= gpu.used_bytes ==> g.used_bytes == gpu.used_bytes - size
                &&& !g.handles.contains_key(block_id) && others_kept(gpu, g, block_id)
                &&& gpu.vas.contains_key(block_id) ==> g.vas.contains_key(block_id)
                    && g.vas[block_id].vaddr == gpu.vas[block_id].vaddr && g.vas[block_id].size
                    == gpu.vas[block_id].size
            }
            &&& went_wrong(reply.rm) ==> {
                &&& fails_with(step, 5) && g == gpu && r == Some(rm)
                &&& put_back(cpu.free, c.free, cpu_addr, size) && c.allocations == cpu.allocations
            }
        }),
{
    law_errors_are_told_from_warnings(reply.rm.status);
    lemma_given(cpu.free, cpu_addr, size);
}

/// A block that comes back gets memory, unless it has some, and that memory is filled
/// from the host copy that the decision names.
pub proof fn law_memory_is_made_for_the_copy(
    gpu: GpuView,
    cpu: CpuView,
    rm: RmView,
    dec: PolarisDecision,
    found: Option<u64>,
)
    requires
        dec.op == 5,
        dec.src_handle == 0,
        dec.size_bytes > 0,
        sizes_in_order(gpu, dec),
        !rm.options.pressure_outside_fb_range,
    ensures
        ({
            let k = dec.block_id;
            let (step, g, c, r) = dispatching(gpu, cpu, Some(rm), dec, found);
            &&& g == gpu && c == cpu && r == Some(rm)
            &&& dec.cpu_addr == 0 ==> fails_with(step, 22)
            &&& dec.cpu_addr != 0 && !rm.allocations.contains_key(k) ==> (step matches Step::Ask {
                call,
                run: Run::RmReloadMemory { block_id, size, cpu_addr },
            } && asks_for_memory(call, rm, size) && size >= dec.size_bytes && block_id == k
                && cpu_addr == dec.cpu_addr)
            &&& dec.cpu_addr != 0 && rm.allocations.contains_key(k) ==> (step matches Step::Ask {
                call,
                run: Run::RmReloadCopy { block_id, size, cpu_addr, memory },
            } && copies_in(call, rm, k, size, dec.cpu_addr, rm.allocations[k].h_memory) && size
                >= dec.size_bytes && block_id == k && cpu_addr == dec.cpu_addr && memory
                == rm.allocations[k])
        }),
{
    law_snap_up_rounds(dec.size_bytes, gpu.granule);
}

/// Memory that was handed out for a reload is the block's, and the host copy goes
/// there; where none was handed out the block stays on the host.
pub proof fn law_copy_goes_to_the_memory_handed_out(
    gpu: GpuView,
    cpu: CpuView,
    rm: RmView,
    block_id: u64,
    size: u64,
    cpu_addr: u64,
    reply: Reply,
)
    ensures
        ({
            let run = Run::RmReloadMemory { block_id, size, cpu_addr };
            let (step, g, c, r) = resuming(gpu, cpu, Some(rm), run, reply);
            &&& g == gpu && c == cpu
            &&& went_well(reply.rm) ==> r is Some && memory_is_the_blocks(
                rm,
                r->0,
                block_id,
                reply.rm,
            ) && (step matches Step::Ask { call, run: Run::RmReloadCopy { memory, .. } }
                && copies_in(call, rm, block_id, size, cpu_addr, reply.rm.h_object_new)
                && memory.h_memory == reply.rm.h_object_new && memory.size == reply.rm.size)
            &&& went_wrong(reply.rm) ==> fails_with(step, 12) && r == Some(rm)
        }),
{
    law_errors_are_told_from_warnings(reply.rm.status);
}

/// When the whole copy is in the memory, the answer names the memory, the block
/// counts, and the host copy is given up. A copy that failed or fell short keeps the
/// host copy; the memory is given back, and the failure stands.
pub proof fn law_host_copy_is_kept_until_it_is_back(
    gpu: GpuView,
    cpu: CpuView,
    rm: RmView,
    block_id: u64,
    size: u64,
    cpu_addr: u64,
    memory: RmAllocation,
    reply: Reply,
    second: Reply,
)
    requires
        gpu.used_bytes + size <= u64::MAX,
        can_free(rm),
        rm.allocations.contains_key(block_id),
        rm.allocations[block_id].h_memory != 0,
        ordered(cpu.free),
        can_give(cpu.free, cpu_addr, size),
        size > 0,
        reply.errno > i32::MIN,
    ensures
        ({
            let run = Run::RmReloadCopy { block_id, size, cpu_addr, memory };
            let (step, g, c, r) = resuming(gpu, cpu, Some(rm), run, reply);
            &&& r == Some(rm)
            &&& reply.errno == 0 && reply.bytes == size ==> {
                &&& names_memory(step, rm, memory)
                &&& g.used_bytes == gpu.used_bytes + size && g.handles == gpu.handles
                &&& others_kept(gpu, g, block_id)
                &&& gpu.vas.contains_key(block_id) ==> g.vas.contains_key(block_id)
                    && g.vas[block_id].vaddr == gpu.vas[block_id].vaddr
                &&& !c.allocations.contains_key(block_id)
                &&& put_back(cpu.free, c.free, cpu_addr, size)
                &&& size <= cpu.used ==> c.used == cpu.used - size
            }
            &&& reply.errno != 0 || reply.bytes != size ==> {
                let errno = if reply.errno != 0 {
                    reply.errno
                } else {
                    5
                };
                let (end, g2, c2, r2) = resuming(gpu, cpu, Some(rm), step->run, second);
                &&& g == gpu && c == cpu
                &&& step is Ask && frees_memory(
                    step->call,
                    rm,
                    rm.allocations[block_id].h_memory,
                )
                &&& fails_with(end, errno as int) && g2 == gpu && c2 == cpu
                &&& went_well(second.rm) ==> r2 is Some && memory_is_gone(rm, r2->0, block_id)
                &&& went_wrong(second.rm) ==> r2 == Some(rm)
            }
        }),
{
    law_errors_are_told_from_warnings(second.rm.status);
    lemma_given(cpu.free, cpu_addr, size);
}

// ─── Private copies ─────────────────────────────────────────────────────────

/// A private copy takes a free buffer on the host and asks for memory of its own. The
/// block that it is made of is the one that the decision names; where it names none
/// the decision is refused.
pub proof fn law_private_copy_asks_for_memory(
    gpu: GpuView,
    cpu: CpuView,
    rm: RmView,
    dec: PolarisDecision,
    found: Option<u64>,
)
    requires
        dec.op == 6,
        dec.dst_vaddr != 0,
        dec.src_handle == 0,
        dec.size_bytes > 0,
        sizes_in_order(gpu, dec),
        cpu.wf(),
        !rm.options.pressure_outside_fb_range,
        !rm.allocations.contains_key(dec.block_id),
    ensures
        ({
            let k = dec.block_id;
            let (step, g, c, r) = dispatching(gpu, cpu, Some(rm), dec, found);
            &&& g == gpu && r == Some(rm) && c.allocations == cpu.allocations
            &&& dec._reserved[1] & 1u64 == 0 ==> fails_with(step, 22) && c == cpu
            &&& dec._reserved[1] & 1u64 != 0 ==> {
                ||| fails_with(step, 12) && c == cpu
                ||| step matches Step::Ask { call, run: Run::RmCowMemory { cow } }
                    && asks_for_memory(call, rm, cow.size) && cow.block_id == k && cow.source
                    == dec._reserved[0] && in_whole_units(cow.size, dec.size_bytes, gpu.granule)
                    && cow.vaddr == dec.dst_vaddr && !cow.release && taken_out(
                    cpu.free,
                    c.free,
                    cow.buffer,
                    cow.size,
                ) && c.used == cpu.used + cow.size
            }
        }),
{
    law_snap_up_rounds(dec.size_bytes, gpu.granule);
    let size = gpu.in_granules(dec.size_bytes);
    lemma_taking(cpu.free, size, crate::cpu_pool::PAGE);
    lemma_total_bounded(taking(cpu.free, size, crate::cpu_pool::PAGE).1, 0, u64::MAX as int);
}

/// With memory of its own, the shared memory is copied whole to the buffer, then the
/// buffer whole to that memory; then the answer names it, the block is known where it
/// lies, and the buffer goes back.
pub proof fn law_private_copy_goes_by_the_buffer(
    gpu: GpuView,
    cpu: CpuView,
    rm: RmView,
    cow: RmCow,
    memory: RmAllocation,
    reply: Reply,
)
    requires
        gpu.used_bytes + cow.size <= u64::MAX,
        ordered(cpu.free),
        can_give(cpu.free, cow.buffer, cow.size),
        cow.size > 0,
        reply.errno == 0,
        reply.bytes == cow.size,
    ensures
        ({
            let (first, g1, c1, r1) = resuming(
                gpu,
                cpu,
                Some(rm),
                Run::RmCowMemory { cow },
                reply,
            );
            let (second, g2, c2, r2) = resuming(
                gpu,
                cpu,
                Some(rm),
                Run::RmCowOut { cow, memory },
                reply,
            );
            let (third, g3, c3, r3) = resuming(
                gpu,
                cpu,
                Some(rm),
                Run::RmCowIn { cow, memory },
                reply,
            );
            &&& went_well(reply.rm) ==> {
                &&& g1 == gpu && c1 == cpu && r1 is Some
                &&& memory_is_the_blocks(rm, r1->0, cow.block_id, reply.rm)
                &&& first matches Step::Ask { call, run: Run::RmCowOut { cow: same, memory: new } }
                    && copies_out(call, cow.source, cow.size, cow.buffer) && same == cow
                    && new.h_memory == reply.rm.h_object_new && new.size == reply.rm.size
            }
            &&& g2 == gpu && c2 == cpu && r2 == Some(rm)
            &&& second matches Step::Ask { call, run } && copies_in(
                call,
                rm,
                cow.block_id,
                cow.size,
                cow.buffer,
                memory.h_memory,
            ) && run == (Run::RmCowIn { cow, memory })
            &&& names_memory(third, rm, memory) && r3 == Some(rm)
            &&& g3.vas.contains_key(cow.block_id) && g3.vas[cow.block_id].vaddr == cow.vaddr
                && g3.vas[cow.block_id].size == cow.size
            &&& g3.used_bytes == gpu.used_bytes + cow.size
            &&& others_kept(gpu, g3, cow.block_id)
            &&& put_back(cpu.free, c3.free, cow.buffer, cow.size) && c3.allocations
                == cpu.allocations
        }),
{
    law_errors_are_told_from_warnings(reply.rm.status);
    lemma_given(cpu.free, cow.buffer, cow.size);
}

/// A private copy that fails, or falls short in either direction, gives the buffer, the
/// addresses of the pool and the memory back; the failure stands.
pub proof fn law_failed_private_copy_leaves_nothing(
    gpu: GpuView,
    cpu: CpuView,
    rm: RmView,
    cow: RmCow,
    memory: RmAllocation,
    inward: bool,
    reply: Reply,
)
    requires
        can_free(rm),
        rm.allocations.contains_key(cow.block_id),
        rm.allocations[cow.block_id].h_memory != 0,
        ordered(cpu.free),
        ordered(gpu.free),
        can_give(cpu.free, cow.buffer, cow.size),
        cow.release ==> can_give(gpu.free, cow.vaddr, cow.size),
        cow.size > 0,
        reply.errno > i32::MIN,
        reply.errno != 0 || reply.bytes != cow.size,
    ensures
        ({
            let run = if inward {
                Run::RmCowIn { cow, memory }
            } else {
                Run::RmCowOut { cow, memory }
            };
            let (step, g, c, r) = resuming(gpu, cpu, Some(rm), run, reply);
            &&& r == Some(rm) && books_kept(gpu, g)
            &&& step is Ask && frees_memory(
                step->call,
                rm,
                rm.allocations[cow.block_id].h_memory,
            )
            &&& step->run == (Run::RmUndo {
                block_id: cow.block_id,
                errno: if reply.errno != 0 {
                    reply.errno
                } else {
                    5
                },
            })
            &&& put_back(cpu.free, c.free, cow.buffer, cow.size) && c.allocations
                == cpu.allocations
            &&& cow.release ==> put_back(gpu.free, g.free, cow.vaddr, cow.size)
            &&& !cow.release ==> g.free == gpu.free
        }),
{
    lemma_given(cpu.free, cow.buffer, cow.size);
    if cow.release {
        lemma_given(gpu.free, cow.vaddr, cow.size);
    }
}

// ─── The client ─────────────────────────────────────────────────────────────

/// A client is made first, under nothing; then a device under the client; then a part
/// of the device. Each is made with the handles of what was made before, and a failure
/// stays at its stage.
pub proof fn law_client_is_set_up_from_the_top(setup: RmSetup, reply: RmReply)
    ensures
        setup.stage is RootClient ==> (setup.next_request() matches Some(r) && r.h_root == 0
            && r.h_object_parent == 0 && r.h_class == 0x41),
        setup.stage is Device ==> (setup.next_request() matches Some(r) && r.h_root
            == setup.h_client && r.h_object_parent == setup.h_client && r.h_class == 0x80),
        setup.stage is Subdevice ==> (setup.next_request() matches Some(r) && r.h_root
            == setup.h_client && r.h_object_parent == setup.h_device && r.h_class == 0x2080),
        setup.stage is Done <==> setup.next_request() is None,
        went_wrong(reply) ==> setup.after(reply).0 is Err && setup.after(reply).1 == setup,
        went_well(reply) ==> {
            let (r, next) = setup.after(reply);
            &&& r is Ok && next.control_fd == setup.control_fd && next.options == setup.options
            &&& setup.stage is RootClient ==> next.stage is Device && next.h_device
                == setup.h_device && (reply.h_client != 0 ==> next.h_client == reply.h_client) && (
            reply.h_client == 0 ==> next.h_client == reply.h_object_new)
            &&& setup.stage is Device ==> next.stage is Subdevice && next.h_client
                == setup.h_client && next.h_device == reply.h_object_new
            &&& setup.stage is Subdevice ==> next.stage is Done && next.h_client == setup.h_client
                && next.h_device == setup.h_device && next.h_subdevice == reply.h_object_new
        },
{
    law_errors_are_told_from_warnings(reply.status);
}

/// What is given back at the end is what was made, the last first: the part, the
/// device, the client; all under the client.
pub proof fn law_client_is_taken_down_from_the_bottom(rm: RmView)
    requires
        can_free(rm),
        rm.h_device != 0,
        rm.h_subdevice != 0,
    ensures
        ({
            let last = rm.closing_tail();
            &&& last.len() == 3
            &&& last[0].h_object_old == rm.h_subdevice && last[0].h_object_parent == rm.h_device
            &&& last[1].h_object_old == rm.h_device && last[1].h_object_parent == rm.h_client
            &&& last[2].h_object_old == rm.h_client
            &&& forall|i: int| 0 <= i < 3 ==> (#[trigger] last[i]).h_root == rm.h_client
        }),
{
}

/// Every block's memory is given back when the client goes.
pub proof fn law_closing_frees_every_block(rm: RmView, blocks: Seq<u64>, block_id: u64)
    requires
        can_free(rm),
        blocks.contains(block_id),
        rm.allocations.contains_key(block_id),
        rm.allocations[block_id].h_memory != 0,
    ensures
        exists|i: int|
            0 <= i < rm.freeing_blocks(blocks).len() && (#[trigger] rm.freeing_blocks(
                blocks,
            )[i]).h_object_old == rm.allocations[block_id].h_memory && rm.freeing_blocks(
                blocks,
            )[i].h_object_parent == rm.h_device && rm.freeing_blocks(blocks)[i].h_root
                == rm.h_client,
    decreases blocks.len(),
{
    let all = rm.freeing_blocks(blocks);
    let fewer = rm.freeing_blocks(blocks.drop_last());
    let at = choose|j: int| 0 <= j < blocks.len() && blocks[j] == block_id;
    if at == blocks.len() - 1 {
        let i = fewer.len() as int;
        assert(all[i].h_object_old == rm.allocations[block_id].h_memory);
    } else {
        assert(blocks.drop_last()[at] == block_id);
        law_closing_frees_every_block(rm, blocks.drop_last(), block_id);
        let i = choose|i: int|
            0 <= i < fewer.len() && (#[trigger] fewer[i]).h_object_old
                == rm.allocations[block_id].h_memory && fewer[i].h_object_parent == rm.h_device
                && fewer[i].h_root == rm.h_client;
        assert(all[i] == fewer[i]);
    }
}

} // verus!
