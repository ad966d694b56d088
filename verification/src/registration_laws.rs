//! What registering is for: GPUs and their ranges, address spaces and their windows, and
//! what is mapped in them; and what is left when a handle is closed.

use crate::abi::{
    PolarisRegisterBlockBackingArg, PolarisRegisterBlockMappingArg, PolarisRegisterGpuArg,
    PolarisRegisterStaticBlockArg, PolarisRegisterVaRangeArg, PolarisRegisterVaSpaceArg,
    PolarisRmCopyArg, PolarisUnregisterVaSpaceArg,
};
use crate::device::{
    closing, registering_gpu, registering_range, woken_by_closing, DeviceView,
};
use crate::errno::{EBUSY, EEXIST, EINVAL, ENOENT, EPERM};
use crate::fault::GpuFault;
use crate::hook_laws::{in_a_window, static_there};
use crate::places::{block_at, gpu_at, law_block_is_found, law_gpu_is_found, no_block, no_gpu};
use crate::seqs::{first_index, lemma_filter_members, lemma_first_index, lemma_first_index_is};
use crate::state::{gpu_is, PolarisView};
use crate::types::{
    PolarisBlock, PolarisBlockMapping, PolarisGpu, PolarisMappingUnmap, PolarisStaticBlock,
    PolarisVaSpace,
};
use crate::vaspace::{
    announcing, backing, copy_span, mapping_at, mapping_elsewhere, names_space, only_space,
    placing_block, placing_static_block, probe_span, static_block_at, static_outside, unmapped,
    va_slot_free, va_slot_is, va_space_is, withdrawing,
};
use vstd::prelude::*;

verus! {

// ─── GPUs ───────────────────────────────────────────────────────────────────

/// A GPU that is announced for the first time is entered with the capacities that are
/// given, empty and healthy; they have to be given. The handle takes it away again.
pub proof fn law_new_gpu_is_entered(v: PolarisView, d: DeviceView, arg: PolarisRegisterGpuArg)
    requires
        no_gpu(v, arg.gpu_id),
        v.daemon_attached < u32::MAX,
    ensures
        arg.total_bytes == 0 || arg.budget_bytes == 0 ==> registering_gpu(v, d, arg) == (
            Err::<(), i32>(ENOENT),
            v,
            d,
        ),
        arg.total_bytes != 0 && arg.budget_bytes != 0 ==> {
            let (r, w, e) = registering_gpu(v, d, arg);
            let h = w.gpus.last();
            &&& r is Ok
            &&& w.gpus == v.gpus.push(h)
            &&& h.gpu_id == arg.gpu_id && h.healthy && !h.va_range_registered
            &&& h.total_bytes == arg.total_bytes && h.budget_bytes == arg.budget_bytes
            &&& h.cpu_pool_total_bytes == arg.cpu_pool_bytes
            &&& h.used_bytes == 0 && h.cpu_pool_used_bytes == 0 && h.next_va_offset == 0
            &&& e.inserted_gpus == d.inserted_gpus.push(arg.gpu_id)
            &&& w.blocks == v.blocks && w.sessions == v.sessions
        },
{
    law_gpu_is_found(v, arg.gpu_id);
}

/// A GPU that is known is healthy again and keeps what it counts. Its keeper's capacities
/// replace the known ones where they are given; a passing user's never do.
pub proof fn law_known_gpu_is_announced_again(
    v: PolarisView,
    d: DeviceView,
    arg: PolarisRegisterGpuArg,
    g: int,
)
    requires
        gpu_at(v, arg.gpu_id, g),
        v.daemon_attached < u32::MAX,
    ensures
        ({
            let o = v.gpus[g];
            let (r, w, e) = registering_gpu(v, d, arg);
            let h = w.gpus[g];
            let passing = arg._reserved & 1 != 0;
            &&& r is Ok
            &&& w.gpus == v.gpus.update(g, h)
            &&& h == (PolarisGpu {
                total_bytes: h.total_bytes,
                budget_bytes: h.budget_bytes,
                cpu_pool_total_bytes: h.cpu_pool_total_bytes,
                healthy: true,
                ..o
            })
            &&& passing || arg.total_bytes == 0 ==> h.total_bytes == o.total_bytes
            &&& passing || arg.budget_bytes == 0 ==> h.budget_bytes == o.budget_bytes
            &&& passing || arg.cpu_pool_bytes == 0 ==> h.cpu_pool_total_bytes
                == o.cpu_pool_total_bytes
            &&& !passing && arg.total_bytes != 0 ==> h.total_bytes == arg.total_bytes
            &&& !passing && arg.budget_bytes != 0 ==> h.budget_bytes == arg.budget_bytes
            &&& !passing && arg.cpu_pool_bytes != 0 ==> h.cpu_pool_total_bytes
                == arg.cpu_pool_bytes
            &&& e.inserted_gpus == d.inserted_gpus
            &&& w.blocks == v.blocks && w.sessions == v.sessions
        }),
{
    law_gpu_is_found(v, arg.gpu_id);
}

/// A handle counts as one executor, however many GPUs it announces.
pub proof fn law_handle_counts_as_one_executor(
    v: PolarisView,
    d: DeviceView,
    arg: PolarisRegisterGpuArg,
)
    requires
        registering_gpu(v, d, arg).0 is Ok,
        v.daemon_attached < u32::MAX,
    ensures
        registering_gpu(v, d, arg).2.registered_gpu,
        registering_gpu(v, d, arg).1.daemon_attached == v.daemon_attached + (if d.registered_gpu {
            0int
        } else {
            1
        }),
{
}

/// A range is the GPU's from then on: as it was handed over, under the number that was
/// given or a new one, which the answer tells. Only an executor may hand one over.
pub proof fn law_range_is_the_gpus(
    v: PolarisView,
    d: DeviceView,
    arg: PolarisRegisterVaRangeArg,
    g: int,
)
    requires
        gpu_at(v, arg.gpu_id, g),
        v.next_range_id < u64::MAX,
    ensures
        !d.registered_gpu ==> registering_range(v, d, arg) == (
            Err::<PolarisRegisterVaRangeArg, i32>(EPERM),
            v,
            d,
        ),
        d.registered_gpu && (arg.length == 0 || arg.block_size == 0) ==> registering_range(
            v,
            d,
            arg,
        ) == (Err::<PolarisRegisterVaRangeArg, i32>(EINVAL), v, d),
        d.registered_gpu && arg.length != 0 && arg.block_size != 0 ==> {
            let o = v.gpus[g];
            let (r, w, e) = registering_range(v, d, arg);
            let h = w.gpus[g];
            &&& r matches Ok(reply) && reply.range_id == h.va_range_id && reply.base == arg.base
                && reply.length == arg.length
            &&& arg.range_id != 0 ==> h.va_range_id == arg.range_id && w.next_range_id
                == v.next_range_id
            &&& arg.range_id == 0 ==> w.next_range_id == v.next_range_id + 1
            &&& w.gpus == v.gpus.update(g, h)
            &&& h.va_range_registered && h.va_range_base == arg.base && h.va_range_length
                == arg.length
            &&& h.va_block_size == arg.block_size && h.va_range_flags == arg.flags
            &&& h.used_bytes == o.used_bytes && h.next_va_offset == o.next_va_offset
                && h.budget_bytes == o.budget_bytes && h.gpu_id == o.gpu_id
            &&& e.va_gpu == arg.gpu_id && e.va_range_id == h.va_range_id
            &&& w.blocks == v.blocks && w.sessions == v.sessions
        },
{
    law_gpu_is_found(v, arg.gpu_id);
    let w = PolarisView { next_range_id: (v.next_range_id + 1) as u64, ..v };
    assert(w.find_gpu(arg.gpu_id) == v.find_gpu(arg.gpu_id));
}

/// A range without a number gets one that no range had before: its GPU above, and
/// below it the next number there is.
pub proof fn law_range_gets_a_number_of_its_own(
    v: PolarisView,
    d: DeviceView,
    arg: PolarisRegisterVaRangeArg,
)
    requires
        d.registered_gpu,
        arg.length != 0,
        arg.block_size != 0,
        arg.range_id == 0,
        v.next_range_id < 0x1_0000_0000,
    ensures
        registering_range(v, d, arg).0 matches Ok(reply) ==> reply.range_id == arg.gpu_id
            * 0x1_0000_0000 + v.next_range_id,
{
    let g = arg.gpu_id as u64;
    let n = v.next_range_id;
    assert((g << 32) | n == g * 0x1_0000_0000 + n) by (bit_vector)
        requires
            g <= 0xffff_ffff,
            n < 0x1_0000_0000,
    ;
}

// ─── Closing a handle ───────────────────────────────────────────────────────

/// A block's operation is in flight.
pub open spec fn in_flight(b: PolarisBlock) -> bool {
    b.state is AllocPending || b.state is OffloadPending || b.state is ReloadPending
        || b.state is CowPending || b.state is FreePending
}

/// When an executor's handle is closed, one executor less is attached, the queue is
/// emptied, and what was in flight is lost; a block at rest stays as it is. No session
/// ends.
pub proof fn law_executor_that_goes_takes_its_work_along(v: PolarisView, d: DeviceView, i: int)
    requires
        d.registered_gpu,
        0 <= i < v.blocks.len(),
    ensures
        ({
            let b = v.blocks[i];
            let w = closing(v, d);
            let c = w.blocks[i];
            &&& w.daemon_attached == (if v.daemon_attached == 0 {
                0
            } else {
                v.daemon_attached - 1
            })
            &&& w.pending_decisions == Seq::<crate::abi::PolarisDecision>::empty()
            &&& w.sessions == v.sessions
            &&& w.blocks.len() == v.blocks.len()
            &&& !in_flight(b) ==> c == b
            &&& in_flight(b) ==> {
                &&& c.state is Evicted && c.pending_decision_id == 0 && c.waiter == 0
                &&& c.rm_h_memory == 0 && c.rm_h_client == 0 && c.rm_backing_length == 0
                &&& c.block_id == b.block_id && c.gpu_vaddr == b.gpu_vaddr && c.refcount
                    == b.refcount
            }
        }),
{
    crate::device::lemma_reaping(
        crate::device::one_executor_less(crate::device::withdrawing_range(v, d)),
        d.inserted_gpus,
    );
}

/// Everyone who waits for a block that was in flight is woken when the executor goes, and
/// no one else; nobody is when a plain handle is closed.
pub proof fn law_waiters_are_woken(v: PolarisView, d: DeviceView, i: int, who: u64)
    ensures
        !d.registered_gpu ==> woken_by_closing(v, d).len() == 0,
        d.registered_gpu && 0 <= i < v.blocks.len() && in_flight(v.blocks[i]) && v.blocks[i].waiter
            != 0 ==> woken_by_closing(v, d).contains(v.blocks[i].waiter),
        woken_by_closing(v, d).contains(who) ==> who != 0 && exists|j: int|
            0 <= j < v.blocks.len() && in_flight(#[trigger] v.blocks[j]) && v.blocks[j].waiter
                == who,
{
    let p = crate::device::stranded();
    let some = v.blocks.filter(p);
    lemma_filter_members(v.blocks, p);
    if d.registered_gpu && 0 <= i < v.blocks.len() && in_flight(v.blocks[i]) && v.blocks[i].waiter
        != 0 {
        assert(v.blocks.contains(v.blocks[i]));
        assert(some.contains(v.blocks[i]));
        let u = choose|u: int| 0 <= u < some.len() && some[u] == v.blocks[i];
        assert(woken_by_closing(v, d)[u] == v.blocks[i].waiter);
    }
    if woken_by_closing(v, d).contains(who) {
        let u = choose|u: int|
            0 <= u < woken_by_closing(v, d).len() && woken_by_closing(v, d)[u] == who;
        assert(some.contains(some[u]));
        let j = choose|j: int| 0 <= j < v.blocks.len() && v.blocks[j] == some[u];
        assert(in_flight(v.blocks[j]));
    }
}

/// A handle through which no GPU was announced leaves blocks, sessions, GPUs and the
/// queue as they are when it is closed.
pub proof fn law_plain_handle_closes_without_a_trace(v: PolarisView, d: DeviceView)
    requires
        !d.registered_gpu,
    ensures
        ({
            let w = closing(v, d);
            &&& w.blocks == v.blocks && w.sessions == v.sessions && w.gpus == v.gpus
            &&& w.pending_decisions == v.pending_decisions && w.daemon_attached
                == v.daemon_attached
            &&& d.v4_token == 0 ==> w == v
        }),
{
}

/// The range that a handle brought goes with it: the GPU has no range any more, and a
/// later one is used from its start. A range that took its place stays.
pub proof fn law_range_goes_with_its_handle(v: PolarisView, d: DeviceView, g: int)
    requires
        d.registered_gpu,
        d.inserted_gpus.len() == 0,
        d.va_range_id != 0,
        gpu_at(v, d.va_gpu, g),
    ensures
        ({
            let o = v.gpus[g];
            let w = closing(v, d);
            let h = w.gpus[g];
            &&& w.gpus.len() == v.gpus.len()
            &&& o.va_range_id == d.va_range_id ==> {
                &&& !h.va_range_registered && h.va_range_id == 0 && h.va_range_base == 0
                    && h.va_range_length == 0 && h.next_va_offset == 0 && h.va_block_size == 0
                    && h.va_range_flags == 0
                &&& h.gpu_id == o.gpu_id && h.used_bytes == o.used_bytes && h.total_bytes
                    == o.total_bytes && h.budget_bytes == o.budget_bytes && h.healthy == o.healthy
            }
            &&& o.va_range_id != d.va_range_id ==> h == o
            &&& forall|j: int| 0 <= j < v.gpus.len() && j != g ==> #[trigger] w.gpus[j] == v.gpus[j]
        }),
{
    law_gpu_is_found(v, d.va_gpu);
}

/// A GPU that a handle brought stays for as long as a session, a block or an address
/// space is on it.
pub proof fn law_gpu_in_use_outlasts_its_handle(v: PolarisView, d: DeviceView, g: int)
    requires
        d.registered_gpu,
        d.va_range_id == 0,
        0 <= g < v.gpus.len(),
        (exists|i: int|
            0 <= i < v.sessions.len() && (#[trigger] v.sessions[i]).home_gpu == v.gpus[g].gpu_id)
            || (exists|i: int|
            0 <= i < v.blocks.len() && (#[trigger] v.blocks[i]).home_gpu == v.gpus[g].gpu_id) || (
        exists|i: int|
            0 <= i < v.va_spaces.len() && (#[trigger] v.va_spaces[i]).gpu_id == v.gpus[g].gpu_id),
    ensures
        closing(v, d).gpus.contains(v.gpus[g]),
{
    let id = v.gpus[g].gpu_id;
    let x = crate::device::one_executor_less(crate::device::withdrawing_range(v, d));
    crate::device::lemma_reaping(x, d.inserted_gpus);
    assert(x.gpus.contains(v.gpus[g]));
    if exists|i: int| 0 <= i < v.sessions.len() && (#[trigger] v.sessions[i]).home_gpu == id {
        let i = choose|i: int| 0 <= i < v.sessions.len() && (#[trigger] v.sessions[i]).home_gpu == id;
        assert(crate::device::session_on(id)(x.sessions[i]));
    } else if exists|i: int| 0 <= i < v.blocks.len() && (#[trigger] v.blocks[i]).home_gpu == id {
        let i = choose|i: int| 0 <= i < v.blocks.len() && (#[trigger] v.blocks[i]).home_gpu == id;
        assert(crate::device::block_on(id)(x.blocks[i]));
    } else {
        let i = choose|i: int| 0 <= i < v.va_spaces.len() && (#[trigger] v.va_spaces[i]).gpu_id == id;
        assert(crate::device::va_space_on(id)(x.va_spaces[i]));
    }
}

/// A GPU that nothing is on goes with the handle that brought it.
pub proof fn law_unused_gpu_goes_with_its_handle(v: PolarisView, d: DeviceView, gpu_id: u32)
    requires
        d.registered_gpu,
        d.inserted_gpus.contains(gpu_id),
        forall|i: int| 0 <= i < v.sessions.len() ==> (#[trigger] v.sessions[i]).home_gpu != gpu_id,
        forall|i: int| 0 <= i < v.blocks.len() ==> (#[trigger] v.blocks[i]).home_gpu != gpu_id,
        forall|i: int| 0 <= i < v.va_spaces.len() ==> (#[trigger] v.va_spaces[i]).gpu_id != gpu_id,
    ensures
        no_gpu(closing(v, d), gpu_id),
{
    crate::device::law_closing_reaps_unused_gpu(v, d, gpu_id);
}

/// The address space that a handle announced goes with it, and all that is in it; other
/// address spaces and what is in them stay.
pub proof fn law_space_goes_with_its_handle(v: PolarisView, d: DeviceView)
    requires
        d.v4_token != 0,
    ensures
        ({
            let w = closing(v, d);
            let here = |gpu_id: u32, client: u64, token: u64|
                gpu_id == d.v4_gpu && client == d.v4_client && token == d.v4_token;
            &&& forall|x: PolarisVaSpace| #[trigger]
                w.va_spaces.contains(x) <==> v.va_spaces.contains(x) && !here(
                    x.gpu_id,
                    x.rm_client_token,
                    x.va_space_token,
                )
            &&& forall|x: PolarisStaticBlock| #[trigger]
                w.static_blocks.contains(x) <==> v.static_blocks.contains(x) && !here(
                    x.gpu_id,
                    x.rm_client_token,
                    x.va_space_token,
                )
            &&& forall|x: PolarisBlockMapping| #[trigger]
                w.block_mappings.contains(x) <==> v.block_mappings.contains(x) && !here(
                    x.gpu_id,
                    x.rm_client_token,
                    x.va_space_token,
                )
            &&& forall|i: int|
                0 <= i < w.fast_static_blocks.len() ==> !here(
                    (#[trigger] w.fast_static_blocks[i]).gpu_id,
                    w.fast_static_blocks[i].rm_client_token,
                    w.fast_static_blocks[i].va_space_token,
                )
        }),
{
    let x = crate::device::one_executor_less(crate::device::withdrawing_range(v, d));
    crate::device::lemma_reaping(x, d.inserted_gpus);
    lemma_filter_members(
        v.va_spaces,
        crate::vaspace::va_space_is_not(d.v4_gpu, d.v4_client, d.v4_token),
    );
    lemma_filter_members(v.static_blocks, static_outside(d.v4_gpu, d.v4_client, d.v4_token));
    lemma_filter_members(v.block_mappings, mapping_elsewhere(d.v4_gpu, d.v4_client, d.v4_token));
}

// ─── Address spaces ─────────────────────────────────────────────────────────

/// The record is of the address space.
pub open spec fn is_space(s: PolarisVaSpace, gpu_id: u32, client: u64, token: u64) -> bool {
    s.gpu_id == gpu_id && s.rm_client_token == client && s.va_space_token == token
}

/// An address space that was announced is known, and every fault in its window is in a
/// window of the hook from then on; the handle has it. No block, session or GPU changes.
pub proof fn law_announced_space_is_watched(
    v: PolarisView,
    d: DeviceView,
    arg: PolarisRegisterVaSpaceArg,
    pid: i32,
    f: GpuFault,
)
    requires
        announcing(v, d, arg, pid).0 is Ok,
        f.gpu_id == arg.gpu_id,
        f.rm_client_token == arg.rm_client_token,
        f.va_space_token == arg.va_space_token,
        arg.managed_base <= f.fault_address < arg.managed_base + arg.managed_length,
    ensures
        ({
            let (r, w, e) = announcing(v, d, arg, pid);
            let s = w.va_spaces.last();
            &&& in_a_window(w, f)
            &&& w.va_spaces == v.va_spaces.push(s)
            &&& is_space(s, arg.gpu_id, arg.rm_client_token, arg.va_space_token)
            &&& s.managed_base == arg.managed_base && s.managed_length == arg.managed_length
                && s.pid == pid
            &&& e.v4_gpu == arg.gpu_id && e.v4_client == arg.rm_client_token && e.v4_token
                == arg.va_space_token
            &&& w.blocks == v.blocks && w.sessions == v.sessions && w.gpus == v.gpus
                && w.block_mappings == v.block_mappings
        }),
{
    let slot = va_slot_is(arg.gpu_id, arg.rm_client_token, arg.va_space_token);
    lemma_first_index(v.fast_va_spaces, slot);
    lemma_first_index(v.fast_va_spaces, va_slot_free());
    let w = announcing(v, d, arg, pid).1;
    let i = match first_index(v.fast_va_spaces, slot) {
        Some(i) => i,
        None => first_index(v.fast_va_spaces, va_slot_free())->0,
    };
    assert(w.fast_va_spaces[i].va_space_token == f.va_space_token);
}

/// An address space is announced unless something stands against it: no token or no
/// window, a handle that has announced one, an unknown GPU, one that is known already,
/// or a full table.
pub proof fn law_announcements_that_are_refused(
    v: PolarisView,
    d: DeviceView,
    arg: PolarisRegisterVaSpaceArg,
    pid: i32,
)
    ensures
        ({
            let (r, w, e) = announcing(v, d, arg, pid);
            let known = exists|i: int|
                0 <= i < v.va_spaces.len() && is_space(
                    #[trigger] v.va_spaces[i],
                    arg.gpu_id,
                    arg.rm_client_token,
                    arg.va_space_token,
                );
            let free = exists|i: int|
                0 <= i < v.fast_va_spaces.len() && (
                #[trigger] v.fast_va_spaces[i]).va_space_token == 0;
            &&& r is Err ==> w == v && e == d
            &&& arg.va_space_token == 0 || arg.managed_length == 0 ==> r == Err::<(), i32>(EINVAL)
            &&& arg.va_space_token != 0 && arg.managed_length != 0 ==> {
                &&& d.v4_token != 0 ==> r == Err::<(), i32>(EBUSY)
                &&& d.v4_token == 0 && no_gpu(v, arg.gpu_id) ==> r == Err::<(), i32>(ENOENT)
                &&& d.v4_token == 0 && !no_gpu(v, arg.gpu_id) && known ==> r == Err::<(), i32>(
                    EEXIST,
                )
                &&& d.v4_token == 0 && !no_gpu(v, arg.gpu_id) && !known && free ==> r is Ok
            }
        }),
{
    law_gpu_is_found(v, arg.gpu_id);
    lemma_first_index(v.gpus, gpu_is(arg.gpu_id));
    let p = va_space_is(arg.gpu_id, arg.rm_client_token, arg.va_space_token);
    lemma_first_index(v.va_spaces, p);
    lemma_first_index(
        v.fast_va_spaces,
        va_slot_is(arg.gpu_id, arg.rm_client_token, arg.va_space_token),
    );
    lemma_first_index(v.fast_va_spaces, va_slot_free());
    if exists|i: int|
        0 <= i < v.va_spaces.len() && is_space(
            #[trigger] v.va_spaces[i],
            arg.gpu_id,
            arg.rm_client_token,
            arg.va_space_token,
        ) {
        let i = choose|i: int|
            0 <= i < v.va_spaces.len() && is_space(
                #[trigger] v.va_spaces[i],
                arg.gpu_id,
                arg.rm_client_token,
                arg.va_space_token,
            );
        assert(p(v.va_spaces[i]));
    }
    if exists|i: int|
        0 <= i < v.fast_va_spaces.len() && (#[trigger] v.fast_va_spaces[i]).va_space_token == 0 {
        let i = choose|i: int|
            0 <= i < v.fast_va_spaces.len() && (#[trigger] v.fast_va_spaces[i]).va_space_token
                == 0;
        assert(va_slot_free()(v.fast_va_spaces[i]));
    }
}

/// Only the handle that announced an address space can withdraw it. With it go exactly
/// the mappings and the static memory in it; no block goes.
pub proof fn law_withdrawn_space_takes_its_contents(
    v: PolarisView,
    d: DeviceView,
    arg: PolarisUnregisterVaSpaceArg,
    i: int,
)
    requires
        0 <= i < v.va_spaces.len(),
        is_space(v.va_spaces[i], arg.gpu_id, arg.rm_client_token, arg.va_space_token),
        forall|j: int|
            0 <= j < i ==> !is_space(
                #[trigger] v.va_spaces[j],
                arg.gpu_id,
                arg.rm_client_token,
                arg.va_space_token,
            ),
    ensures
        ({
            let owner = d.v4_gpu == arg.gpu_id && d.v4_client == arg.rm_client_token && d.v4_token
                == arg.va_space_token;
            let (r, w, e) = withdrawing(v, d, arg);
            &&& !owner ==> r == Err::<(), i32>(EPERM) && w == v && e == d
            &&& owner ==> {
                &&& r is Ok
                &&& w.va_spaces == v.va_spaces.remove(i)
                &&& forall|m: PolarisBlockMapping| #[trigger]
                    w.block_mappings.contains(m) <==> v.block_mappings.contains(m) && !(m.gpu_id
                        == arg.gpu_id && m.rm_client_token == arg.rm_client_token
                        && m.va_space_token == arg.va_space_token)
                &&& forall|s: PolarisStaticBlock| #[trigger]
                    w.static_blocks.contains(s) <==> v.static_blocks.contains(s) && !(s.gpu_id
                        == arg.gpu_id && s.rm_client_token == arg.rm_client_token
                        && s.va_space_token == arg.va_space_token)
                &&& e.v4_token == 0
                &&& w.blocks == v.blocks && w.sessions == v.sessions && w.gpus == v.gpus
            }
        }),
{
    let p = va_space_is(arg.gpu_id, arg.rm_client_token, arg.va_space_token);
    assert forall|j: int| 0 <= j < i implies !p(#[trigger] v.va_spaces[j]) by {}
    lemma_first_index_is(v.va_spaces, p, i);
    lemma_filter_members(
        v.block_mappings,
        mapping_elsewhere(arg.gpu_id, arg.rm_client_token, arg.va_space_token),
    );
    lemma_filter_members(
        v.static_blocks,
        static_outside(arg.gpu_id, arg.rm_client_token, arg.va_space_token),
    );
}

// ─── What is mapped ─────────────────────────────────────────────────────────

/// Entry `i` is the first record of the address space.
pub open spec fn space_is_at(v: PolarisView, gpu_id: u32, client: u64, token: u64, i: int) -> bool {
    &&& 0 <= i < v.va_spaces.len()
    &&& is_space(v.va_spaces[i], gpu_id, client, token)
    &&& forall|j: int|
        0 <= j < i ==> !is_space(#[trigger] v.va_spaces[j], gpu_id, client, token)
}

/// The addresses lie in the window of the address space, and no sum overflows.
pub open spec fn in_its_window(s: PolarisVaSpace, base: u64, length: u64) -> bool {
    s.managed_base <= base && base + length <= s.managed_base + s.managed_length
        && s.managed_base + s.managed_length <= u64::MAX
}

/// The record of an address space is found.
proof fn lemma_space_is_at(v: PolarisView, gpu_id: u32, client: u64, token: u64, i: int)
    requires
        space_is_at(v, gpu_id, client, token, i),
    ensures
        first_index(v.va_spaces, va_space_is(gpu_id, client, token)) == Some(i),
{
    let p = va_space_is(gpu_id, client, token);
    assert forall|j: int| 0 <= j < i implies !p(#[trigger] v.va_spaces[j]) by {}
    lemma_first_index_is(v.va_spaces, p, i);
}

/// The slot is that of the address space.
pub open spec fn watches(
    s: crate::types::PolarisFastVaSpaceSlot,
    gpu_id: u32,
    client: u64,
    token: u64,
) -> bool {
    s.gpu_id == gpu_id && s.rm_client_token == client && s.va_space_token == token
}

/// An address space that goes is watched no more, whether it is withdrawn or its handle is
/// closed; the others are watched as before.
pub proof fn law_space_that_goes_is_watched_no_more(
    v: PolarisView,
    d: DeviceView,
    arg: PolarisUnregisterVaSpaceArg,
    j: int,
)
    requires
        d.v4_token != 0,
        arg.gpu_id == d.v4_gpu,
        arg.rm_client_token == d.v4_client,
        arg.va_space_token == d.v4_token,
        0 <= j < v.fast_va_spaces.len(),
        watches(v.fast_va_spaces[j], d.v4_gpu, d.v4_client, d.v4_token),
        forall|i: int|
            0 <= i < v.fast_va_spaces.len() && i != j ==> !watches(
                #[trigger] v.fast_va_spaces[i],
                d.v4_gpu,
                d.v4_client,
                d.v4_token,
            ),
    ensures
        ({
            let closed = closing(v, d).fast_va_spaces;
            let withdrawn = withdrawing(v, d, arg);
            &&& closed.len() == v.fast_va_spaces.len()
            &&& closed[j].va_space_token == 0
            &&& forall|i: int|
                0 <= i < closed.len() && i != j ==> #[trigger] closed[i] == v.fast_va_spaces[i]
            &&& withdrawn.0 is Ok ==> withdrawn.1.fast_va_spaces == closed
        }),
{
    let x = crate::device::one_executor_less(crate::device::withdrawing_range(v, d));
    crate::device::lemma_reaping(x, d.inserted_gpus);
    let p = va_slot_is(d.v4_gpu, d.v4_client, d.v4_token);
    lemma_first_index_is(v.fast_va_spaces, p, j);
}

/// A block is mapped where its user says: at an address of a window of its GPU, for a
/// length. A place that is new is entered; one that is known gets the new length and is
/// not mapped any more. Anything else is refused and changes nothing.
pub proof fn law_block_is_mapped_where_it_is_said_to_be(
    v: PolarisView,
    arg: PolarisRegisterBlockMappingArg,
    s: int,
    i: int,
)
    requires
        arg.block_id != 0,
        arg.va_space_token != 0,
        arg.length != 0,
        space_is_at(v, arg.gpu_id, arg.rm_client_token, arg.va_space_token, s),
        block_at(v, arg.block_id, i),
    ensures
        ({
            let (r, w) = placing_block(v, arg);
            let m = w.block_mappings.last();
            let fits = v.blocks[i].home_gpu == arg.gpu_id && in_its_window(
                v.va_spaces[s],
                arg.base,
                arg.length,
            );
            let new = forall|k: int|
                0 <= k < v.block_mappings.len() ==> !((#[trigger] v.block_mappings[k]).block_id
                    == arg.block_id && v.block_mappings[k].gpu_id == arg.gpu_id
                    && v.block_mappings[k].rm_client_token == arg.rm_client_token
                    && v.block_mappings[k].va_space_token == arg.va_space_token
                    && v.block_mappings[k].base == arg.base);
            &&& !fits ==> r == Err::<(), i32>(EINVAL) && w == v
            &&& fits ==> r is Ok && w.blocks == v.blocks && w.va_spaces == v.va_spaces
            &&& fits && new ==> {
                &&& w.block_mappings == v.block_mappings.push(m)
                &&& m.block_id == arg.block_id && m.gpu_id == arg.gpu_id && m.rm_client_token
                    == arg.rm_client_token && m.va_space_token == arg.va_space_token
                &&& m.base == arg.base && m.length == arg.length
                &&& m.last_gpu_va_space_ptr == 0 && m.copy_gpu_va_space_ptr == 0
            }
            &&& fits && !new ==> {
                &&& w.block_mappings.len() == v.block_mappings.len()
                &&& exists|k: int|
                    {
                        &&& 0 <= k < v.block_mappings.len()
                        &&& (#[trigger] w.block_mappings[k]) == (PolarisBlockMapping {
                            length: arg.length,
                            last_gpu_va_space_ptr: 0,
                            copy_gpu_va_space_ptr: 0,
                            ..v.block_mappings[k]
                        })
                        &&& v.block_mappings[k].block_id == arg.block_id
                            && v.block_mappings[k].base == arg.base
                        &&& w.block_mappings == v.block_mappings.update(k, w.block_mappings[k])
                    }
            }
        }),
{
    lemma_space_is_at(v, arg.gpu_id, arg.rm_client_token, arg.va_space_token, s);
    law_block_is_found(v, arg.block_id);
    let p = mapping_at(
        arg.block_id,
        arg.gpu_id,
        arg.rm_client_token,
        arg.va_space_token,
        arg.base,
    );
    lemma_first_index(v.block_mappings, p);
    let w = placing_block(v, arg).1;
    match first_index(v.block_mappings, p) {
        Some(k) => {
            assert(p(v.block_mappings[k]));
            if v.blocks[i].home_gpu == arg.gpu_id && in_its_window(
                v.va_spaces[s],
                arg.base,
                arg.length,
            ) {
                assert(w.block_mappings[k].length == arg.length);
            }
        },
        None => {
            assert forall|k: int| 0 <= k < v.block_mappings.len() implies !((
            #[trigger] v.block_mappings[k]).block_id == arg.block_id && v.block_mappings[k].gpu_id
                == arg.gpu_id && v.block_mappings[k].rm_client_token == arg.rm_client_token
                && v.block_mappings[k].va_space_token == arg.va_space_token
                && v.block_mappings[k].base == arg.base) by {
                assert(!p(v.block_mappings[k]));
            }
        },
    }
}

/// Memory of the resource manager that its user names for a block backs it from then on,
/// as it was named, where it is enough for the block and of its GPU and the block is not
/// on its way or lost.
pub proof fn law_named_memory_backs_the_block(
    v: PolarisView,
    arg: PolarisRegisterBlockBackingArg,
    i: int,
)
    requires
        arg.block_id != 0,
        arg.length != 0,
        arg.h_client != 0,
        arg.h_memory != 0,
        block_at(v, arg.block_id, i),
    ensures
        ({
            let b = v.blocks[i];
            let (r, w) = backing(v, arg);
            let c = w.blocks[i];
            let fits = b.home_gpu == arg.gpu_id && arg.length >= b.size_bytes;
            let busy = b.state is FreePending || b.state is OffloadPending
                || b.state is ReloadPending || b.state is CowPending || b.state is Evicted;
            &&& !fits ==> r == Err::<(), i32>(EINVAL) && w == v
            &&& fits && busy ==> r == Err::<(), i32>(EBUSY) && w == v
            &&& fits && !busy ==> {
                &&& r is Ok
                &&& w == (PolarisView { blocks: v.blocks.update(i, c), ..v })
                &&& c == (PolarisBlock {
                    rm_control_fd: arg.rm_control_fd,
                    rm_h_client: arg.h_client,
                    rm_h_memory: arg.h_memory,
                    rm_backing_length: arg.length,
                    rm_backing_offset: arg.offset,
                    ..b
                })
            }
        }),
{
    law_block_is_found(v, arg.block_id);
}

/// Static memory that was placed is what a fault on any of its addresses finds, as long
/// as nothing was placed there before: the hook's table has it as it was described.
pub proof fn law_static_memory_is_found_where_it_was_placed(
    v: PolarisView,
    arg: PolarisRegisterStaticBlockArg,
    f: GpuFault,
)
    requires
        placing_static_block(v, arg).0 is Ok,
        f.gpu_id == arg.gpu_id,
        f.rm_client_token == arg.rm_client_token,
        f.va_space_token == arg.va_space_token,
        arg.base <= f.fault_address < arg.base + arg.length,
    ensures
        ({
            let w = placing_static_block(v, arg).1;
            let b = w.static_blocks.last();
            &&& exists|j: int|
                {
                    &&& #[trigger] static_there(w, f, j)
                    &&& w.fast_static_blocks[j].base == arg.base
                    &&& w.fast_static_blocks[j].length == arg.length
                    &&& w.fast_static_blocks[j].offset == arg.offset
                    &&& w.fast_static_blocks[j].rm_control_fd == arg.rm_control_fd
                    &&& w.fast_static_blocks[j].h_client == arg.h_client
                    &&& w.fast_static_blocks[j].h_memory == arg.h_memory
                }
            &&& w.static_blocks == v.static_blocks.push(b)
            &&& b.base == arg.base && b.length == arg.length && b.h_memory == arg.h_memory
                && b.gpu_id == arg.gpu_id
            &&& w.blocks == v.blocks && w.block_mappings == v.block_mappings
        }),
{
    let slot = crate::state::static_slot_is(
        arg.gpu_id,
        arg.rm_client_token,
        arg.va_space_token,
        arg.base,
    );
    lemma_first_index(v.fast_static_blocks, slot);
    lemma_first_index(v.fast_static_blocks, crate::vaspace::static_slot_free());
    let w = placing_static_block(v, arg).1;
    let j = match first_index(v.fast_static_blocks, slot) {
        Some(j) => j,
        None => first_index(v.fast_static_blocks, crate::vaspace::static_slot_free())->0,
    };
    assert(static_there(w, f, j));
}

/// Static memory has to be described in full, to lie in a known window, and to be the
/// first at its address.
pub proof fn law_static_memory_that_is_refused(
    v: PolarisView,
    arg: PolarisRegisterStaticBlockArg,
    s: int,
)
    ensures
        placing_static_block(v, arg).0 is Err ==> placing_static_block(v, arg).1 == v,
        arg.va_space_token == 0 || arg.length == 0 || arg.h_memory == 0 ==> placing_static_block(
            v,
            arg,
        ).0 == Err::<(), i32>(EINVAL),
        arg.va_space_token != 0 && arg.length != 0 && arg.h_memory != 0 && space_is_at(
            v,
            arg.gpu_id,
            arg.rm_client_token,
            arg.va_space_token,
            s,
        ) ==> {
            let r = placing_static_block(v, arg).0;
            let there = exists|j: int|
                #![trigger v.static_blocks[j]]
                0 <= j < v.static_blocks.len() && v.static_blocks[j].gpu_id == arg.gpu_id
                    && v.static_blocks[j].rm_client_token == arg.rm_client_token
                    && v.static_blocks[j].va_space_token == arg.va_space_token
                    && v.static_blocks[j].base == arg.base;
            &&& !in_its_window(v.va_spaces[s], arg.base, arg.length) ==> r == Err::<(), i32>(EINVAL)
            &&& in_its_window(v.va_spaces[s], arg.base, arg.length) && there ==> r == Err::<
                (),
                i32,
            >(EEXIST)
        },
{
    if space_is_at(v, arg.gpu_id, arg.rm_client_token, arg.va_space_token, s) {
        lemma_space_is_at(v, arg.gpu_id, arg.rm_client_token, arg.va_space_token, s);
    }
    let p = static_block_at(arg.gpu_id, arg.rm_client_token, arg.va_space_token, arg.base);
    if exists|j: int|
        #![trigger v.static_blocks[j]]
        0 <= j < v.static_blocks.len() && v.static_blocks[j].gpu_id == arg.gpu_id
            && v.static_blocks[j].rm_client_token == arg.rm_client_token
            && v.static_blocks[j].va_space_token == arg.va_space_token && v.static_blocks[j].base
            == arg.base {
        let j = choose|j: int|
            #![trigger v.static_blocks[j]]
            0 <= j < v.static_blocks.len() && v.static_blocks[j].gpu_id == arg.gpu_id
                && v.static_blocks[j].rm_client_token == arg.rm_client_token
                && v.static_blocks[j].va_space_token == arg.va_space_token
                && v.static_blocks[j].base == arg.base;
        assert(p(v.static_blocks[j]));
    }
}

// ─── Probes and copies ──────────────────────────────────────────────────────

/// Every mapping of the block that is mapped is mapped in this address space, and there
/// is one.
pub open spec fn mapped_only_in(v: PolarisView, block_id: u64, ptr: u64) -> bool {
    &&& ptr != 0
    &&& exists|k: int|
        0 <= k < v.block_mappings.len() && (#[trigger] v.block_mappings[k]).block_id == block_id
            && v.block_mappings[k].last_gpu_va_space_ptr == ptr
    &&& forall|k: int|
        0 <= k < v.block_mappings.len() && (#[trigger] v.block_mappings[k]).block_id == block_id
            && v.block_mappings[k].last_gpu_va_space_ptr != 0
            ==> v.block_mappings[k].last_gpu_va_space_ptr == ptr
}

/// A probe is of the memory of a resident block that is backed in full and mapped in one
/// address space: of as much as is asked, or of all of it, within the memory. The memory
/// of any other block is not probed, while a copy takes what a probe takes.
pub proof fn law_probe_is_of_a_resident_blocks_memory(
    v: PolarisView,
    block_id: u64,
    offset: u64,
    length: u64,
    i: int,
    ptr: u64,
)
    requires
        block_id != 0,
        block_at(v, block_id, i),
    ensures
        ({
            let b = v.blocks[i];
            let backed = b.rm_h_client != 0 && b.rm_h_memory != 0 && b.rm_backing_length
                >= b.size_bytes;
            let r = probe_span(v, block_id, offset, length);
            let n = if length == 0 {
                b.rm_backing_length
            } else {
                length
            };
            let within = n > 0 && offset < b.rm_backing_length && offset + n
                <= b.rm_backing_length;
            &&& !(b.state is Resident) || !backed ==> r is Err && r->Err_0 == ENOENT
            &&& b.state is Resident && backed && mapped_only_in(v, block_id, ptr) ==> {
                &&& !within ==> r is Err && r->Err_0 == EINVAL
                &&& within ==> r is Ok && r->Ok_0.1 == n && {
                    let t = r->Ok_0.0;
                    &&& t.block_id == block_id && t.gpu_id == b.home_gpu && t.gpu_va_space_ptr
                        == ptr
                    &&& t.rm_control_fd == b.rm_control_fd && t.h_client == b.rm_h_client
                        && t.h_memory == b.rm_h_memory && t.length == b.rm_backing_length
                }
            }
        }),
{
    law_block_is_found(v, block_id);
    let p = names_space(block_id, false);
    lemma_first_index(v.block_mappings, p);
    if mapped_only_in(v, block_id, ptr) {
        let k = choose|k: int|
            0 <= k < v.block_mappings.len() && (#[trigger] v.block_mappings[k]).block_id
                == block_id && v.block_mappings[k].last_gpu_va_space_ptr == ptr;
        assert(p(v.block_mappings[k]));
        let q = first_index(v.block_mappings, p)->0;
        assert(p(v.block_mappings[q]));
        assert(only_space(v, block_id, false) == Ok::<u64, i32>(ptr)) by {
            assert forall|j: int|
                0 <= j < v.block_mappings.len() && p(#[trigger] v.block_mappings[j]) implies
            v.block_mappings[j].last_gpu_va_space_ptr == ptr by {}
        }
    }
}

/// A copy names a host address and one of two directions.
pub proof fn law_copies_that_are_refused(v: PolarisView, arg: PolarisRmCopyArg)
    ensures
        arg.block_id == 0 || arg.user_cpu_addr == 0 || arg.direction > 1 ==> copy_span(v, arg) is Err
            && copy_span(v, arg)->Err_0 == EINVAL,
        arg.block_id != 0 && arg.user_cpu_addr != 0 && arg.direction <= 1 && no_block(
            v,
            arg.block_id,
        ) ==> copy_span(v, arg) is Err && copy_span(v, arg)->Err_0 == ENOENT,
{
    law_block_is_found(v, arg.block_id);
}

// ─── Unmapping ──────────────────────────────────────────────────────────────

/// What is to be unmapped of a block is every place where a fault mapped it, as it is,
/// and no place where it is not mapped; a block that there is not has no places.
pub proof fn law_mapped_places_are_told_of(
    v: PolarisView,
    block_id: u64,
    r: Result<Vec<PolarisMappingUnmap>, i32>,
)
    requires
        crate::vaspace::mappings_told(v, block_id, r),
    ensures
        block_id == 0 ==> r is Err && r->Err_0 == 22,
        block_id != 0 && no_block(v, block_id) ==> r is Err && r->Err_0 == 2,
        block_id != 0 && !no_block(v, block_id) ==> {
            &&& r is Ok
            &&& forall|k: int|
                #![trigger v.block_mappings[k]]
                0 <= k < v.block_mappings.len() && v.block_mappings[k].block_id == block_id
                    && v.block_mappings[k].last_gpu_va_space_ptr != 0 ==> exists|u: int|
                    0 <= u < r->Ok_0@.len() && names_place(#[trigger] r->Ok_0@[u], v.block_mappings[k])
            &&& forall|u: int|
                #![trigger r->Ok_0@[u]]
                0 <= u < r->Ok_0@.len() ==> r->Ok_0@[u].block_id == block_id
                    && r->Ok_0@[u].gpu_va_space_ptr != 0 && exists|k: int|
                    0 <= k < v.block_mappings.len() && names_place(
                        r->Ok_0@[u],
                        #[trigger] v.block_mappings[k],
                    )
        },
{
    law_block_is_found(v, block_id);
    if block_id != 0 && !no_block(v, block_id) {
        let p = crate::vaspace::observed(block_id);
        let some = v.block_mappings.filter(p);
        lemma_filter_members(v.block_mappings, p);
        assert forall|k: int|
            #![trigger v.block_mappings[k]]
            0 <= k < v.block_mappings.len() && v.block_mappings[k].block_id == block_id
                && v.block_mappings[k].last_gpu_va_space_ptr != 0 implies exists|u: int|
            0 <= u < r->Ok_0@.len() && names_place(#[trigger] r->Ok_0@[u], v.block_mappings[k]) by {
            assert(v.block_mappings.contains(v.block_mappings[k]));
            assert(some.contains(v.block_mappings[k]));
            let u = choose|u: int| 0 <= u < some.len() && some[u] == v.block_mappings[k];
            assert(names_place(r->Ok_0@[u], v.block_mappings[k]));
        }
        assert forall|u: int|
            #![trigger r->Ok_0@[u]]
            0 <= u < r->Ok_0@.len() implies r->Ok_0@[u].block_id == block_id
            && r->Ok_0@[u].gpu_va_space_ptr != 0 && exists|k: int|
            0 <= k < v.block_mappings.len() && names_place(
                r->Ok_0@[u],
                #[trigger] v.block_mappings[k],
            ) by {
            assert(some.contains(some[u]));
            let k = choose|k: int|
                0 <= k < v.block_mappings.len() && v.block_mappings[k] == some[u];
            assert(names_place(r->Ok_0@[u], v.block_mappings[k]));
        }
    }
}

/// The entry names the place and the address space of the mapping.
pub open spec fn names_place(u: PolarisMappingUnmap, m: PolarisBlockMapping) -> bool {
    u.block_id == m.block_id && u.gpu_id == m.gpu_id && u.rm_client_token == m.rm_client_token
        && u.va_space_token == m.va_space_token && u.base == m.base && u.length == m.length
        && u.gpu_va_space_ptr == m.last_gpu_va_space_ptr
}

/// What was unmapped counts as unmapped, and remembers where it was for copies; every
/// other mapping stays.
pub proof fn law_unmapped_places_are_remembered(
    ms: Seq<PolarisBlockMapping>,
    us: Seq<PolarisMappingUnmap>,
    k: int,
)
    requires
        0 <= k < ms.len(),
    ensures
        unmapped(ms, us).len() == ms.len(),
        unmapped(ms, us)[k] == ms[k] || unmapped(ms, us)[k] == (PolarisBlockMapping {
            last_gpu_va_space_ptr: 0,
            ..ms[k]
        }),
        (forall|u: int|
            0 <= u < us.len() ==> !((#[trigger] us[u]).block_id == ms[k].block_id && us[u].base
                == ms[k].base && us[u].gpu_va_space_ptr == ms[k].last_gpu_va_space_ptr))
            ==> unmapped(ms, us)[k] == ms[k],
    decreases us.len(),
{
    if us.len() > 0 {
        let init = us.drop_last();
        law_unmapped_places_are_remembered(ms, init, k);
        let before = unmapped(ms, init);
        lemma_first_index(before, crate::vaspace::still_observed(us.last()));
        if forall|u: int|
            0 <= u < us.len() ==> !((#[trigger] us[u]).block_id == ms[k].block_id && us[u].base
                == ms[k].base && us[u].gpu_va_space_ptr == ms[k].last_gpu_va_space_ptr) {
            assert forall|u: int| 0 <= u < init.len() implies !((#[trigger] init[u]).block_id
                == ms[k].block_id && init[u].base == ms[k].base && init[u].gpu_va_space_ptr
                == ms[k].last_gpu_va_space_ptr) by {
                assert(init[u] == us[u]);
            }
            assert(us.last() == us[us.len() - 1]);
        }
    }
}

/// A mapping that was to be unmapped, and was, is unmapped.
pub proof fn law_listed_place_is_unmapped(
    ms: Seq<PolarisBlockMapping>,
    us: Seq<PolarisMappingUnmap>,
    k: int,
    u: int,
)
    requires
        0 <= k < ms.len(),
        0 <= u < us.len(),
        us[u].block_id == ms[k].block_id && us[u].gpu_id == ms[k].gpu_id && us[u].rm_client_token
            == ms[k].rm_client_token && us[u].va_space_token == ms[k].va_space_token && us[u].base
            == ms[k].base && us[u].length == ms[k].length && us[u].gpu_va_space_ptr
            == ms[k].last_gpu_va_space_ptr,
        forall|j: int|
            0 <= j < ms.len() && j != k ==> !((#[trigger] ms[j]).block_id == ms[k].block_id
                && ms[j].gpu_id == ms[k].gpu_id && ms[j].rm_client_token == ms[k].rm_client_token
                && ms[j].va_space_token == ms[k].va_space_token && ms[j].base == ms[k].base),
    ensures
        unmapped(ms, us)[k].last_gpu_va_space_ptr == 0,
        unmapped(ms, us)[k].copy_gpu_va_space_ptr == ms[k].copy_gpu_va_space_ptr,
    decreases us.len(),
{
    let init = us.drop_last();
    let before = unmapped(ms, init);
    assert forall|j: int| 0 <= j < ms.len() implies (#[trigger] before[j]) == ms[j] || before[j]
        == (PolarisBlockMapping { last_gpu_va_space_ptr: 0, ..ms[j] }) by {
        law_unmapped_places_are_remembered(ms, init, j);
    }
    law_unmapped_places_are_remembered(ms, init, k);
    law_unmapped_places_are_remembered(ms, us, k);
    let p = crate::vaspace::still_observed(us.last());
    lemma_first_index(before, p);
    if u < us.len() - 1 {
        assert(init[u] == us[u]);
        law_listed_place_is_unmapped(ms, init, k, u);
    } else if before[k].last_gpu_va_space_ptr != 0 {
        assert(us.last() == us[u]);
        assert(before[k] == ms[k]);
        assert(p(before[k]));
        let x = first_index(before, p)->0;
        assert(p(before[x]));
        assert(before[x].block_id == ms[k].block_id && before[x].base == ms[k].base);
        assert(ms[x].block_id == ms[k].block_id);
        assert(x == k);
    }
}

} // verus!
