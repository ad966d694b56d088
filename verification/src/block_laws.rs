//! What a block goes through from one request to the next: to the host and
//! back, a private copy beside what others share, in and out of the tables.

use crate::abi::{
    PolarisBlockReleaseArg, PolarisBlockReserveArg, PolarisBlockTouchArg,
    PolarisCompleteOperationArg, PolarisDecisionOp, PolarisRmCopyArg, PolarisSessionBranchArg,
    PolarisSessionCreateArg, POLARIS_DEFAULT_FAULT_TIMEOUT_MS, POLARIS_RM_COPY_TO_CPU,
};
use crate::blocks::{
    block_in_the_way, copied_block, defers, id_is, ids_to_touch, listed_exactly,
    listed_overlapping, overwrites, own_overlapping, raises_fault, releasing, reserve_fits,
    reserving, spilling, token_address, touched_ids, touching,
};
use crate::decisions::{asks_for, awaits, completing};
use crate::errno::ENOMEM;
use crate::fault::{
    covers_fault, fault_begins, fault_fits, fault_target, lemma_fault_target, managed,
    schedule_victim, FaultTarget, GpuFault,
};
use crate::laws::law_spill_keeps_order;
use crate::listings::{below, listed};
use crate::num::lemma_round_up;
use crate::numbers::{
    law_decision_concerns_one_block, law_fault_keeps_numbers, law_spill_keeps_numbers, numbered,
};
use crate::order::{inv, space_remembered};
use crate::policy::{law_victim_is_movable, VictimRequest};
use crate::seqs::{
    first_index, lemma_filter_all, lemma_first_index, lemma_first_index_is, lemma_last_index_is,
};
use crate::sessions::{asked_va, branch_fits, branching, create_fits, creating};
use crate::state::{block_is, gpu_is, session_is, PolarisView};
use crate::types::{
    PolarisBlock, PolarisBlockMapping, PolarisMappingUnmap, PolarisRmPhysProbeTarget, SessionView,
    POLARIS_MAX_PENDING_DECISIONS,
};
use crate::vaspace::{
    copy_space, copy_span, names_memory, names_space, only_space, space_in, still_observed,
    unmapped,
};
use vstd::prelude::*;

verus! {

// ─── One step of the way ────────────────────────────────────────────────────

/// The block that waits for a decision is the one that its completion is about.
proof fn lemma_awaited(v: PolarisView, i: int)
    requires
        numbered(v),
        0 <= i < v.blocks.len(),
        v.blocks[i].pending_decision_id != 0,
    ensures
        first_index(v.blocks, awaits(v.blocks[i].pending_decision_id)) == Some(i),
{
    let d = v.blocks[i].pending_decision_id;
    assert forall|j: int| 0 <= j < i implies !awaits(d)(#[trigger] v.blocks[j]) by {
        if awaits(d)(v.blocks[j]) {
            law_decision_concerns_one_block(v, d, i, j);
        }
    }
    lemma_first_index_is(v.blocks, awaits(d), i);
}

/// The answer of an executor that did what the last decision in the queue asks,
/// and reports no memory of the resource manager.
pub open spec fn done(v: PolarisView, arg: PolarisCompleteOperationArg) -> bool {
    &&& v.pending_decisions.len() > 0
    &&& arg.decision_id == v.pending_decisions.last().decision_id
    &&& arg.generation == v.pending_decisions.last().generation
    &&& arg.result == 0
    &&& arg.rm_control_fd == 0 && arg.rm_h_client == 0 && arg.rm_h_memory == 0
        && arg.rm_backing_length == 0
}

/// A private copy is made from the block: its memory is named by the handle, or,
/// where the resource manager's memory backs it, by its id.
pub open spec fn copied_from(b: PolarisBlock, handle: u64, source: u64) -> bool {
    b.gpu_phys_handle == handle && source == copied_block(b)
}

/// Making room leaves a block alone that is not resident, or whose memory is
/// protected.
proof fn lemma_room_spares(
    v: PolarisView,
    session_id: u64,
    gpu_id: u32,
    needed: u64,
    handle: u64,
    source: u64,
    now: u64,
    i: int,
)
    requires
        0 <= i < v.blocks.len(),
        !(v.blocks[i].state is Resident) || (copied_from(v.blocks[i], handle, source)
            && v.blocks[i].block_id != 0),
    ensures
        ({
            let w = schedule_victim(v, session_id, gpu_id, needed, handle, source, now).1;
            &&& w.blocks.len() == v.blocks.len()
            &&& w.blocks[i] == v.blocks[i]
            &&& w.gpus == v.gpus
            &&& w.sessions == v.sessions
        }),
{
    law_victim_is_movable(
        v,
        (VictimRequest {
            requesting_session_id: session_id,
            target_gpu: gpu_id,
            protected_phys_handle: handle,
            protected_block_id: source,
        }),
        now,
    );
}

// ─── The queue ──────────────────────────────────────────────────────────────

/// While the queue is full, a reservation that would have a block made resident
/// is refused and changes nothing.
pub proof fn law_full_queue_refuses_reservations(v: PolarisView, arg: PolarisBlockReserveArg, k: int)
    requires
        v.daemon_attached != 0,
        v.find_session(arg.session_id) == Some(k),
        v.queue_is_full(),
        raises_fault(v, v.sessions[k], arg),
    ensures
        reserving(v, arg).0 is Err,
        reserving(v, arg).0->Err_0 == ENOMEM,
        reserving(v, arg).1 == v,
{
}

/// Reserving, releasing and spilling never make the queue longer than it may be.
pub proof fn law_block_requests_keep_queue_limit(
    v: PolarisView,
    reserve: PolarisBlockReserveArg,
    release: PolarisBlockReleaseArg,
    block_id: u64,
)
    requires
        v.pending_decisions.len() <= POLARIS_MAX_PENDING_DECISIONS,
    ensures
        reserving(v, reserve).1.pending_decisions.len() <= POLARIS_MAX_PENDING_DECISIONS,
        releasing(v, release).1.pending_decisions.len() <= POLARIS_MAX_PENDING_DECISIONS,
        spilling(v, block_id).1.pending_decisions.len() <= POLARIS_MAX_PENDING_DECISIONS,
{
}

/// What a block is asked to be moved or freed for is what a retry would ask for.
pub proof fn law_moves_can_be_retried(v: PolarisView, i: int)
    ensures
        v.queue_offload(i).0 is Ok ==> asks_for(
            v.queue_offload(i).1.pending_decisions.last(),
            v.queue_offload(i).1.blocks[i],
        ),
        v.queue_free(i).0 is Ok ==> asks_for(
            v.queue_free(i).1.pending_decisions.last(),
            v.queue_free(i).1.blocks[i],
        ),
{
}

/// What a fault asks the executor for is what a retry would ask for: also where it
/// maps memory that another block holds.
pub proof fn law_faults_can_be_retried(v: PolarisView, f: GpuFault, now: u64)
    requires
        fault_begins(v, f, now).0 is Ok,
        fault_begins(v, f, now).0->Ok_0 is Wait,
    ensures
        ({
            let w = fault_begins(v, f, now).1;
            let d = w.pending_decisions.last();
            exists|i: int|
                {
                    &&& 0 <= i < w.blocks.len()
                    &&& (#[trigger] w.blocks[i]).pending_decision_id == d.decision_id
                    &&& asks_for(d, w.blocks[i])
                }
        }),
{
    let w = fault_begins(v, f, now).1;
    let d = w.pending_decisions.last();
    lemma_fault_target(v, f.gpu_id, f.fault_address);
    match fault_target(v, f.gpu_id, f.fault_address) {
        FaultTarget::Inherited { session_id, i } => {
            let n = v.blocks.len() as int;
            lemma_inherited(v, f.gpu_id, f.fault_address);
            assert(w.blocks[n].pending_decision_id == d.decision_id);
            assert(asks_for(d, w.blocks[n]));
        },
        FaultTarget::Block(i) => {
            let b = v.blocks[i];
            let counted = PolarisView { next_fault_id: (v.next_fault_id + 1) as u64, ..v };
            if !(b.state is Resident) {
                let (handle, source) = if b.state is CowPending {
                    (b.cow_src_handle, b.cow_src_block_id)
                } else {
                    (0u64, 0u64)
                };
                lemma_room_spares(
                    counted,
                    b.session_id,
                    f.gpu_id,
                    b.size_bytes,
                    handle,
                    source,
                    now,
                    i,
                );
            }
            assert(w.blocks[i].pending_decision_id == d.decision_id);
            assert(asks_for(d, w.blocks[i]));
        },
        FaultTarget::Nothing => {},
    }
}

/// An inherited block that is mapped elsewhere has memory to map.
proof fn lemma_inherited(v: PolarisView, gpu_id: u32, addr: u64)
    ensures
        fault_target(v, gpu_id, addr) matches FaultTarget::Inherited { session_id, i }
            ==> v.blocks[i].gpu_phys_handle != 0,
{
}

// ─── To the host and back ───────────────────────────────────────────────────

/// A resident block again at its addresses after a stay in host memory, under
/// another handle.
pub open spec fn back_again(b: PolarisBlock, handle: u64, now: u64) -> PolarisBlock {
    PolarisBlock {
        gpu_phys_handle: handle,
        cpu_buf_addr: 0,
        map_time_ns: now,
        last_touch_ns: now,
        retry_count: 0,
        pending_decision_id: 0,
        pending_fault_id: 0,
        pending_generation: 0,
        fault_timeout_ms: POLARIS_DEFAULT_FAULT_TIMEOUT_MS,
        map_src_handle: 0,
        waiter: 0,
        ..b.without_rm_backing()
    }
}

/// A block that is moved to host memory stays the same block at the same
/// addresses, and what it was moved to is remembered.
pub proof fn law_spilled_block_keeps_its_place(
    v: PolarisView,
    i: int,
    spilled: PolarisCompleteOperationArg,
    now: u64,
)
    requires
        inv(v),
        numbered(v),
        v.next_decision_id < u64::MAX,
        0 <= i < v.blocks.len(),
        v.blocks[i].state is Resident,
        spilling(v, v.blocks[i].block_id).0 is Ok,
        done(spilling(v, v.blocks[i].block_id).1, spilled),
    ensures
        ({
            let b = v.blocks[i];
            let asked = spilling(v, b.block_id).1;
            let d = asked.pending_decisions.last();
            let (r, w) = completing(asked, spilled, now);
            &&& d.op == PolarisDecisionOp::Offload.code()
            &&& d.block_id == b.block_id
            &&& d.src_handle == b.gpu_phys_handle
            &&& d.src_vaddr == b.gpu_vaddr
            &&& r is Ok
            &&& w.blocks.len() == v.blocks.len()
            &&& w.blocks[i].state is CpuOffloaded
            &&& w.blocks[i] == (PolarisBlock {
                state: w.blocks[i].state,
                gpu_phys_handle: 0,
                cpu_buf_addr: spilled.output_cpu_addr,
                retry_count: 0,
                pending_decision_id: 0,
                pending_fault_id: 0,
                pending_generation: 0,
                waiter: 0,
                ..b.without_rm_backing()
            })
            &&& forall|j: int| 0 <= j < v.blocks.len() && j != i ==> #[trigger] w.blocks[j] == v.blocks[j]
        }),
{
    let b = v.blocks[i];
    lemma_found(v, i);
    let asked = spilling(v, b.block_id).1;
    law_spill_keeps_numbers(v, b.block_id);
    lemma_awaited(asked, i);
    assert(asked.pending_decisions.last().decision_id == v.next_decision_id);
}

/// A resident block can be asked to move to host memory while the queue has room:
/// one with a handle, and one that the resource manager's memory backs.
pub proof fn law_resident_block_can_be_spilled(v: PolarisView, i: int)
    requires
        inv(v),
        0 <= i < v.blocks.len(),
        v.blocks[i].state is Resident,
        v.blocks[i].gpu_phys_handle != 0 || v.blocks[i].rm_backed(),
        !v.queue_is_full(),
    ensures
        spilling(v, v.blocks[i].block_id).0 == Ok::<u64, i32>(v.next_decision_id),
        spilling(v, v.blocks[i].block_id).1.blocks[i].state is OffloadPending,
{
    lemma_found(v, i);
}

/// Taking mappings away leaves what they are of and where they were last mapped.
proof fn lemma_unmapped_remembers(ms: Seq<PolarisBlockMapping>, us: Seq<PolarisMappingUnmap>)
    ensures
        unmapped(ms, us).len() == ms.len(),
        forall|k: int|
            0 <= k < ms.len() ==> {
                let m = #[trigger] unmapped(ms, us)[k];
                &&& m.block_id == ms[k].block_id
                &&& m.copy_gpu_va_space_ptr == ms[k].copy_gpu_va_space_ptr
                &&& m.last_gpu_va_space_ptr == 0 || m.last_gpu_va_space_ptr
                    == ms[k].last_gpu_va_space_ptr
            },
    decreases us.len(),
{
    if us.len() > 0 {
        lemma_unmapped_remembers(ms, us.drop_last());
        lemma_first_index(unmapped(ms, us.drop_last()), still_observed(us.last()));
    }
}

/// However many of a block's mappings are taken away, its memory is copied through
/// the address space that it was mapped in.
pub proof fn law_unmapped_block_can_be_copied(
    v: PolarisView,
    block_id: u64,
    us: Seq<PolarisMappingUnmap>,
    ptr: u64,
)
    requires
        inv(v),
        only_space(v, block_id, true) == Ok::<u64, i32>(ptr),
    ensures
        copy_space(
            PolarisView { block_mappings: unmapped(v.block_mappings, us), ..v },
            block_id,
        ) == Ok::<u64, i32>(ptr),
{
    let ms = v.block_mappings;
    let w = PolarisView { block_mappings: unmapped(ms, us), ..v };
    lemma_unmapped_remembers(ms, us);
    lemma_first_index(ms, names_space(block_id, true));
    lemma_first_index(w.block_mappings, names_space(block_id, true));
    lemma_first_index(w.block_mappings, names_space(block_id, false));
    assert forall|k: int|
        0 <= k < ms.len() && names_space(block_id, true)(#[trigger] ms[k]) implies space_in(
        ms[k],
        true,
    ) == ptr by {}
    let k = first_index(ms, names_space(block_id, true))->0;
    assert(names_space(block_id, true)(w.block_mappings[k]));
    assert forall|j: int| 0 <= j < ms.len() implies {
        let m = #[trigger] w.block_mappings[j];
        &&& names_space(block_id, true)(m) ==> space_in(m, true) == ptr
        &&& names_space(block_id, false)(m) ==> space_in(m, false) == ptr
    } by {
        assert(space_remembered(ms[j]));
    }
}

/// The memory of a block that is spilled can be copied to a buffer while it is on
/// its way, though its mappings were taken away: all of it, through the address
/// space that it was mapped in.
pub proof fn law_spilled_memory_can_be_copied(
    v: PolarisView,
    i: int,
    us: Seq<PolarisMappingUnmap>,
    ptr: u64,
    arg: PolarisRmCopyArg,
)
    requires
        inv(v),
        0 <= i < v.blocks.len(),
        v.blocks[i].state is Resident,
        v.blocks[i].rm_backed(),
        !v.queue_is_full(),
        only_space(v, v.blocks[i].block_id, true) == Ok::<u64, i32>(ptr),
        arg.block_id == v.blocks[i].block_id,
        !names_memory(arg),
        arg.user_cpu_addr != 0,
        arg.direction == POLARIS_RM_COPY_TO_CPU,
        arg.offset == 0,
        arg.length == v.blocks[i].size_bytes,
        arg.length > 0,
    ensures
        ({
            let b = v.blocks[i];
            let asked = spilling(v, b.block_id).1;
            let w = PolarisView { block_mappings: unmapped(asked.block_mappings, us), ..asked };
            &&& spilling(v, b.block_id).0 is Ok
            &&& copy_span(w, arg) == Ok::<(PolarisRmPhysProbeTarget, u64), i32>(
                (
                    PolarisRmPhysProbeTarget {
                        block_id: b.block_id,
                        gpu_id: b.home_gpu,
                        gpu_va_space_ptr: ptr,
                        rm_control_fd: b.rm_control_fd,
                        h_client: b.rm_h_client,
                        h_memory: b.rm_h_memory,
                        length: b.rm_backing_length,
                    },
                    b.size_bytes,
                ),
            )
        }),
{
    let b = v.blocks[i];
    lemma_found(v, i);
    let asked = spilling(v, b.block_id).1;
    law_spill_keeps_order(v, b.block_id);
    lemma_found(asked, i);
    assert(only_space(asked, b.block_id, true) == only_space(v, b.block_id, true));
    law_unmapped_block_can_be_copied(asked, b.block_id, us, ptr);
}

/// A block is found by its id.
proof fn lemma_found(v: PolarisView, i: int)
    requires
        inv(v),
        0 <= i < v.blocks.len(),
    ensures
        v.find_block(v.blocks[i].block_id) == Some(i),
        v.blocks[i].block_id != 0,
{
    let id = v.blocks[i].block_id;
    assert forall|j: int| 0 <= j < i implies !block_is(id)(#[trigger] v.blocks[j]) by {}
    lemma_first_index_is(v.blocks, block_is(id), i);
}

/// A fault on a block that is in host memory brings it back to the addresses it
/// had: the executor is told where it is, and when it has done its work the
/// block is resident again.
pub proof fn law_spilled_block_comes_back(
    v: PolarisView,
    i: int,
    f: GpuFault,
    then: u64,
    reloaded: PolarisCompleteOperationArg,
    now: u64,
)
    requires
        numbered(v),
        fault_fits(v),
        0 <= i < v.blocks.len(),
        v.blocks[i].state is CpuOffloaded,
        managed(v, f),
        fault_target(v, f.gpu_id, f.fault_address) == FaultTarget::Block(i),
        fault_begins(v, f, then).0 is Ok,
        done(fault_begins(v, f, then).1, reloaded),
    ensures
        ({
            let b = v.blocks[i];
            let asked = fault_begins(v, f, then).1;
            let d = asked.pending_decisions.last();
            let (r, w) = completing(asked, reloaded, now);
            &&& d.op == PolarisDecisionOp::Reload.code()
            &&& d.block_id == b.block_id
            &&& d.cpu_addr == b.cpu_buf_addr
            &&& d.dst_vaddr == b.gpu_vaddr
            &&& d.size_bytes == b.size_bytes
            &&& r == Ok::<u64, i32>(v.next_fault_id)
            &&& w.blocks[i].state is Resident
            &&& w.blocks[i] == PolarisBlock {
                state: w.blocks[i].state,
                ..back_again(b, reloaded.output_handle, now)
            }
        }),
{
    let b = v.blocks[i];
    let counted = PolarisView { next_fault_id: (v.next_fault_id + 1) as u64, ..v };
    lemma_room_spares(counted, b.session_id, f.gpu_id, b.size_bytes, 0, 0, then, i);
    let room = schedule_victim(counted, b.session_id, f.gpu_id, b.size_bytes, 0, 0, then).1;
    let asked = fault_begins(v, f, then).1;
    law_fault_keeps_numbers(v, f, then);
    assert(asked.blocks[i].pending_decision_id == room.next_decision_id);
    assert(asked.pending_decisions.last().decision_id == room.next_decision_id);
    assert(asked.pending_decisions[asked.pending_decisions.len() - 1].decision_id > 0);
    lemma_awaited(asked, i);
}

// ─── A private copy ─────────────────────────────────────────────────────────

/// A session that overwrites what it shares gets a block of its own at its own
/// addresses; the block that it shared stays with the others as it was, but for
/// the reference that is gone, and no other session sees a change.
pub proof fn law_overwrite_spares_the_sharers(v: PolarisView, arg: PolarisBlockReserveArg, k: int, i: int)
    requires
        v.daemon_attached != 0,
        v.find_session(arg.session_id) == Some(k),
        block_in_the_way(
            v,
            v.sessions[k],
            arg.token_start as int,
            arg.token_start + arg.token_count,
        ) == Some(i),
        v.blocks[i].refcount > 1,
        overwrites(arg),
        !v.queue_is_full(),
    ensures
        ({
            let s = v.sessions[k];
            let b = v.blocks[i];
            let n = v.blocks.len() as int;
            let (r, w) = reserving(v, arg);
            &&& 0 <= i < n
            &&& r is Ok
            &&& r->Ok_0.0.block_id == v.next_block_id
            &&& r->Ok_0.0.gpu_vaddr == token_address(s, arg.token_start) as u64
            &&& w.blocks.len() == n + 1
            &&& w.blocks[n].block_id == v.next_block_id
            &&& w.blocks[n].session_id == arg.session_id
            &&& w.blocks[n].refcount == 1
            &&& copied_from(b, w.blocks[n].cow_src_handle, w.blocks[n].cow_src_block_id)
            &&& w.blocks[n].gpu_vaddr == r->Ok_0.0.gpu_vaddr
            &&& w.blocks[i] == PolarisBlock {
                refcount: (b.refcount - 1) as u64,
                flags: w.blocks[i].flags,
                ..b
            }
            &&& forall|j: int| 0 <= j < n && j != i ==> #[trigger] w.blocks[j] == v.blocks[j]
            &&& forall|j: int|
                0 <= j < v.sessions.len() && j != k ==> #[trigger] w.sessions[j] == v.sessions[j]
            &&& w.sessions[k].block_ids.contains(v.next_block_id)
        }),
{
    let s = v.sessions[k];
    let start = arg.token_start as int;
    let end = arg.token_start + arg.token_count;
    lemma_first_index(v.sessions, session_is(arg.session_id));
    lemma_first_index(v.blocks, own_overlapping(s.session_id, start, end));
    lemma_first_index(v.blocks, listed_overlapping(s.block_ids, start, end));
    let w = reserving(v, arg).1;
    let ids = w.sessions[k].block_ids;
    lemma_first_index(s.block_ids, id_is(v.blocks[i].block_id));
    match first_index(s.block_ids, id_is(v.blocks[i].block_id)) {
        Some(p) => {
            assert(ids[p] == v.next_block_id);
        },
        None => {
            assert(ids[s.block_ids.len() as int] == v.next_block_id);
        },
    }
}

/// The copy is made from the memory that was shared: the executor is told to
/// copy from there to the block's own addresses, and when it is done the block
/// is resident while what it was copied from was not touched.
pub proof fn law_copy_leaves_its_source(
    v: PolarisView,
    i: int,
    n: int,
    f: GpuFault,
    then: u64,
    copied: PolarisCompleteOperationArg,
    now: u64,
)
    requires
        inv(v),
        numbered(v),
        fault_fits(v),
        0 <= i < v.blocks.len(),
        0 <= n < v.blocks.len(),
        i != n,
        v.blocks[n].state is CowPending,
        copied_from(v.blocks[i], v.blocks[n].cow_src_handle, v.blocks[n].cow_src_block_id),
        managed(v, f),
        fault_target(v, f.gpu_id, f.fault_address) == FaultTarget::Block(n),
        fault_begins(v, f, then).0 is Ok,
        done(fault_begins(v, f, then).1, copied),
    ensures
        ({
            let c = v.blocks[n];
            let asked = fault_begins(v, f, then).1;
            let d = asked.pending_decisions.last();
            let (r, w) = completing(asked, copied, now);
            &&& d.op == PolarisDecisionOp::CowBreak.code()
            &&& d.block_id == c.block_id
            &&& d.src_handle == v.blocks[i].gpu_phys_handle
            &&& d._reserved == c.cow_source()
            &&& d.dst_vaddr == c.gpu_vaddr
            &&& r == Ok::<u64, i32>(v.next_fault_id)
            &&& w.blocks[n].state is Resident
            &&& w.blocks[n].gpu_phys_handle == copied.output_handle
            &&& w.blocks[n].gpu_vaddr == c.gpu_vaddr
            &&& w.blocks[i] == v.blocks[i]
            &&& w.sessions == v.sessions
        }),
{
    lemma_found(v, i);
    let c = v.blocks[n];
    let handle = c.cow_src_handle;
    let source = c.cow_src_block_id;
    let counted = PolarisView { next_fault_id: (v.next_fault_id + 1) as u64, ..v };
    lemma_room_spares(counted, c.session_id, f.gpu_id, c.size_bytes, handle, source, then, i);
    lemma_room_spares(counted, c.session_id, f.gpu_id, c.size_bytes, handle, source, then, n);
    let room = schedule_victim(counted, c.session_id, f.gpu_id, c.size_bytes, handle, source, then).1;
    let asked = fault_begins(v, f, then).1;
    law_fault_keeps_numbers(v, f, then);
    assert(asked.blocks[n].pending_decision_id == room.next_decision_id);
    assert(asked.pending_decisions.last().decision_id == room.next_decision_id);
    assert(asked.pending_decisions[asked.pending_decisions.len() - 1].decision_id > 0);
    lemma_awaited(asked, n);
}

/// A fault at an address is about the newest block there.
pub proof fn law_newest_block_is_meant(v: PolarisView, gpu_id: u32, addr: u64)
    requires
        v.blocks.len() > 0,
        covers_fault(gpu_id, addr)(v.blocks.last()),
    ensures
        fault_target(v, gpu_id, addr) == FaultTarget::Block(v.blocks.len() - 1),
{
    lemma_last_index_is(v.blocks, covers_fault(gpu_id, addr), v.blocks.len() - 1);
}

// ─── In and out of the tables ───────────────────────────────────────────────

/// A block that was reserved without memory and released again leaves the
/// tables as they were; what stays is that an id was used up.
pub proof fn law_reserve_then_release_restores(
    v: PolarisView,
    reserve: PolarisBlockReserveArg,
    release: PolarisBlockReleaseArg,
    k: int,
)
    requires
        inv(v),
        reserve_fits(v, reserve),
        v.daemon_attached != 0,
        v.find_session(reserve.session_id) == Some(k),
        reserve.token_count > 0,
        defers(reserve),
        block_in_the_way(
            v,
            v.sessions[k],
            reserve.token_start as int,
            reserve.token_start + reserve.token_count,
        ) is None,
        listed(v),
        release.session_id == reserve.session_id,
        release.token_start == reserve.token_start,
        release.token_count == reserve.token_count,
    ensures
        reserving(v, reserve).0 is Ok,
        releasing(reserving(v, reserve).1, release).0 is Ok,
        releasing(reserving(v, reserve).1, release).1 == (PolarisView {
            next_block_id: (v.next_block_id + 1) as u64,
            ..v
        }),
{
    let s = v.sessions[k];
    let id = v.next_block_id;
    let n = v.blocks.len() as int;
    let start = reserve.token_start as int;
    let end = reserve.token_start + reserve.token_count;
    lemma_first_index(v.sessions, session_is(reserve.session_id));
    lemma_first_index(v.blocks, own_overlapping(s.session_id, start, end));
    lemma_first_index(v.blocks, listed_overlapping(s.block_ids, start, end));
    let w = reserving(v, reserve).1;
    let t = w.sessions[k];
    assert(t.block_ids == s.block_ids.push(id));
    assert(below(s.block_ids, id));
    assert(!s.block_ids.contains(id));
    assert(is_same_session_elsewhere(v, w, k));
    assert(w.find_session(release.session_id) == Some(k)) by {
        assert forall|j: int| 0 <= j < k implies !session_is(release.session_id)(
            #[trigger] w.sessions[j],
        ) by {
            assert(!session_is(release.session_id)(v.sessions[j]));
        }
        lemma_first_index_is(w.sessions, session_is(release.session_id), k);
    }
    let p = listed_exactly(t.block_ids, release.token_start, release.token_count);
    assert forall|j: int| 0 <= j < n implies !p(#[trigger] w.blocks[j]) by {
        let b = v.blocks[j];
        assert(w.blocks[j] == b);
        if p(b) {
            assert(b.block_id < id);
            let q = choose|q: int| 0 <= q < t.block_ids.len() && t.block_ids[q] == b.block_id;
            assert(s.block_ids[q] == b.block_id);
            assert(listed_overlapping(s.block_ids, start, end)(b));
        }
    }
    assert(t.block_ids[s.block_ids.len() as int] == id);
    assert(p(w.blocks[n]));
    lemma_first_index_is(w.blocks, p, n);
    let c = w.blocks[n];
    let x = w.accounting_removal(c);
    lemma_first_index(w.gpus, gpu_is(c.home_gpu));
    assert(x =~= w);
    lemma_never_mapped(w, id);
    let y = PolarisView { blocks: w.blocks.remove(n), ..w };
    assert(y.blocks =~= v.blocks);
    assert(y.without_mappings_of(id) =~= y);
    assert(y.find_session(release.session_id) == Some(k));
    assert(t.block_ids.filter(crate::state::id_is_not(id)) == s.block_ids) by {
        lemma_struck(s.block_ids, id);
    }
    let z = y.without_listing(release.session_id, id);
    assert(z.sessions =~= v.sessions);
}

/// The sessions but one are the same.
spec fn is_same_session_elsewhere(v: PolarisView, w: PolarisView, k: int) -> bool {
    w.sessions.len() == v.sessions.len() && forall|j: int|
        0 <= j < v.sessions.len() && j != k ==> #[trigger] w.sessions[j] == v.sessions[j]
}

/// Striking from a list what was put at its end restores it.
proof fn lemma_struck(ids: Seq<u64>, id: u64)
    requires
        !ids.contains(id),
    ensures
        ids.push(id).filter(crate::state::id_is_not(id)) == ids,
{
    reveal(Seq::filter);
    let p = crate::state::id_is_not(id);
    assert(ids.push(id).drop_last() =~= ids);
    assert forall|i: int| 0 <= i < ids.len() implies p(#[trigger] ids[i]) by {
        assert(ids.contains(ids[i]));
    }
    lemma_filter_all(ids, p);
}

/// Where nothing maps a block, nothing is forgotten with it.
proof fn lemma_never_mapped(w: PolarisView, id: u64)
    requires
        forall|m: int| 0 <= m < w.block_mappings.len() ==> (#[trigger] w.block_mappings[m]).block_id != id,
    ensures
        w.forgetting_static_blocks_of(id) == w,
        w.without_mappings_of(id) == w,
{
    let p = crate::state::static_block_apart_from(w.block_mappings, id);
    assert forall|j: int| 0 <= j < w.static_blocks.len() implies p(#[trigger] w.static_blocks[j]) by {}
    lemma_filter_all(w.static_blocks, p);
    lemma_filter_all(w.block_mappings, crate::state::mapping_not_of(id));
    lemma_no_slot_freed(w.fast_static_blocks, w.block_mappings, id);
    assert(w.forgetting_static_blocks_of(id) =~= w);
    assert(w.without_mappings_of(id) =~= w);
}

/// Where nothing maps a block, no slot is freed with it.
proof fn lemma_no_slot_freed(
    slots: Seq<crate::types::PolarisFastStaticBlockSlot>,
    mappings: Seq<crate::types::PolarisBlockMapping>,
    id: u64,
)
    requires
        forall|m: int| 0 <= m < mappings.len() ==> (#[trigger] mappings[m]).block_id != id,
    ensures
        crate::state::static_slots_freed_for_block(slots, mappings, id) == slots,
    decreases mappings.len(),
{
    if mappings.len() > 0 {
        let init = mappings.drop_last();
        assert forall|m: int| 0 <= m < init.len() implies (#[trigger] init[m]).block_id != id by {
            assert(init[m] == mappings[m]);
        }
        lemma_no_slot_freed(slots, init, id);
        assert(mappings[mappings.len() - 1].block_id != id);
    }
}

// ─── Addresses ──────────────────────────────────────────────────────────────

/// The addresses of a session's tokens lie side by side: those of later tokens
/// follow at the size of a token each.
pub proof fn law_tokens_lie_side_by_side(s: SessionView, token: u32, count: u32)
    requires
        token + count <= u32::MAX,
    ensures
        token_address(s, (token + count) as u32) == token_address(s, token) + count
            * s.bytes_per_token,
{
    assert((token + count) * s.bytes_per_token == token * s.bytes_per_token + count
        * s.bytes_per_token) by (nonlinear_arith);
}

/// Sessions that are opened one after the other get addresses that lie apart,
/// in the range of their GPU.
pub proof fn law_sessions_lie_apart(
    v: PolarisView,
    one: PolarisSessionCreateArg,
    two: PolarisSessionCreateArg,
    g: int,
)
    requires
        one.home_gpu == two.home_gpu,
        v.find_gpu(one.home_gpu) == Some(g),
        v.gpus[g].va_range_registered,
        v.gpus[g].va_range_base + v.gpus[g].va_range_length <= u64::MAX,
        create_fits(v, one),
        create_fits(creating(v, one).1, two),
        creating(v, one).0 is Ok,
        creating(creating(v, one).1, two).0 is Ok,
    ensures
        ({
            let w = creating(v, one).1;
            let x = creating(w, two).1;
            let a = w.sessions.last();
            let b = x.sessions.last();
            &&& v.gpus[g].va_range_base <= a.gpu_vas_base
            &&& a.gpu_vas_base + a.gpu_vas_size <= b.gpu_vas_base
            &&& b.gpu_vas_base + b.gpu_vas_size <= v.gpus[g].va_range_base
                + v.gpus[g].va_range_length
            &&& a.gpu_vas_size == asked_va(one)
            &&& b.gpu_vas_size == asked_va(two)
        }),
{
    lemma_first_index(v.gpus, gpu_is(one.home_gpu));
    let w = creating(v, one).1;
    lemma_same_gpu_found(v, w, one.home_gpu, g);
    lemma_round_up(asked_va(one) as int, crate::abi::POLARIS_VA_ALIGNMENT as int);
    lemma_round_up(asked_va(two) as int, crate::abi::POLARIS_VA_ALIGNMENT as int);
}

/// A GPU whose record changed but for its id is found where it was.
proof fn lemma_same_gpu_found(v: PolarisView, w: PolarisView, gpu_id: u32, g: int)
    requires
        v.find_gpu(gpu_id) == Some(g),
        w.gpus.len() == v.gpus.len(),
        forall|j: int| 0 <= j < v.gpus.len() ==> (#[trigger] w.gpus[j]).gpu_id == v.gpus[j].gpu_id,
    ensures
        w.find_gpu(gpu_id) == Some(g),
{
    lemma_first_index(v.gpus, gpu_is(gpu_id));
    assert forall|j: int| 0 <= j < g implies !gpu_is(gpu_id)(#[trigger] w.gpus[j]) by {
        assert(!gpu_is(gpu_id)(v.gpus[j]));
    }
    assert(w.gpus[g].gpu_id == v.gpus[g].gpu_id);
    lemma_first_index_is(w.gpus, gpu_is(gpu_id), g);
}

/// A branch gets addresses past all that were given out on its GPU before, as
/// many as its parent has.
pub proof fn law_branch_has_addresses_of_its_own(v: PolarisView, arg: PolarisSessionBranchArg, p: int, g: int)
    requires
        v.find_session(arg.parent_session_id) == Some(p),
        v.find_gpu(v.sessions[p].home_gpu) == Some(g),
        v.gpus[g].va_range_registered,
        branch_fits(v, arg),
        branching(v, arg).0 is Ok,
    ensures
        ({
            let w = branching(v, arg).1;
            let c = w.sessions.last();
            &&& c.session_id == v.next_session_id
            &&& c.block_ids == v.sessions[p].block_ids
            &&& c.gpu_vas_base == v.gpus[g].va_range_base + v.gpus[g].next_va_offset
            &&& c.gpu_vas_size == v.sessions[p].gpu_vas_size
            &&& w.gpus[g].next_va_offset >= v.gpus[g].next_va_offset + c.gpu_vas_size
            &&& w.gpus[g].next_va_offset <= v.gpus[g].va_range_length
        }),
{
    lemma_first_index(v.gpus, gpu_is(v.sessions[p].home_gpu));
    lemma_round_up(
        v.sessions[p].gpu_vas_size as int,
        crate::abi::POLARIS_VA_ALIGNMENT as int,
    );
}

// ─── Touching ───────────────────────────────────────────────────────────────

/// The block is one of those that a session's touch is about: it reserved it or
/// lists it, and the block holds one of the tokens.
pub open spec fn is_touched(v: PolarisView, arg: PolarisBlockTouchArg, b: PolarisBlock) -> bool {
    &&& b.overlaps_tokens(arg.token_start as int, arg.token_start + arg.token_count)
    &&& b.session_id == arg.session_id || (v.find_session(arg.session_id) matches Some(k)
        && v.sessions[k].block_ids.contains(b.block_id))
}

/// A touch marks exactly the blocks that it is about, and nothing but the time
/// of their last use changes.
pub proof fn law_touch_marks_what_it_is_about(v: PolarisView, arg: PolarisBlockTouchArg, now: u64, i: int)
    requires
        inv(v),
        0 <= i < v.blocks.len(),
    ensures
        ({
            let w = touching(v, arg, now);
            &&& w == PolarisView { blocks: w.blocks, ..v }
            &&& w.blocks.len() == v.blocks.len()
            &&& w.blocks[i] == (if is_touched(v, arg, v.blocks[i]) {
                PolarisBlock { last_touch_ns: now, ..v.blocks[i] }
            } else {
                v.blocks[i]
            })
        }),
{
    let start = arg.token_start as int;
    let end = arg.token_start + arg.token_count;
    let listed = match v.find_session(arg.session_id) {
        Some(k) => v.sessions[k].block_ids,
        None => Seq::empty(),
    };
    let n = v.blocks.len() as int;
    let ids = ids_to_touch(listed, v.blocks, arg.session_id, start, end, n);
    lemma_ids_to_touch(listed, v.blocks, arg.session_id, start, end, n, v.blocks[i].block_id);
    lemma_touched_ids(v, ids, start, end, now, i);
    let b = v.blocks[i];
    if b.session_id == arg.session_id && b.overlaps_tokens(start, end) {
        assert(own_overlapping(arg.session_id, start, end)(v.blocks[i]));
    }
    if ids.contains(b.block_id) && !listed.contains(b.block_id) {
        let j = choose|j: int|
            0 <= j < n && (#[trigger] v.blocks[j]).block_id == b.block_id && own_overlapping(
                arg.session_id,
                start,
                end,
            )(v.blocks[j]);
        assert(j == i);
    }
}

/// Which ids are touched: the listed ones and those of the session's own blocks.
proof fn lemma_ids_to_touch(
    listed: Seq<u64>,
    blocks: Seq<PolarisBlock>,
    session_id: u64,
    start: int,
    end: int,
    n: int,
    id: u64,
)
    requires
        0 <= n <= blocks.len(),
    ensures
        ids_to_touch(listed, blocks, session_id, start, end, n).contains(id) <==> listed.contains(
            id,
        ) || exists|j: int|
            0 <= j < n && (#[trigger] blocks[j]).block_id == id && own_overlapping(
                session_id,
                start,
                end,
            )(blocks[j]),
    decreases n,
{
    if n > 0 {
        lemma_ids_to_touch(listed, blocks, session_id, start, end, n - 1, id);
        let before = ids_to_touch(listed, blocks, session_id, start, end, n - 1);
        let after = ids_to_touch(listed, blocks, session_id, start, end, n);
        let b = blocks[n - 1];
        if own_overlapping(session_id, start, end)(b) && !before.contains(b.block_id) {
            assert(after[before.len() as int] == b.block_id);
            if before.contains(id) {
                let q = choose|q: int| 0 <= q < before.len() && before[q] == id;
                assert(after[q] == id);
            }
            if after.contains(id) {
                let q = choose|q: int| 0 <= q < after.len() && after[q] == id;
                if q < before.len() {
                    assert(before[q] == id);
                }
            }
        }
        if exists|j: int|
            0 <= j < n && (#[trigger] blocks[j]).block_id == id && own_overlapping(
                session_id,
                start,
                end,
            )(blocks[j]) {
            let j = choose|j: int|
                0 <= j < n && (#[trigger] blocks[j]).block_id == id && own_overlapping(
                    session_id,
                    start,
                    end,
                )(blocks[j]);
            if j == n - 1 && before.contains(b.block_id) {
                assert(before.contains(id));
            }
        }
    }
}

/// Touching by ids marks block `i` where its id is among them and it holds one
/// of the tokens.
proof fn lemma_touched_ids(v: PolarisView, ids: Seq<u64>, start: int, end: int, now: u64, i: int)
    requires
        inv(v),
        0 <= i < v.blocks.len(),
    ensures
        ({
            let t = touched_ids(v.blocks, ids, start, end, now);
            &&& t.len() == v.blocks.len()
            &&& forall|j: int|
                0 <= j < t.len() ==> (#[trigger] t[j]) == PolarisBlock {
                    last_touch_ns: t[j].last_touch_ns,
                    ..v.blocks[j]
                }
            &&& t[i] == (if ids.contains(v.blocks[i].block_id) && v.blocks[i].overlaps_tokens(
                start,
                end,
            ) {
                PolarisBlock { last_touch_ns: now, ..v.blocks[i] }
            } else {
                v.blocks[i]
            })
        }),
    decreases ids.len(),
{
    if ids.len() > 0 {
        let init = ids.drop_last();
        lemma_touched_ids(v, init, start, end, now, i);
        let before = touched_ids(v.blocks, init, start, end, now);
        let id = ids.last();
        lemma_first_index(before, block_is(id));
        let b = v.blocks[i];
        assert(ids.contains(b.block_id) <==> init.contains(b.block_id) || b.block_id == id) by {
            assert(ids[ids.len() - 1] == id);
            if init.contains(b.block_id) {
                let q = choose|q: int| 0 <= q < init.len() && init[q] == b.block_id;
                assert(ids[q] == b.block_id);
            }
            if ids.contains(b.block_id) {
                let q = choose|q: int| 0 <= q < ids.len() && ids[q] == b.block_id;
                if q < init.len() {
                    assert(init[q] == b.block_id);
                }
            }
        }
        if b.block_id == id {
            assert(block_is(id)(before[i]));
            let x = first_index(before, block_is(id))->0;
            assert(before[x].block_id == v.blocks[x].block_id);
            assert(x == i);
        } else if let Some(x) = first_index(before, block_is(id)) {
            assert(x != i);
        }
    }
}

} // verus!
