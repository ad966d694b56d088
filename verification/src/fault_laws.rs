//! What a fault is for: whichever address of a block a GPU touches, the block is
//! brought to it.

use crate::abi::PolarisBlockState;
use crate::errno::{ENODEV, ENOMEM, ETIMEDOUT};
use crate::fault::{
    covers_fault, fault_begins, fault_ends, fault_target, first_inherited, foreign_block, managed,
    names_foreign_block, schedule_victim, session_spans, va_space_serves, FaultStep, FaultTarget,
    GpuFault,
};
use crate::places::{
    block_at, gpu_at, law_block_is_found, law_gpu_is_found, law_session_is_found, no_gpu,
    session_at,
};
use crate::policy::{victim, VictimRequest};
use crate::seqs::{first_index, lemma_first_index, lemma_first_index_is, lemma_last_index_is};
use crate::state::PolarisView;
use crate::types::PolarisBlock;
use vstd::prelude::*;

verus! {

// ─── In plain terms ─────────────────────────────────────────────────────────

/// The block is on the GPU, and the address is one of its own: any of them, not only
/// the first.
pub open spec fn has_address(b: PolarisBlock, gpu_id: u32, addr: u64) -> bool {
    b.home_gpu == gpu_id && b.gpu_vaddr <= addr < b.gpu_vaddr + b.size_bytes
}

/// Entry `i` is the newest block with the address.
pub open spec fn newest_with(v: PolarisView, gpu_id: u32, addr: u64, i: int) -> bool {
    &&& 0 <= i < v.blocks.len()
    &&& has_address(v.blocks[i], gpu_id, addr)
    &&& forall|j: int| i < j < v.blocks.len() ==> !has_address(#[trigger] v.blocks[j], gpu_id, addr)
}

/// The GPU's registered range has the address.
pub open spec fn in_range_of_gpu(v: PolarisView, gpu_id: u32, addr: u64) -> bool {
    exists|g: int| #[trigger]
        gpu_at(v, gpu_id, g) && v.gpus[g].va_range_registered && v.gpus[g].va_range_base <= addr
            < v.gpus[g].va_range_base + v.gpus[g].va_range_length
}

/// Entry `i` is the first address space that the fault can come from: of its GPU, with
/// its token, and of its client or of any.
pub open spec fn space_at(v: PolarisView, f: GpuFault, i: int) -> bool {
    &&& 0 <= i < v.va_spaces.len()
    &&& v.va_spaces[i].gpu_id == f.gpu_id
    &&& v.va_spaces[i].va_space_token == f.va_space_token
    &&& v.va_spaces[i].rm_client_token == 0 || v.va_spaces[i].rm_client_token == f.rm_client_token
    &&& forall|j: int|
        0 <= j < i ==> !((#[trigger] v.va_spaces[j]).gpu_id == f.gpu_id
            && v.va_spaces[j].va_space_token == f.va_space_token && (v.va_spaces[j].rm_client_token
            == 0 || v.va_spaces[j].rm_client_token == f.rm_client_token))
}

/// The address is managed: in the range of the GPU, or, where the fault names an
/// address space, in the window of that.
pub open spec fn is_managed(v: PolarisView, f: GpuFault) -> bool {
    if f.va_space_token == 0 {
        in_range_of_gpu(v, f.gpu_id, f.fault_address)
    } else {
        exists|i: int| #[trigger]
            space_at(v, f, i) && v.va_spaces[i].managed_base <= f.fault_address
                < v.va_spaces[i].managed_base + v.va_spaces[i].managed_length
    }
}

/// The GPU's budget has room for so many bytes more.
pub open spec fn has_room(v: PolarisView, gpu_id: u32, bytes: u64) -> bool {
    bytes == 0 || exists|g: int| #[trigger]
        gpu_at(v, gpu_id, g) && (v.gpus[g].budget_bytes == 0 || v.gpus[g].used_bytes + bytes
            <= v.gpus[g].budget_bytes)
}

/// The last address of all is nobody's; short of it, an address is managed or not, in
/// the terms of the fault handler and in plain ones.
proof fn lemma_managed(v: PolarisView, f: GpuFault)
    requires
        f.fault_address < u64::MAX,
    ensures
        managed(v, f) == is_managed(v, f),
{
    law_gpu_is_found(v, f.gpu_id);
    lemma_first_index(v.va_spaces, va_space_serves(f));
    assert forall|i: int| #[trigger] space_at(v, f, i) implies first_index(
        v.va_spaces,
        va_space_serves(f),
    ) == Some(i) by {
        assert forall|j: int| 0 <= j < i implies !va_space_serves(f)(#[trigger] v.va_spaces[j]) by {}
        lemma_first_index_is(v.va_spaces, va_space_serves(f), i);
    }
    if let Some(i) = first_index(v.va_spaces, va_space_serves(f)) {
        assert forall|j: int| 0 <= j < i implies !((#[trigger] v.va_spaces[j]).gpu_id == f.gpu_id
            && v.va_spaces[j].va_space_token == f.va_space_token && (v.va_spaces[j].rm_client_token
            == 0 || v.va_spaces[j].rm_client_token == f.rm_client_token)) by {
            assert(!va_space_serves(f)(v.va_spaces[j]));
        }
        assert(space_at(v, f, i));
    }
}

/// The newest block with the address is what the fault is about.
proof fn lemma_newest(v: PolarisView, f: GpuFault, i: int)
    requires
        f.fault_address < u64::MAX,
        newest_with(v, f.gpu_id, f.fault_address, i),
    ensures
        fault_target(v, f.gpu_id, f.fault_address) == FaultTarget::Block(i),
{
    let p = covers_fault(f.gpu_id, f.fault_address);
    assert forall|j: int| i < j < v.blocks.len() implies !p(#[trigger] v.blocks[j]) by {
        assert(!has_address(v.blocks[j], f.gpu_id, f.fault_address));
    }
    lemma_last_index_is(v.blocks, p, i);
}

/// Where there is room, none has to be made.
proof fn lemma_room(v: PolarisView, session: u64, gpu_id: u32, bytes: u64, h: u64, s: u64, now: u64)
    requires
        has_room(v, gpu_id, bytes),
    ensures
        schedule_victim(v, session, gpu_id, bytes, h, s, now) == (Ok::<(), i32>(()), v),
{
    law_gpu_is_found(v, gpu_id);
}

// ─── Faults ─────────────────────────────────────────────────────────────────

/// What is asked for about a block: a block in host memory is to come back, a private
/// copy is to be made, memory that is there is to be mapped, and any other block is
/// to get memory.
pub open spec fn op_for(state: PolarisBlockState) -> u32 {
    if state is CpuOffloaded {
        5
    } else if state is CowPending {
        6
    } else if state is Resident {
        2
    } else {
        0
    }
}

/// Whichever of its addresses is touched, the newest block there is waited for, and
/// where its memory is there or has room, the executor is asked for exactly one thing:
/// to bring it to its addresses. No other block is touched, and no other table.
pub proof fn law_every_address_brings_the_block(v: PolarisView, f: GpuFault, now: u64, i: int)
    requires
        f.fault_address < u64::MAX,
        is_managed(v, f),
        newest_with(v, f.gpu_id, f.fault_address, i),
        v.pending_decisions.len() < 1024,
        v.blocks[i].state is Resident || has_room(v, f.gpu_id, v.blocks[i].size_bytes),
        v.next_fault_id < u64::MAX,
        v.next_decision_id < u64::MAX,
    ensures
        ({
            let b = v.blocks[i];
            let (r, w) = fault_begins(v, f, now);
            let d = w.pending_decisions.last();
            let c = w.blocks[i];
            &&& r matches Ok(FaultStep::Wait { block_id, fault_id, timeout_ms })
                && block_id == b.block_id && fault_id == v.next_fault_id && timeout_ms == 5000
            &&& w.pending_decisions == v.pending_decisions.push(d)
            &&& d.decision_id == v.next_decision_id && w.next_decision_id == v.next_decision_id + 1
            &&& d.fault_id == v.next_fault_id && w.next_fault_id == v.next_fault_id + 1
            &&& d.op == op_for(b.state)
            &&& d.block_id == b.block_id && d.session_id == b.session_id && d.gpu_id == f.gpu_id
            &&& d.dst_vaddr == b.gpu_vaddr && d.size_bytes == b.size_bytes
            &&& d.cpu_addr == b.cpu_buf_addr
            &&& d.src_handle == if b.state is CowPending {
                b.cow_src_handle
            } else {
                b.gpu_phys_handle
            }
            &&& b.state is CowPending && b.cow_src_block_id != 0 ==> d._reserved[0]
                == b.cow_src_block_id && d._reserved[1] == 1
            &&& d.generation == v.fault_generation && d.access_flags == f.access_type
            &&& w.blocks == v.blocks.update(i, c)
            &&& c.pending_decision_id == d.decision_id && c.pending_generation == d.generation
            &&& c.waiter == v.next_fault_id
            &&& b.state is Resident ==> c.state is Resident
            &&& b.state is CpuOffloaded ==> c.state is ReloadPending
            &&& b.state is CowPending ==> c.state is CowPending
            &&& !(b.state is Resident || b.state is CpuOffloaded || b.state is CowPending)
                ==> c.state is AllocPending
            &&& c.block_id == b.block_id && c.session_id == b.session_id && c.gpu_vaddr
                == b.gpu_vaddr && c.size_bytes == b.size_bytes && c.refcount == b.refcount
                && c.gpu_phys_handle == b.gpu_phys_handle && c.cpu_buf_addr == b.cpu_buf_addr
            &&& c == (PolarisBlock {
                state: c.state,
                pending_fault_id: v.next_fault_id,
                pending_generation: v.fault_generation,
                pending_decision_id: v.next_decision_id,
                map_src_handle: 0,
                fault_timeout_ms: 5000,
                waiter: v.next_fault_id,
                ..b
            })
            &&& d.src_vaddr == f.fault_address && d.timeout_ms == 5000
            &&& w.pending_faults == v.pending_faults.push(w.pending_faults.last())
            &&& w.pending_faults.last().gpu_id == f.gpu_id && w.pending_faults.last().access_type
                == f.access_type && w.pending_faults.last().generation == v.fault_generation
            &&& w.pending_faults.len() == v.pending_faults.len() + 1
            &&& w.pending_faults.last().fault_id == v.next_fault_id
                && w.pending_faults.last().block_id == b.block_id
                && w.pending_faults.last().fault_address == f.fault_address
                && w.pending_faults.last().enqueue_ns == now
            &&& w.sessions == v.sessions && w.gpus == v.gpus && w.block_mappings == v.block_mappings
        }),
{
    lemma_managed(v, f);
    lemma_newest(v, f, i);
    let b = v.blocks[i];
    let counted = PolarisView { next_fault_id: (v.next_fault_id + 1) as u64, ..v };
    if !(b.state is Resident) {
        let (h, s) = if b.state is CowPending {
            (b.cow_src_handle, b.cow_src_block_id)
        } else {
            (0u64, 0u64)
        };
        assert(has_room(counted, f.gpu_id, b.size_bytes)) by {
            if b.size_bytes != 0 {
                let g = choose|g: int| #[trigger]
                    gpu_at(v, f.gpu_id, g) && (v.gpus[g].budget_bytes == 0 || v.gpus[g].used_bytes
                        + b.size_bytes <= v.gpus[g].budget_bytes);
                assert(gpu_at(counted, f.gpu_id, g));
            }
        }
        lemma_room(counted, b.session_id, f.gpu_id, b.size_bytes, h, s, now);
    }
}

/// Two faults on addresses of the same block ask for the same: where in the block the
/// GPU strikes does not matter.
pub proof fn law_addresses_of_a_block_are_alike(
    v: PolarisView,
    f: GpuFault,
    other: u64,
    now: u64,
    i: int,
)
    requires
        f.fault_address < u64::MAX,
        other < u64::MAX,
        is_managed(v, f),
        is_managed(v, GpuFault { fault_address: other, ..f }),
        newest_with(v, f.gpu_id, f.fault_address, i),
        newest_with(v, f.gpu_id, other, i),
    ensures
        ({
            let (r, w) = fault_begins(v, f, now);
            let (q, x) = fault_begins(v, GpuFault { fault_address: other, ..f }, now);
            &&& r == q
            &&& w.blocks == x.blocks
            &&& w.pending_decisions.len() == x.pending_decisions.len()
        }),
{
    let e = GpuFault { fault_address: other, ..f };
    lemma_managed(v, f);
    lemma_managed(v, e);
    lemma_newest(v, f, i);
    lemma_newest(v, e, i);
}

/// An address that is not managed is left to others, and nothing changes.
pub proof fn law_foreign_addresses_are_left_alone(v: PolarisView, f: GpuFault, now: u64)
    requires
        f.fault_address < u64::MAX,
        !is_managed(v, f),
    ensures
        fault_begins(v, f, now) == (Ok::<FaultStep, i32>(FaultStep::NotMine), v),
{
    lemma_managed(v, f);
}

/// A managed address that neither a block nor a session has is an error, and nothing
/// changes.
pub proof fn law_address_of_nothing_is_an_error(v: PolarisView, f: GpuFault, now: u64)
    requires
        f.fault_address < u64::MAX,
        is_managed(v, f),
        forall|j: int|
            0 <= j < v.blocks.len() ==> !has_address(
                #[trigger] v.blocks[j],
                f.gpu_id,
                f.fault_address,
            ),
        forall|k: int|
            0 <= k < v.sessions.len() ==> !((#[trigger] v.sessions[k]).gpu_vas_base
                <= f.fault_address < v.sessions[k].gpu_vas_base + v.sessions[k].gpu_vas_size),
    ensures
        fault_begins(v, f, now) == (Ok::<FaultStep, i32>(FaultStep::Error), v),
{
    lemma_managed(v, f);
    lemma_nothing_covers(v, f);
    lemma_first_index(v.sessions, session_spans(f.fault_address));
}

/// No block with the address, none that the fault is about.
proof fn lemma_nothing_covers(v: PolarisView, f: GpuFault)
    requires
        forall|j: int|
            0 <= j < v.blocks.len() ==> !has_address(
                #[trigger] v.blocks[j],
                f.gpu_id,
                f.fault_address,
            ),
    ensures
        crate::seqs::last_index(v.blocks, covers_fault(f.gpu_id, f.fault_address)) is None,
{
    let p = covers_fault(f.gpu_id, f.fault_address);
    assert forall|j: int| !crate::seqs::is_last(v.blocks, p, j) by {
        if crate::seqs::is_last(v.blocks, p, j) {
            assert(!has_address(v.blocks[j], f.gpu_id, f.fault_address));
        }
    }
}

/// A full queue refuses a fault on a block, and nothing changes.
pub proof fn law_full_queue_refuses_faults(v: PolarisView, f: GpuFault, now: u64, i: int)
    requires
        f.fault_address < u64::MAX,
        is_managed(v, f),
        newest_with(v, f.gpu_id, f.fault_address, i),
        v.pending_decisions.len() >= 1024,
    ensures
        fault_begins(v, f, now) == (Err::<FaultStep, i32>(ENOMEM), v),
{
    lemma_managed(v, f);
    lemma_newest(v, f, i);
}

/// Where a branch touches its own addresses and no block has them yet, the first block
/// that it inherited and that has memory is mapped there as well: under a block of its
/// own, at the address, from the same memory.
pub proof fn law_inherited_memory_is_mapped_where_it_is_touched(
    v: PolarisView,
    f: GpuFault,
    now: u64,
    k: int,
    x: int,
    i: int,
)
    requires
        f.fault_address < u64::MAX,
        is_managed(v, f),
        v.pending_decisions.len() < 1024,
        forall|j: int|
            0 <= j < v.blocks.len() ==> !has_address(
                #[trigger] v.blocks[j],
                f.gpu_id,
                f.fault_address,
            ),
        session_at(v, v.sessions[k].session_id, k),
        v.sessions[k].gpu_vas_base <= f.fault_address < v.sessions[k].gpu_vas_base
            + v.sessions[k].gpu_vas_size,
        forall|j: int|
            0 <= j < k ==> !((#[trigger] v.sessions[j]).gpu_vas_base <= f.fault_address
                < v.sessions[j].gpu_vas_base + v.sessions[j].gpu_vas_size),
        0 <= x < v.sessions[k].block_ids.len(),
        forall|y: int, j: int|
            #![trigger v.sessions[k].block_ids[y], v.blocks[j]]
            0 <= y < x && 0 <= j < v.blocks.len() && v.blocks[j].block_id
                == v.sessions[k].block_ids[y] ==> v.blocks[j].session_id
                == v.sessions[k].session_id,
        block_at(v, v.sessions[k].block_ids[x], i),
        v.blocks[i].session_id != v.sessions[k].session_id,
        v.blocks[i].state is Resident,
        v.blocks[i].gpu_phys_handle != 0,
        v.next_fault_id < u64::MAX,
        v.next_decision_id < u64::MAX,
        v.next_block_id < u64::MAX,
    ensures
        ({
            let src = v.blocks[i];
            let (r, w) = fault_begins(v, f, now);
            let d = w.pending_decisions.last();
            let c = w.blocks.last();
            &&& r matches Ok(FaultStep::Wait { block_id, fault_id, .. })
                && block_id == v.next_block_id && fault_id == v.next_fault_id
            &&& w.blocks == v.blocks.push(c)
            &&& w.pending_decisions == v.pending_decisions.push(d)
            &&& d.op == 2 && d.block_id == v.next_block_id && d.src_handle == src.gpu_phys_handle
            &&& d.dst_vaddr == f.fault_address && d.size_bytes == src.size_bytes
            &&& d.decision_id == v.next_decision_id && d.generation == v.fault_generation
            &&& c.block_id == v.next_block_id && c.session_id == v.sessions[k].session_id
            &&& c.gpu_vaddr == f.fault_address && c.size_bytes == src.size_bytes
            &&& c.home_gpu == f.gpu_id && c.refcount == 1 && c.state is AllocPending
            &&& c.token_start == src.token_start && c.token_count == src.token_count
            &&& c.phase == src.phase && c.gpu_phys_handle == 0
            &&& c.pending_decision_id == d.decision_id && c.waiter == v.next_fault_id
            &&& c.map_src_handle == src.gpu_phys_handle && c.fault_timeout_ms == 5000
            &&& d.src_vaddr == src.gpu_vaddr && d.access_flags == f.access_type && d.timeout_ms
                == 5000 && d.gpu_id == f.gpu_id && d.session_id == c.session_id
            &&& w.pending_faults == v.pending_faults.push(w.pending_faults.last())
            &&& w.pending_faults.last().fault_id == v.next_fault_id
                && w.pending_faults.last().block_id == c.block_id
                && w.pending_faults.last().fault_address == f.fault_address
            &&& w.next_fault_id == v.next_fault_id + 1 && w.next_decision_id == v.next_decision_id
                + 1
            &&& w.next_block_id == v.next_block_id + 1
            &&& w.sessions == v.sessions && w.gpus == v.gpus
        }),
{
    lemma_managed(v, f);
    lemma_nothing_covers(v, f);
    let s = v.sessions[k];
    let spans = session_spans(f.fault_address);
    assert forall|j: int| 0 <= j < k implies !spans(#[trigger] v.sessions[j]) by {}
    lemma_first_index_is(v.sessions, spans, k);
    law_session_is_found(v, s.session_id);
    let names = names_foreign_block(v.blocks, s.session_id);
    let foreign = foreign_block(s.block_ids[x], s.session_id);
    assert(foreign(v.blocks[i]));
    assert(names(s.block_ids[x]));
    assert forall|y: int| 0 <= y < x implies !names(#[trigger] s.block_ids[y]) by {
        if names(s.block_ids[y]) {
            let p = foreign_block(s.block_ids[y], s.session_id);
            let j = choose|j: int| 0 <= j < v.blocks.len() && p(#[trigger] v.blocks[j]);
            assert(v.blocks[j].block_id == s.block_ids[y]);
        }
    }
    lemma_first_index_is(s.block_ids, names, x);
    assert forall|j: int| 0 <= j < i implies !foreign(#[trigger] v.blocks[j]) by {}
    lemma_first_index_is(v.blocks, foreign, i);
    assert(first_inherited(v, s) == Some(i));
}

/// The wait is over: a block that is not resident when the time is up is lost, and its
/// memory with it; any other is no longer waited for and stays as it is.
pub proof fn law_wait_ends_well_or_the_block_is_lost(
    v: PolarisView,
    block_id: u64,
    wait_ret: i64,
    i: int,
)
    requires
        block_at(v, block_id, i),
    ensures
        ({
            let (r, w) = fault_ends(v, block_id, wait_ret);
            let b = v.blocks[i];
            let c = w.blocks[i];
            &&& w.blocks == v.blocks.update(i, c)
            &&& c.waiter == 0
            &&& c.block_id == b.block_id && c.gpu_vaddr == b.gpu_vaddr && c.size_bytes
                == b.size_bytes && c.pending_decision_id == b.pending_decision_id
            &&& wait_ret == 0 && !(b.state is Resident) ==> r == Err::<(), i32>(ETIMEDOUT)
                && c.state is Evicted && c.rm_h_memory == 0 && c.rm_h_client == 0
                && c.rm_backing_length == 0
            &&& wait_ret != 0 || b.state is Resident ==> r == Ok::<(), i32>(()) && c
                == (PolarisBlock { waiter: 0, ..b })
            &&& w.sessions == v.sessions && w.gpus == v.gpus && w.pending_decisions
                == v.pending_decisions
        }),
{
    law_block_is_found(v, block_id);
}

// ─── Room ───────────────────────────────────────────────────────────────────

/// Room that is there is not made.
pub proof fn law_room_that_is_there_is_not_made(
    v: PolarisView,
    session_id: u64,
    gpu_id: u32,
    needed: u64,
    handle: u64,
    source: u64,
    now: u64,
)
    requires
        has_room(v, gpu_id, needed),
    ensures
        schedule_victim(v, session_id, gpu_id, needed, handle, source, now) == (
            Ok::<(), i32>(()),
            v,
        ),
{
    lemma_room(v, session_id, gpu_id, needed, handle, source, now);
}

/// A GPU that is not known has no room.
pub proof fn law_unknown_gpu_has_no_room(
    v: PolarisView,
    session_id: u64,
    gpu_id: u32,
    needed: u64,
    handle: u64,
    source: u64,
    now: u64,
)
    requires
        needed > 0,
        no_gpu(v, gpu_id),
    ensures
        schedule_victim(v, session_id, gpu_id, needed, handle, source, now) == (
            Err::<(), i32>(ENODEV),
            v,
        ),
{
    law_gpu_is_found(v, gpu_id);
}

/// Over the budget, room is made by one block: the one that the policy chooses, if it
/// alone makes up for what is missing. It is asked to go to host memory, and the
/// decision names its memory, its address and its size. Where no block can go, or the
/// one that goes is too small, the request is refused and no table changes.
pub proof fn law_room_is_made_by_one_block(
    v: PolarisView,
    session_id: u64,
    gpu_id: u32,
    needed: u64,
    handle: u64,
    source: u64,
    now: u64,
    g: int,
)
    requires
        needed > 0,
        gpu_at(v, gpu_id, g),
        v.gpus[g].budget_bytes > 0,
        v.gpus[g].budget_bytes < v.gpus[g].used_bytes + needed <= u64::MAX,
        v.next_decision_id < u64::MAX,
    ensures
        ({
            let gpu = v.gpus[g];
            let missing = gpu.used_bytes + needed - gpu.budget_bytes;
            let q = VictimRequest {
                requesting_session_id: session_id,
                target_gpu: gpu_id,
                protected_phys_handle: handle,
                protected_block_id: source,
            };
            let (r, w) = schedule_victim(v, session_id, gpu_id, needed, handle, source, now);
            match victim(v, q, now) {
                None => r == Err::<(), i32>(ENOMEM) && w == v,
                Some(i) => {
                    let b = v.blocks[i];
                    let c = w.blocks[i];
                    let d = w.pending_decisions.last();
                    let backed = b.rm_h_client != 0 && b.rm_h_memory != 0 && b.rm_backing_length
                        >= b.size_bytes;
                    &&& b.size_bytes < missing ==> r == Err::<(), i32>(ENOMEM) && w == v
                    &&& v.pending_decisions.len() > 1022 ==> r == Err::<(), i32>(ENOMEM) && w == v
                    &&& b.size_bytes >= missing && v.pending_decisions.len() <= 1022 && (
                    b.gpu_phys_handle != 0 || backed) ==> {
                        &&& r is Ok
                        &&& w.pending_decisions == v.pending_decisions.push(d)
                        &&& d.op == 4 && d.block_id == b.block_id && d.src_handle
                            == b.gpu_phys_handle
                        &&& d.src_vaddr == b.gpu_vaddr && d.size_bytes == b.size_bytes
                        &&& d.decision_id == v.next_decision_id && d.gpu_id == gpu_id
                        &&& w.blocks == v.blocks.update(i, c)
                        &&& c.state is OffloadPending && c.pending_decision_id == d.decision_id
                        &&& c.gpu_phys_handle == b.gpu_phys_handle && c.gpu_vaddr == b.gpu_vaddr
                        &&& w.gpus == v.gpus && w.sessions == v.sessions
                    }
                    &&& r is Ok ==> d.size_bytes >= missing
                },
            }
        }),
{
    law_gpu_is_found(v, gpu_id);
    let q = VictimRequest {
        requesting_session_id: session_id,
        target_gpu: gpu_id,
        protected_phys_handle: handle,
        protected_block_id: source,
    };
    crate::policy::law_victim_is_movable(v, q, now);
}

/// A fault on a block without memory first makes room for it: where none can be made
/// the fault is refused as the room was, and where some was made, the decision about
/// the block comes behind the one that makes it.
pub proof fn law_room_comes_before_the_block(v: PolarisView, f: GpuFault, now: u64, i: int)
    requires
        f.fault_address < u64::MAX,
        is_managed(v, f),
        newest_with(v, f.gpu_id, f.fault_address, i),
        v.pending_decisions.len() < 1024,
        !(v.blocks[i].state is Resident),
        v.next_fault_id < u64::MAX,
    ensures
        ({
            let b = v.blocks[i];
            let counted = PolarisView { next_fault_id: (v.next_fault_id + 1) as u64, ..v };
            let cow = b.state is CowPending;
            let (room, x) = schedule_victim(
                counted,
                b.session_id,
                f.gpu_id,
                b.size_bytes,
                if cow {
                    b.cow_src_handle
                } else {
                    0
                },
                if cow {
                    b.cow_src_block_id
                } else {
                    0
                },
                now,
            );
            let (r, w) = fault_begins(v, f, now);
            match room {
                Err(e) => r == Err::<FaultStep, i32>(e) && w == x,
                Ok(_) => {
                    &&& r matches Ok(FaultStep::Wait { block_id, .. }) && block_id == b.block_id
                    &&& w.pending_decisions == x.pending_decisions.push(w.pending_decisions.last())
                    &&& w.pending_decisions.last().block_id == b.block_id
                    &&& w.pending_decisions.last().op == op_for(b.state)
                    &&& w.blocks == x.blocks.update(i, w.blocks[i])
                },
            }
        }),
{
    lemma_managed(v, f);
    lemma_newest(v, f, i);
    let b = v.blocks[i];
    let counted = PolarisView { next_fault_id: (v.next_fault_id + 1) as u64, ..v };
    let (h, s) = if b.state is CowPending {
        (b.cow_src_handle, b.cow_src_block_id)
    } else {
        (0u64, 0u64)
    };
    let q = VictimRequest {
        requesting_session_id: b.session_id,
        target_gpu: f.gpu_id,
        protected_phys_handle: h,
        protected_block_id: s,
    };
    crate::policy::law_victim_is_movable(counted, q, now);
}

} // verus!
