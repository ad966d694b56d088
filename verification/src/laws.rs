//! Every request keeps the tables in order, and what requests undo of each
//! other.

use crate::abi::{
    PolarisBlockReleaseArg, PolarisBlockReserveArg, PolarisBlockTouchArg,
    PolarisCompleteOperationArg, PolarisRegisterBlockBackingArg, PolarisRegisterBlockMappingArg,
    PolarisRegisterGpuArg, PolarisRegisterStaticBlockArg, PolarisRegisterVaRangeArg,
    PolarisRegisterVaSpaceArg, PolarisSessionBranchArg, PolarisSessionCreateArg,
    PolarisUnregisterVaSpaceArg,
};
use crate::blocks::{
    block_in_the_way, listed_exactly, listed_overlapping, own_overlapping, raises_fault, releasing,
    reserve_fits, reserving, spilling, touched_ids, touching,
};
use crate::decisions::{awaits, completing, completion_fits, polled, reported_backing, touched_by};
use crate::device::{
    closing, detaching, lemma_reaping, one_executor_less, reaping, registering_gpu,
    registering_range, withdrawing_range, DeviceView,
};
use crate::fault::{
    fault_begins, fault_ends, fault_fits, fault_target, lemma_fault_target, schedule_victim,
    FaultTarget, GpuFault,
};
use crate::hook::{hook_begins, hook_ensures, hook_maps, hook_resolves, HookRun, Resolution};
use crate::order::{
    block_known, has_slot, has_space, inv, lemma_fewer_mappings, lemma_same_shape, same_blocks,
    same_shape, same_space, slot_of, space_known, spaces_wf,
};
use crate::policy::law_victim_is_movable;
use crate::seqs::{first_index, lemma_filter_members, lemma_first_index};
use crate::sessions::{branch_fits, branching, create_fits, creating, lemma_shared_once_more};
use crate::state::{block_is, gpu_is, session_is, PolarisView};
use crate::types::{PolarisBlock, PolarisBlockMapping, PolarisFastVaSpaceSlot, PolarisVaSpace};
use crate::vaspace::{
    announcing, backing, mapping_elsewhere, placing_block, placing_static_block, static_outside,
    unmapped, va_slot_free, va_slot_freed, va_slot_is, va_space_is, va_space_is_not, withdrawing,
    without_contents,
};
use vstd::prelude::*;

verus! {

// ─── Requests that move nothing ─────────────────────────────────────────────

/// Making room for a request keeps the tables' shape.
proof fn lemma_room_keeps_shape(
    v: PolarisView,
    session_id: u64,
    gpu_id: u32,
    needed: u64,
    handle: u64,
    source: u64,
    now: u64,
)
    ensures
        same_shape(v, schedule_victim(v, session_id, gpu_id, needed, handle, source, now).1),
{
    law_victim_is_movable(
        v,
        (crate::policy::VictimRequest {
            requesting_session_id: session_id,
            target_gpu: gpu_id,
            protected_phys_handle: handle,
            protected_block_id: source,
        }),
        now,
    );
}

/// A fault keeps the tables in order.
pub proof fn law_fault_keeps_order(v: PolarisView, f: GpuFault, now: u64)
    requires
        inv(v),
        fault_fits(v),
    ensures
        inv(fault_begins(v, f, now).1),
{
    let w = fault_begins(v, f, now).1;
    lemma_fault_target(v, f.gpu_id, f.fault_address);
    match fault_target(v, f.gpu_id, f.fault_address) {
        FaultTarget::Nothing => {},
        FaultTarget::Block(i) => if !v.queue_is_full() {
            let numbered = PolarisView { next_fault_id: (v.next_fault_id + 1) as u64, ..v };
            let b = v.blocks[i];
            lemma_room_keeps_shape(
                numbered,
                b.session_id,
                f.gpu_id,
                b.size_bytes,
                if b.state is CowPending {
                    b.cow_src_handle
                } else {
                    0
                },
                if b.state is CowPending {
                    b.cow_src_block_id
                } else {
                    0
                },
                now,
            );
            assert(same_shape(v, w));
            lemma_same_shape(v, w);
        },
        FaultTarget::Inherited { session_id, i } => {
            if crate::fault::managed(v, f) && !v.queue_is_full() {
                lemma_push_block(v, w);
            }
        },
    }
}

/// A block under a new id keeps the tables in order.
proof fn lemma_push_block(v: PolarisView, w: PolarisView)
    requires
        inv(v),
        v.next_block_id < u64::MAX,
        w.blocks.len() == v.blocks.len() + 1,
        same_blocks(v.blocks, w.blocks.drop_last()),
        w.blocks.last().block_id == v.next_block_id,
        w.blocks.last().refcount == 1,
        !w.blocks.last().flags.shared,
        w.next_block_id == v.next_block_id + 1,
        w.block_mappings == v.block_mappings,
        w.gpus == v.gpus,
        crate::order::same_sessions(v.sessions, w.sessions),
        w.next_session_id == v.next_session_id,
        w.static_blocks == v.static_blocks,
        w.va_spaces == v.va_spaces,
        w.fast_va_spaces == v.fast_va_spaces,
    ensures
        inv(w),
{
    let n = v.blocks.len() as int;
    assert(w.blocks[n] == w.blocks.last());
    assert forall|i: int| 0 <= i < n implies (#[trigger] w.blocks[i]).block_id
        == v.blocks[i].block_id && w.blocks[i].refcount == v.blocks[i].refcount && w.blocks[i].flags
        == v.blocks[i].flags by {
        assert(w.blocks.drop_last()[i] == w.blocks[i]);
    }
    assert forall|k: int| 0 <= k < w.block_mappings.len() implies block_known(
        w.blocks,
        (#[trigger] w.block_mappings[k]).block_id,
    ) by {
        let m = v.block_mappings[k];
        let i = choose|i: int| 0 <= i < n && (#[trigger] v.blocks[i]).block_id == m.block_id;
        assert(w.blocks[i].block_id == m.block_id);
    }
}

/// The end of a wait keeps the tables in order.
pub proof fn law_end_of_wait_keeps_order(v: PolarisView, block_id: u64, wait_ret: i64)
    requires
        inv(v),
    ensures
        inv(fault_ends(v, block_id, wait_ret).1),
{
    lemma_first_index(v.blocks, block_is(block_id));
    lemma_same_shape(v, fault_ends(v, block_id, wait_ret).1);
}

/// Touching blocks keeps them the same ones.
proof fn lemma_touched_by(blocks: Seq<PolarisBlock>, ds: Seq<crate::abi::PolarisDecision>, now: u64)
    ensures
        same_blocks(blocks, touched_by(blocks, ds, now)),
    decreases ds.len(),
{
    if ds.len() > 0 {
        lemma_touched_by(blocks, ds.drop_last(), now);
        lemma_first_index(
            touched_by(blocks, ds.drop_last(), now),
            block_is(ds.last().block_id),
        );
    }
}

/// A poll keeps the tables in order.
pub proof fn law_poll_keeps_order(v: PolarisView, now: u64)
    requires
        inv(v),
    ensures
        inv(polled(v, now)),
{
    lemma_touched_by(v.blocks, v.pending_decisions.take(crate::decisions::batch_size(v)), now);
    lemma_same_shape(v, polled(v, now));
}

/// Touching blocks keeps them the same ones.
proof fn lemma_touched_ids(blocks: Seq<PolarisBlock>, ids: Seq<u64>, start: int, end: int, now: u64)
    ensures
        same_blocks(blocks, touched_ids(blocks, ids, start, end, now)),
    decreases ids.len(),
{
    if ids.len() > 0 {
        lemma_touched_ids(blocks, ids.drop_last(), start, end, now);
        lemma_first_index(
            touched_ids(blocks, ids.drop_last(), start, end, now),
            block_is(ids.last()),
        );
    }
}

/// A touch keeps the tables in order.
pub proof fn law_touch_keeps_order(v: PolarisView, arg: PolarisBlockTouchArg, now: u64)
    requires
        inv(v),
    ensures
        inv(touching(v, arg, now)),
{
    let start = arg.token_start as int;
    let end = arg.token_start + arg.token_count;
    let listed = match v.find_session(arg.session_id) {
        Some(k) => v.sessions[k].block_ids,
        None => Seq::empty(),
    };
    let ids = crate::blocks::ids_to_touch(
        listed,
        v.blocks,
        arg.session_id,
        start,
        end,
        v.blocks.len() as int,
    );
    lemma_touched_ids(v.blocks, ids, start, end, now);
    lemma_same_shape(v, touching(v, arg, now));
}

/// Asking for a block to be moved keeps the tables in order.
pub proof fn law_spill_keeps_order(v: PolarisView, block_id: u64)
    requires
        inv(v),
    ensures
        inv(spilling(v, block_id).1),
{
    lemma_first_index(v.blocks, block_is(block_id));
    lemma_same_shape(v, spilling(v, block_id).1);
}

/// Saying what memory backs a block keeps the tables in order.
pub proof fn law_backing_keeps_order(v: PolarisView, arg: PolarisRegisterBlockBackingArg)
    requires
        inv(v),
    ensures
        inv(backing(v, arg).1),
{
    lemma_first_index(v.blocks, block_is(arg.block_id));
    lemma_same_shape(v, backing(v, arg).1);
}

/// Taking mappings away leaves them at their places.
proof fn lemma_unmapped(
    ms: Seq<PolarisBlockMapping>,
    us: Seq<crate::types::PolarisMappingUnmap>,
)
    ensures
        crate::order::same_mappings(ms, unmapped(ms, us)),
    decreases us.len(),
{
    if us.len() > 0 {
        lemma_unmapped(ms, us.drop_last());
        lemma_first_index(
            unmapped(ms, us.drop_last()),
            crate::vaspace::still_observed(us.last()),
        );
    }
}

/// Taking mappings away keeps the tables in order.
pub proof fn law_unmapping_keeps_order(v: PolarisView, us: Seq<crate::types::PolarisMappingUnmap>)
    requires
        inv(v),
    ensures
        inv(PolarisView { block_mappings: unmapped(v.block_mappings, us), ..v }),
{
    lemma_unmapped(v.block_mappings, us);
    lemma_same_shape(v, PolarisView { block_mappings: unmapped(v.block_mappings, us), ..v });
}

/// The steps of the fault hook keep the tables in order.
pub proof fn law_hook_keeps_order(
    v: PolarisView,
    f: GpuFault,
    ptr: u64,
    run: HookRun,
    ret: i32,
    end: Resolution,
)
    requires
        inv(v),
    ensures
        inv(hook_begins(v, f, ptr).1),
        inv(hook_maps(v, run, ret).1),
        inv(hook_ensures(v, run, ret).1),
        inv(hook_resolves(v, run, end).1),
{
    lemma_same_shape(v, hook_begins(v, f, ptr).1);
    lemma_same_shape(v, hook_maps(v, run, ret).1);
    lemma_same_shape(v, hook_ensures(v, run, ret).1);
    lemma_same_shape(v, hook_resolves(v, run, end).1);
}

/// Handing over a range keeps the tables in order.
pub proof fn law_range_keeps_order(v: PolarisView, d: DeviceView, arg: PolarisRegisterVaRangeArg)
    requires
        inv(v),
    ensures
        inv(registering_range(v, d, arg).1),
{
    lemma_first_index(v.gpus, gpu_is(arg.gpu_id));
    lemma_same_shape(v, registering_range(v, d, arg).1);
}

/// Registering a GPU keeps the tables in order.
pub proof fn law_gpu_keeps_order(v: PolarisView, d: DeviceView, arg: PolarisRegisterGpuArg)
    requires
        inv(v),
    ensures
        inv(registering_gpu(v, d, arg).1),
{
    lemma_first_index(v.gpus, gpu_is(arg.gpu_id));
    if v.find_gpu(arg.gpu_id) is Some {
        lemma_same_shape(v, registering_gpu(v, d, arg).1);
    } else {
        assert forall|i: int| 0 <= i < v.gpus.len() implies (#[trigger] v.gpus[i]).gpu_id
            != arg.gpu_id by {
            assert(!gpu_is(arg.gpu_id)(v.gpus[i]));
        }
    }
}

// ─── Sessions ───────────────────────────────────────────────────────────────

/// Opening a session keeps the tables in order.
pub proof fn law_create_keeps_order(v: PolarisView, arg: PolarisSessionCreateArg)
    requires
        inv(v),
        create_fits(v, arg),
    ensures
        inv(creating(v, arg).1),
{
    lemma_first_index(v.gpus, gpu_is(arg.home_gpu));
}

/// Branching a session keeps the tables in order.
pub proof fn law_branch_keeps_order(v: PolarisView, arg: PolarisSessionBranchArg)
    requires
        inv(v),
        branch_fits(v, arg),
    ensures
        inv(branching(v, arg).1),
{
    lemma_first_index(v.sessions, session_is(arg.parent_session_id));
    if let Some(p) = v.find_session(arg.parent_session_id) {
        let parent = v.sessions[p];
        lemma_first_index(v.gpus, gpu_is(parent.home_gpu));
        lemma_shared_once_more(v.blocks, parent.block_ids);
        let w = branching(v, arg).1;
        if v.find_gpu(parent.home_gpu) matches Some(g) && !v.gpus[g].healthy {
        } else {
            let shared = crate::sessions::shared_once_more(v.blocks, parent.block_ids);
            assert(w.blocks == shared);
            assert forall|i: int| 0 <= i < w.blocks.len() implies {
                let b = #[trigger] w.blocks[i];
                &&& 0 < b.block_id < v.next_block_id
                &&& b.refcount >= 1
                &&& b.flags.shared == (b.refcount > 1)
            } by {
                let b = shared[i];
                assert(blocks_entry(v, i));
            }
            assert forall|i: int, j: int| 0 <= i < j < w.blocks.len() implies (
            #[trigger] w.blocks[i]).block_id != (#[trigger] w.blocks[j]).block_id by {
                assert(shared[i].block_id == v.blocks[i].block_id);
                assert(shared[j].block_id == v.blocks[j].block_id);
            }
            assert forall|k: int| 0 <= k < w.block_mappings.len() implies block_known(
                w.blocks,
                (#[trigger] w.block_mappings[k]).block_id,
            ) by {
                let m = v.block_mappings[k];
                let i = choose|i: int|
                    0 <= i < v.blocks.len() && (#[trigger] v.blocks[i]).block_id == m.block_id;
                assert(shared[i].block_id == m.block_id);
            }
        }
    }
}

/// Block `i` is in order.
spec fn blocks_entry(v: PolarisView, i: int) -> bool {
    let b = v.blocks[i];
    0 < b.block_id < v.next_block_id && b.refcount >= 1 && b.flags.shared == (b.refcount > 1)
}

// ─── Blocks ─────────────────────────────────────────────────────────────────

/// A reservation keeps the tables in order.
pub proof fn law_reserve_keeps_order(v: PolarisView, arg: PolarisBlockReserveArg)
    requires
        inv(v),
        reserve_fits(v, arg),
    ensures
        inv(reserving(v, arg).1),
{
    let w = reserving(v, arg).1;
    lemma_first_index(v.sessions, session_is(arg.session_id));
    if let Some(k) = v.find_session(arg.session_id) {
        let s = v.sessions[k];
        if v.daemon_attached != 0 && !(v.queue_is_full() && raises_fault(v, s, arg)) {
            let start = arg.token_start as int;
            let end = arg.token_start + arg.token_count;
            lemma_first_index(v.blocks, own_overlapping(s.session_id, start, end));
            lemma_first_index(v.blocks, listed_overlapping(s.block_ids, start, end));
            match block_in_the_way(v, s, start, end) {
                None => {
                    assert(w.blocks.drop_last() =~= v.blocks);
                    lemma_push_block(v, w);
                },
                Some(i) => {
                    let b = v.blocks[i];
                    if !crate::blocks::overwrites(arg) {
                    } else if b.refcount > 1 {
                        let u = v.with_block(i, b.with_reference_dropped());
                        lemma_drop_reference(v, i);
                        assert(w.blocks.drop_last() =~= u.blocks);
                        lemma_push_block(u, w);
                    } else {
                        lemma_same_shape(v, w);
                    }
                },
            }
        }
    }
}

/// A reference less keeps the tables in order.
proof fn lemma_drop_reference(v: PolarisView, i: int)
    requires
        inv(v),
        0 <= i < v.blocks.len(),
        v.blocks[i].refcount > 1,
    ensures
        inv(v.with_block(i, v.blocks[i].with_reference_dropped())),
{
    let w = v.with_block(i, v.blocks[i].with_reference_dropped());
    assert forall|k: int| 0 <= k < w.block_mappings.len() implies block_known(
        w.blocks,
        (#[trigger] w.block_mappings[k]).block_id,
    ) by {
        let m = v.block_mappings[k];
        let j = choose|j: int|
            0 <= j < v.blocks.len() && (#[trigger] v.blocks[j]).block_id == m.block_id;
        assert(w.blocks[j].block_id == m.block_id);
    }
}

/// Fewer mappings and static blocks keep the tables in order.
proof fn lemma_fewer(v: PolarisView, w: PolarisView)
    requires
        inv(v),
        w.blocks == v.blocks,
        w.next_block_id == v.next_block_id,
        crate::order::same_sessions(v.sessions, w.sessions),
        w.next_session_id == v.next_session_id,
        crate::order::same_gpus(v.gpus, w.gpus),
        forall|m: PolarisBlockMapping| #[trigger]
            w.block_mappings.contains(m) ==> v.block_mappings.contains(m),
        forall|s: crate::types::PolarisStaticBlock| #[trigger]
            w.static_blocks.contains(s) ==> v.static_blocks.contains(s),
        w.va_spaces == v.va_spaces,
        w.fast_va_spaces == v.fast_va_spaces,
    ensures
        inv(w),
{
    lemma_fewer_mappings(v.block_mappings, w.block_mappings);
    assert forall|k: int| 0 <= k < w.block_mappings.len() implies {
        let m = #[trigger] w.block_mappings[k];
        block_known(w.blocks, m.block_id) && space_known(
            w.va_spaces,
            m.gpu_id,
            m.rm_client_token,
            m.va_space_token,
        )
    } by {
        assert(w.block_mappings.contains(w.block_mappings[k]));
        let j = choose|j: int|
            0 <= j < v.block_mappings.len() && v.block_mappings[j] == w.block_mappings[k];
        assert(block_known(v.blocks, v.block_mappings[j].block_id));
    }
    assert forall|k: int| 0 <= k < w.static_blocks.len() implies {
        let s = #[trigger] w.static_blocks[k];
        space_known(w.va_spaces, s.gpu_id, s.rm_client_token, s.va_space_token)
    } by {
        assert(w.static_blocks.contains(w.static_blocks[k]));
        let j = choose|j: int|
            0 <= j < v.static_blocks.len() && v.static_blocks[j] == w.static_blocks[k];
        assert(space_known(
            v.va_spaces,
            v.static_blocks[j].gpu_id,
            v.static_blocks[j].rm_client_token,
            v.static_blocks[j].va_space_token,
        ));
    }
}

/// A block that leaves with its mappings keeps the tables in order.
proof fn lemma_block_leaves(v: PolarisView, w: PolarisView, i: int)
    requires
        inv(v),
        0 <= i < v.blocks.len(),
        w.blocks == v.blocks.remove(i),
        forall|k: int|
            0 <= k < v.block_mappings.len() ==> (#[trigger] v.block_mappings[k]).block_id
                != v.blocks[i].block_id,
        w == (PolarisView { blocks: w.blocks, ..v }),
    ensures
        inv(w),
{
    assert forall|k: int| 0 <= k < w.block_mappings.len() implies block_known(
        w.blocks,
        (#[trigger] w.block_mappings[k]).block_id,
    ) by {
        let m = v.block_mappings[k];
        let j = choose|j: int|
            0 <= j < v.blocks.len() && (#[trigger] v.blocks[j]).block_id == m.block_id;
        if j < i {
            assert(w.blocks[j].block_id == m.block_id);
        } else {
            assert(w.blocks[j - 1].block_id == m.block_id);
        }
    }
}

/// What is left of the mappings once those of a block are gone.
proof fn lemma_without_mappings(v: PolarisView, id: u64)
    ensures
        forall|k: int|
            0 <= k < v.without_mappings_of(id).block_mappings.len() ==> (
            #[trigger] v.without_mappings_of(id).block_mappings[k]).block_id != id,
        forall|m: PolarisBlockMapping| #[trigger]
            v.without_mappings_of(id).block_mappings.contains(m) ==> v.block_mappings.contains(m),
{
    lemma_filter_members(v.block_mappings, crate::state::mapping_not_of(id));
    let ms = v.without_mappings_of(id).block_mappings;
    assert forall|k: int| 0 <= k < ms.len() implies (#[trigger] ms[k]).block_id != id by {
        assert(ms.contains(ms[k]));
    }
}

/// A release keeps the tables in order.
pub proof fn law_release_keeps_order(v: PolarisView, arg: PolarisBlockReleaseArg)
    requires
        inv(v),
    ensures
        inv(releasing(v, arg).1),
{
    let w = releasing(v, arg).1;
    lemma_first_index(v.sessions, session_is(arg.session_id));
    if let Some(k) = v.find_session(arg.session_id) {
        let s = v.sessions[k];
        let p = listed_exactly(s.block_ids, arg.token_start, arg.token_count);
        lemma_first_index(v.blocks, p);
        if let Some(i) = first_index(v.blocks, p) {
            let b = v.blocks[i];
            let kept = arg.flags & crate::abi::POLARIS_RELEASE_FLAG_CALLER_OWNS_BACKING != 0;
            if b.refcount > 1 {
                let u = v.with_block(i, b.with_reference_dropped());
                lemma_drop_reference(v, i);
                lemma_filter_members(
                    v.block_mappings,
                    crate::sessions::mapping_outside(
                        b.block_id,
                        s.home_gpu,
                        crate::num::sat_add(
                            s.gpu_vas_base,
                            crate::num::sat_mul(arg.token_start as u64, s.bytes_per_token),
                        ),
                        crate::num::sat_add(
                            crate::num::sat_add(
                                s.gpu_vas_base,
                                crate::num::sat_mul(arg.token_start as u64, s.bytes_per_token),
                            ),
                            b.size_bytes,
                        ),
                    ),
                );
                lemma_first_index(u.sessions, session_is(arg.session_id));
                lemma_fewer(u, w);
            } else if b.state is FreePending {
            } else if b.needs_free() && !kept && v.daemon_attached > 0 {
                let u = v.queue_free(i).1;
                lemma_same_shape(v, u);
                if v.queue_free(i).0 is Ok {
                    lemma_forgotten(u, w, b.block_id, arg.session_id);
                }
            } else {
                let u = v.accounting_removal(b);
                lemma_first_index(v.gpus, gpu_is(b.home_gpu));
                lemma_same_shape(v, u);
                lemma_gone(u, w, i, arg.session_id);
            }
        }
    }
}

/// Forgetting the places and the listing of a block keeps the tables in order.
proof fn lemma_forgotten(u: PolarisView, w: PolarisView, block_id: u64, session_id: u64)
    requires
        inv(u),
        w == u.forgetting_static_blocks_of(block_id).without_mappings_of(block_id).without_listing(
            session_id,
            block_id,
        ),
    ensures
        inv(w),
{
    let x = u.forgetting_static_blocks_of(block_id);
    lemma_filter_members(
        u.static_blocks,
        crate::state::static_block_apart_from(u.block_mappings, block_id),
    );
    lemma_without_mappings(x, block_id);
    lemma_first_index(
        x.without_mappings_of(block_id).sessions,
        session_is(session_id),
    );
    lemma_fewer(u, w);
}

/// A block that is gone from every table leaves them in order.
proof fn lemma_gone(u: PolarisView, w: PolarisView, i: int, session_id: u64)
    requires
        inv(u),
        0 <= i < u.blocks.len(),
        ({
            let id = u.blocks[i].block_id;
            let x = u.forgetting_static_blocks_of(id);
            w == PolarisView { blocks: x.blocks.remove(i), ..x }.without_mappings_of(
                id,
            ).without_listing(session_id, id)
        }),
    ensures
        inv(w),
{
    let id = u.blocks[i].block_id;
    let y = u.forgetting_static_blocks_of(id).without_mappings_of(id).without_listing(
        session_id,
        id,
    );
    lemma_forgotten(u, y, id, session_id);
    lemma_without_mappings(u.forgetting_static_blocks_of(id), id);
    assert(y.block_mappings == u.forgetting_static_blocks_of(id).without_mappings_of(
        id,
    ).block_mappings);
    assert(y.blocks == u.blocks);
    assert(w =~= PolarisView { blocks: u.blocks.remove(i), ..y });
    lemma_block_leaves(y, w, i);
}

/// A completion keeps the tables in order.
pub proof fn law_completion_keeps_order(v: PolarisView, arg: PolarisCompleteOperationArg, now: u64)
    requires
        inv(v),
        completion_fits(v, arg),
    ensures
        inv(completing(v, arg, now).1),
{
    let w = completing(v, arg, now).1;
    lemma_first_index(v.blocks, awaits(arg.decision_id));
    if let Some(i) = first_index(v.blocks, awaits(arg.decision_id)) {
        let b = v.blocks[i];
        lemma_first_index(v.gpus, gpu_is(b.home_gpu));
        if b.pending_generation != 0 && b.pending_generation != arg.generation {
        } else if arg.result == 0 {
            if let Ok(m) = reported_backing(arg) {
                if b.state is FreePending {
                    let done = crate::decisions::completed_block(b, arg, m, now);
                    let u = PolarisView {
                        blocks: v.blocks.update(i, done),
                        gpus: match v.find_gpu(b.home_gpu) {
                            Some(g) => v.gpus.update(
                                g,
                                crate::decisions::completed_gpu(v.gpus[g], b),
                            ),
                            None => v.gpus,
                        },
                        ..v
                    };
                    lemma_same_shape(v, u);
                    if w != v {
                        lemma_gone(u, w, i, b.session_id);
                    }
                } else {
                    lemma_same_shape(v, w);
                }
            }
        } else {
            lemma_same_shape(v, w);
        }
    }
}

// ─── Address spaces ─────────────────────────────────────────────────────────

/// Saying where a block appears keeps the tables in order.
pub proof fn law_placing_block_keeps_order(v: PolarisView, arg: PolarisRegisterBlockMappingArg)
    requires
        inv(v),
    ensures
        inv(placing_block(v, arg).1),
{
    let w = placing_block(v, arg).1;
    let key = crate::vaspace::va_space_is(arg.gpu_id, arg.rm_client_token, arg.va_space_token);
    lemma_first_index(v.va_spaces, key);
    lemma_first_index(v.blocks, block_is(arg.block_id));
    let at = crate::vaspace::mapping_at(
        arg.block_id,
        arg.gpu_id,
        arg.rm_client_token,
        arg.va_space_token,
        arg.base,
    );
    lemma_first_index(v.block_mappings, at);
    if placing_block(v, arg).0 is Ok {
        if first_index(v.block_mappings, at) is Some {
            lemma_same_shape(v, w);
        } else {
            let s = first_index(v.va_spaces, key)->0;
            let b = v.find_block(arg.block_id)->0;
            assert(crate::order::same_space(
                v.va_spaces[s],
                arg.gpu_id,
                arg.rm_client_token,
                arg.va_space_token,
            ));
            assert(v.blocks[b].block_id == arg.block_id);
        }
    }
}

/// Announcing a static block keeps the tables in order.
pub proof fn law_placing_static_block_keeps_order(
    v: PolarisView,
    arg: PolarisRegisterStaticBlockArg,
)
    requires
        inv(v),
    ensures
        inv(placing_static_block(v, arg).1),
{
    let key = crate::vaspace::va_space_is(arg.gpu_id, arg.rm_client_token, arg.va_space_token);
    lemma_first_index(v.va_spaces, key);
    if placing_static_block(v, arg).0 is Ok {
        let s = first_index(v.va_spaces, key)->0;
        assert(crate::order::same_space(
            v.va_spaces[s],
            arg.gpu_id,
            arg.rm_client_token,
            arg.va_space_token,
        ));
    }
}

/// Announcing an address space keeps the tables in order.
pub proof fn law_announcing_keeps_order(
    v: PolarisView,
    d: DeviceView,
    arg: PolarisRegisterVaSpaceArg,
    pid: i32,
)
    requires
        inv(v),
    ensures
        inv(announcing(v, d, arg, pid).1),
{
    let w = announcing(v, d, arg, pid).1;
    if announcing(v, d, arg, pid).0 is Ok {
        let key = va_space_is(arg.gpu_id, arg.rm_client_token, arg.va_space_token);
        let slot = va_slot_is(arg.gpu_id, arg.rm_client_token, arg.va_space_token);
        lemma_first_index(v.va_spaces, key);
        lemma_first_index(v.fast_va_spaces, slot);
        lemma_first_index(v.fast_va_spaces, va_slot_free());
        assert forall|i: int| 0 <= i < v.va_spaces.len() implies !same_space(
            #[trigger] v.va_spaces[i],
            arg.gpu_id,
            arg.rm_client_token,
            arg.va_space_token,
        ) by {
            assert(!key(v.va_spaces[i]));
        }
        assert forall|j: int| 0 <= j < v.fast_va_spaces.len() implies !slot(
            #[trigger] v.fast_va_spaces[j],
        ) by {
            if slot(v.fast_va_spaces[j]) {
                reveal(has_space);
                let i = choose|i: int|
                    0 <= i < v.va_spaces.len() && #[trigger] slot_of(
                        v.fast_va_spaces[j],
                        v.va_spaces[i],
                    );
                assert(key(v.va_spaces[i]));
            }
        }
        let f = first_index(v.fast_va_spaces, va_slot_free())->0;
        let n = v.va_spaces.len() as int;
        assert(va_slot_free()(v.fast_va_spaces[f]));
        assert(slot_of(w.fast_va_spaces[f], w.va_spaces[n]));
        assert(w.va_spaces.drop_last() =~= v.va_spaces);
        assert forall|i: int| 0 <= i < w.va_spaces.len() implies has_slot(
            w.fast_va_spaces,
            #[trigger] w.va_spaces[i],
        ) by {
            reveal(has_slot);
            if i < n {
                assert(w.va_spaces[i] == v.va_spaces[i]);
                let j = choose|j: int|
                    0 <= j < v.fast_va_spaces.len() && #[trigger] slot_of(
                        v.fast_va_spaces[j],
                        v.va_spaces[i],
                    );
                assert(j != f);
                assert(slot_of(w.fast_va_spaces[j], w.va_spaces[i]));
            }
        }
        assert forall|j: int|
            0 <= j < w.fast_va_spaces.len() && (#[trigger] w.fast_va_spaces[j]).va_space_token
                != 0 implies has_space(w.va_spaces, w.fast_va_spaces[j]) by {
            reveal(has_space);
            if j != f {
                let i = choose|i: int|
                    0 <= i < v.va_spaces.len() && #[trigger] slot_of(
                        v.fast_va_spaces[j],
                        v.va_spaces[i],
                    );
                assert(slot_of(w.fast_va_spaces[j], w.va_spaces[i]));
            }
        }
        assert forall|k: int| 0 <= k < w.block_mappings.len() implies {
            let m = #[trigger] w.block_mappings[k];
            block_known(w.blocks, m.block_id) && space_known(
                w.va_spaces,
                m.gpu_id,
                m.rm_client_token,
                m.va_space_token,
            )
        } by {
            let m = v.block_mappings[k];
            lemma_known_after_push(v.va_spaces, w.va_spaces, m.gpu_id, m.rm_client_token, m.va_space_token);
        }
        assert forall|k: int| 0 <= k < w.static_blocks.len() implies {
            let m = #[trigger] w.static_blocks[k];
            space_known(w.va_spaces, m.gpu_id, m.rm_client_token, m.va_space_token)
        } by {
            let m = v.static_blocks[k];
            lemma_known_after_push(v.va_spaces, w.va_spaces, m.gpu_id, m.rm_client_token, m.va_space_token);
        }
    }
}

/// A known address space stays known when another is entered.
proof fn lemma_known_after_push(
    a: Seq<PolarisVaSpace>,
    b: Seq<PolarisVaSpace>,
    gpu_id: u32,
    client: u64,
    token: u64,
)
    requires
        space_known(a, gpu_id, client, token),
        b.len() == a.len() + 1,
        b.drop_last() == a,
    ensures
        space_known(b, gpu_id, client, token),
{
    let i = choose|i: int|
        0 <= i < a.len() && same_space(#[trigger] a[i], gpu_id, client, token);
    assert(b.drop_last()[i] == b[i]);
}

/// Filtering keeps distinct things distinct: two places of what is left come
/// from two places of what there was, in the same order.
pub proof fn lemma_filter_places<T>(s: Seq<T>, p: spec_fn(T) -> bool, a: int, b: int)
    requires
        0 <= a < b < s.filter(p).len(),
    ensures
        exists|i: int, j: int|
            0 <= i < j < s.len() && #[trigger] s[i] == s.filter(p)[a] && #[trigger] s[j]
                == s.filter(p)[b],
    decreases s.len(),
{
    reveal(Seq::filter);
    if s.len() > 0 {
        let init = s.drop_last();
        let n = init.filter(p).len() as int;
        if b < n {
            lemma_filter_places(init, p, a, b);
            let (i, j) = choose|i: int, j: int|
                0 <= i < j < init.len() && #[trigger] init[i] == init.filter(p)[a]
                    && #[trigger] init[j] == init.filter(p)[b];
            assert(s[i] == s.filter(p)[a] && s[j] == s.filter(p)[b]);
        } else {
            lemma_filter_members(init, p);
            assert(init.filter(p).contains(init.filter(p)[a]));
            let i = choose|i: int| 0 <= i < init.len() && init[i] == init.filter(p)[a];
            assert(s[i] == s.filter(p)[a] && s[s.len() - 1] == s.filter(p)[b]);
        }
    }
}

/// The table of address spaces and the lookup table agree after an address
/// space is taken out of both.
proof fn lemma_space_leaves(
    spaces: Seq<PolarisVaSpace>,
    slots: Seq<PolarisFastVaSpaceSlot>,
    gpu_id: u32,
    client: u64,
    token: u64,
)
    requires
        spaces_wf(spaces, slots),
        token != 0,
    ensures
        spaces_wf(
            spaces.filter(va_space_is_not(gpu_id, client, token)),
            va_slot_freed(slots, gpu_id, client, token),
        ),
{
    let p = va_space_is_not(gpu_id, client, token);
    let a = spaces.filter(p);
    let b = va_slot_freed(slots, gpu_id, client, token);
    let slot = va_slot_is(gpu_id, client, token);
    lemma_filter_members(spaces, p);
    lemma_first_index(slots, slot);
    assert forall|i: int| 0 <= i < a.len() implies (#[trigger] a[i]).va_space_token != 0 by {
        assert(a.contains(a[i]));
    }
    assert forall|i: int, j: int| 0 <= i < j < a.len() implies !same_space(
        #[trigger] a[i],
        (#[trigger] a[j]).gpu_id,
        a[j].rm_client_token,
        a[j].va_space_token,
    ) by {
        lemma_filter_places(spaces, p, i, j);
        let (x, y) = choose|x: int, y: int|
            0 <= x < y < spaces.len() && #[trigger] spaces[x] == a[i] && #[trigger] spaces[y]
                == a[j];
        assert(spaces[x] == a[i] && spaces[y] == a[j]);
    }
    assert forall|i: int| 0 <= i < a.len() implies has_slot(b, #[trigger] a[i]) by {
        reveal(has_slot);
        assert(a.contains(a[i]));
        let x = choose|x: int| 0 <= x < spaces.len() && spaces[x] == a[i];
        let j = choose|j: int| 0 <= j < slots.len() && #[trigger] slot_of(slots[j], spaces[x]);
        assert(!slot(slots[j]));
        assert(b[j] == slots[j]);
        assert(slot_of(b[j], a[i]));
    }
    assert forall|j: int|
        0 <= j < b.len() && (#[trigger] b[j]).va_space_token != 0 implies has_space(a, b[j]) by {
        reveal(has_space);
        assert(b[j] == slots[j]);
        let x = choose|x: int| 0 <= x < spaces.len() && #[trigger] slot_of(slots[j], spaces[x]);
        if slot(slots[j]) {
            // Only one slot is that of the address space, and it is free now.
            let f = first_index(slots, slot)->0;
            assert(slot(slots[f]));
            if f < j {
                assert(slots[f].va_space_token != 0);
            } else if j < f {
                assert(slots[j].va_space_token != 0);
            }
        }
        assert(p(spaces[x]));
        assert(spaces.contains(spaces[x]));
        assert(a.contains(spaces[x]));
        let i = choose|i: int| 0 <= i < a.len() && a[i] == spaces[x];
        assert(slot_of(b[j], a[i]));
    }
    assert forall|i: int, j: int|
        0 <= i < j < b.len() && (#[trigger] b[i]).va_space_token != 0 implies !(b[i].gpu_id == (
    #[trigger] b[j]).gpu_id && b[i].rm_client_token == b[j].rm_client_token && b[i].va_space_token
        == b[j].va_space_token) by {
        if b[j].va_space_token != 0 {
            assert(b[i] == slots[i] && b[j] == slots[j]);
        }
    }
}

/// Taking an address space out with all that is in it keeps the tables in
/// order.
proof fn lemma_contents_leave(v: PolarisView, gpu_id: u32, client: u64, token: u64)
    requires
        inv(v),
        token != 0,
    ensures
        inv(
            without_contents(
                PolarisView {
                    va_spaces: v.va_spaces.filter(va_space_is_not(gpu_id, client, token)),
                    ..v
                },
                gpu_id,
                client,
                token,
            ),
        ),
{
    let p = va_space_is_not(gpu_id, client, token);
    let spaces = v.va_spaces.filter(p);
    let w = without_contents(PolarisView { va_spaces: spaces, ..v }, gpu_id, client, token);
    lemma_space_leaves(v.va_spaces, v.fast_va_spaces, gpu_id, client, token);
    lemma_filter_members(v.va_spaces, p);
    lemma_filter_members(v.block_mappings, mapping_elsewhere(gpu_id, client, token));
    lemma_filter_members(v.static_blocks, static_outside(gpu_id, client, token));
    lemma_fewer_mappings(v.block_mappings, w.block_mappings);
    assert forall|g: u32, c: u64, t: u64|
        space_known(v.va_spaces, g, c, t) && !(g == gpu_id && c == client && t == token) implies
    space_known(spaces, g, c, t) by {
        let i = choose|i: int|
            0 <= i < v.va_spaces.len() && same_space(#[trigger] v.va_spaces[i], g, c, t);
        assert(v.va_spaces.contains(v.va_spaces[i]));
        assert(spaces.contains(v.va_spaces[i]));
        let j = choose|j: int| 0 <= j < spaces.len() && spaces[j] == v.va_spaces[i];
        assert(same_space(spaces[j], g, c, t));
    }
    assert forall|k: int| 0 <= k < w.block_mappings.len() implies {
        let m = #[trigger] w.block_mappings[k];
        block_known(w.blocks, m.block_id) && space_known(
            w.va_spaces,
            m.gpu_id,
            m.rm_client_token,
            m.va_space_token,
        )
    } by {
        let m = w.block_mappings[k];
        assert(w.block_mappings.contains(m));
        let j = choose|j: int| 0 <= j < v.block_mappings.len() && v.block_mappings[j] == m;
        assert(block_known(v.blocks, v.block_mappings[j].block_id));
        assert(space_known(v.va_spaces, m.gpu_id, m.rm_client_token, m.va_space_token));
    }
    assert forall|k: int| 0 <= k < w.static_blocks.len() implies {
        let m = #[trigger] w.static_blocks[k];
        space_known(w.va_spaces, m.gpu_id, m.rm_client_token, m.va_space_token)
    } by {
        let m = w.static_blocks[k];
        assert(w.static_blocks.contains(m));
        let j = choose|j: int| 0 <= j < v.static_blocks.len() && v.static_blocks[j] == m;
        assert(space_known(
            v.va_spaces,
            v.static_blocks[j].gpu_id,
            v.static_blocks[j].rm_client_token,
            v.static_blocks[j].va_space_token,
        ));
    }
}

/// Taking the only element that fails a test out is filtering by the test.
proof fn lemma_remove_is_filter<T>(s: Seq<T>, p: spec_fn(T) -> bool, i: int)
    requires
        0 <= i < s.len(),
        !p(s[i]),
        forall|j: int| 0 <= j < s.len() && j != i ==> p(#[trigger] s[j]),
    ensures
        s.remove(i) == s.filter(p),
    decreases s.len(),
{
    reveal(Seq::filter);
    let init = s.drop_last();
    if i == s.len() - 1 {
        assert forall|j: int| 0 <= j < init.len() implies p(#[trigger] init[j]) by {
            assert(init[j] == s[j]);
        }
        crate::seqs::lemma_filter_all(init, p);
        assert(s.remove(i) =~= init);
    } else {
        assert forall|j: int| 0 <= j < init.len() && j != i implies p(#[trigger] init[j]) by {
            assert(init[j] == s[j]);
        }
        assert(init[i] == s[i]);
        lemma_remove_is_filter(init, p, i);
        assert(p(s[s.len() - 1]));
        assert(s.remove(i) =~= init.remove(i).push(s.last()));
    }
}

/// Withdrawing an address space keeps the tables in order.
pub proof fn law_withdrawing_keeps_order(
    v: PolarisView,
    d: DeviceView,
    arg: PolarisUnregisterVaSpaceArg,
)
    requires
        inv(v),
    ensures
        inv(withdrawing(v, d, arg).1),
{
    if withdrawing(v, d, arg).0 is Ok {
        let key = va_space_is(arg.gpu_id, arg.rm_client_token, arg.va_space_token);
        lemma_first_index(v.va_spaces, key);
        let i = first_index(v.va_spaces, key)->0;
        let p = va_space_is_not(arg.gpu_id, arg.rm_client_token, arg.va_space_token);
        assert(key(v.va_spaces[i]));
        assert forall|j: int| 0 <= j < v.va_spaces.len() && j != i implies p(
            #[trigger] v.va_spaces[j],
        ) by {
            if j < i {
                assert(!key(v.va_spaces[j]));
            } else {
                assert(!same_space(
                    v.va_spaces[i],
                    v.va_spaces[j].gpu_id,
                    v.va_spaces[j].rm_client_token,
                    v.va_spaces[j].va_space_token,
                ));
            }
        }
        lemma_remove_is_filter(v.va_spaces, p, i);
        lemma_contents_leave(v, arg.gpu_id, arg.rm_client_token, arg.va_space_token);
    }
}

/// Closing a handle keeps the tables in order.
pub proof fn law_closing_keeps_order(v: PolarisView, d: DeviceView)
    requires
        inv(v),
    ensures
        inv(closing(v, d)),
{
    let w = if d.registered_gpu {
        detaching(v, d)
    } else {
        v
    };
    if d.registered_gpu {
        let u = one_executor_less(withdrawing_range(v, d));
        lemma_first_index(v.gpus, gpu_is(d.va_gpu));
        lemma_same_shape(v, u);
        lemma_reaping(u, d.inserted_gpus);
        lemma_reaping_keeps_gpus_apart(u, d.inserted_gpus);
        let x = reaping(u, d.inserted_gpus);
        assert(inv(x));
        lemma_same_shape(x, w);
    }
    if d.v4_token != 0 {
        lemma_contents_leave(w, d.v4_gpu, d.v4_client, d.v4_token);
    }
}

/// Reaping keeps the ids of GPUs apart.
proof fn lemma_reaping_keeps_gpus_apart(v: PolarisView, ids: Seq<u32>)
    requires
        crate::order::gpus_wf(v.gpus),
    ensures
        crate::order::gpus_wf(reaping(v, ids).gpus),
    decreases ids.len(),
{
    if ids.len() > 0 {
        lemma_reaping_keeps_gpus_apart(v, ids.drop_last());
        let before = reaping(v, ids.drop_last()).gpus;
        let p = crate::device::gpu_is_not(ids.last());
        let after = before.filter(p);
        assert forall|i: int, j: int| 0 <= i < j < after.len() implies (
        #[trigger] after[i]).gpu_id != (#[trigger] after[j]).gpu_id by {
            lemma_filter_places(before, p, i, j);
            let (x, y) = choose|x: int, y: int|
                0 <= x < y < before.len() && #[trigger] before[x] == after[i] && #[trigger] before[y]
                    == after[j];
            assert(before[x] == after[i] && before[y] == after[j]);
        }
    }
}

} // verus!
