//! The sessions' lists: every id on one was given out.

use crate::abi::{
    PolarisBlockReleaseArg, PolarisBlockReserveArg, PolarisBlockTouchArg,
    PolarisCompleteOperationArg, PolarisRegisterBlockBackingArg, PolarisRegisterBlockMappingArg,
    PolarisRegisterGpuArg, PolarisRegisterStaticBlockArg, PolarisRegisterVaRangeArg,
    PolarisRegisterVaSpaceArg, PolarisSessionBranchArg, PolarisSessionCreateArg,
    PolarisSessionDestroyArg, PolarisUnmapStaticBlockArg, PolarisUnregisterVaSpaceArg,
};
use crate::blocks::{releasing, reserve_fits, reserving, spilling, touching};
use crate::decisions::{completing, completion_fits, polled};
use crate::device::{
    closing, lemma_reaping, one_executor_less, registering_gpu, registering_range,
    withdrawing_range, DeviceView,
};
use crate::fault::{fault_begins, fault_ends, fault_fits, GpuFault};
use crate::hook::{hook_begins, hook_ensures, hook_maps, hook_resolves, HookRun, Resolution};
use crate::seqs::{lemma_filter_members, lemma_first_index};
use crate::sessions::{
    branching, concerned, creating, destroying, letting_go, letting_go_of_all, session_is_not,
};
use crate::state::{id_is_not, initial_view, session_is, PolarisView};
use crate::types::SessionView;
use crate::vaspace::{
    announcing, backing, placing_block, placing_static_block, static_block_unmapped, withdrawing,
};
use vstd::prelude::*;

verus! {

/// Every id on the list is below a number.
pub open spec fn below(ids: Seq<u64>, next: u64) -> bool {
    forall|q: int| 0 <= q < ids.len() ==> #[trigger] ids[q] < next
}

/// Every id on a session's list was given out.
pub open spec fn listed(v: PolarisView) -> bool {
    forall|k: int|
        0 <= k < v.sessions.len() ==> below((#[trigger] v.sessions[k]).block_ids, v.next_block_id)
}

/// The lists start out in order.
pub proof fn law_initial_lists()
    ensures
        listed(initial_view()),
{
}

/// Striking an id from a list keeps the lists in order.
proof fn lemma_struck(v: PolarisView, session_id: u64, block_id: u64)
    requires
        listed(v),
    ensures
        listed(v.without_listing(session_id, block_id)),
{
    lemma_first_index(v.sessions, session_is(session_id));
    if let Some(s) = v.find_session(session_id) {
        let ids = v.sessions[s].block_ids;
        let left = ids.filter(id_is_not(block_id));
        lemma_filter_members(ids, id_is_not(block_id));
        assert forall|q: int| 0 <= q < left.len() implies #[trigger] left[q] < v.next_block_id by {
            assert(left.contains(left[q]));
        }
    }
}

/// A reservation keeps the lists in order.
pub proof fn law_reserve_keeps_lists(v: PolarisView, arg: PolarisBlockReserveArg)
    requires
        listed(v),
        reserve_fits(v, arg),
    ensures
        listed(reserving(v, arg).1),
{
    let w = reserving(v, arg).1;
    lemma_first_index(v.sessions, session_is(arg.session_id));
    assert forall|k: int| 0 <= k < w.sessions.len() implies below(
        (#[trigger] w.sessions[k]).block_ids,
        w.next_block_id,
    ) by {
        assert(below(v.sessions[k].block_ids, v.next_block_id));
    }
}

/// A release keeps the lists in order.
pub proof fn law_release_keeps_lists(v: PolarisView, arg: PolarisBlockReleaseArg)
    requires
        listed(v),
    ensures
        listed(releasing(v, arg).1),
{
    if let Some(k) = v.find_session(arg.session_id) {
        let s = v.sessions[k];
        let p = crate::blocks::listed_exactly(s.block_ids, arg.token_start, arg.token_count);
        if let Some(i) = crate::seqs::first_index(v.blocks, p) {
            let id = v.blocks[i].block_id;
            lemma_struck(v, arg.session_id, id);
            assert(releasing(v, arg).1.sessions == v.sessions || releasing(v, arg).1.sessions
                == v.without_listing(arg.session_id, id).sessions);
        }
    }
}

/// A completion keeps the lists in order.
pub proof fn law_completion_keeps_lists(v: PolarisView, arg: PolarisCompleteOperationArg, now: u64)
    requires
        listed(v),
        completion_fits(v, arg),
    ensures
        listed(completing(v, arg, now).1),
{
    if let Some(i) = crate::seqs::first_index(v.blocks, crate::decisions::awaits(arg.decision_id)) {
        let b = v.blocks[i];
        lemma_struck(v, b.session_id, b.block_id);
        let w = completing(v, arg, now).1;
        assert(w.sessions == v.sessions || w.sessions == v.without_listing(
            b.session_id,
            b.block_id,
        ).sessions);
    }
}

/// A fault keeps the lists in order.
pub proof fn law_fault_keeps_lists(v: PolarisView, f: GpuFault, now: u64)
    requires
        listed(v),
        fault_fits(v),
    ensures
        listed(fault_begins(v, f, now).1),
{
    let w = fault_begins(v, f, now).1;
    assert(w.sessions == v.sessions && w.next_block_id >= v.next_block_id);
    assert forall|k: int| 0 <= k < w.sessions.len() implies below(
        (#[trigger] w.sessions[k]).block_ids,
        w.next_block_id,
    ) by {
        assert(below(v.sessions[k].block_ids, v.next_block_id));
    }
}

/// Letting go of a block leaves the lists.
proof fn lemma_letting_go(v: PolarisView, s: SessionView, places: Seq<int>)
    ensures
        letting_go_of_all(v, s, places).sessions == v.sessions,
        letting_go_of_all(v, s, places).next_block_id == v.next_block_id,
    decreases places.len(),
{
    if places.len() > 0 {
        lemma_letting_go(v, s, places.drop_last());
        let w = letting_go_of_all(v, s, places.drop_last());
        assert(letting_go(w, s, places.last()).sessions == w.sessions);
    }
}

/// The end of a session keeps the lists in order.
pub proof fn law_destroy_keeps_lists(v: PolarisView, arg: PolarisSessionDestroyArg)
    requires
        listed(v),
    ensures
        listed(destroying(v, arg).1),
{
    lemma_first_index(v.sessions, session_is(arg.session_id));
    if destroying(v, arg).0 is Ok {
        let s = v.sessions[v.find_session(arg.session_id)->0];
        lemma_letting_go(v, s, concerned(v, s));
        let w = destroying(v, arg).1;
        lemma_filter_members(v.sessions, session_is_not(s.session_id));
        assert forall|k: int| 0 <= k < w.sessions.len() implies below(
            (#[trigger] w.sessions[k]).block_ids,
            w.next_block_id,
        ) by {
            assert(w.sessions.contains(w.sessions[k]));
            let j = choose|j: int| 0 <= j < v.sessions.len() && v.sessions[j] == w.sessions[k];
            assert(below(v.sessions[j].block_ids, v.next_block_id));
        }
    }
}

/// Opening and branching sessions keep the lists in order.
pub proof fn law_new_session_keeps_lists(
    v: PolarisView,
    arg: PolarisSessionCreateArg,
    branch: PolarisSessionBranchArg,
)
    requires
        listed(v),
    ensures
        listed(creating(v, arg).1),
        listed(branching(v, branch).1),
{
    lemma_first_index(v.sessions, session_is(branch.parent_session_id));
}

/// Closing a handle keeps the lists in order.
pub proof fn law_closing_keeps_lists(v: PolarisView, d: DeviceView)
    requires
        listed(v),
    ensures
        listed(closing(v, d)),
{
    if d.registered_gpu {
        lemma_reaping(one_executor_less(withdrawing_range(v, d)), d.inserted_gpus);
    }
}

/// Requests that do not name a session's blocks leave the lists as they are.
pub proof fn law_other_requests_keep_lists(
    v: PolarisView,
    d: DeviceView,
    now: u64,
    block_id: u64,
    wait_ret: i64,
    touch: PolarisBlockTouchArg,
    memory: PolarisRegisterBlockBackingArg,
    gpu: PolarisRegisterGpuArg,
    range: PolarisRegisterVaRangeArg,
    space: PolarisRegisterVaSpaceArg,
    pid: i32,
    unspace: PolarisUnregisterVaSpaceArg,
    block: PolarisRegisterBlockMappingArg,
    fixed: PolarisRegisterStaticBlockArg,
    unfixed: PolarisUnmapStaticBlockArg,
)
    requires
        listed(v),
    ensures
        listed(polled(v, now)),
        listed(touching(v, touch, now)),
        listed(spilling(v, block_id).1),
        listed(fault_ends(v, block_id, wait_ret).1),
        listed(backing(v, memory).1),
        listed(registering_gpu(v, d, gpu).1),
        listed(registering_range(v, d, range).1),
        listed(announcing(v, d, space, pid).1),
        listed(withdrawing(v, d, unspace).1),
        listed(placing_block(v, block).1),
        listed(placing_static_block(v, fixed).1),
        listed(static_block_unmapped(v, unfixed)),
{
}

/// The steps of the fault hook leave the lists as they are.
pub proof fn law_hook_keeps_lists(
    v: PolarisView,
    f: GpuFault,
    ptr: u64,
    run: HookRun,
    ret: i32,
    end: Resolution,
)
    requires
        listed(v),
    ensures
        listed(hook_begins(v, f, ptr).1),
        listed(hook_maps(v, run, ret).1),
        listed(hook_ensures(v, run, ret).1),
        listed(hook_resolves(v, run, end).1),
{
}

} // verus!
