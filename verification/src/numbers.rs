//! Decision numbers: each is given out once, the queue holds them in the order
//! in which they were given out, no two blocks wait for the same one, and an answer
//! to a decision counts for as long as a block waits for it.

use crate::abi::{
    PolarisBlockReleaseArg, PolarisBlockReserveArg, PolarisBlockTouchArg,
    PolarisCompleteOperationArg, PolarisDecision, PolarisRegisterBlockBackingArg,
    PolarisRegisterBlockMappingArg, PolarisRegisterGpuArg, PolarisRegisterStaticBlockArg,
    PolarisRegisterVaRangeArg, PolarisRegisterVaSpaceArg, PolarisSessionBranchArg,
    PolarisSessionCreateArg, PolarisSessionDestroyArg, PolarisUnmapStaticBlockArg,
    PolarisUnregisterVaSpaceArg,
};
use crate::blocks::{
    block_in_the_way, ids_to_touch, listed_exactly, listed_overlapping, own_overlapping, raises_fault,
    releasing, reserve_fits, reserving, spilling, touched_ids, touching,
};
use crate::decisions::{
    awaits, batch_size, completing, completion_fits, failing, polled, reported_backing, succeeding,
    touched_by,
};
use crate::device::{
    closing, lemma_reaping, one_executor_less, registering_gpu, registering_range,
    withdrawing_range, DeviceView,
};
use crate::errno::EINVAL;
use crate::fault::{
    fault_begins, fault_ends, fault_fits, fault_target, lemma_fault_target, schedule_victim,
    FaultTarget, GpuFault,
};
use crate::hook::{hook_begins, hook_ensures, hook_maps, hook_resolves, HookRun, Resolution};
use crate::policy::{law_victim_is_movable, VictimRequest};
use crate::seqs::{first_index, lemma_filter_members, lemma_first_index};
use crate::sessions::{
    branch_fits, branching, concerned, creating, destroying, lemma_shared_once_more, letting_go,
    letting_go_of_all, stays,
};
use crate::state::{block_is, initial_view, session_is, PolarisView};
use crate::types::{PolarisBlock, SessionView};
use crate::vaspace::{
    announcing, backing, placing_block, placing_static_block, static_block_unmapped, withdrawing,
};
use vstd::prelude::*;

verus! {

/// What the blocks wait for was given out, no two of them wait for the same
/// decision, and the queue is in the order of the numbers.
pub open spec fn numbers_wf(
    blocks: Seq<PolarisBlock>,
    queue: Seq<PolarisDecision>,
    next: u64,
) -> bool {
    &&& next >= 1
    &&& forall|i: int| 0 <= i < blocks.len() ==> (#[trigger] blocks[i]).pending_decision_id < next
    &&& forall|i: int, j: int|
        0 <= i < j < blocks.len() && (#[trigger] blocks[i]).pending_decision_id != 0
            ==> blocks[i].pending_decision_id != (#[trigger] blocks[j]).pending_decision_id
    &&& forall|q: int| 0 <= q < queue.len() ==> 0 < (#[trigger] queue[q]).decision_id < next
    &&& forall|p: int, q: int|
        0 <= p < q < queue.len() ==> (#[trigger] queue[p]).decision_id < (
        #[trigger] queue[q]).decision_id
}

/// A block that waits for the decision waits for an answer of its generation.
pub open spec fn answerable(v: PolarisView, d: PolarisDecision) -> bool {
    d.decision_id != 0 ==> forall|i: int|
        0 <= i < v.blocks.len() && (#[trigger] v.blocks[i]).pending_decision_id == d.decision_id
            ==> v.blocks[i].pending_generation == d.generation
}

/// The decision numbers of the state are in order, and what is queued can be
/// answered.
pub open spec fn numbered(v: PolarisView) -> bool {
    &&& numbers_wf(v.blocks, v.pending_decisions, v.next_decision_id)
    &&& forall|q: int|
        0 <= q < v.pending_decisions.len() ==> answerable(v, #[trigger] v.pending_decisions[q])
}

/// A decision that was given out before, whether it is still queued or not, can be
/// answered afterwards if it could be before.
pub open spec fn keeps_answers(v: PolarisView, w: PolarisView) -> bool {
    &&& v.next_decision_id <= w.next_decision_id
    &&& forall|d: PolarisDecision|
        d.decision_id < v.next_decision_id && answerable(v, d) ==> #[trigger] answerable(w, d)
}

/// The numbers start out in order.
pub proof fn law_initial_numbers()
    ensures
        numbered(initial_view()),
{
}

/// What a poll hands out can be answered.
pub proof fn law_handed_out_can_be_answered(v: PolarisView, q: int)
    requires
        numbered(v),
        0 <= q < batch_size(v),
    ensures
        0 < v.pending_decisions[q].decision_id < v.next_decision_id,
        answerable(v, v.pending_decisions[q]),
{
}

/// An answer under a decision's own number and generation takes effect for as long
/// as a block waits for it: a success is taken up, or refused where the memory that
/// it reports does not do, and a failure is counted. That holds of a decision that
/// asks once more for what failed, too.
pub proof fn law_answer_takes_effect(
    v: PolarisView,
    d: PolarisDecision,
    i: int,
    arg: PolarisCompleteOperationArg,
    now: u64,
)
    requires
        numbered(v),
        answerable(v, d),
        d.decision_id != 0,
        0 <= i < v.blocks.len(),
        v.blocks[i].pending_decision_id == d.decision_id,
        arg.decision_id == d.decision_id,
        arg.generation == d.generation,
    ensures
        arg.result != 0 ==> completing(v, arg, now).1 == failing(v, i, arg.result),
        arg.result == 0 ==> match reported_backing(arg) {
            Err(e) => completing(v, arg, now) == (Err::<u64, i32>(e), v),
            Ok(m) => if m matches Some(x) && x.length < v.blocks[i].size_bytes {
                completing(v, arg, now) == (Err::<u64, i32>(EINVAL), v)
            } else {
                completing(v, arg, now) == (
                    Ok::<u64, i32>(v.blocks[i].waiter),
                    succeeding(v, i, arg, m, now),
                )
            },
        },
{
    lemma_first_index(v.blocks, awaits(d.decision_id));
    assert(awaits(d.decision_id)(v.blocks[i]));
    let k = first_index(v.blocks, awaits(d.decision_id))->0;
    law_decision_concerns_one_block(v, d.decision_id, i, k);
}

/// A decision concerns one block at most.
pub proof fn law_decision_concerns_one_block(v: PolarisView, decision_id: u64, i: int, j: int)
    requires
        numbered(v),
        decision_id != 0,
        0 <= i < v.blocks.len(),
        0 <= j < v.blocks.len(),
        awaits(decision_id)(v.blocks[i]),
        awaits(decision_id)(v.blocks[j]),
    ensures
        i == j,
{
    if i < j {
        assert(v.blocks[i].pending_decision_id != v.blocks[j].pending_decision_id);
    }
    if j < i {
        assert(v.blocks[j].pending_decision_id != v.blocks[i].pending_decision_id);
    }
}

// ─── Steps ──────────────────────────────────────────────────────────────────

/// Each block waits for what it waited for, in the same generation, or for nothing.
pub open spec fn waits_for_no_more(a: Seq<PolarisBlock>, b: Seq<PolarisBlock>) -> bool {
    &&& a.len() == b.len()
    &&& forall|i: int|
        0 <= i < b.len() ==> (#[trigger] b[i]).pending_decision_id == 0 || (
        b[i].pending_decision_id == a[i].pending_decision_id && b[i].pending_generation
            == a[i].pending_generation)
}

/// Where no block waits for anything new, the numbers stay in order.
proof fn lemma_quiet(v: PolarisView, w: PolarisView)
    requires
        numbered(v),
        waits_for_no_more(v.blocks, w.blocks),
        w.pending_decisions == v.pending_decisions,
        w.next_decision_id >= v.next_decision_id,
    ensures
        numbered(w),
        keeps_answers(v, w),
{
    assert forall|i: int| 0 <= i < w.blocks.len() implies (
    #[trigger] w.blocks[i]).pending_decision_id < w.next_decision_id by {
        assert(v.blocks[i].pending_decision_id < v.next_decision_id);
    }
    assert forall|i: int, j: int|
        0 <= i < j < w.blocks.len() && (#[trigger] w.blocks[i]).pending_decision_id != 0 implies
    w.blocks[i].pending_decision_id != (#[trigger] w.blocks[j]).pending_decision_id by {
        assert(v.blocks[i].pending_decision_id != 0);
        assert(v.blocks[i].pending_decision_id != v.blocks[j].pending_decision_id);
    }
}

/// A decision under the next number for one block keeps the numbers in order.
proof fn lemma_asked(v: PolarisView, w: PolarisView, i: int)
    requires
        numbered(v),
        0 <= i < v.blocks.len(),
        w.blocks.len() == v.blocks.len(),
        forall|j: int|
            0 <= j < v.blocks.len() && j != i ==> (#[trigger] w.blocks[j]).pending_decision_id
                == v.blocks[j].pending_decision_id && w.blocks[j].pending_generation
                == v.blocks[j].pending_generation,
        w.blocks[i].pending_decision_id == v.next_decision_id,
        w.blocks[i].pending_generation == w.pending_decisions.last().generation,
        w.next_decision_id == v.next_decision_id + 1,
        w.pending_decisions.len() == v.pending_decisions.len() + 1,
        w.pending_decisions.drop_last() == v.pending_decisions,
        w.pending_decisions.last().decision_id == v.next_decision_id,
    ensures
        numbered(w),
        keeps_answers(v, w),
{
    let n = v.pending_decisions.len() as int;
    assert forall|j: int| 0 <= j < w.blocks.len() implies (
    #[trigger] w.blocks[j]).pending_decision_id < w.next_decision_id by {
        assert(v.blocks[j].pending_decision_id < v.next_decision_id);
    }
    assert forall|a: int, b: int|
        0 <= a < b < w.blocks.len() && (#[trigger] w.blocks[a]).pending_decision_id != 0 implies
    w.blocks[a].pending_decision_id != (#[trigger] w.blocks[b]).pending_decision_id by {
        assert(v.blocks[a].pending_decision_id < v.next_decision_id);
        assert(v.blocks[b].pending_decision_id < v.next_decision_id);
        if a != i && b != i {
            assert(v.blocks[a].pending_decision_id != v.blocks[b].pending_decision_id);
        }
    }
    assert forall|q: int| 0 <= q < n implies #[trigger] w.pending_decisions[q]
        == v.pending_decisions[q] by {
        assert(w.pending_decisions.drop_last()[q] == w.pending_decisions[q]);
    }
    assert(w.pending_decisions[n] == w.pending_decisions.last());
}

/// A block that waits for nothing yet keeps the numbers in order.
proof fn lemma_block_comes(v: PolarisView, w: PolarisView)
    requires
        numbered(v),
        w.blocks.len() == v.blocks.len() + 1,
        waits_for_no_more(v.blocks, w.blocks.drop_last()),
        w.blocks.last().pending_decision_id == 0,
        w.pending_decisions == v.pending_decisions,
        w.next_decision_id == v.next_decision_id,
    ensures
        numbered(w),
        keeps_answers(v, w),
{
    let x = PolarisView { blocks: w.blocks.drop_last(), ..w };
    lemma_quiet(v, x);
    let n = v.blocks.len() as int;
    assert(w.blocks[n] == w.blocks.last());
    assert forall|i: int| 0 <= i < n implies #[trigger] w.blocks[i] == x.blocks[i] by {}
}

/// A block that leaves keeps the numbers in order.
proof fn lemma_block_goes(v: PolarisView, w: PolarisView, i: int)
    requires
        numbered(v),
        0 <= i < v.blocks.len(),
        w.blocks == v.blocks.remove(i),
        w.pending_decisions == v.pending_decisions,
        w.next_decision_id == v.next_decision_id,
    ensures
        numbered(w),
        keeps_answers(v, w),
{
    assert forall|a: int| 0 <= a < w.blocks.len() implies #[trigger] w.blocks[a]
        == v.blocks[if a < i { a } else { a + 1 }] by {}
    assert forall|a: int, b: int|
        0 <= a < b < w.blocks.len() && (#[trigger] w.blocks[a]).pending_decision_id != 0 implies
    w.blocks[a].pending_decision_id != (#[trigger] w.blocks[b]).pending_decision_id by {
        let x = if a < i { a } else { a + 1 };
        let y = if b < i { b } else { b + 1 };
        assert(v.blocks[x].pending_decision_id != v.blocks[y].pending_decision_id);
    }
}

/// Fewer blocks keep the numbers in order.
proof fn lemma_blocks_go(v: PolarisView, w: PolarisView, keep: spec_fn(PolarisBlock) -> bool)
    requires
        numbered(v),
        w.blocks == v.blocks.filter(keep),
        w.pending_decisions == v.pending_decisions,
        w.next_decision_id == v.next_decision_id,
    ensures
        numbered(w),
        keeps_answers(v, w),
{
    lemma_filter_members(v.blocks, keep);
    assert forall|d: PolarisDecision|
        d.decision_id < v.next_decision_id && answerable(v, d) implies #[trigger] answerable(
        w,
        d,
    ) by {
        assert forall|a: int|
            d.decision_id != 0 && 0 <= a < w.blocks.len() && (
            #[trigger] w.blocks[a]).pending_decision_id == d.decision_id implies
        w.blocks[a].pending_generation == d.generation by {
            assert(w.blocks.contains(w.blocks[a]));
            let x = choose|x: int| 0 <= x < v.blocks.len() && v.blocks[x] == w.blocks[a];
            assert(v.blocks[x].pending_decision_id == d.decision_id);
        }
    }
    assert forall|a: int| 0 <= a < w.blocks.len() implies (
    #[trigger] w.blocks[a]).pending_decision_id < w.next_decision_id by {
        assert(w.blocks.contains(w.blocks[a]));
        let x = choose|x: int| 0 <= x < v.blocks.len() && v.blocks[x] == w.blocks[a];
        assert(v.blocks[x].pending_decision_id < v.next_decision_id);
    }
    assert forall|a: int, b: int|
        0 <= a < b < w.blocks.len() && (#[trigger] w.blocks[a]).pending_decision_id != 0 implies
    w.blocks[a].pending_decision_id != (#[trigger] w.blocks[b]).pending_decision_id by {
        crate::laws::lemma_filter_places(v.blocks, keep, a, b);
        let (x, y) = choose|x: int, y: int|
            0 <= x < y < v.blocks.len() && #[trigger] v.blocks[x] == w.blocks[a]
                && #[trigger] v.blocks[y] == w.blocks[b];
        assert(v.blocks[x].pending_decision_id != v.blocks[y].pending_decision_id);
    }
}

/// Asking to move a block keeps the numbers in order.
proof fn lemma_offload_asked(v: PolarisView, i: int)
    requires
        numbered(v),
        v.next_decision_id < u64::MAX,
    ensures
        numbered(v.queue_offload(i).1),
        keeps_answers(v, v.queue_offload(i).1),
{
    let w = v.queue_offload(i).1;
    if v.queue_offload(i).0 is Ok {
        assert(w.pending_decisions.drop_last() =~= v.pending_decisions);
        lemma_asked(v, w, i);
    } else {
        lemma_quiet(v, w);
    }
}

/// Asking to give memory back keeps the numbers in order.
proof fn lemma_free_asked(v: PolarisView, i: int)
    requires
        numbered(v),
        v.next_decision_id < u64::MAX,
    ensures
        numbered(v.queue_free(i).1),
        keeps_answers(v, v.queue_free(i).1),
        v.next_decision_id <= v.queue_free(i).1.next_decision_id <= v.next_decision_id + 1,
{
    let w = v.queue_free(i).1;
    if v.queue_free(i).0 is Ok {
        assert(w.pending_decisions.drop_last() =~= v.pending_decisions);
        lemma_asked(v, w, i);
    }
}

// ─── Requests ───────────────────────────────────────────────────────────────

/// A fault keeps the numbers in order, and decisions
/// given out before can still be answered.
pub proof fn law_fault_keeps_numbers(v: PolarisView, f: GpuFault, now: u64)
    requires
        numbered(v),
        fault_fits(v),
    ensures
        numbered(fault_begins(v, f, now).1),
        keeps_answers(v, fault_begins(v, f, now).1),
{
    let w = fault_begins(v, f, now).1;
    lemma_fault_target(v, f.gpu_id, f.fault_address);
    if crate::fault::managed(v, f) && !v.queue_is_full() {
        match fault_target(v, f.gpu_id, f.fault_address) {
            FaultTarget::Nothing => {},
            FaultTarget::Inherited { session_id, i } => {
                let n = v.blocks.len() as int;
                let u = PolarisView {
                    blocks: v.blocks.push(
                        PolarisBlock {
                            pending_decision_id: 0,
                            ..crate::fault::alias_block(v, f, session_id, v.blocks[i])
                        },
                    ),
                    ..v
                };
                assert(u.blocks.drop_last() =~= v.blocks);
                lemma_block_comes(v, u);
                assert(w.pending_decisions.drop_last() =~= u.pending_decisions);
                lemma_asked(u, w, n);
            },
            FaultTarget::Block(i) => {
                let b = v.blocks[i];
                let op = crate::fault::fault_op(b.state);
                let counted = PolarisView { next_fault_id: (v.next_fault_id + 1) as u64, ..v };
                let (handle, source) = if op is CowBreak {
                    (b.cow_src_handle, b.cow_src_block_id)
                } else {
                    (0u64, 0u64)
                };
                let room = schedule_victim(
                    counted,
                    b.session_id,
                    f.gpu_id,
                    b.size_bytes,
                    handle,
                    source,
                    now,
                );
                lemma_room_keeps_numbers(
                    counted,
                    b.session_id,
                    f.gpu_id,
                    b.size_bytes,
                    handle,
                    source,
                    now,
                );
                if fault_begins(v, f, now).0 is Ok {
                    let u = if op is MapExisting {
                        counted
                    } else {
                        room.1
                    };
                    assert(w.pending_decisions.drop_last() =~= u.pending_decisions);
                    lemma_asked(u, w, i);
                }
            },
        }
    }
}

/// Making room keeps the numbers in order and uses up one at most.
proof fn lemma_room_keeps_numbers(
    v: PolarisView,
    session_id: u64,
    gpu_id: u32,
    needed: u64,
    handle: u64,
    source: u64,
    now: u64,
)
    requires
        numbered(v),
        v.next_decision_id < u64::MAX,
    ensures
        ({
            let w = schedule_victim(v, session_id, gpu_id, needed, handle, source, now).1;
            &&& numbered(w)
            &&& keeps_answers(v, w)
            &&& w.next_decision_id <= v.next_decision_id + 1
            &&& w.blocks.len() == v.blocks.len()
        }),
{
    let q = VictimRequest {
        requesting_session_id: session_id,
        target_gpu: gpu_id,
        protected_phys_handle: handle,
        protected_block_id: source,
    };
    law_victim_is_movable(v, q, now);
    if let Some(i) = crate::policy::victim(v, q, now) {
        lemma_offload_asked(v, i);
    }
}

/// The end of a wait keeps the numbers in order, and decisions
/// given out before can still be answered.
pub proof fn law_end_of_wait_keeps_numbers(v: PolarisView, block_id: u64, wait_ret: i64)
    requires
        numbered(v),
    ensures
        numbered(fault_ends(v, block_id, wait_ret).1),
        keeps_answers(v, fault_ends(v, block_id, wait_ret).1),
{
    lemma_first_index(v.blocks, block_is(block_id));
    lemma_quiet(v, fault_ends(v, block_id, wait_ret).1);
}

/// Touching leaves what is waited for.
proof fn lemma_touched_by(blocks: Seq<PolarisBlock>, ds: Seq<PolarisDecision>, now: u64)
    ensures
        waits_for_no_more(blocks, touched_by(blocks, ds, now)),
    decreases ds.len(),
{
    if ds.len() > 0 {
        lemma_touched_by(blocks, ds.drop_last(), now);
        lemma_first_index(
            touched_by(blocks, ds.drop_last(), now),
            block_is(ds.last().block_id),
        );
    }
}

/// A poll keeps the numbers in order, and decisions
/// given out before can still be answered.
pub proof fn law_poll_keeps_numbers(v: PolarisView, now: u64)
    requires
        numbered(v),
    ensures
        numbered(polled(v, now)),
        keeps_answers(v, polled(v, now)),
{
    let n = batch_size(v);
    let w = polled(v, now);
    lemma_touched_by(v.blocks, v.pending_decisions.take(n), now);
    lemma_quiet(v, PolarisView { pending_decisions: v.pending_decisions, ..w });
    assert forall|q: int| 0 <= q < w.pending_decisions.len() implies #[trigger] w.pending_decisions[q]
        == v.pending_decisions[q + n] by {}
}

/// Touching leaves what is waited for.
proof fn lemma_touched_ids(blocks: Seq<PolarisBlock>, ids: Seq<u64>, start: int, end: int, now: u64)
    ensures
        waits_for_no_more(blocks, touched_ids(blocks, ids, start, end, now)),
    decreases ids.len(),
{
    if ids.len() > 0 {
        lemma_touched_ids(blocks, ids.drop_last(), start, end, now);
        lemma_first_index(
            touched_ids(blocks, ids.drop_last(), start, end, now),
            block_is(ids.last()),
        );
    }
}

/// A touch keeps the numbers in order, and decisions
/// given out before can still be answered.
pub proof fn law_touch_keeps_numbers(v: PolarisView, arg: PolarisBlockTouchArg, now: u64)
    requires
        numbered(v),
    ensures
        numbered(touching(v, arg, now)),
        keeps_answers(v, touching(v, arg, now)),
{
    let start = arg.token_start as int;
    let end = arg.token_start + arg.token_count;
    let listed = match v.find_session(arg.session_id) {
        Some(k) => v.sessions[k].block_ids,
        None => Seq::empty(),
    };
    let ids = ids_to_touch(listed, v.blocks, arg.session_id, start, end, v.blocks.len() as int);
    lemma_touched_ids(v.blocks, ids, start, end, now);
    lemma_quiet(v, touching(v, arg, now));
}

/// Asking for a block to be moved keeps the numbers in order, and decisions
/// given out before can still be answered.
pub proof fn law_spill_keeps_numbers(v: PolarisView, block_id: u64)
    requires
        numbered(v),
        v.next_decision_id < u64::MAX,
    ensures
        numbered(spilling(v, block_id).1),
        keeps_answers(v, spilling(v, block_id).1),
{
    if let Some(i) = v.find_block(block_id) {
        lemma_offload_asked(v, i);
    }
}

/// Saying what memory backs a block keeps the numbers in order, and decisions
/// given out before can still be answered.
pub proof fn law_backing_keeps_numbers(v: PolarisView, arg: PolarisRegisterBlockBackingArg)
    requires
        numbered(v),
    ensures
        numbered(backing(v, arg).1),
        keeps_answers(v, backing(v, arg).1),
{
    lemma_first_index(v.blocks, block_is(arg.block_id));
    lemma_quiet(v, backing(v, arg).1);
}

/// A reservation keeps the numbers in order, and decisions
/// given out before can still be answered.
pub proof fn law_reserve_keeps_numbers(v: PolarisView, arg: PolarisBlockReserveArg)
    requires
        numbered(v),
        reserve_fits(v, arg),
    ensures
        numbered(reserving(v, arg).1),
        keeps_answers(v, reserving(v, arg).1),
{
    let w = reserving(v, arg).1;
    if let Some(k) = v.find_session(arg.session_id) {
        let s = v.sessions[k];
        if v.daemon_attached != 0 && !(v.queue_is_full() && raises_fault(v, s, arg)) {
            let start = arg.token_start as int;
            let end = arg.token_start + arg.token_count;
            lemma_first_index(v.blocks, own_overlapping(s.session_id, start, end));
            lemma_first_index(v.blocks, listed_overlapping(s.block_ids, start, end));
            match block_in_the_way(v, s, start, end) {
                None => {
                    assert(w.blocks.drop_last() =~= v.blocks);
                    lemma_block_comes(v, w);
                },
                Some(i) => {
                    let b = v.blocks[i];
                    if !crate::blocks::overwrites(arg) {
                    } else if b.refcount > 1 {
                        assert(w.blocks.drop_last() =~= v.blocks.update(
                            i,
                            b.with_reference_dropped(),
                        ));
                        lemma_block_comes(v, w);
                    } else {
                        lemma_quiet(v, w);
                    }
                },
            }
        }
    }
}

/// A release keeps the numbers in order, and decisions
/// given out before can still be answered.
pub proof fn law_release_keeps_numbers(v: PolarisView, arg: PolarisBlockReleaseArg)
    requires
        numbered(v),
        v.next_decision_id < u64::MAX,
    ensures
        numbered(releasing(v, arg).1),
        keeps_answers(v, releasing(v, arg).1),
{
    let w = releasing(v, arg).1;
    if let Some(k) = v.find_session(arg.session_id) {
        let s = v.sessions[k];
        let p = listed_exactly(s.block_ids, arg.token_start, arg.token_count);
        lemma_first_index(v.blocks, p);
        if let Some(i) = first_index(v.blocks, p) {
            let b = v.blocks[i];
            let kept = arg.flags & crate::abi::POLARIS_RELEASE_FLAG_CALLER_OWNS_BACKING != 0;
            if b.refcount > 1 {
                lemma_quiet(v, w);
            } else if b.state is FreePending {
            } else if b.needs_free() && !kept && v.daemon_attached > 0 {
                lemma_free_asked(v, i);
            } else {
                lemma_block_goes(v, w, i);
            }
        }
    }
}

/// A completion keeps the numbers in order, and decisions
/// given out before can still be answered.
pub proof fn law_completion_keeps_numbers(
    v: PolarisView,
    arg: PolarisCompleteOperationArg,
    now: u64,
)
    requires
        numbered(v),
        completion_fits(v, arg),
    ensures
        numbered(completing(v, arg, now).1),
        keeps_answers(v, completing(v, arg, now).1),
{
    let w = completing(v, arg, now).1;
    lemma_first_index(v.blocks, awaits(arg.decision_id));
    if let Some(i) = first_index(v.blocks, awaits(arg.decision_id)) {
        let b = v.blocks[i];
        if b.pending_generation != 0 && b.pending_generation != arg.generation {
        } else if arg.result == 0 {
            if let Ok(m) = reported_backing(arg) {
                if !(m matches Some(x) && x.length < b.size_bytes) {
                    let done = crate::decisions::completed_block(b, arg, m, now);
                    let u = v.with_block(i, done);
                    lemma_quiet(v, u);
                    if b.state is FreePending {
                        lemma_block_goes(u, w, i);
                    } else {
                        lemma_quiet(u, w);
                    }
                }
            }
        } else {
            let failures = b.retry_count + 1;
            let u = v.with_block(i, PolarisBlock { retry_count: failures as u32, ..b });
            lemma_quiet(v, u);
            if crate::decisions::retried(arg.result, failures) {
                let x = crate::decisions::requeueing(u, i);
                assert(x.pending_decisions.drop_last() =~= u.pending_decisions);
                lemma_asked(u, x, i);
                lemma_quiet(x, w);
            } else {
                lemma_quiet(u, w);
            }
        }
    }
}

/// Branching a session keeps the numbers in order, and decisions
/// given out before can still be answered.
pub proof fn law_branch_keeps_numbers(v: PolarisView, arg: PolarisSessionBranchArg)
    requires
        numbered(v),
        branch_fits(v, arg),
    ensures
        numbered(branching(v, arg).1),
        keeps_answers(v, branching(v, arg).1),
{
    if let Some(p) = v.find_session(arg.parent_session_id) {
        lemma_shared_once_more(v.blocks, v.sessions[p].block_ids);
        lemma_quiet(v, branching(v, arg).1);
    }
}

/// Letting go of a block keeps the numbers in order.
proof fn lemma_letting_go(v: PolarisView, s: SessionView, i: int)
    requires
        numbered(v),
        0 <= i < v.blocks.len(),
        v.next_decision_id < u64::MAX,
    ensures
        numbered(letting_go(v, s, i)),
        keeps_answers(v, letting_go(v, s, i)),
        letting_go(v, s, i).blocks.len() == v.blocks.len(),
        letting_go(v, s, i).next_decision_id <= v.next_decision_id + 1,
{
    let w = letting_go(v, s, i);
    let b = v.blocks[i];
    if b.refcount > 1 {
        lemma_quiet(v, w);
    } else if b.state is FreePending {
    } else if v.daemon_attached > 0 && b.needs_free() {
        lemma_free_asked(v, i);
    } else {
        lemma_quiet(v, w);
    }
}

/// Letting go of blocks in turn keeps the numbers in order.
proof fn lemma_letting_go_of_all(v: PolarisView, s: SessionView, places: Seq<int>)
    requires
        numbered(v),
        forall|k: int| 0 <= k < places.len() ==> 0 <= #[trigger] places[k] < v.blocks.len(),
        v.next_decision_id + places.len() <= u64::MAX,
    ensures
        numbered(letting_go_of_all(v, s, places)),
        keeps_answers(v, letting_go_of_all(v, s, places)),
        letting_go_of_all(v, s, places).blocks.len() == v.blocks.len(),
        letting_go_of_all(v, s, places).next_decision_id <= v.next_decision_id + places.len(),
    decreases places.len(),
{
    if places.len() > 0 {
        let init = places.drop_last();
        assert forall|k: int| 0 <= k < init.len() implies 0 <= #[trigger] init[k] < v.blocks.len() by {
            assert(init[k] == places[k]);
        }
        lemma_letting_go_of_all(v, s, init);
        assert(places.last() == places[places.len() - 1]);
        lemma_letting_go(letting_go_of_all(v, s, init), s, places.last());
    }
}

/// The end of a session keeps the numbers in order, and decisions
/// given out before can still be answered.
pub proof fn law_destroy_keeps_numbers(v: PolarisView, arg: PolarisSessionDestroyArg)
    requires
        numbered(v),
        v.next_decision_id + v.blocks.len() <= u64::MAX,
    ensures
        numbered(destroying(v, arg).1),
        keeps_answers(v, destroying(v, arg).1),
{
    lemma_first_index(v.sessions, session_is(arg.session_id));
    if destroying(v, arg).0 is Ok {
        let s = v.sessions[v.find_session(arg.session_id)->0];
        let places = concerned(v, s);
        crate::sessions::lemma_concerned(v, s);
        lemma_letting_go_of_all(v, s, places);
        let w = letting_go_of_all(v, s, places);
        lemma_blocks_go(w, destroying(v, arg).1, stays(v.blocks, places));
    }
}

/// Closing a handle keeps the numbers in order, and decisions
/// given out before can still be answered.
pub proof fn law_closing_keeps_numbers(v: PolarisView, d: DeviceView)
    requires
        numbered(v),
    ensures
        numbered(closing(v, d)),
        keeps_answers(v, closing(v, d)),
{
    let w = closing(v, d);
    if d.registered_gpu {
        lemma_reaping(one_executor_less(withdrawing_range(v, d)), d.inserted_gpus);
        lemma_quiet(v, PolarisView { pending_decisions: v.pending_decisions, ..w });
    }
}

/// Requests about sessions, GPUs, ranges, address spaces and mappings leave the
/// blocks' decisions and the queue as they are.
pub proof fn law_other_requests_keep_numbers(
    v: PolarisView,
    d: DeviceView,
    session: PolarisSessionCreateArg,
    gpu: PolarisRegisterGpuArg,
    range: PolarisRegisterVaRangeArg,
    space: PolarisRegisterVaSpaceArg,
    pid: i32,
    unspace: PolarisUnregisterVaSpaceArg,
    block: PolarisRegisterBlockMappingArg,
    fixed: PolarisRegisterStaticBlockArg,
    unfixed: PolarisUnmapStaticBlockArg,
)
    requires
        numbered(v),
    ensures
        numbered(creating(v, session).1),
        keeps_answers(v, creating(v, session).1),
        numbered(registering_gpu(v, d, gpu).1),
        keeps_answers(v, registering_gpu(v, d, gpu).1),
        numbered(registering_range(v, d, range).1),
        keeps_answers(v, registering_range(v, d, range).1),
        numbered(announcing(v, d, space, pid).1),
        keeps_answers(v, announcing(v, d, space, pid).1),
        numbered(withdrawing(v, d, unspace).1),
        keeps_answers(v, withdrawing(v, d, unspace).1),
        numbered(placing_block(v, block).1),
        keeps_answers(v, placing_block(v, block).1),
        numbered(placing_static_block(v, fixed).1),
        keeps_answers(v, placing_static_block(v, fixed).1),
        numbered(static_block_unmapped(v, unfixed)),
        keeps_answers(v, static_block_unmapped(v, unfixed)),
{
}

/// The steps of the fault hook leave the blocks' decisions and the queue as they
/// are.
pub proof fn law_hook_keeps_numbers(
    v: PolarisView,
    f: GpuFault,
    ptr: u64,
    run: HookRun,
    ret: i32,
    end: Resolution,
)
    requires
        numbered(v),
    ensures
        numbered(hook_begins(v, f, ptr).1),
        keeps_answers(v, hook_begins(v, f, ptr).1),
        numbered(hook_maps(v, run, ret).1),
        keeps_answers(v, hook_maps(v, run, ret).1),
        numbered(hook_ensures(v, run, ret).1),
        keeps_answers(v, hook_ensures(v, run, ret).1),
        numbered(hook_resolves(v, run, end).1),
        keeps_answers(v, hook_resolves(v, run, end).1),
{
}

} // verus!
