//! What holds of the end of a session.

use crate::abi::{
    PolarisDecision, PolarisDecisionOp, PolarisSessionBranchArg, PolarisSessionDestroyArg,
};
use crate::order::{block_known, blocks_wf, inv, lemma_fewer_mappings, space_known};
use crate::seqs::{first_index, lemma_filter_all, lemma_filter_members, lemma_first_index};
use crate::sessions::{
    asking_count, branch_fits, branching, concerned, destroying, ended, lemma_concerned,
    lemma_letting_go, lemma_letting_go_of_all, lemma_own_places, lemma_places_with_listed,
    lemma_shared_once_more, letting_go, letting_go_of_all, mapping_outside, maps_one_of,
    needs_asking, own_places, placed, places_with_listed, session_is_not, shared_once_more, stays,
};
use crate::state::{block_is, gpu_is, session_is, PolarisView};
use crate::types::{
    PolarisBlock, PolarisBlockFlags, PolarisBlockMapping, PolarisStaticBlock, SessionView,
    POLARIS_MAX_PENDING_DECISIONS,
};
use vstd::prelude::*;

verus! {

// ─── The tables stay in order ───────────────────────────────────────────────

/// What letting go of a block may leave of it: itself in order, or marked to go.
spec fn in_order_or_marked(old_block: PolarisBlock, b: PolarisBlock) -> bool {
    &&& b.block_id == old_block.block_id
    &&& {
        ||| b.refcount >= 1 && b.flags.shared == (b.refcount > 1)
        ||| b.refcount == 0 && !(b.state is FreePending)
    }
}

/// What letting go of blocks may have done to a state.
spec fn loosened(v: PolarisView, w: PolarisView) -> bool {
    &&& w.blocks.len() == v.blocks.len()
    &&& forall|i: int|
        0 <= i < v.blocks.len() ==> in_order_or_marked(v.blocks[i], #[trigger] w.blocks[i])
    &&& forall|m: PolarisBlockMapping| #[trigger]
        w.block_mappings.contains(m) ==> v.block_mappings.contains(m)
    &&& forall|s: PolarisStaticBlock| #[trigger]
        w.static_blocks.contains(s) ==> v.static_blocks.contains(s)
    &&& w.va_spaces == v.va_spaces
    &&& w.fast_va_spaces == v.fast_va_spaces
    &&& w.sessions == v.sessions
    &&& w.next_session_id == v.next_session_id
    &&& w.next_block_id == v.next_block_id
    &&& crate::order::same_gpus(v.gpus, w.gpus)
}

/// Letting go of one more block that is in order loosens no more.
proof fn lemma_letting_go_loosens(v: PolarisView, w: PolarisView, s: SessionView, i: int)
    requires
        loosened(v, w),
        0 <= i < v.blocks.len(),
        w.blocks[i].refcount >= 1,
        w.blocks[i].flags.shared == (w.blocks[i].refcount > 1),
    ensures
        loosened(v, letting_go(w, s, i)),
{
    let b = w.blocks[i];
    let x = letting_go(w, s, i);
    lemma_letting_go(w, s, i);
    if b.refcount > 1 {
        lemma_filter_members(
            w.block_mappings,
            mapping_outside(
                b.block_id,
                s.home_gpu,
                s.gpu_vas_base,
                crate::num::sat_add(s.gpu_vas_base, s.gpu_vas_size),
            ),
        );
    } else if !(b.state is FreePending) {
        lemma_first_index(w.gpus, gpu_is(b.home_gpu));
        let y = if w.daemon_attached > 0 && b.needs_free() {
            w.queue_free(i).1
        } else {
            w.accounting_removal(b).with_block(i, PolarisBlock { refcount: 0, ..b })
        };
        lemma_filter_members(
            y.static_blocks,
            crate::state::static_block_apart_from(y.block_mappings, b.block_id),
        );
        lemma_filter_members(y.block_mappings, crate::state::mapping_not_of(b.block_id));
        assert(x.block_mappings == y.block_mappings.filter(
            crate::state::mapping_not_of(b.block_id),
        ));
    }
    assert forall|j: int| 0 <= j < v.blocks.len() implies in_order_or_marked(
        v.blocks[j],
        #[trigger] x.blocks[j],
    ) by {
        assert(in_order_or_marked(v.blocks[j], w.blocks[j]));
    }
}

/// Letting go of distinct blocks only loosens.
proof fn lemma_letting_go_of_all_loosens(v: PolarisView, s: SessionView, places: Seq<int>)
    requires
        inv(v),
        forall|k: int| 0 <= k < places.len() ==> 0 <= #[trigger] places[k] < v.blocks.len(),
        places.no_duplicates(),
        v.next_decision_id + places.len() <= u64::MAX,
    ensures
        loosened(v, letting_go_of_all(v, s, places)),
    decreases places.len(),
{
    if places.len() > 0 {
        let init = places.drop_last();
        assert forall|k: int| 0 <= k < init.len() implies 0 <= #[trigger] init[k] < v.blocks.len() by {
            assert(init[k] == places[k]);
        }
        lemma_letting_go_of_all_loosens(v, s, init);
        lemma_letting_go_of_all(v, s, init);
        let w = letting_go_of_all(v, s, init);
        let i = places.last();
        assert(i == places[places.len() - 1]);
        assert(!init.contains(i)) by {
            if init.contains(i) {
                let k = choose|k: int| 0 <= k < init.len() && init[k] == i;
                assert(places[k] == places[places.len() - 1]);
            }
        }
        assert(w.blocks[i] == v.blocks[i]);
        lemma_letting_go_loosens(v, w, s, i);
    }
}

/// The end of a session keeps the tables in order.
pub proof fn law_destroy_keeps_order(v: PolarisView, arg: PolarisSessionDestroyArg)
    requires
        inv(v),
        v.next_decision_id + v.blocks.len() <= u64::MAX,
    ensures
        inv(destroying(v, arg).1),
{
    lemma_first_index(v.sessions, session_is(arg.session_id));
    if destroying(v, arg).0 is Ok {
        let s = v.sessions[v.find_session(arg.session_id)->0];
        let places = concerned(v, s);
        lemma_concerned(v, s);
        lemma_letting_go_of_all_loosens(v, s, places);
        lemma_letting_go_of_all(v, s, places);
        let w = letting_go_of_all(v, s, places);
        let x = ended(v, s);
        let keep = stays(v.blocks, places);
        lemma_filter_members(w.blocks, keep);
        lemma_filter_members(w.sessions, session_is_not(s.session_id));
        lemma_filter_members(w.block_mappings, maps_one_of(x.blocks));
        assert forall|i: int| 0 <= i < x.blocks.len() implies {
            let b = #[trigger] x.blocks[i];
            &&& 0 < b.block_id < x.next_block_id
            &&& b.refcount >= 1
            &&& b.flags.shared == (b.refcount > 1)
        } by {
            let b = x.blocks[i];
            assert(x.blocks.contains(b));
            let j = choose|j: int| 0 <= j < w.blocks.len() && w.blocks[j] == b;
            assert(in_order_or_marked(v.blocks[j], w.blocks[j]));
            if !places.contains(j) {
                assert(w.blocks[j] == v.blocks[j]);
            } else {
                let k = choose|k: int| 0 <= k < places.len() && places[k] == j;
                assert(v.blocks[places[k]].block_id == b.block_id);
                assert(placed(v.blocks, places, b.block_id));
            }
        }
        assert forall|i: int, j: int| 0 <= i < j < x.blocks.len() implies (
        #[trigger] x.blocks[i]).block_id != (#[trigger] x.blocks[j]).block_id by {
            crate::laws::lemma_filter_places(w.blocks, keep, i, j);
            let (a, b) = choose|a: int, b: int|
                0 <= a < b < w.blocks.len() && #[trigger] w.blocks[a] == x.blocks[i]
                    && #[trigger] w.blocks[b] == x.blocks[j];
            assert(w.blocks[a].block_id == v.blocks[a].block_id);
            assert(w.blocks[b].block_id == v.blocks[b].block_id);
        }
        assert forall|i: int| 0 <= i < x.sessions.len() implies 0 < (
        #[trigger] x.sessions[i]).session_id < x.next_session_id by {
            assert(x.sessions.contains(x.sessions[i]));
        }
        assert forall|i: int, j: int| 0 <= i < j < x.sessions.len() implies (
        #[trigger] x.sessions[i]).session_id != (#[trigger] x.sessions[j]).session_id by {
            crate::laws::lemma_filter_places(w.sessions, session_is_not(s.session_id), i, j);
            let (a, b) = choose|a: int, b: int|
                0 <= a < b < w.sessions.len() && #[trigger] w.sessions[a] == x.sessions[i]
                    && #[trigger] w.sessions[b] == x.sessions[j];
            assert(w.sessions[a] == x.sessions[i] && w.sessions[b] == x.sessions[j]);
        }
        lemma_fewer_mappings(v.block_mappings, x.block_mappings);
        assert forall|k: int| 0 <= k < x.block_mappings.len() implies {
            let m = #[trigger] x.block_mappings[k];
            block_known(x.blocks, m.block_id) && space_known(
                x.va_spaces,
                m.gpu_id,
                m.rm_client_token,
                m.va_space_token,
            )
        } by {
            let m = x.block_mappings[k];
            assert(x.block_mappings.contains(m));
            assert(w.block_mappings.contains(m));
            assert(v.block_mappings.contains(m));
            let j = choose|j: int| 0 <= j < v.block_mappings.len() && v.block_mappings[j] == m;
            assert(space_known(
                v.va_spaces,
                v.block_mappings[j].gpu_id,
                v.block_mappings[j].rm_client_token,
                v.block_mappings[j].va_space_token,
            ));
            let i = choose|i: int|
                0 <= i < x.blocks.len() && block_is(m.block_id)(#[trigger] x.blocks[i]);
            assert(x.blocks[i].block_id == m.block_id);
        }
        assert forall|k: int| 0 <= k < x.static_blocks.len() implies {
            let t = #[trigger] x.static_blocks[k];
            space_known(x.va_spaces, t.gpu_id, t.rm_client_token, t.va_space_token)
        } by {
            let t = x.static_blocks[k];
            assert(w.static_blocks.contains(t));
            assert(v.static_blocks.contains(t));
            let j = choose|j: int| 0 <= j < v.static_blocks.len() && v.static_blocks[j] == t;
            assert(space_known(
                v.va_spaces,
                v.static_blocks[j].gpu_id,
                v.static_blocks[j].rm_client_token,
                v.static_blocks[j].va_space_token,
            ));
        }
    }
}

// ─── No memory is lost ──────────────────────────────────────────────────────

/// The queue asks for the memory of a block to be given back.
pub open spec fn asks_to_free(queue: Seq<PolarisDecision>, b: PolarisBlock) -> bool {
    exists|q: int|
        {
            &&& 0 <= q < queue.len()
            &&& (#[trigger] queue[q]).op == PolarisDecisionOp::Free.code()
            &&& queue[q].block_id == b.block_id
            &&& queue[q].gpu_id == b.home_gpu
            &&& queue[q].src_handle == b.gpu_phys_handle
            &&& queue[q].cpu_addr == b.cpu_buf_addr
            &&& queue[q].size_bytes == b.size_bytes
        }
}

/// Counting is not negative and does not fall.
proof fn lemma_asking_count(blocks: Seq<PolarisBlock>, places: Seq<int>)
    ensures
        0 <= asking_count(blocks, places) <= places.len(),
    decreases places.len(),
{
    if places.len() > 0 {
        lemma_asking_count(blocks, places.drop_last());
    }
}

/// Letting go queues one decision for each block that needs it.
proof fn lemma_frees_are_queued(v: PolarisView, s: SessionView, places: Seq<int>)
    requires
        forall|k: int| 0 <= k < places.len() ==> 0 <= #[trigger] places[k] < v.blocks.len(),
        places.no_duplicates(),
        v.next_decision_id + places.len() <= u64::MAX,
        v.daemon_attached > 0,
        v.pending_decisions.len() + asking_count(v.blocks, places) <= POLARIS_MAX_PENDING_DECISIONS,
    ensures
        ({
            let w = letting_go_of_all(v, s, places);
            &&& w.pending_decisions.len() == v.pending_decisions.len() + asking_count(
                v.blocks,
                places,
            )
            &&& forall|k: int|
                0 <= k < places.len() && needs_asking(v.blocks[#[trigger] places[k]])
                    ==> asks_to_free(w.pending_decisions, v.blocks[places[k]])
                    && w.blocks[places[k]].state is FreePending
        }),
    decreases places.len(),
{
    if places.len() > 0 {
        let init = places.drop_last();
        assert forall|k: int| 0 <= k < init.len() implies 0 <= #[trigger] init[k] < v.blocks.len() by {
            assert(init[k] == places[k]);
        }
        lemma_asking_count(v.blocks, init);
        lemma_frees_are_queued(v, s, init);
        lemma_letting_go_of_all(v, s, init);
        let w = letting_go_of_all(v, s, init);
        let i = places.last();
        assert(i == places[places.len() - 1]);
        assert(!init.contains(i)) by {
            if init.contains(i) {
                let k = choose|k: int| 0 <= k < init.len() && init[k] == i;
                assert(places[k] == places[places.len() - 1]);
            }
        }
        let b = w.blocks[i];
        assert(b == v.blocks[i]);
        lemma_letting_go(w, s, i);
        let x = letting_go(w, s, i);
        if needs_asking(b) {
            let n = w.pending_decisions.len() as int;
            assert(x.pending_decisions[n].op == PolarisDecisionOp::Free.code());
            assert(asks_to_free(x.pending_decisions, b));
        }
        assert forall|k: int|
            0 <= k < places.len() && needs_asking(v.blocks[#[trigger] places[k]]) implies
        asks_to_free(x.pending_decisions, v.blocks[places[k]]) && x.blocks[places[k]].state is FreePending by {
            if k < init.len() {
                assert(init[k] == places[k]);
                assert(places[k] != i);
                let c = v.blocks[places[k]];
                let q = choose|q: int|
                    {
                        &&& 0 <= q < w.pending_decisions.len()
                        &&& (#[trigger] w.pending_decisions[q]).op == PolarisDecisionOp::Free.code()
                        &&& w.pending_decisions[q].block_id == c.block_id
                        &&& w.pending_decisions[q].gpu_id == c.home_gpu
                        &&& w.pending_decisions[q].src_handle == c.gpu_phys_handle
                        &&& w.pending_decisions[q].cpu_addr == c.cpu_buf_addr
                        &&& w.pending_decisions[q].size_bytes == c.size_bytes
                    };
                assert(x.pending_decisions[q] == w.pending_decisions[q]);
            }
        }
    }
}

/// While an executor is attached, no session ends at the cost of memory that
/// the executor holds: each block that it concerns and nobody else shares is
/// kept until the executor has given its memory back, and the executor is
/// asked to.
pub proof fn law_destroy_drops_no_live_memory(
    v: PolarisView,
    arg: PolarisSessionDestroyArg,
    k: int,
)
    requires
        inv(v),
        v.next_decision_id + v.blocks.len() <= u64::MAX,
        v.daemon_attached > 0,
        destroying(v, arg).0 is Ok,
        ({
            let s = v.sessions[v.find_session(arg.session_id)->0];
            0 <= k < concerned(v, s).len() && needs_asking(v.blocks[concerned(v, s)[k]])
        }),
    ensures
        ({
            let s = v.sessions[v.find_session(arg.session_id)->0];
            let b = v.blocks[concerned(v, s)[k]];
            let x = destroying(v, arg).1;
            &&& asks_to_free(x.pending_decisions, b)
            &&& exists|i: int|
                0 <= i < x.blocks.len() && (#[trigger] x.blocks[i]).block_id == b.block_id
                    && x.blocks[i].state is FreePending
        }),
{
    let s = v.sessions[v.find_session(arg.session_id)->0];
    let places = concerned(v, s);
    lemma_concerned(v, s);
    lemma_frees_are_queued(v, s, places);
    lemma_letting_go_of_all(v, s, places);
    let w = letting_go_of_all(v, s, places);
    let x = destroying(v, arg).1;
    let j = places[k];
    assert(w.blocks[j].state is FreePending);
    lemma_filter_members(w.blocks, stays(v.blocks, places));
    assert(w.blocks.contains(w.blocks[j]));
    assert(x.blocks.contains(w.blocks[j]));
    let i = choose|i: int| 0 <= i < x.blocks.len() && x.blocks[i] == w.blocks[j];
    assert(x.blocks[i].block_id == v.blocks[j].block_id);
}

/// A session whose end is refused is untouched, and so is everything else.
pub proof fn law_refused_destroy_changes_nothing(v: PolarisView, arg: PolarisSessionDestroyArg)
    requires
        destroying(v, arg).0 is Err,
    ensures
        destroying(v, arg).1 == v,
{
}

// ─── A branch and its end ───────────────────────────────────────────────────

/// Sharing once more by distinct ids adds exactly one reference to each of the
/// blocks.
pub proof fn lemma_shared_exactly(blocks: Seq<PolarisBlock>, ids: Seq<u64>, next: u64)
    requires
        blocks_wf(blocks, next),
        ids.no_duplicates(),
        forall|i: int|
            0 <= i < blocks.len() ==> (#[trigger] blocks[i]).refcount + ids.len() <= u64::MAX,
    ensures
        shared_once_more(blocks, ids).len() == blocks.len(),
        forall|i: int|
            0 <= i < blocks.len() ==> #[trigger] shared_once_more(blocks, ids)[i] == if ids.contains(
                blocks[i].block_id,
            ) {
                PolarisBlock {
                    refcount: (blocks[i].refcount + 1) as u64,
                    flags: PolarisBlockFlags { shared: true },
                    ..blocks[i]
                }
            } else {
                blocks[i]
            },
    decreases ids.len(),
{
    if ids.len() > 0 {
        let init = ids.drop_last();
        let id = ids.last();
        assert(ids[ids.len() - 1] == id);
        lemma_shared_exactly(blocks, init, next);
        let before = shared_once_more(blocks, init);
        lemma_first_index(before, block_is(id));
        assert(!init.contains(id)) by {
            if init.contains(id) {
                let k = choose|k: int| 0 <= k < init.len() && init[k] == id;
                assert(ids[k] == ids[ids.len() - 1]);
            }
        }
        assert forall|i: int| 0 <= i < blocks.len() implies #[trigger] shared_once_more(
            blocks,
            ids,
        )[i] == if ids.contains(blocks[i].block_id) {
            PolarisBlock {
                refcount: (blocks[i].refcount + 1) as u64,
                flags: PolarisBlockFlags { shared: true },
                ..blocks[i]
            }
        } else {
            blocks[i]
        } by {
            let b = blocks[i];
            assert(before[i].block_id == b.block_id);
            if b.block_id == id {
                assert(block_is(id)(before[i]));
                let f = first_index(before, block_is(id))->0;
                assert(before[f].block_id == id);
                assert(blocks[f].block_id == id);
                assert(f == i);
            } else if init.contains(b.block_id) {
                let k = choose|k: int| 0 <= k < init.len() && init[k] == b.block_id;
                assert(ids[k] == b.block_id);
            } else if ids.contains(b.block_id) {
                let k = choose|k: int| 0 <= k < ids.len() && ids[k] == b.block_id;
                if k < init.len() {
                    assert(init[k] == b.block_id);
                }
            }
        }
    }
}

/// Without blocks of its own, the places that the end of a session concerns are
/// those of the blocks it lists.
proof fn lemma_listed_places(blocks: Seq<PolarisBlock>, ids: Seq<u64>)
    requires
        forall|i: int, j: int|
            0 <= i < j < blocks.len() ==> (#[trigger] blocks[i]).block_id != (
            #[trigger] blocks[j]).block_id,
    ensures
        ({
            let all = places_with_listed(blocks, Seq::empty(), ids);
            &&& forall|k: int|
                0 <= k < all.len() ==> ids.contains(blocks[#[trigger] all[k]].block_id)
            &&& forall|i: int|
                #![trigger blocks[i]]
                0 <= i < blocks.len() && ids.contains(blocks[i].block_id) ==> all.contains(i)
        }),
    decreases ids.len(),
{
    if ids.len() > 0 {
        let init = ids.drop_last();
        let id = ids.last();
        assert(ids[ids.len() - 1] == id);
        lemma_listed_places(blocks, init);
        lemma_places_with_listed(blocks, Seq::empty(), init);
        lemma_first_index(blocks, block_is(id));
        let before = places_with_listed(blocks, Seq::empty(), init);
        let all = places_with_listed(blocks, Seq::empty(), ids);
        assert forall|k: int| 0 <= k < all.len() implies ids.contains(
            blocks[#[trigger] all[k]].block_id,
        ) by {
            if k < before.len() {
                assert(all[k] == before[k]);
                let q = choose|q: int|
                    0 <= q < init.len() && init[q] == blocks[before[k]].block_id;
                assert(ids[q] == blocks[before[k]].block_id);
            }
        }
        assert forall|i: int|
            #![trigger blocks[i]]
            0 <= i < blocks.len() && ids.contains(blocks[i].block_id) implies all.contains(i) by {
            let b = blocks[i];
            let q = choose|q: int| 0 <= q < ids.len() && ids[q] == b.block_id;
            if q < init.len() {
                assert(init[q] == b.block_id);
                assert(before.contains(i));
                let k = choose|k: int| 0 <= k < before.len() && before[k] == i;
                assert(all[k] == i);
            } else {
                assert(block_is(id)(blocks[i]));
                if placed(blocks, before, id) {
                    let k = choose|k: int|
                        0 <= k < before.len() && blocks[#[trigger] before[k]].block_id == id;
                    assert(before[k] == i);
                    assert(all[k] == i);
                } else {
                    let f = first_index(blocks, block_is(id))->0;
                    assert(blocks[f].block_id == id);
                    assert(f == i);
                    assert(all[before.len() as int] == i);
                }
            }
        }
    }
}

/// Letting go of blocks that others share takes a reference from each, and
/// touches nothing else but mappings.
proof fn lemma_letting_go_of_shared(v: PolarisView, s: SessionView, places: Seq<int>)
    requires
        forall|k: int| 0 <= k < places.len() ==> 0 <= #[trigger] places[k] < v.blocks.len(),
        places.no_duplicates(),
        forall|k: int| 0 <= k < places.len() ==> v.blocks[#[trigger] places[k]].refcount > 1,
        v.next_decision_id + places.len() <= u64::MAX,
    ensures
        ({
            let w = letting_go_of_all(v, s, places);
            &&& w == PolarisView { blocks: w.blocks, block_mappings: w.block_mappings, ..v }
            &&& w.blocks.len() == v.blocks.len()
            &&& forall|i: int|
                0 <= i < v.blocks.len() ==> #[trigger] w.blocks[i] == if places.contains(i) {
                    v.blocks[i].with_reference_dropped()
                } else {
                    v.blocks[i]
                }
            &&& asking_count(v.blocks, places) == 0
        }),
    decreases places.len(),
{
    if places.len() > 0 {
        let init = places.drop_last();
        assert forall|k: int| 0 <= k < init.len() implies 0 <= #[trigger] init[k] < v.blocks.len()
            && v.blocks[init[k]].refcount > 1 by {
            assert(init[k] == places[k]);
        }
        lemma_letting_go_of_shared(v, s, init);
        let w = letting_go_of_all(v, s, init);
        let i = places.last();
        assert(i == places[places.len() - 1]);
        assert(!init.contains(i)) by {
            if init.contains(i) {
                let k = choose|k: int| 0 <= k < init.len() && init[k] == i;
                assert(places[k] == places[places.len() - 1]);
            }
        }
        let x = letting_go_of_all(v, s, places);
        assert forall|j: int| 0 <= j < v.blocks.len() implies #[trigger] x.blocks[j] == if places.contains(
            j,
        ) {
            v.blocks[j].with_reference_dropped()
        } else {
            v.blocks[j]
        } by {
            assert(w.blocks[j] == if init.contains(j) {
                v.blocks[j].with_reference_dropped()
            } else {
                v.blocks[j]
            });
            if init.contains(j) {
                let k = choose|k: int| 0 <= k < init.len() && init[k] == j;
                assert(places[k] == j);
            }
            if places.contains(j) && j != i {
                let k = choose|k: int| 0 <= k < places.len() && places[k] == j;
                assert(init[k] == j);
            }
        }
    }
}

/// A branch that ends leaves every block and every session as they were before
/// it; what stays is that ids and addresses were used up, and mappings at the
/// branch's addresses are gone.
pub proof fn law_branch_then_destroy_restores(
    v: PolarisView,
    arg: PolarisSessionBranchArg,
    end: PolarisSessionDestroyArg,
)
    requires
        inv(v),
        branch_fits(v, arg),
        branching(v, arg).0 is Ok,
        end.session_id == v.next_session_id,
        v.find_session(arg.parent_session_id) matches Some(p)
            && v.sessions[p].block_ids.no_duplicates(),
        forall|i: int|
            0 <= i < v.blocks.len() ==> (#[trigger] v.blocks[i]).session_id != v.next_session_id,
        v.next_decision_id + v.blocks.len() <= u64::MAX,
        v.pending_decisions.len() <= POLARIS_MAX_PENDING_DECISIONS,
    ensures
        ({
            let w = branching(v, arg).1;
            let (r, x) = destroying(w, end);
            &&& r is Ok
            &&& x.blocks == v.blocks
            &&& x.sessions == v.sessions
            &&& x.pending_decisions == v.pending_decisions
            &&& forall|m: PolarisBlockMapping| #[trigger]
                x.block_mappings.contains(m) ==> v.block_mappings.contains(m)
        }),
{
    let w = branching(v, arg).1;
    let p = v.find_session(arg.parent_session_id)->0;
    let parent = v.sessions[p];
    let ids = parent.block_ids;
    let c = v.next_session_id;
    lemma_shared_exactly(v.blocks, ids, v.next_block_id);
    lemma_shared_once_more(v.blocks, ids);
    lemma_first_index(v.gpus, gpu_is(parent.home_gpu));
    let blocks = shared_once_more(v.blocks, ids);
    assert(w.blocks == blocks);
    let n = v.sessions.len() as int;
    assert(w.sessions.len() == n + 1);
    let child = w.sessions[n];
    assert(child.session_id == c);
    assert(child.block_ids == ids);
    assert forall|i: int| 0 <= i < n implies !session_is(c)(#[trigger] w.sessions[i]) by {
        assert(w.sessions[i] == v.sessions[i]);
    }
    assert(crate::seqs::is_first(w.sessions, session_is(c), n));
    crate::seqs::lemma_first_index_is(w.sessions, session_is(c), n);
    // The child has no blocks of its own.
    let own = own_places(w.blocks, c, w.blocks.len() as int);
    lemma_own_places(w.blocks, c, w.blocks.len() as int);
    assert(own =~= Seq::empty()) by {
        if own.len() > 0 {
            let i = own[0];
            assert(w.blocks[i].session_id == c);
            assert(blocks[i].session_id == v.blocks[i].session_id);
        }
    }
    let places = concerned(w, child);
    lemma_concerned(w, child);
    assert forall|i: int, j: int| 0 <= i < j < w.blocks.len() implies (
    #[trigger] w.blocks[i]).block_id != (#[trigger] w.blocks[j]).block_id by {
        assert(blocks[i].block_id == v.blocks[i].block_id);
        assert(blocks[j].block_id == v.blocks[j].block_id);
    }
    lemma_listed_places(w.blocks, ids);
    assert forall|k: int| 0 <= k < places.len() implies w.blocks[#[trigger] places[k]].refcount
        > 1 by {
        let i = places[k];
        assert(ids.contains(w.blocks[places[k]].block_id));
        assert(blocks[i].block_id == v.blocks[i].block_id);
        assert(v.blocks[i].refcount >= 1);
    }
    lemma_letting_go_of_shared(w, child, places);
    let y = letting_go_of_all(w, child, places);
    assert forall|i: int| 0 <= i < v.blocks.len() implies #[trigger] y.blocks[i] == v.blocks[i] by {
        let b = v.blocks[i];
        assert(blocks[i].block_id == b.block_id);
        if ids.contains(b.block_id) {
            assert(ids.contains(w.blocks[i].block_id));
            assert(places.contains(i));
            assert(b.flags.shared == (b.refcount > 1));
        } else {
            assert(!places.contains(i)) by {
                if places.contains(i) {
                    let k = choose|k: int| 0 <= k < places.len() && places[k] == i;
                    assert(ids.contains(w.blocks[places[k]].block_id));
                }
            }
        }
    }
    assert(y.blocks =~= v.blocks);
    assert forall|i: int| 0 <= i < y.blocks.len() implies stays(w.blocks, places)(
        #[trigger] y.blocks[i],
    ) by {
        assert(v.blocks[i].refcount >= 1);
    }
    lemma_filter_all(y.blocks, stays(w.blocks, places));
    // Of the sessions, only the child goes.
    assert forall|i: int| 0 <= i < v.sessions.len() implies session_is_not(c)(
        #[trigger] v.sessions[i],
    ) by {
        assert(v.sessions[i].session_id < c);
    }
    lemma_filter_all(v.sessions, session_is_not(c));
    assert(w.sessions.drop_last() =~= v.sessions);
    reveal(Seq::filter);
    assert(w.sessions.filter(session_is_not(c)) == v.sessions);
    // Mappings only go.
    lemma_filter_members(y.block_mappings, maps_one_of(y.blocks));
    lemma_mappings_only_go(w, child, places);
}

/// Letting go never adds a mapping.
proof fn lemma_mappings_only_go(v: PolarisView, s: SessionView, places: Seq<int>)
    ensures
        forall|m: PolarisBlockMapping| #[trigger]
            letting_go_of_all(v, s, places).block_mappings.contains(m)
                ==> v.block_mappings.contains(m),
    decreases places.len(),
{
    if places.len() > 0 {
        lemma_mappings_only_go(v, s, places.drop_last());
        let w = letting_go_of_all(v, s, places.drop_last());
        let i = places.last();
        let b = w.blocks[i];
        lemma_filter_members(
            w.block_mappings,
            mapping_outside(
                b.block_id,
                s.home_gpu,
                s.gpu_vas_base,
                crate::num::sat_add(s.gpu_vas_base, s.gpu_vas_size),
            ),
        );
        lemma_filter_members(w.block_mappings, crate::state::mapping_not_of(b.block_id));
    }
}

/// Letting blocks go never makes the queue longer than it may be.
proof fn lemma_letting_go_keeps_limit(v: PolarisView, s: SessionView, places: Seq<int>)
    requires
        v.pending_decisions.len() <= POLARIS_MAX_PENDING_DECISIONS,
    ensures
        letting_go_of_all(v, s, places).pending_decisions.len() <= POLARIS_MAX_PENDING_DECISIONS,
    decreases places.len(),
{
    if places.len() > 0 {
        lemma_letting_go_keeps_limit(v, s, places.drop_last());
    }
}

/// Destroying a session never makes the queue longer than it may be.
pub proof fn law_destroy_keeps_queue_limit(v: PolarisView, arg: PolarisSessionDestroyArg)
    requires
        v.pending_decisions.len() <= POLARIS_MAX_PENDING_DECISIONS,
    ensures
        destroying(v, arg).1.pending_decisions.len() <= POLARIS_MAX_PENDING_DECISIONS,
{
    if let Some(k) = v.find_session(arg.session_id) {
        let s = v.sessions[k];
        lemma_letting_go_keeps_limit(v, s, concerned(v, s));
    }
}

} // verus!
