//! What opening, branching and closing sessions are for: addresses of their own, blocks
//! that are shared, and an end that loses nothing.

use crate::abi::{PolarisSessionBranchArg, PolarisSessionCreateArg, PolarisSessionDestroyArg};
use crate::errno::{ENODEV, ENOENT, ENOMEM};
use crate::num::lemma_round_up;
use crate::order::inv;
use crate::places::{
    gpu_at, law_gpu_is_found, law_session_is_found, no_block, no_gpu, no_session, session_at,
};
use crate::reservation_laws::has_live_memory;
use crate::seqs::{first_index, lemma_filter_members, lemma_first_index};
use crate::session_laws::{asks_to_free, lemma_shared_exactly};
use crate::sessions::{
    branching, concerned, creating, destroying, lemma_concerned, lemma_letting_go,
    lemma_letting_go_of_all, lemma_own_places, letting_go_of_all, maps_one_of,
    own_places, placed, places_with_listed, session_is_not, stays,
};
use crate::state::{block_is, PolarisView};
use crate::types::{PolarisBlock, PolarisBlockMapping, PolarisGpu, SessionView};
use vstd::prelude::*;

verus! {

// ─── Opening ────────────────────────────────────────────────────────────────

/// A session is entered as it was asked for, with what was left out filled in: half a
/// mebibyte for a token, priority 5, and no blocks, no parent and no hint.
pub open spec fn as_asked(s: SessionView, arg: PolarisSessionCreateArg, id: u64) -> bool {
    &&& s.session_id == id && s.home_gpu == arg.home_gpu && s.beam_width == arg.beam_width
    &&& s.bytes_per_token == (if arg.bytes_per_token == 0 {
        524_288
    } else {
        arg.bytes_per_token
    })
    &&& s.priority == (if arg.priority == 0 {
        5
    } else {
        arg.priority
    })
    &&& s.parent_session_id == 0 && s.block_ids == Seq::<u64>::empty()
    &&& s.active_read_token_count == 0 && s.active_write_token_count == 0
}

/// A session on a GPU with a range gets addresses of its own there: as many as it asked
/// for, or four gibibytes, from where the last ones ended; the next ones start at the
/// next multiple of two mebibytes. Where they do not fit the range, it is refused.
pub proof fn law_session_gets_addresses_of_its_own(
    v: PolarisView,
    arg: PolarisSessionCreateArg,
    g: int,
)
    requires
        gpu_at(v, arg.home_gpu, g),
        v.gpus[g].healthy,
        v.gpus[g].va_range_registered,
        v.gpus[g].va_range_base + v.gpus[g].va_range_length <= u64::MAX,
        v.gpus[g].next_va_offset <= v.gpus[g].va_range_length,
        v.next_session_id < u64::MAX,
    ensures
        ({
            let o = v.gpus[g];
            let bytes = if arg.gpu_vas_bytes == 0 {
                4_294_967_296
            } else {
                arg.gpu_vas_bytes
            };
            let (r, w) = creating(v, arg);
            let s = w.sessions.last();
            let h = w.gpus[g];
            let taken = h.next_va_offset - o.next_va_offset;
            &&& o.next_va_offset + bytes > o.va_range_length ==> r == Err::<
                PolarisSessionCreateArg,
                i32,
            >(ENOMEM) && w == v
            &&& o.next_va_offset + bytes + 2_097_151 <= o.va_range_length ==> r is Ok
            &&& bytes % 2_097_152 == 0 && o.next_va_offset + bytes <= o.va_range_length ==> r is Ok
            &&& r is Err ==> w == v
            &&& r matches Ok(reply) ==> {
                &&& reply.session_id == v.next_session_id
                &&& w.sessions == v.sessions.push(s)
                &&& as_asked(s, arg, v.next_session_id)
                &&& s.gpu_vas_base == o.va_range_base + o.next_va_offset
                &&& s.gpu_vas_size == bytes
                &&& w.gpus == v.gpus.update(g, h)
                &&& h == (PolarisGpu { next_va_offset: h.next_va_offset, ..o })
                &&& bytes <= taken < bytes + 2_097_152 && taken % 2_097_152 == 0
                &&& h.next_va_offset <= o.va_range_length
                &&& w.next_session_id == v.next_session_id + 1
                &&& w.blocks == v.blocks && w.pending_decisions == v.pending_decisions
            }
        }),
{
    law_gpu_is_found(v, arg.home_gpu);
    let bytes = if arg.gpu_vas_bytes == 0 {
        4_294_967_296
    } else {
        arg.gpu_vas_bytes
    };
    lemma_round_up(bytes as int, 2_097_152);
}

/// On a GPU without a range, or one that is not known, a session is entered without
/// addresses; on one that is not healthy it is refused.
pub proof fn law_session_without_a_range(v: PolarisView, arg: PolarisSessionCreateArg, g: int)
    requires
        v.next_session_id < u64::MAX,
    ensures
        gpu_at(v, arg.home_gpu, g) && !v.gpus[g].healthy ==> creating(v, arg) == (
            Err::<PolarisSessionCreateArg, i32>(ENODEV),
            v,
        ),
        no_gpu(v, arg.home_gpu) || (gpu_at(v, arg.home_gpu, g) && v.gpus[g].healthy
            && !v.gpus[g].va_range_registered) ==> {
            let (r, w) = creating(v, arg);
            let s = w.sessions.last();
            &&& r matches Ok(reply) && reply.session_id == v.next_session_id
            &&& w.sessions == v.sessions.push(s)
            &&& as_asked(s, arg, v.next_session_id)
            &&& s.gpu_vas_base == 0 && s.gpu_vas_size == arg.gpu_vas_bytes
            &&& w.gpus == v.gpus && w.blocks == v.blocks
        },
{
    law_gpu_is_found(v, arg.home_gpu);
}

// ─── Branching ──────────────────────────────────────────────────────────────

/// A branch shares every block that its parent lists, and no other: each of them has one
/// reference more and is marked as shared. It lists what its parent lists, and is like
/// it but for its id and its addresses; it gives no hint of its own yet.
pub proof fn law_branch_shares_its_parents_blocks(
    v: PolarisView,
    arg: PolarisSessionBranchArg,
    p: int,
    i: int,
)
    requires
        inv(v),
        session_at(v, arg.parent_session_id, p),
        v.sessions[p].block_ids.no_duplicates(),
        branching(v, arg).0 is Ok,
        v.next_session_id < u64::MAX,
        forall|j: int|
            0 <= j < v.blocks.len() ==> (#[trigger] v.blocks[j]).refcount
                + v.sessions[p].block_ids.len() <= u64::MAX,
        0 <= i < v.blocks.len(),
    ensures
        ({
            let parent = v.sessions[p];
            let b = v.blocks[i];
            let (r, w) = branching(v, arg);
            let s = w.sessions.last();
            &&& r->Ok_0.child_session_id == v.next_session_id
            &&& w.sessions == v.sessions.push(s)
            &&& s == (SessionView {
                session_id: v.next_session_id,
                parent_session_id: arg.parent_session_id,
                gpu_vas_base: s.gpu_vas_base,
                active_read_start_token: 0,
                active_read_token_count: 0,
                active_write_start_token: 0,
                active_write_token_count: 0,
                ..parent
            })
            &&& w.blocks.len() == v.blocks.len()
            &&& parent.block_ids.contains(b.block_id) ==> w.blocks[i].refcount == b.refcount + 1
                && w.blocks[i].flags.shared
            &&& w.blocks[i] == (PolarisBlock {
                refcount: w.blocks[i].refcount,
                flags: w.blocks[i].flags,
                ..b
            })
            &&& !parent.block_ids.contains(b.block_id) ==> w.blocks[i] == b
            &&& w.pending_decisions == v.pending_decisions && w.block_mappings == v.block_mappings
        }),
{
    law_session_is_found(v, arg.parent_session_id);
    lemma_shared_exactly(v.blocks, v.sessions[p].block_ids, v.next_block_id);
}

/// A branch gets addresses of its own, as many as its parent has, from where the last
/// ones on its GPU ended. Where they do not fit the range it is refused, and on a GPU
/// that is not healthy or for an unknown parent nothing changes.
pub proof fn law_branch_gets_addresses_of_its_own(
    v: PolarisView,
    arg: PolarisSessionBranchArg,
    p: int,
    g: int,
)
    requires
        v.next_session_id < u64::MAX,
    ensures
        no_session(v, arg.parent_session_id) ==> branching(v, arg) == (
            Err::<PolarisSessionBranchArg, i32>(ENOENT),
            v,
        ),
        session_at(v, arg.parent_session_id, p) && gpu_at(v, v.sessions[p].home_gpu, g)
            && !v.gpus[g].healthy ==> branching(v, arg) == (
            Err::<PolarisSessionBranchArg, i32>(ENODEV),
            v,
        ),
        session_at(v, arg.parent_session_id, p) && gpu_at(v, v.sessions[p].home_gpu, g)
            && v.gpus[g].healthy && v.gpus[g].va_range_registered && v.gpus[g].next_va_offset
            <= v.gpus[g].va_range_length && v.gpus[g].va_range_base + v.gpus[g].va_range_length
            <= u64::MAX ==> {
            let o = v.gpus[g];
            let bytes = v.sessions[p].gpu_vas_size;
            let (r, w) = branching(v, arg);
            let s = w.sessions.last();
            let h = w.gpus[g];
            let taken = h.next_va_offset - o.next_va_offset;
            &&& o.next_va_offset + bytes > o.va_range_length ==> r == Err::<
                PolarisSessionBranchArg,
                i32,
            >(ENOMEM) && w.sessions == v.sessions
            &&& o.next_va_offset + bytes + 2_097_151 <= o.va_range_length ==> r is Ok
            &&& bytes % 2_097_152 == 0 && o.next_va_offset + bytes <= o.va_range_length ==> r is Ok
            &&& r is Ok ==> {
                &&& s.gpu_vas_base == o.va_range_base + o.next_va_offset
                &&& s.gpu_vas_size == bytes
                &&& w.gpus == v.gpus.update(g, h)
                &&& h == (PolarisGpu { next_va_offset: h.next_va_offset, ..o })
                &&& bytes <= taken < bytes + 2_097_152 && taken % 2_097_152 == 0
                &&& h.next_va_offset <= o.va_range_length
            }
        },
{
    law_session_is_found(v, arg.parent_session_id);
    if session_at(v, arg.parent_session_id, p) {
        law_gpu_is_found(v, v.sessions[p].home_gpu);
        lemma_round_up(v.sessions[p].gpu_vas_size as int, 2_097_152);
    }
}

// ─── Closing ────────────────────────────────────────────────────────────────

/// The session reserved the block or lists it.
pub open spec fn has_part_in(s: SessionView, b: PolarisBlock) -> bool {
    b.session_id == s.session_id || s.block_ids.contains(b.block_id)
}

/// The blocks that the end of a session concerns are those that it has part in.
proof fn lemma_concerned_are(v: PolarisView, s: SessionView, i: int)
    requires
        inv(v),
        0 <= i < v.blocks.len(),
    ensures
        concerned(v, s).contains(i) <==> has_part_in(s, v.blocks[i]),
        placed(v.blocks, concerned(v, s), v.blocks[i].block_id) <==> has_part_in(s, v.blocks[i]),
{
    let own = own_places(v.blocks, s.session_id, v.blocks.len() as int);
    lemma_own_places(v.blocks, s.session_id, v.blocks.len() as int);
    assert(own.contains(i) <==> v.blocks[i].session_id == s.session_id) by {
        if own.contains(i) {
            let k = choose|k: int| 0 <= k < own.len() && own[k] == i;
            assert(v.blocks[own[k]].session_id == s.session_id);
        }
    }
    lemma_listed_too(v, own, s.block_ids, i);
    let all = concerned(v, s);
    lemma_concerned(v, s);
    if all.contains(i) {
        let k = choose|k: int| 0 <= k < all.len() && all[k] == i;
        assert(v.blocks[all[k]].block_id == v.blocks[i].block_id);
    }
    if placed(v.blocks, all, v.blocks[i].block_id) {
        let k = choose|k: int|
            0 <= k < all.len() && v.blocks[#[trigger] all[k]].block_id == v.blocks[i].block_id;
        assert(all[k] == i);
    }
}

/// The places with the listed ones are those of the own and of the listed blocks.
proof fn lemma_listed_too(v: PolarisView, own: Seq<int>, ids: Seq<u64>, i: int)
    requires
        inv(v),
        0 <= i < v.blocks.len(),
        forall|k: int| 0 <= k < own.len() ==> 0 <= #[trigger] own[k] < v.blocks.len(),
        own.no_duplicates(),
    ensures
        places_with_listed(v.blocks, own, ids).contains(i) <==> own.contains(i) || ids.contains(
            v.blocks[i].block_id,
        ),
    decreases ids.len(),
{
    if ids.len() > 0 {
        let init = ids.drop_last();
        lemma_listed_too(v, own, init, i);
        crate::sessions::lemma_places_with_listed(v.blocks, own, init);
        let before = places_with_listed(v.blocks, own, init);
        let all = places_with_listed(v.blocks, own, ids);
        let id = v.blocks[i].block_id;
        lemma_first_index(v.blocks, block_is(ids.last()));
        assert(ids.contains(id) <==> init.contains(id) || ids.last() == id) by {
            assert(ids[ids.len() - 1] == ids.last());
            if init.contains(id) {
                let q = choose|q: int| 0 <= q < init.len() && init[q] == id;
                assert(ids[q] == id);
            }
            if ids.contains(id) {
                let q = choose|q: int| 0 <= q < ids.len() && ids[q] == id;
                if q < init.len() {
                    assert(init[q] == id);
                }
            }
        }
        if placed(v.blocks, before, ids.last()) {
            if ids.last() == id {
                let k = choose|k: int|
                    0 <= k < before.len() && v.blocks[#[trigger] before[k]].block_id == id;
                assert(before[k] == i);
            }
        } else if let Some(x) = first_index(v.blocks, block_is(ids.last())) {
            assert(all == before.push(x));
            assert(v.blocks[x].block_id == ids.last());
            if ids.last() == id {
                assert(block_is(ids.last())(v.blocks[i]));
                assert(x == i);
                assert(all[before.len() as int] == i);
            }
            if before.contains(i) {
                let q = choose|q: int| 0 <= q < before.len() && before[q] == i;
                assert(all[q] == i);
            }
            if all.contains(i) {
                let q = choose|q: int| 0 <= q < all.len() && all[q] == i;
                if q < before.len() {
                    assert(before[q] == i);
                }
            }
        } else if ids.last() == id {
            assert(block_is(ids.last())(v.blocks[i]));
        }
    }
}

/// What letting go makes of a block that the executor need not be asked about.
pub open spec fn let_go(b: PolarisBlock) -> PolarisBlock {
    if b.refcount > 1 {
        b.with_reference_dropped()
    } else if b.state is FreePending {
        b
    } else {
        PolarisBlock { refcount: 0, ..b }
    }
}

/// Letting go of blocks in turn makes of each what letting go of it alone would.
proof fn lemma_each_let_go(v: PolarisView, s: SessionView, places: Seq<int>, j: int)
    requires
        forall|k: int| 0 <= k < places.len() ==> 0 <= #[trigger] places[k] < v.blocks.len(),
        places.no_duplicates(),
        v.next_decision_id + places.len() <= u64::MAX,
        places.contains(j),
        v.daemon_attached == 0 || v.blocks[j].refcount > 1 || !v.blocks[j].needs_free(),
    ensures
        letting_go_of_all(v, s, places).blocks[j] == let_go(v.blocks[j]),
    decreases places.len(),
{
    let init = places.drop_last();
    let last = places.last();
    assert(last == places[places.len() - 1]);
    assert forall|k: int| 0 <= k < init.len() implies 0 <= #[trigger] init[k] < v.blocks.len() by {
        assert(init[k] == places[k]);
    }
    lemma_letting_go_of_all(v, s, init);
    let w = letting_go_of_all(v, s, init);
    lemma_letting_go(w, s, last);
    if j == last {
        assert(!init.contains(j)) by {
            if init.contains(j) {
                let k = choose|k: int| 0 <= k < init.len() && init[k] == j;
                assert(places[k] == places[places.len() - 1]);
            }
        }
        assert(w.blocks[j] == v.blocks[j]);
        let x = w.accounting_removal(w.blocks[j]);
        assert(x.blocks == w.blocks);
    } else {
        let k = choose|k: int| 0 <= k < places.len() && places[k] == j;
        assert(init[k] == j);
        lemma_each_let_go(v, s, init, j);
    }
}

/// The end of a session ends its part in its blocks, and no one else's. A block that it
/// has no part in stays as it is. One that others share has one reference less. One of
/// its alone without memory is gone; one with memory waits until the executor, which is
/// asked, has freed it. The session is gone and every other session is as it was.
pub proof fn law_end_of_a_session_spares_the_others(
    v: PolarisView,
    arg: PolarisSessionDestroyArg,
    k: int,
    i: int,
)
    requires
        inv(v),
        session_at(v, arg.session_id, k),
        destroying(v, arg).0 is Ok,
        v.next_decision_id + v.blocks.len() <= u64::MAX,
        0 <= i < v.blocks.len(),
    ensures
        ({
            let s = v.sessions[k];
            let b = v.blocks[i];
            let w = destroying(v, arg).1;
            &&& no_session(w, arg.session_id)
            &&& forall|o: SessionView| #[trigger]
                w.sessions.contains(o) <==> v.sessions.contains(o) && o.session_id
                    != arg.session_id
            &&& !has_part_in(s, b) ==> w.blocks.contains(b)
            &&& has_part_in(s, b) && b.refcount > 1 ==> exists|x: int|
                {
                    &&& 0 <= x < w.blocks.len()
                    &&& (#[trigger] w.blocks[x]).block_id == b.block_id
                    &&& w.blocks[x].refcount == b.refcount - 1
                    &&& w.blocks[x] == (PolarisBlock {
                        refcount: w.blocks[x].refcount,
                        flags: w.blocks[x].flags,
                        ..b
                    })
                }
            &&& has_part_in(s, b) && b.refcount <= 1 && !(b.state is FreePending) && (
            !has_live_memory(b) || v.daemon_attached == 0) ==> no_block(w, b.block_id)
            &&& has_part_in(s, b) && b.refcount <= 1 && has_live_memory(b) && v.daemon_attached > 0
                ==> {
                &&& asks_to_free(w.pending_decisions, b)
                &&& exists|x: int|
                    0 <= x < w.blocks.len() && (#[trigger] w.blocks[x]).block_id == b.block_id
                        && w.blocks[x].state is FreePending
            }
        }),
{
    let s = v.sessions[k];
    let b = v.blocks[i];
    law_session_is_found(v, arg.session_id);
    let places = concerned(v, s);
    lemma_concerned(v, s);
    lemma_concerned_are(v, s, i);
    lemma_letting_go_of_all(v, s, places);
    let u = letting_go_of_all(v, s, places);
    let w = destroying(v, arg).1;
    lemma_filter_members(u.sessions, session_is_not(arg.session_id));
    lemma_filter_members(u.blocks, stays(v.blocks, places));
    assert forall|j: int| 0 <= j < w.sessions.len() implies (#[trigger] w.sessions[j]).session_id
        != arg.session_id by {
        assert(w.sessions.contains(w.sessions[j]));
    }
    assert(u.blocks.contains(u.blocks[i]));
    if !has_part_in(s, b) {
        assert(u.blocks[i] == b);
        assert(w.blocks.contains(b));
    } else if b.refcount <= 1 && has_live_memory(b) && v.daemon_attached > 0 {
        let n = choose|n: int| 0 <= n < places.len() && places[n] == i;
        crate::session_laws::law_destroy_drops_no_live_memory(v, arg, n);
    } else {
        lemma_each_let_go(v, s, places, i);
        if b.refcount > 1 {
            assert(w.blocks.contains(u.blocks[i]));
            let x = choose|x: int| 0 <= x < w.blocks.len() && w.blocks[x] == u.blocks[i];
            assert(w.blocks[x].block_id == b.block_id);
        } else if !(b.state is FreePending) {
            assert forall|x: int| 0 <= x < w.blocks.len() implies (#[trigger] w.blocks[x]).block_id
                != b.block_id by {
                assert(w.blocks.contains(w.blocks[x]));
                if w.blocks[x].block_id == b.block_id {
                    let y = choose|y: int| 0 <= y < u.blocks.len() && u.blocks[y] == w.blocks[x];
                    assert(v.blocks[y].block_id == b.block_id);
                    assert(y == i);
                }
            }
        }
    }
}

/// No mapping outlives its block: after the end of a session every mapping is of a block
/// in the table.
pub proof fn law_no_mapping_outlives_its_block(
    v: PolarisView,
    arg: PolarisSessionDestroyArg,
    m: PolarisBlockMapping,
)
    requires
        destroying(v, arg).0 is Ok,
        destroying(v, arg).1.block_mappings.contains(m),
    ensures
        !no_block(destroying(v, arg).1, m.block_id),
{
    let s = v.sessions[v.find_session(arg.session_id)->0];
    let w = destroying(v, arg).1;
    let u = letting_go_of_all(v, s, concerned(v, s));
    lemma_filter_members(u.block_mappings, maps_one_of(w.blocks));
    let p = block_is(m.block_id);
    let x = choose|x: int| 0 <= x < w.blocks.len() && p(#[trigger] w.blocks[x]);
    assert(w.blocks[x].block_id == m.block_id);
}

/// A session that is not known cannot be closed.
pub proof fn law_unknown_session_cannot_be_closed(v: PolarisView, arg: PolarisSessionDestroyArg)
    requires
        no_session(v, arg.session_id),
    ensures
        destroying(v, arg) == (Err::<(), i32>(ENOENT), v),
{
    law_session_is_found(v, arg.session_id);
}

} // verus!
