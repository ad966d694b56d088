//! What the choice of a block that goes means: who can go, who goes first, and
//! what protects a block.

use crate::abi::{PolarisEvictionPolicy, PolarisPhase};
use crate::places::{
    block_at, gpu_at, law_block_is_found, law_gpu_is_found, law_session_is_found, no_session,
    session_at,
};
use crate::policy::{
    all_private_prefill, is_oldest, is_top, kv_window, lemma_oldest_exists, lemma_top_exists,
    map_time, movable, oldest, owned_by, phase_score, phase_time, private_candidate,
    scored_candidate, stream_score, top, touch_time, victim, ActiveKvWindow, VictimRequest,
};
use crate::state::PolarisView;
use crate::types::{PolarisBlock, SessionView};
use vstd::prelude::*;

verus! {

// ─── In plain terms ─────────────────────────────────────────────────────────

/// The block is resident on the GPU, nothing is in flight for it, and the host
/// pool of the GPU has room for it.
pub open spec fn can_go(v: PolarisView, b: PolarisBlock, gpu_id: u32) -> bool {
    &&& b.state is Resident
    &&& b.pending_decision_id == 0
    &&& b.home_gpu == gpu_id
    &&& exists|g: int| #[trigger]
        gpu_at(v, gpu_id, g) && v.gpus[g].cpu_pool_used_bytes + b.size_bytes
            <= v.gpus[g].cpu_pool_total_bytes
}

/// The session reserved the block or lists it.
pub open spec fn mine(v: PolarisView, b: PolarisBlock, session_id: u64) -> bool {
    b.session_id == session_id || exists|k: int| #[trigger]
        session_at(v, session_id, k) && v.sessions[k].block_ids.contains(b.block_id)
}

/// The request names the block or its memory as what must stay.
pub open spec fn must_stay(b: PolarisBlock, r: VictimRequest) -> bool {
    ||| r.protected_block_id != 0 && b.block_id == r.protected_block_id
    ||| r.protected_phys_handle != 0 && b.gpu_phys_handle == r.protected_phys_handle
}

/// The block holds the token.
pub open spec fn holds_token(b: PolarisBlock, t: int) -> bool {
    b.token_start <= t < b.token_start + b.token_count
}

/// The session says that it reads the token.
pub open spec fn reads_token(s: SessionView, t: int) -> bool {
    s.active_read_start_token <= t < s.active_read_start_token + s.active_read_token_count
}

/// The session says that it writes the token.
pub open spec fn writes_token(s: SessionView, t: int) -> bool {
    s.active_write_start_token <= t < s.active_write_start_token + s.active_write_token_count
}

/// The session with the id says nothing of what it works on.
pub open spec fn gives_no_hint(v: PolarisView, session_id: u64) -> bool {
    forall|k: int| #[trigger]
        session_at(v, session_id, k) ==> v.sessions[k].active_read_token_count == 0
            && v.sessions[k].active_write_token_count == 0
}

/// A token of the block is one that the session works on.
pub open spec fn in_use(v: PolarisView, b: PolarisBlock, session_id: u64) -> bool {
    mine(v, b, session_id) && exists|k: int, t: int|
        #![trigger session_at(v, session_id, k), holds_token(b, t)]
        session_at(v, session_id, k) && holds_token(b, t) && (reads_token(v.sessions[k], t)
            || writes_token(v.sessions[k], t))
}

/// Whether a block is a session's, in the policy's terms and in plain ones.
proof fn lemma_mine(v: PolarisView, b: PolarisBlock, session_id: u64)
    ensures
        owned_by(v, b, session_id) == mine(v, b, session_id),
{
    law_session_is_found(v, session_id);
}

/// Whether a block can go, in the policy's terms and in plain ones.
proof fn lemma_can_go(v: PolarisView, b: PolarisBlock, gpu_id: u32)
    ensures
        can_go(v, b, gpu_id) ==> movable(v, b, gpu_id),
        movable(v, b, gpu_id) ==> {
            &&& b.state is Resident
            &&& b.pending_decision_id == 0
            &&& b.home_gpu == gpu_id
            &&& exists|g: int| #[trigger]
                gpu_at(v, gpu_id, g) && (v.gpus[g].cpu_pool_used_bytes + b.size_bytes
                    <= v.gpus[g].cpu_pool_total_bytes || v.gpus[g].cpu_pool_total_bytes == u64::MAX)
        },
{
    law_gpu_is_found(v, gpu_id);
    law_gpu_is_found(v, b.home_gpu);
}

/// Whether a session gives a hint, in the policy's terms and in plain ones.
proof fn lemma_hint(v: PolarisView, session_id: u64)
    ensures
        kv_window(v, session_id) is None <==> gives_no_hint(v, session_id),
{
    law_session_is_found(v, session_id);
}

/// Whether a block is in use, in the policy's terms and in plain ones.
proof fn lemma_in_use(v: PolarisView, b: PolarisBlock, session_id: u64)
    ensures
        in_use(v, b, session_id) ==> crate::policy::in_hinted_window(
            v,
            b,
            kv_window(v, session_id),
        ),
        b.token_count > 0 && crate::policy::in_hinted_window(v, b, kv_window(v, session_id))
            ==> in_use(v, b, session_id),
{
    law_session_is_found(v, session_id);
    lemma_mine(v, b, session_id);
    if let Some(w) = kv_window(v, session_id) {
        let k = v.find_session(session_id)->0;
        let s = v.sessions[k];
        if b.token_count > 0 && w.writes(b) {
            let t = if b.token_start >= w.write_start {
                b.token_start as int
            } else {
                w.write_start as int
            };
            assert(session_at(v, session_id, k) && holds_token(b, t) && writes_token(s, t));
        }
        if b.token_count > 0 && w.reads(b) {
            let t = if b.token_start >= w.read_start {
                b.token_start as int
            } else {
                w.read_start as int
            };
            assert(session_at(v, session_id, k) && holds_token(b, t) && reads_token(s, t));
        }
    }
}

// ─── Who can go ─────────────────────────────────────────────────────────────

/// Whatever the policy, the block that goes is resident on the GPU that needs
/// room, idle, has room in the host pool, and is not what must stay.
pub proof fn law_only_what_can_go_goes(v: PolarisView, r: VictimRequest, now: u64)
    ensures
        victim(v, r, now) matches Some(i) ==> {
            &&& 0 <= i < v.blocks.len()
            &&& v.blocks[i].state is Resident
            &&& v.blocks[i].pending_decision_id == 0
            &&& v.blocks[i].home_gpu == r.target_gpu
            &&& !must_stay(v.blocks[i], r)
            &&& exists|g: int| #[trigger]
                gpu_at(v, r.target_gpu, g) && (v.gpus[g].cpu_pool_used_bytes
                    + v.blocks[i].size_bytes <= v.gpus[g].cpu_pool_total_bytes
                    || v.gpus[g].cpu_pool_total_bytes == u64::MAX)
        },
{
    crate::policy::law_victim_is_movable(v, r, now);
    if let Some(i) = victim(v, r, now) {
        lemma_can_go(v, v.blocks[i], r.target_gpu);
    }
}

/// The policies that go by a score never take a block with a token that the
/// session which needs room says it reads or writes.
pub proof fn law_tokens_in_use_stay(v: PolarisView, r: VictimRequest, now: u64, k: int, t: int)
    requires
        v.eviction_policy is PhaseAware || v.eviction_policy is AttentionStream,
        session_at(v, r.requesting_session_id, k),
        reads_token(v.sessions[k], t) || writes_token(v.sessions[k], t),
    ensures
        victim(v, r, now) matches Some(i) ==> !(mine(v, v.blocks[i], r.requesting_session_id)
            && holds_token(v.blocks[i], t)),
{
    crate::policy::law_hinted_window_is_spared(v, r, now);
    if let Some(i) = victim(v, r, now) {
        lemma_in_use(v, v.blocks[i], r.requesting_session_id);
    }
}

/// The policies that go by time alone never take a block that sessions share.
pub proof fn law_shared_blocks_stay(v: PolarisView, r: VictimRequest, now: u64)
    requires
        v.eviction_policy is Fifo || v.eviction_policy is Lru,
    ensures
        victim(v, r, now) matches Some(i) ==> v.blocks[i].refcount <= 1,
{
}

// ─── By time ────────────────────────────────────────────────────────────────

/// The choice among the oldest private blocks.
proof fn lemma_oldest_goes(
    v: PolarisView,
    r: VictimRequest,
    time: spec_fn(PolarisBlock) -> u64,
    j: int,
)
    requires
        0 <= j < v.blocks.len(),
        can_go(v, v.blocks[j], r.target_gpu),
        !must_stay(v.blocks[j], r),
        v.blocks[j].refcount <= 1,
    ensures
        time(v.blocks[j]) < u64::MAX ==> crate::policy::oldest_victim(v, r, time) is Some,
        crate::policy::oldest_victim(v, r, time) matches Some(i) ==> {
            &&& 0 <= i < v.blocks.len()
            &&& !mine(v, v.blocks[j], r.requesting_session_id) || mine(
                v,
                v.blocks[i],
                r.requesting_session_id,
            ) ==> {
                ||| time(v.blocks[i]) < time(v.blocks[j])
                ||| time(v.blocks[i]) == time(v.blocks[j]) && i <= j
            }
            &&& !mine(v, v.blocks[j], r.requesting_session_id) && time(v.blocks[j]) < u64::MAX
                ==> !mine(v, v.blocks[i], r.requesting_session_id)
        },
{
    lemma_can_go(v, v.blocks[j], r.target_gpu);
    lemma_mine(v, v.blocks[j], r.requesting_session_id);
    let others = private_candidate(v, r, true);
    let all = private_candidate(v, r, false);
    assert(all(v.blocks[j]));
    if time(v.blocks[j]) < u64::MAX {
        lemma_oldest_exists(v.blocks, all, time, j);
        if others(v.blocks[j]) {
            lemma_oldest_exists(v.blocks, others, time, j);
        }
    }
    if let Some(i) = crate::policy::oldest_victim(v, r, time) {
        lemma_mine(v, v.blocks[i], r.requesting_session_id);
        if oldest(v.blocks, others, time) is Some {
            assert(is_oldest(v.blocks, others, time, i));
        } else {
            assert(is_oldest(v.blocks, all, time, i));
        }
    }
}

/// FIFO takes the private block that was mapped longest ago, and another session's
/// before one of the session that needs room.
pub proof fn law_fifo_takes_what_was_mapped_first(v: PolarisView, r: VictimRequest, now: u64, j: int)
    requires
        v.eviction_policy is Fifo,
        0 <= j < v.blocks.len(),
        can_go(v, v.blocks[j], r.target_gpu),
        !must_stay(v.blocks[j], r),
        v.blocks[j].refcount <= 1,
    ensures
        v.blocks[j].map_time_ns < u64::MAX ==> victim(v, r, now) is Some,
        victim(v, r, now) matches Some(i) ==> {
            let own = mine(v, v.blocks[i], r.requesting_session_id);
            &&& !mine(v, v.blocks[j], r.requesting_session_id) || own ==> {
                ||| v.blocks[i].map_time_ns < v.blocks[j].map_time_ns
                ||| v.blocks[i].map_time_ns == v.blocks[j].map_time_ns && i <= j
            }
            &&& !mine(v, v.blocks[j], r.requesting_session_id) && v.blocks[j].map_time_ns
                < u64::MAX ==> !own
        },
{
    lemma_oldest_goes(v, r, map_time(), j);
}

/// When a block was last used: touched, or else mapped.
pub open spec fn last_used(b: PolarisBlock) -> u64 {
    if b.last_touch_ns == 0 {
        b.map_time_ns
    } else {
        b.last_touch_ns
    }
}

/// LRU takes the private block that was used longest ago, and another session's
/// before one of the session that needs room.
pub proof fn law_lru_takes_what_was_used_first(v: PolarisView, r: VictimRequest, now: u64, j: int)
    requires
        v.eviction_policy is Lru,
        0 <= j < v.blocks.len(),
        can_go(v, v.blocks[j], r.target_gpu),
        !must_stay(v.blocks[j], r),
        v.blocks[j].refcount <= 1,
    ensures
        last_used(v.blocks[j]) < u64::MAX ==> victim(v, r, now) is Some,
        victim(v, r, now) matches Some(i) ==> {
            let own = mine(v, v.blocks[i], r.requesting_session_id);
            &&& !mine(v, v.blocks[j], r.requesting_session_id) || own ==> {
                ||| last_used(v.blocks[i]) < last_used(v.blocks[j])
                ||| last_used(v.blocks[i]) == last_used(v.blocks[j]) && i <= j
            }
            &&& !mine(v, v.blocks[j], r.requesting_session_id) && last_used(v.blocks[j]) < u64::MAX
                ==> !own
        },
{
    lemma_oldest_goes(v, r, touch_time(), j);
}

// ─── By score ───────────────────────────────────────────────────────────────

/// A block of a prompt that is private cannot set the scores apart: where there are
/// only such blocks and no hint, the phase-aware policy goes by mapping time, as
/// FIFO does. One shared block or one of an output, and it goes by the score.
pub proof fn law_prompts_alone_go_by_time(v: PolarisView, r: VictimRequest, now: u64, n: int)
    requires
        v.eviction_policy is PhaseAware || v.eviction_policy is AttentionStream,
        gives_no_hint(v, r.requesting_session_id),
        0 <= n < v.blocks.len(),
        can_go(v, v.blocks[n], r.target_gpu),
        forall|j: int|
            0 <= j < v.blocks.len() && (#[trigger] v.blocks[j]).state is Resident
                && v.blocks[j].pending_decision_id == 0 && v.blocks[j].home_gpu == r.target_gpu
                ==> v.blocks[j].phase is Prefill && v.blocks[j].refcount <= 1,
    ensures
        victim(v, r, now) == victim(
            PolarisView { eviction_policy: PolarisEvictionPolicy::Fifo, ..v },
            r,
            now,
        ),
{
    let f = PolarisView { eviction_policy: PolarisEvictionPolicy::Fifo, ..v };
    lemma_hint(v, r.requesting_session_id);
    lemma_can_go(v, v.blocks[n], r.target_gpu);
    assert forall|j: int|
        0 <= j < v.blocks.len() && movable(v, #[trigger] v.blocks[j], r.target_gpu) implies
    v.blocks[j].phase is Prefill && v.blocks[j].refcount <= 1 by {
        lemma_can_go(v, v.blocks[j], r.target_gpu);
    }
    assert(all_private_prefill(v, r.target_gpu));
    lemma_same_candidates(v, f, r);
}

/// The candidates do not hang on the policy.
proof fn lemma_same_candidates(v: PolarisView, f: PolarisView, r: VictimRequest)
    requires
        f == (PolarisView { eviction_policy: f.eviction_policy, ..v }),
    ensures
        crate::policy::oldest_victim(v, r, map_time()) == crate::policy::oldest_victim(
            f,
            r,
            map_time(),
        ),
        kv_window(v, r.requesting_session_id) == kv_window(f, r.requesting_session_id),
{
    assert(private_candidate(v, r, true) =~= private_candidate(f, r, true)) by {
        assert forall|b: PolarisBlock|
            #[trigger] private_candidate(v, r, true)(b) == private_candidate(f, r, true)(b) by {
            assert(v.find_session(r.requesting_session_id) == f.find_session(
                r.requesting_session_id,
            ));
            assert(v.find_gpu(b.home_gpu) == f.find_gpu(b.home_gpu));
        }
    }
    assert(private_candidate(v, r, false) =~= private_candidate(f, r, false)) by {
        assert forall|b: PolarisBlock|
            #[trigger] private_candidate(v, r, false)(b) == private_candidate(f, r, false)(b) by {
            assert(v.find_gpu(b.home_gpu) == f.find_gpu(b.home_gpu));
        }
    }
}

/// The time by which the phase-aware policy tells blocks of one score apart: the
/// last touch of a block of an output, or else the mapping.
pub open spec fn order_time(b: PolarisBlock) -> u64 {
    if b.phase is Decode && b.last_touch_ns != 0 {
        b.last_touch_ns
    } else {
        b.map_time_ns
    }
}

/// The phase-aware policy goes by the score: there is a hint, or a block that can go
/// is shared or of an output.
pub open spec fn scores_count(v: PolarisView, r: VictimRequest) -> bool {
    ||| !gives_no_hint(v, r.requesting_session_id)
    ||| exists|n: int|
        0 <= n < v.blocks.len() && can_go(v, #[trigger] v.blocks[n], r.target_gpu) && (
        v.blocks[n].phase is Decode || v.blocks[n].refcount > 1)
}

/// Where the phase-aware policy goes by the score, it takes the block with the
/// highest one, the oldest of those, and the first of those; another session's before
/// one of the session that needs room.
pub proof fn law_highest_score_goes(v: PolarisView, r: VictimRequest, now: u64, j: int)
    requires
        v.eviction_policy is PhaseAware || (v.eviction_policy is AttentionStream && gives_no_hint(
            v,
            r.requesting_session_id,
        )),
        scores_count(v, r),
        0 <= j < v.blocks.len(),
        can_go(v, v.blocks[j], r.target_gpu),
        !must_stay(v.blocks[j], r),
        !in_use(v, v.blocks[j], r.requesting_session_id),
        v.blocks[j].token_count > 0 || gives_no_hint(v, r.requesting_session_id),
    ensures
        victim(v, r, now) matches Some(i) && {
            let own = mine(v, v.blocks[i], r.requesting_session_id);
            let score = phase_score(v, r, now);
            &&& 0 <= i < v.blocks.len()
            &&& !mine(v, v.blocks[j], r.requesting_session_id) ==> !own
            &&& !mine(v, v.blocks[j], r.requesting_session_id) || own ==> {
                ||| score(v.blocks[i]) > score(v.blocks[j])
                ||| score(v.blocks[i]) == score(v.blocks[j]) && order_time(v.blocks[i])
                    < order_time(v.blocks[j])
                ||| score(v.blocks[i]) == score(v.blocks[j]) && order_time(v.blocks[i])
                    == order_time(v.blocks[j]) && i <= j
            }
        },
{
    let hinted = kv_window(v, r.requesting_session_id);
    lemma_hint(v, r.requesting_session_id);
    lemma_can_go(v, v.blocks[j], r.target_gpu);
    lemma_mine(v, v.blocks[j], r.requesting_session_id);
    lemma_in_use(v, v.blocks[j], r.requesting_session_id);
    if hinted is None {
        let n = choose|n: int|
            0 <= n < v.blocks.len() && can_go(v, #[trigger] v.blocks[n], r.target_gpu) && (
            v.blocks[n].phase is Decode || v.blocks[n].refcount > 1);
        lemma_can_go(v, v.blocks[n], r.target_gpu);
        assert(!all_private_prefill(v, r.target_gpu));
    }
    let others = scored_candidate(v, r, true, hinted);
    let all = scored_candidate(v, r, false, hinted);
    let score = phase_score(v, r, now);
    let len = v.blocks.len() as int;
    assert(all(v.blocks[j]));
    lemma_top_exists(v.blocks, others, score, phase_time(), len);
    lemma_top_exists(v.blocks, all, score, phase_time(), len);
    let i = victim(v, r, now)->0;
    lemma_mine(v, v.blocks[i], r.requesting_session_id);
    if top(v.blocks, others, score, phase_time()) is Some {
        assert(is_top(v.blocks, others, score, phase_time(), i));
    } else {
        assert(is_top(v.blocks, all, score, phase_time(), i));
    }
}

/// The priority of a session counts as `p`: its own where that is between 1 and 10,
/// and 5 where it is not or there is no such session.
pub open spec fn counts_as(v: PolarisView, session_id: u64, p: int) -> bool {
    ||| exists|k: int| #[trigger]
        session_at(v, session_id, k) && (if 1 <= v.sessions[k].priority <= 10 {
            p == v.sessions[k].priority
        } else {
            p == 5
        })
    ||| no_session(v, session_id) && p == 5
}

/// A priority, in the policy's terms and in plain ones.
proof fn lemma_priority(v: PolarisView, b: PolarisBlock, p: int)
    requires
        counts_as(v, b.session_id, p),
    ensures
        crate::policy::usual_priority(crate::policy::priority_of(v, b)) == p,
{
    law_session_is_found(v, b.session_id);
}

/// Each session that shares a block takes a thousand off its score.
pub proof fn law_sharing_lowers_the_score(
    v: PolarisView,
    r: VictimRequest,
    now: u64,
    b: PolarisBlock,
    less: u64,
    more: u64,
)
    requires
        less <= more,
    ensures
        phase_score(v, r, now)(PolarisBlock { refcount: more, ..b }) == phase_score(v, r, now)(
            PolarisBlock { refcount: less, ..b },
        ) - 1000 * (more - less),
{
    let x = PolarisBlock { refcount: more, ..b };
    let y = PolarisBlock { refcount: less, ..b };
    assert(owned_by(v, x, r.requesting_session_id) == owned_by(v, y, r.requesting_session_id));
    lemma_marks(v, r, x, y);
}

/// What a score owes to the work in progress hangs on a block's session, id and
/// tokens only.
proof fn lemma_marks(v: PolarisView, r: VictimRequest, x: PolarisBlock, y: PolarisBlock)
    requires
        x.session_id == y.session_id,
        x.block_id == y.block_id,
        x.token_start == y.token_start,
        x.token_count == y.token_count,
    ensures
        crate::policy::chunk_score(v, x, crate::policy::chunk_window(v, r))
            == crate::policy::chunk_score(v, y, crate::policy::chunk_window(v, r)),
        crate::policy::hinted_score(v, x, kv_window(v, r.requesting_session_id))
            == crate::policy::hinted_score(v, y, kv_window(v, r.requesting_session_id)),
{
    if let Some(w) = crate::policy::chunk_window(v, r) {
        assert(owned_by(v, x, w.session_id) == owned_by(v, y, w.session_id));
    }
    if let Some(w) = kv_window(v, r.requesting_session_id) {
        assert(owned_by(v, x, w.session_id) == owned_by(v, y, w.session_id));
    }
}

/// Sharing protects a block: where two blocks are of one phase, were mapped and last
/// touched at the same times, by sessions of one priority, and no work in progress
/// sets them apart, the one that more sessions share does not go while the other
/// can.
pub proof fn law_shared_block_outlasts_a_private_one(
    v: PolarisView,
    r: VictimRequest,
    now: u64,
    i: int,
    j: int,
    p: int,
)
    requires
        v.eviction_policy is PhaseAware || v.eviction_policy is AttentionStream,
        gives_no_hint(v, r.requesting_session_id),
        r.protected_block_id == 0,
        0 <= i < v.blocks.len(),
        0 <= j < v.blocks.len(),
        v.blocks[i].refcount > v.blocks[j].refcount >= 1,
        v.blocks[i].phase == v.blocks[j].phase,
        v.blocks[i].map_time_ns == v.blocks[j].map_time_ns,
        v.blocks[i].last_touch_ns == v.blocks[j].last_touch_ns,
        counts_as(v, v.blocks[i].session_id, p),
        counts_as(v, v.blocks[j].session_id, p),
        can_go(v, v.blocks[j], r.target_gpu),
        !must_stay(v.blocks[j], r),
        !mine(v, v.blocks[j], r.requesting_session_id) || mine(
            v,
            v.blocks[i],
            r.requesting_session_id,
        ),
    ensures
        phase_score(v, r, now)(v.blocks[i]) < phase_score(v, r, now)(v.blocks[j]),
        victim(v, r, now) != Some(i),
{
    lemma_hint(v, r.requesting_session_id);
    lemma_priority(v, v.blocks[i], p);
    lemma_priority(v, v.blocks[j], p);
    lemma_can_go(v, v.blocks[j], r.target_gpu);
    lemma_mine(v, v.blocks[j], r.requesting_session_id);
    lemma_mine(v, v.blocks[i], r.requesting_session_id);
    if victim(v, r, now) == Some(i) {
        crate::policy::law_victim_is_movable(v, r, now);
        assert(!all_private_prefill(v, r.target_gpu));
        let hinted = kv_window(v, r.requesting_session_id);
        let others = scored_candidate(v, r, true, hinted);
        let all = scored_candidate(v, r, false, hinted);
        let score = phase_score(v, r, now);
        if top(v.blocks, others, score, phase_time()) is Some {
            assert(is_top(v.blocks, others, score, phase_time(), i));
            assert(others(v.blocks[j]));
        } else {
            assert(is_top(v.blocks, all, score, phase_time(), i));
            assert(all(v.blocks[j]));
        }
    }
}

/// A block of a prompt scores a hundred more than one of an output that is alike and
/// was not in use for a second, and six hundred more than one that was.
pub proof fn law_recent_output_is_protected(
    v: PolarisView,
    r: VictimRequest,
    now: u64,
    b: PolarisBlock,
)
    requires
        b.last_touch_ns == 0 || b.last_touch_ns == b.map_time_ns,
    ensures
        ({
            let prompt = phase_score(v, r, now)(PolarisBlock { phase: PolarisPhase::Prefill, ..b });
            let output = phase_score(v, r, now)(PolarisBlock { phase: PolarisPhase::Decode, ..b });
            prompt - output == if now < b.map_time_ns + 1_000_000_000 {
                600
            } else {
                100int
            }
        }),
{
    let x = PolarisBlock { phase: PolarisPhase::Prefill, ..b };
    let y = PolarisBlock { phase: PolarisPhase::Decode, ..b };
    lemma_marks(v, r, x, y);
}

/// The longer ago a block was mapped, the higher its score: by one for each
/// millisecond, up to two minutes. When it was touched counts for nothing in a prompt.
pub proof fn law_age_raises_the_score(
    v: PolarisView,
    r: VictimRequest,
    now: u64,
    b: PolarisBlock,
    mapped: u64,
    touched: u64,
    ms: u64,
)
    requires
        b.phase is Prefill,
        mapped + ms * 1_000_000 <= now,
    ensures
        ({
            let older = phase_score(v, r, now)(
                PolarisBlock { map_time_ns: mapped, last_touch_ns: touched, ..b },
            );
            let newer = phase_score(v, r, now)(
                PolarisBlock { map_time_ns: (mapped + ms * 1_000_000) as u64, ..b },
            );
            &&& newer <= older <= newer + ms
            &&& now - mapped < 120_000 * 1_000_000 ==> older == newer + ms
            &&& now - mapped >= 120_000 * 1_000_000 + ms * 1_000_000 ==> older == newer
        }),
{
    let x = PolarisBlock { map_time_ns: mapped, last_touch_ns: touched, ..b };
    let y = PolarisBlock { map_time_ns: (mapped + ms * 1_000_000) as u64, ..b };
    lemma_marks(v, r, x, y);
    let a = now - mapped;
    assert((a - ms * 1_000_000) / 1_000_000 == a / 1_000_000 - ms) by {
        vstd::arithmetic::div_mod::lemma_div_multiples_vanish_fancy(ms as int, 0, 1_000_000);
        vstd::arithmetic::div_mod::lemma_hoist_over_denominator(a - ms * 1_000_000, ms as int, 1_000_000);
    }
}

/// A block of an output ages from its last touch, not from its mapping.
pub proof fn law_outputs_age_from_their_last_touch(
    v: PolarisView,
    r: VictimRequest,
    now: u64,
    b: PolarisBlock,
    mapped: u64,
)
    requires
        b.phase is Decode,
        b.last_touch_ns != 0,
    ensures
        phase_score(v, r, now)(b) == phase_score(v, r, now)(
            PolarisBlock { map_time_ns: mapped, ..b },
        ),
        phase_score(v, r, now)(b) == phase_score(v, r, now)(
            PolarisBlock { map_time_ns: b.last_touch_ns, last_touch_ns: 0, ..b },
        ),
{
    lemma_marks(v, r, b, (PolarisBlock { map_time_ns: mapped, ..b }));
    lemma_marks(
        v,
        r,
        b,
        (PolarisBlock { map_time_ns: b.last_touch_ns, last_touch_ns: 0, ..b }),
    );
}

/// Each step of priority takes fifty off the score of a session's blocks.
pub proof fn law_priority_lowers_the_score(
    v: PolarisView,
    r: VictimRequest,
    now: u64,
    x: PolarisBlock,
    y: PolarisBlock,
    p: int,
    q: int,
)
    requires
        gives_no_hint(v, r.requesting_session_id),
        r.protected_block_id == 0,
        counts_as(v, x.session_id, p),
        counts_as(v, y.session_id, q),
        x.phase == y.phase,
        x.map_time_ns == y.map_time_ns,
        x.last_touch_ns == y.last_touch_ns,
        x.refcount == y.refcount,
    ensures
        phase_score(v, r, now)(x) - phase_score(v, r, now)(y) == 50 * (q - p),
{
    lemma_hint(v, r.requesting_session_id);
    lemma_priority(v, x, p);
    lemma_priority(v, y, q);
}

/// The token is at most four away from those that the session reads.
pub open spec fn nears_token(s: SessionView, t: int) -> bool {
    s.active_read_start_token - 4 <= t < s.active_read_start_token + s.active_read_token_count + 4
}

/// What a session works on takes most of a score away: a block of its own with a
/// token that it writes loses a million, one with a token that it reads three
/// quarters of that, and one within four tokens of those a quarter; a block of
/// another session loses nothing. `y` is a block that is alike but away from the
/// work.
pub proof fn law_work_in_progress_protects(
    v: PolarisView,
    r: VictimRequest,
    now: u64,
    k: int,
    x: PolarisBlock,
    y: PolarisBlock,
)
    requires
        session_at(v, r.requesting_session_id, k),
        v.sessions[k].active_read_token_count > 0,
        r.protected_block_id == 0,
        x == (PolarisBlock { token_start: x.token_start, token_count: x.token_count, ..y }),
        x.token_count > 0,
        y.token_count > 0,
        forall|t: int| #[trigger] holds_token(y, t) ==> !nears_token(v.sessions[k], t)
            && !writes_token(v.sessions[k], t),
    ensures
        ({
            let lost = phase_score(v, r, now)(y) - phase_score(v, r, now)(x);
            let s = v.sessions[k];
            let own = mine(v, x, r.requesting_session_id);
            let writes = exists|t: int| #[trigger] holds_token(x, t) && writes_token(s, t);
            let reads = exists|t: int| #[trigger] holds_token(x, t) && reads_token(s, t);
            let nears = exists|t: int| #[trigger] holds_token(x, t) && nears_token(s, t);
            &&& !own ==> lost == 0
            &&& own && writes ==> lost == 1_000_000
            &&& own && !writes && reads ==> lost == 750_000
            &&& own && !writes && !reads && nears ==> lost == 250_000
            &&& own && !writes && !nears ==> lost == 0
        }),
{
    law_session_is_found(v, r.requesting_session_id);
    lemma_mine(v, x, r.requesting_session_id);
    lemma_mine(v, y, r.requesting_session_id);
    let w = kv_window(v, r.requesting_session_id)->0;
    lemma_windows(v.sessions[k], w, x);
    lemma_windows(v.sessions[k], w, y);
    let s = v.sessions[k];
    assert(!(exists|t: int| #[trigger] holds_token(y, t) && reads_token(s, t))) by {
        assert forall|t: int| #[trigger] holds_token(y, t) implies !reads_token(s, t) by {
            assert(!nears_token(s, t));
        }
    }
}

/// Whether a block is in a window, in the policy's terms and in plain ones.
proof fn lemma_windows(s: SessionView, w: ActiveKvWindow, b: PolarisBlock)
    requires
        b.token_count > 0,
        s.active_read_token_count > 0,
        w.read_start == s.active_read_start_token,
        w.read_end == crate::num::sat_add(s.active_read_start_token, s.active_read_token_count),
        w.write_start == s.active_write_start_token,
        w.write_end == crate::num::sat_add(s.active_write_start_token, s.active_write_token_count),
    ensures
        w.writes(b) == (exists|t: int| #[trigger] holds_token(b, t) && writes_token(s, t)),
        w.reads(b) == (exists|t: int| #[trigger] holds_token(b, t) && reads_token(s, t)),
        w.near(b) == (exists|t: int| #[trigger] holds_token(b, t) && nears_token(s, t)),
{
    if w.writes(b) {
        let t = if b.token_start >= w.write_start {
            b.token_start as int
        } else {
            w.write_start as int
        };
        assert(holds_token(b, t) && writes_token(s, t));
    }
    if w.reads(b) {
        let t = if b.token_start >= w.read_start {
            b.token_start as int
        } else {
            w.read_start as int
        };
        assert(holds_token(b, t) && reads_token(s, t));
    }
    if w.near(b) {
        let t = if b.token_start >= w.read_start - 4 {
            b.token_start as int
        } else {
            w.read_start - 4
        };
        assert(holds_token(b, t) && nears_token(s, t));
    }
}

/// The block that room is made for protects its neighbourhood: a block of the same
/// session within four tokens of it loses half a million, any other nothing.
pub proof fn law_neighbours_are_protected(
    v: PolarisView,
    r: VictimRequest,
    now: u64,
    n: int,
    b: PolarisBlock,
)
    requires
        r.protected_block_id != 0,
        block_at(v, r.protected_block_id, n),
        v.blocks[n].token_start + v.blocks[n].token_count <= u32::MAX,
        b.token_start + b.token_count <= u32::MAX,
    ensures
        ({
            let c = v.blocks[n];
            let whose = if mine(v, c, r.requesting_session_id) {
                r.requesting_session_id
            } else {
                c.session_id
            };
            let plain = phase_score(v, VictimRequest { protected_block_id: 0, ..r }, now)(b);
            let near = b.token_start < c.token_start + c.token_count + 4 && c.token_start
                < b.token_start + b.token_count + 4;
            phase_score(v, r, now)(b) == plain - (if mine(v, b, whose) && near {
                500_000int
            } else {
                0
            })
        }),
{
    law_block_is_found(v, r.protected_block_id);
    let c = v.blocks[n];
    lemma_mine(v, c, r.requesting_session_id);
    lemma_mine(v, b, r.requesting_session_id);
    lemma_mine(v, b, c.session_id);
}

/// The pressure on a GPU raises the scores of all its blocks alike: by one for ten,
/// up to a thousand.
pub proof fn law_pressure_raises_scores(
    v: PolarisView,
    r: VictimRequest,
    now: u64,
    b: PolarisBlock,
    g: int,
)
    requires
        gpu_at(v, r.target_gpu, g),
    ensures
        ({
            let calm = PolarisView {
                gpus: v.gpus.update(
                    g,
                    crate::types::PolarisGpu { pressure_score: 0, ..v.gpus[g] },
                ),
                ..v
            };
            let p = v.gpus[g].pressure_score;
            phase_score(v, r, now)(b) == phase_score(calm, r, now)(b) + (if p >= 1000 {
                100
            } else {
                p as int / 10
            })
        }),
{
    let calm = PolarisView {
        gpus: v.gpus.update(g, crate::types::PolarisGpu { pressure_score: 0, ..v.gpus[g] }),
        ..v
    };
    law_gpu_is_found(v, r.target_gpu);
    assert forall|j: int| 0 <= j < g implies (#[trigger] calm.gpus[j]).gpu_id
        != r.target_gpu by {
        assert(calm.gpus[j] == v.gpus[j]);
    }
    assert(gpu_at(calm, r.target_gpu, g));
    law_gpu_is_found(calm, r.target_gpu);
    assert(v.find_session(b.session_id) == calm.find_session(b.session_id));
    assert(v.find_session(r.requesting_session_id) == calm.find_session(r.requesting_session_id));
    assert(v.find_block(r.protected_block_id) == calm.find_block(r.protected_block_id));
    let w = crate::policy::chunk_window(v, r);
    if r.protected_block_id != 0 {
        if let Some(n) = v.find_block(r.protected_block_id) {
            assert(owned_by(v, v.blocks[n], r.requesting_session_id) == owned_by(
                calm,
                v.blocks[n],
                r.requesting_session_id,
            ));
        }
    }
    assert(w == crate::policy::chunk_window(calm, r));
    if let Some(x) = w {
        assert(v.find_session(x.session_id) == calm.find_session(x.session_id));
        assert(owned_by(v, b, x.session_id) == owned_by(calm, b, x.session_id));
    }
    assert(owned_by(v, b, r.requesting_session_id) == owned_by(calm, b, r.requesting_session_id));
}

// ─── By the stream of attention ─────────────────────────────────────────────

/// The window that a session with a hint gives.
pub open spec fn window_of(s: SessionView) -> ActiveKvWindow {
    ActiveKvWindow {
        session_id: s.session_id,
        read_start: s.active_read_start_token,
        read_end: crate::num::sat_add(s.active_read_start_token, s.active_read_token_count),
        write_start: s.active_write_start_token,
        write_end: crate::num::sat_add(s.active_write_start_token, s.active_write_token_count),
    }
}

/// Without a hint, the stream of attention says nothing: the phase-aware policy
/// chooses.
pub proof fn law_no_hint_no_stream(v: PolarisView, r: VictimRequest, now: u64)
    requires
        v.eviction_policy is AttentionStream,
        gives_no_hint(v, r.requesting_session_id),
    ensures
        victim(v, r, now) == crate::policy::phase_aware_victim(v, r, now),
{
    lemma_hint(v, r.requesting_session_id);
}

/// With a hint, the block with the highest score in the stream goes, the one used
/// longest ago of those, and the first of those; another session's before one of the
/// session that needs room.
pub proof fn law_highest_in_the_stream_goes(
    v: PolarisView,
    r: VictimRequest,
    now: u64,
    k: int,
    j: int,
)
    requires
        v.eviction_policy is AttentionStream,
        session_at(v, r.requesting_session_id, k),
        v.sessions[k].active_read_token_count > 0 || v.sessions[k].active_write_token_count > 0,
        0 <= j < v.blocks.len(),
        can_go(v, v.blocks[j], r.target_gpu),
        !must_stay(v.blocks[j], r),
        !in_use(v, v.blocks[j], r.requesting_session_id),
        v.blocks[j].token_count > 0,
    ensures
        victim(v, r, now) matches Some(i) && {
            let own = mine(v, v.blocks[i], r.requesting_session_id);
            let score = stream_score(v, window_of(v.sessions[k]));
            &&& 0 <= i < v.blocks.len()
            &&& !mine(v, v.blocks[j], r.requesting_session_id) ==> !own
            &&& !mine(v, v.blocks[j], r.requesting_session_id) || own ==> {
                ||| score(v.blocks[i]) > score(v.blocks[j])
                ||| score(v.blocks[i]) == score(v.blocks[j]) && last_used(v.blocks[i]) < last_used(
                    v.blocks[j],
                )
                ||| score(v.blocks[i]) == score(v.blocks[j]) && last_used(v.blocks[i])
                    == last_used(v.blocks[j]) && i <= j
            }
        },
{
    law_session_is_found(v, r.requesting_session_id);
    let hinted = kv_window(v, r.requesting_session_id);
    lemma_can_go(v, v.blocks[j], r.target_gpu);
    lemma_mine(v, v.blocks[j], r.requesting_session_id);
    lemma_in_use(v, v.blocks[j], r.requesting_session_id);
    assert(hinted == Some(window_of(v.sessions[k])));
    let others = scored_candidate(v, r, true, hinted);
    let all = scored_candidate(v, r, false, hinted);
    let score = stream_score(v, hinted->0);
    let len = v.blocks.len() as int;
    assert(all(v.blocks[j]));
    lemma_top_exists(v.blocks, others, score, touch_time(), len);
    lemma_top_exists(v.blocks, all, score, touch_time(), len);
    let i = victim(v, r, now)->0;
    lemma_mine(v, v.blocks[i], r.requesting_session_id);
    if top(v.blocks, others, score, touch_time()) is Some {
        assert(is_top(v.blocks, others, score, touch_time(), i));
    } else {
        assert(is_top(v.blocks, all, score, touch_time(), i));
    }
}

/// In the stream, a block that is shared loses three quarters of a million for each
/// session up to eight, and each step of priority takes fifty off.
pub proof fn law_stream_protects_shared_blocks(
    v: PolarisView,
    w: ActiveKvWindow,
    b: PolarisBlock,
    p: int,
)
    requires
        counts_as(v, b.session_id, p),
    ensures
        ({
            let alone = stream_score(v, w)(PolarisBlock { refcount: 1, ..b });
            &&& b.refcount <= 1 ==> stream_score(v, w)(b) == alone
            &&& 1 < b.refcount <= 8 ==> stream_score(v, w)(b) == alone - 750_000 * b.refcount
            &&& b.refcount > 8 ==> stream_score(v, w)(b) == alone - 6_000_000
        }),
{
    let x = PolarisBlock { refcount: 1, ..b };
    assert(owned_by(v, b, w.session_id) == owned_by(v, x, w.session_id));
}

/// In the stream, what another session holds scores a quarter of a million, and twice
/// that where that session gives no hint. Each step of priority takes fifty off.
pub proof fn law_stream_scores_other_sessions(
    v: PolarisView,
    w: ActiveKvWindow,
    b: PolarisBlock,
    p: int,
)
    requires
        counts_as(v, b.session_id, p),
        !mine(v, b, w.session_id),
        b.refcount <= 1,
    ensures
        stream_score(v, w)(b) == 50 * (11 - p) + (if gives_no_hint(v, b.session_id) {
            500_000int
        } else {
            250_000
        }),
{
    lemma_mine(v, b, w.session_id);
    lemma_hint(v, b.session_id);
    lemma_priority(v, b, p);
}

/// In the stream, a block of the session that needs room scores by where it lies. One
/// with no token that is read scores two million; where the session reads nothing, one
/// behind the cursor a million and more the further behind it is, and one ahead by
/// eight tokens or more a little, a quarter of how far. What is read within eight
/// tokens of the cursor loses a million, and what is within sixteen tokens before the
/// end of the work six hundred thousand.
pub proof fn law_stream_scores_by_place(
    v: PolarisView,
    s: SessionView,
    b: PolarisBlock,
    p: int,
)
    requires
        counts_as(v, b.session_id, p),
        mine(v, b, s.session_id),
        b.refcount <= 1,
        b.token_count > 0,
        s.active_read_start_token + s.active_read_token_count + 8 <= u64::MAX,
        s.active_write_start_token + s.active_write_token_count <= u64::MAX,
    ensures
        ({
            let w = window_of(s);
            let score = stream_score(v, w)(b) - 50 * (11 - p);
            let start = b.token_start as int;
            let end = b.token_start + b.token_count;
            let cursor = s.active_read_start_token as int;
            let reads = s.active_read_token_count > 0;
            let writes = s.active_write_token_count > 0;
            let read_end = cursor + s.active_read_token_count;
            let write_end = s.active_write_start_token + s.active_write_token_count;
            let read = exists|t: int| #[trigger] holds_token(b, t) && reads_token(s, t);
            let soon = exists|t: int| #[trigger]
                holds_token(b, t) && reads_token(s, t) && t < cursor + 8;
            let tail = (if writes {
                s.active_write_start_token as int
            } else {
                read_end
            }) - 16;
            let last = if write_end >= read_end {
                write_end
            } else {
                read_end
            };
            let late = start < last && tail < end && 0 < last;
            let place: int = if reads && !read {
                2_000_000
            } else if end <= cursor {
                1_000_000 + (cursor - end)
            } else if start >= cursor + 8 {
                (start - cursor - 8) / 4
            } else {
                0
            };
            score == place - (if soon {
                1_000_000int
            } else {
                0
            }) - (if late {
                600_000int
            } else {
                0
            })
        }),
{
    let w = window_of(s);
    lemma_mine(v, b, s.session_id);
    lemma_priority(v, b, p);
    let start = b.token_start as int;
    let cursor = s.active_read_start_token as int;
    let t = if start >= cursor {
        start
    } else {
        cursor
    };
    assert(holds_token(b, t) == (t < b.token_start + b.token_count));
    let read = exists|t: int| #[trigger] holds_token(b, t) && reads_token(s, t);
    let soon = exists|t: int| #[trigger]
        holds_token(b, t) && reads_token(s, t) && t < cursor + 8;
    if read {
        let x = choose|x: int| #[trigger] holds_token(b, x) && reads_token(s, x);
        assert(holds_token(b, t) && reads_token(s, t));
    }
    if soon {
        let x = choose|x: int| #[trigger]
            holds_token(b, x) && reads_token(s, x) && x < cursor + 8;
        assert(holds_token(b, t) && reads_token(s, t));
    }
}

} // verus!
