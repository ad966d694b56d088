//! Which block goes when memory is short.
//!
//!   FIFO            - the block with the oldest map_time_ns
//!   LRU             - the block with the oldest last_touch_ns
//!   PhaseAware      - a score: the active chunk, shared and decode blocks are protected
//!   AttentionStream - a score: the distance from the session's active window
//!
//! Blocks of other sessions are preferred; only where none of them can go are
//! those of the requesting session looked at. A block that a session inherited
//! is its own as much as its parent's.

use crate::abi::{PolarisBlockState, PolarisEvictionPolicy, PolarisPhase};
use crate::num::{greatest, larger, least, sat_add, sat_sub, smaller};
use crate::state::{PolarisInner, PolarisView};
use crate::types::PolarisBlock;
use vstd::prelude::*;

verus! {

pub const AGE_WEIGHT: i64 = 1;

pub const PREFILL_WEIGHT: i64 = 100;

pub const PRESSURE_WEIGHT: i64 = 1;

pub const PRIORITY_WEIGHT: i64 = 50;

pub const SHARING_WEIGHT: i64 = 1000;

pub const DECODE_WEIGHT: i64 = 500;

pub const MAX_AGE_SCORE_MS: u64 = 120_000;

pub const ACTIVE_AHEAD_PROTECT_CHUNKS: u32 = 4;

pub const ACTIVE_BEHIND_PROTECT_CHUNKS: u32 = 4;

pub const ACTIVE_WINDOW_PROTECT_SCORE: i64 = 500_000;

pub const HINTED_ACTIVE_READ_PROTECT_SCORE: i64 = 750_000;

pub const HINTED_ACTIVE_WRITE_PROTECT_SCORE: i64 = 1_000_000;

pub const HINTED_ACTIVE_NEAR_PROTECT_SCORE: i64 = 250_000;

pub const HINTED_ACTIVE_NEAR_TOKENS: u64 = 4;

pub const ATTENTION_STREAM_LOOKAHEAD_TOKENS: u64 = 8;

pub const ATTENTION_STREAM_SUFFIX_TOKENS: u64 = 16;

pub const ATTENTION_STREAM_OUTSIDE_WINDOW_SCORE: i64 = 2_000_000;

pub const ATTENTION_STREAM_PAST_SCORE: i64 = 1_000_000;

pub const ATTENTION_STREAM_OTHER_IDLE_SCORE: i64 = 250_000;

pub const ATTENTION_STREAM_FUTURE_SCALE: u64 = 4;

pub const ATTENTION_STREAM_SHARED_PENALTY: i64 = 750_000;

pub const ATTENTION_STREAM_DECODE_SUFFIX_PENALTY: i64 = 600_000;

pub const ATTENTION_STREAM_LOOKAHEAD_PENALTY: i64 = 1_000_000;

/// The tokens of the block that a request is about.
#[derive(Clone, Copy, PartialEq, Eq, Structural, Debug)]
pub struct ActiveChunkWindow {
    pub session_id: u64,
    pub start: u32,
    pub end: u32,
}

/// The tokens that a session says it reads and writes.
#[derive(Clone, Copy, PartialEq, Eq, Structural, Debug)]
pub struct ActiveKvWindow {
    pub session_id: u64,
    pub read_start: u64,
    pub read_end: u64,
    pub write_start: u64,
    pub write_end: u64,
}

/// What a request asks room for, and what must not go.
#[derive(Clone, Copy, PartialEq, Eq, Structural, Debug)]
pub struct VictimRequest {
    pub requesting_session_id: u64,
    pub target_gpu: u32,
    pub protected_phys_handle: u64,
    pub protected_block_id: u64,
}

// ─── Who may go ─────────────────────────────────────────────────────────────

/// Two half-open ranges have a number in common.
pub open spec fn overlap(a_start: u64, a_end: u64, b_start: u64, b_end: u64) -> bool {
    a_start < b_end && b_start < a_end
}

/// The block belongs to the session: as its own, or by inheritance.
pub open spec fn owned_by(v: PolarisView, b: PolarisBlock, session_id: u64) -> bool {
    b.session_id == session_id || match v.find_session(session_id) {
        Some(i) => v.sessions[i].block_ids.contains(b.block_id),
        None => false,
    }
}

/// The block is what a copy in progress reads from.
pub open spec fn protected(b: PolarisBlock, r: VictimRequest) -> bool {
    (r.protected_block_id != 0 && b.block_id == r.protected_block_id) || (r.protected_phys_handle
        != 0 && b.gpu_phys_handle == r.protected_phys_handle)
}

/// The block can be moved to host memory: it is resident on the GPU, nothing
/// is in flight for it, and the host pool has room for it.
pub open spec fn movable(v: PolarisView, b: PolarisBlock, target_gpu: u32) -> bool {
    &&& b.state is Resident
    &&& b.pending_decision_id == 0
    &&& b.home_gpu == target_gpu
    &&& match v.find_gpu(b.home_gpu) {
        Some(g) => sat_add(v.gpus[g].cpu_pool_used_bytes, b.size_bytes)
            <= v.gpus[g].cpu_pool_total_bytes,
        None => false,
    }
}

/// The blocks that the time-ordered policies choose from.
pub open spec fn private_candidate(
    v: PolarisView,
    r: VictimRequest,
    others_only: bool,
) -> spec_fn(PolarisBlock) -> bool {
    |b: PolarisBlock|
        {
            &&& !(others_only && owned_by(v, b, r.requesting_session_id))
            &&& !protected(b, r)
            &&& movable(v, b, r.target_gpu)
            &&& b.refcount <= 1
        }
}

/// The blocks that the scoring policies choose from.
pub open spec fn scored_candidate(
    v: PolarisView,
    r: VictimRequest,
    others_only: bool,
    hinted: Option<ActiveKvWindow>,
) -> spec_fn(PolarisBlock) -> bool {
    |b: PolarisBlock|
        {
            &&& !(others_only && owned_by(v, b, r.requesting_session_id))
            &&& !protected(b, r)
            &&& movable(v, b, r.target_gpu)
            &&& !in_hinted_window(v, b, hinted)
        }
}

// ─── Orders ─────────────────────────────────────────────────────────────────

/// When a block was mapped.
pub open spec fn map_time() -> spec_fn(PolarisBlock) -> u64 {
    |b: PolarisBlock| b.map_time_ns
}

/// When a block was last touched; a block never touched counts from its mapping.
pub open spec fn touch_time() -> spec_fn(PolarisBlock) -> u64 {
    |b: PolarisBlock|
        if b.last_touch_ns != 0 {
            b.last_touch_ns
        } else {
            b.map_time_ns
        }
}

/// The time by which the phase-aware policy ages a block.
pub open spec fn phase_time() -> spec_fn(PolarisBlock) -> u64 {
    |b: PolarisBlock|
        if b.phase is Decode && b.last_touch_ns != 0 {
            b.last_touch_ns
        } else {
            b.map_time_ns
        }
}

/// Block `i` is the first of the oldest candidates.
pub open spec fn is_oldest(
    blocks: Seq<PolarisBlock>,
    cand: spec_fn(PolarisBlock) -> bool,
    time: spec_fn(PolarisBlock) -> u64,
    i: int,
) -> bool {
    &&& 0 <= i < blocks.len()
    &&& cand(blocks[i])
    &&& time(blocks[i]) < u64::MAX
    &&& forall|j: int|
        0 <= j < blocks.len() && cand(#[trigger] blocks[j]) ==> time(blocks[i]) <= time(blocks[j])
    &&& forall|j: int| 0 <= j < i && cand(#[trigger] blocks[j]) ==> time(blocks[i]) < time(blocks[j])
}

/// The first of the oldest candidates.
pub open spec fn oldest(
    blocks: Seq<PolarisBlock>,
    cand: spec_fn(PolarisBlock) -> bool,
    time: spec_fn(PolarisBlock) -> u64,
) -> Option<int> {
    if exists|i: int| is_oldest(blocks, cand, time, i) {
        Some(choose|i: int| is_oldest(blocks, cand, time, i))
    } else {
        None
    }
}

/// A score and time that beat another: higher, or as high and older.
pub open spec fn beats(s1: int, t1: u64, s2: int, t2: u64) -> bool {
    s1 > s2 || (s1 == s2 && t1 < t2)
}

/// Block `i` is the first of the candidates that no other beats.
pub open spec fn is_top(
    blocks: Seq<PolarisBlock>,
    cand: spec_fn(PolarisBlock) -> bool,
    score: spec_fn(PolarisBlock) -> int,
    time: spec_fn(PolarisBlock) -> u64,
    i: int,
) -> bool {
    &&& 0 <= i < blocks.len()
    &&& cand(blocks[i])
    &&& forall|j: int|
        0 <= j < blocks.len() && cand(#[trigger] blocks[j]) ==> !beats(
            score(blocks[j]),
            time(blocks[j]),
            score(blocks[i]),
            time(blocks[i]),
        )
    &&& forall|j: int|
        0 <= j < i && cand(#[trigger] blocks[j]) ==> beats(
            score(blocks[i]),
            time(blocks[i]),
            score(blocks[j]),
            time(blocks[j]),
        )
}

/// The first of the candidates that no other beats.
pub open spec fn top(
    blocks: Seq<PolarisBlock>,
    cand: spec_fn(PolarisBlock) -> bool,
    score: spec_fn(PolarisBlock) -> int,
    time: spec_fn(PolarisBlock) -> u64,
) -> Option<int> {
    if exists|i: int| is_top(blocks, cand, score, time, i) {
        Some(choose|i: int| is_top(blocks, cand, score, time, i))
    } else {
        None
    }
}

// ─── Scores ─────────────────────────────────────────────────────────────────

/// The tokens of the protected block, as those of the session that works on it.
pub open spec fn chunk_window(v: PolarisView, r: VictimRequest) -> Option<ActiveChunkWindow> {
    if r.protected_block_id == 0 {
        None
    } else {
        match v.find_block(r.protected_block_id) {
            Some(i) => {
                let b = v.blocks[i];
                Some(
                    ActiveChunkWindow {
                        session_id: if owned_by(v, b, r.requesting_session_id) {
                            r.requesting_session_id
                        } else {
                            b.session_id
                        },
                        start: b.token_start,
                        end: if b.token_end() > u32::MAX {
                            u32::MAX
                        } else {
                            b.token_end() as u32
                        },
                    },
                )
            },
            None => None,
        }
    }
}

/// The tokens that a session says it works on; none when it says nothing.
pub open spec fn kv_window(v: PolarisView, session_id: u64) -> Option<ActiveKvWindow> {
    match v.find_session(session_id) {
        Some(i) => {
            let s = v.sessions[i];
            if s.active_read_token_count == 0 && s.active_write_token_count == 0 {
                None
            } else {
                Some(
                    ActiveKvWindow {
                        session_id,
                        read_start: s.active_read_start_token,
                        read_end: sat_add(s.active_read_start_token, s.active_read_token_count),
                        write_start: s.active_write_start_token,
                        write_end: sat_add(s.active_write_start_token, s.active_write_token_count),
                    },
                )
            }
        },
        None => None,
    }
}

impl ActiveKvWindow {
    /// The block holds a token that is written.
    pub open spec fn writes(self, b: PolarisBlock) -> bool {
        self.write_start < self.write_end && b.overlaps_tokens(
            self.write_start as int,
            self.write_end as int,
        )
    }

    /// The block holds a token that is read.
    pub open spec fn reads(self, b: PolarisBlock) -> bool {
        self.read_start < self.read_end && b.overlaps_tokens(
            self.read_start as int,
            self.read_end as int,
        )
    }

    /// The block holds a token close to one that is read.
    pub open spec fn near(self, b: PolarisBlock) -> bool {
        self.read_start < self.read_end && b.overlaps_tokens(
            sat_sub(self.read_start, HINTED_ACTIVE_NEAR_TOKENS) as int,
            sat_add(self.read_end, HINTED_ACTIVE_NEAR_TOKENS) as int,
        )
    }
}

/// The block holds a token that its session reads or writes.
pub open spec fn in_hinted_window(
    v: PolarisView,
    b: PolarisBlock,
    hinted: Option<ActiveKvWindow>,
) -> bool {
    match hinted {
        Some(w) => owned_by(v, b, w.session_id) && (w.writes(b) || w.reads(b)),
        None => false,
    }
}

/// What nearness to the protected block takes off a score: all within four
/// tokens of it.
pub open spec fn chunk_score(
    v: PolarisView,
    b: PolarisBlock,
    active: Option<ActiveChunkWindow>,
) -> int {
    match active {
        Some(w) => if owned_by(v, b, w.session_id) && {
            let end = if b.token_end() > u32::MAX {
                u32::MAX as int
            } else {
                b.token_end()
            };
            b.token_start < w.end + ACTIVE_AHEAD_PROTECT_CHUNKS && end
                + ACTIVE_BEHIND_PROTECT_CHUNKS > w.start
        } {
            -ACTIVE_WINDOW_PROTECT_SCORE
        } else {
            0
        },
        None => 0,
    }
}

/// What nearness to the tokens in use takes off a score.
pub open spec fn hinted_score(
    v: PolarisView,
    b: PolarisBlock,
    hinted: Option<ActiveKvWindow>,
) -> int {
    match hinted {
        Some(w) => if !owned_by(v, b, w.session_id) {
            0
        } else if w.writes(b) {
            -HINTED_ACTIVE_WRITE_PROTECT_SCORE
        } else if w.reads(b) {
            -HINTED_ACTIVE_READ_PROTECT_SCORE
        } else if w.near(b) {
            -HINTED_ACTIVE_NEAR_PROTECT_SCORE
        } else {
            0
        },
        None => 0,
    }
}

/// A priority between 1 and 10; 5 where the given one is neither.
pub open spec fn usual_priority(p: u32) -> int {
    if 0 < p <= 10 {
        p as int
    } else {
        5
    }
}

/// The priority of the session that reserved a block.
pub open spec fn priority_of(v: PolarisView, b: PolarisBlock) -> u32 {
    match v.find_session(b.session_id) {
        Some(i) => v.sessions[i].priority,
        None => 5,
    }
}

/// The pressure that a GPU reports.
pub open spec fn pressure_of(v: PolarisView, gpu_id: u32) -> u64 {
    match v.find_gpu(gpu_id) {
        Some(g) => v.gpus[g].pressure_score,
        None => 0,
    }
}

/// How ready a block is to go under the phase-aware policy:
///
///     age + prefill + pressure + inverse priority
///         - nearness to the work in progress - sharing - recent decode
pub open spec fn phase_score(
    v: PolarisView,
    r: VictimRequest,
    now: u64,
) -> spec_fn(PolarisBlock) -> int {
    |b: PolarisBlock|
        {
            let age_ns = sat_sub(now, phase_time()(b));
            AGE_WEIGHT * least(age_ns / 1_000_000, MAX_AGE_SCORE_MS) + PREFILL_WEIGHT * (
            if b.phase is Prefill {
                1int
            } else {
                0
            }) + PRESSURE_WEIGHT * (least(pressure_of(v, r.target_gpu), 1000) / 10)
                + PRIORITY_WEIGHT * (11 - usual_priority(priority_of(v, b))) + chunk_score(
                v,
                b,
                chunk_window(v, r),
            ) + hinted_score(v, b, kv_window(v, r.requesting_session_id)) - SHARING_WEIGHT
                * b.refcount - DECODE_WEIGHT * (if b.phase is Decode && age_ns < 1_000_000_000 {
                1int
            } else {
                0
            })
        }
}

/// How ready a block is to go under the attention-stream policy: far from the
/// window of its session, behind its cursor, or of an idle session.
pub open spec fn stream_score(v: PolarisView, w: ActiveKvWindow) -> spec_fn(PolarisBlock) -> int {
    |b: PolarisBlock|
        {
            let start = b.token_start as u64;
            let end = b.token_end() as u64;
            let lookahead_end = sat_add(w.read_start, ATTENTION_STREAM_LOOKAHEAD_TOKENS);
            let suffix_start = if w.write_start < w.write_end {
                sat_sub(w.write_start, ATTENTION_STREAM_SUFFIX_TOKENS)
            } else {
                sat_sub(w.read_end, ATTENTION_STREAM_SUFFIX_TOKENS)
            };
            let place = if owned_by(v, b, w.session_id) {
                (if w.read_start < w.read_end && !overlap(start, end, w.read_start, w.read_end) {
                    ATTENTION_STREAM_OUTSIDE_WINDOW_SCORE as int
                } else if end <= w.read_start {
                    ATTENTION_STREAM_PAST_SCORE + (w.read_start - end)
                } else if start >= lookahead_end {
                    (start - lookahead_end) / ATTENTION_STREAM_FUTURE_SCALE as int
                } else {
                    0
                }) - (if w.read_start < w.read_end && overlap(
                    start,
                    end,
                    w.read_start,
                    least(lookahead_end, w.read_end),
                ) {
                    ATTENTION_STREAM_LOOKAHEAD_PENALTY as int
                } else {
                    0
                }) - (if overlap(start, end, suffix_start, greatest(w.write_end, w.read_end)) {
                    ATTENTION_STREAM_DECODE_SUFFIX_PENALTY as int
                } else {
                    0
                })
            } else {
                ATTENTION_STREAM_OTHER_IDLE_SCORE + (if kv_window(v, b.session_id) is None {
                    ATTENTION_STREAM_OTHER_IDLE_SCORE as int
                } else {
                    0
                })
            };
            place - (if b.refcount > 1 {
                ATTENTION_STREAM_SHARED_PENALTY * least(b.refcount, 8)
            } else {
                0
            }) + PRIORITY_WEIGHT * (11 - usual_priority(priority_of(v, b)))
        }
}

// ─── Policies ───────────────────────────────────────────────────────────────

/// The choice of a time-ordered policy.
pub open spec fn oldest_victim(
    v: PolarisView,
    r: VictimRequest,
    time: spec_fn(PolarisBlock) -> u64,
) -> Option<int> {
    match oldest(v.blocks, private_candidate(v, r, true), time) {
        Some(i) => Some(i),
        None => oldest(v.blocks, private_candidate(v, r, false), time),
    }
}

/// Every block that could go is a private prefill block, and there is one.
pub open spec fn all_private_prefill(v: PolarisView, target_gpu: u32) -> bool {
    &&& exists|i: int| 0 <= i < v.blocks.len() && movable(v, #[trigger] v.blocks[i], target_gpu)
    &&& forall|i: int|
        0 <= i < v.blocks.len() && movable(v, #[trigger] v.blocks[i], target_gpu)
            ==> v.blocks[i].phase is Prefill && v.blocks[i].refcount <= 1
}

/// The choice of the phase-aware policy. Where every block looks alike to it
/// and the session gave no hint, mapping order decides.
pub open spec fn phase_aware_victim(v: PolarisView, r: VictimRequest, now: u64) -> Option<int> {
    let hinted = kv_window(v, r.requesting_session_id);
    if hinted is None && all_private_prefill(v, r.target_gpu) {
        oldest_victim(v, r, map_time())
    } else {
        match top(
            v.blocks,
            scored_candidate(v, r, true, hinted),
            phase_score(v, r, now),
            phase_time(),
        ) {
            Some(i) => Some(i),
            None => top(
                v.blocks,
                scored_candidate(v, r, false, hinted),
                phase_score(v, r, now),
                phase_time(),
            ),
        }
    }
}

/// The choice of the attention-stream policy; without a hint, that of the
/// phase-aware one.
pub open spec fn attention_stream_victim(v: PolarisView, r: VictimRequest, now: u64) -> Option<int> {
    let hinted = kv_window(v, r.requesting_session_id);
    match hinted {
        None => phase_aware_victim(v, r, now),
        Some(w) => match top(
            v.blocks,
            scored_candidate(v, r, true, hinted),
            stream_score(v, w),
            touch_time(),
        ) {
            Some(i) => Some(i),
            None => match top(
                v.blocks,
                scored_candidate(v, r, false, hinted),
                stream_score(v, w),
                touch_time(),
            ) {
                Some(i) => Some(i),
                None => phase_aware_victim(v, r, now),
            },
        },
    }
}

/// The block that goes, by the policy in force.
pub open spec fn victim(v: PolarisView, r: VictimRequest, now: u64) -> Option<int> {
    match v.eviction_policy {
        PolarisEvictionPolicy::Fifo => oldest_victim(v, r, map_time()),
        PolarisEvictionPolicy::Lru => oldest_victim(v, r, touch_time()),
        PolarisEvictionPolicy::PhaseAware => phase_aware_victim(v, r, now),
        PolarisEvictionPolicy::AttentionStream => attention_stream_victim(v, r, now),
    }
}

/// The scores of all blocks fit the machine.
pub open spec fn scores_fit(v: PolarisView, requesting_session_id: u64) -> bool {
    &&& forall|i: int|
        0 <= i < v.blocks.len() ==> SHARING_WEIGHT * (#[trigger] v.blocks[i]).refcount + 1_500_500
            <= i64::MAX
    &&& match v.find_session(requesting_session_id) {
        Some(i) => v.sessions[i].active_read_start_token <= i64::MAX - 2_000_000,
        None => true,
    }
}

// ─── Laws ───────────────────────────────────────────────────────────────────

/// There is at most one first oldest candidate.
pub proof fn lemma_oldest_is(
    blocks: Seq<PolarisBlock>,
    cand: spec_fn(PolarisBlock) -> bool,
    time: spec_fn(PolarisBlock) -> u64,
    i: int,
)
    requires
        is_oldest(blocks, cand, time, i),
    ensures
        oldest(blocks, cand, time) == Some(i),
{
    let c = choose|k: int| is_oldest(blocks, cand, time, k);
    assert(is_oldest(blocks, cand, time, c));
    assert(cand(blocks[c]) && cand(blocks[i]));
}

/// There is at most one first unbeaten candidate.
pub proof fn lemma_top_is(
    blocks: Seq<PolarisBlock>,
    cand: spec_fn(PolarisBlock) -> bool,
    score: spec_fn(PolarisBlock) -> int,
    time: spec_fn(PolarisBlock) -> u64,
    i: int,
)
    requires
        is_top(blocks, cand, score, time, i),
    ensures
        top(blocks, cand, score, time) == Some(i),
{
    let c = choose|k: int| is_top(blocks, cand, score, time, k);
    assert(is_top(blocks, cand, score, time, c));
    assert(cand(blocks[c]) && cand(blocks[i]));
}

/// Whatever the policy, what goes is resident, on the GPU in question, idle,
/// small enough for the host pool, and not what is protected.
pub proof fn law_victim_is_movable(v: PolarisView, r: VictimRequest, now: u64)
    ensures
        victim(v, r, now) matches Some(i) ==> 0 <= i < v.blocks.len() && movable(
            v,
            v.blocks[i],
            r.target_gpu,
        ) && !protected(v.blocks[i], r),
{
}

/// Under the time-ordered policies a shared block never goes.
pub proof fn law_time_ordered_policies_spare_shared_blocks(v: PolarisView, r: VictimRequest, now: u64)
    requires
        v.eviction_policy is Fifo || v.eviction_policy is Lru,
    ensures
        victim(v, r, now) matches Some(i) ==> v.blocks[i].refcount <= 1,
{
}

/// The scoring policies never take a token that the requesting session says it
/// reads or writes.
pub proof fn law_hinted_window_is_spared(v: PolarisView, r: VictimRequest, now: u64)
    requires
        v.eviction_policy is PhaseAware || v.eviction_policy is AttentionStream,
    ensures
        victim(v, r, now) matches Some(i) ==> !in_hinted_window(
            v,
            v.blocks[i],
            kv_window(v, r.requesting_session_id),
        ),
{
}

/// A block of the requesting session goes only where no other session's block
/// could: under the time-ordered policies, none that was ever mapped before the
/// end of time.
pub proof fn law_other_sessions_go_first(v: PolarisView, r: VictimRequest, now: u64, j: int)
    requires
        v.eviction_policy is Fifo || v.eviction_policy is Lru,
        0 <= j < v.blocks.len(),
        private_candidate(v, r, true)(v.blocks[j]),
        touch_time()(v.blocks[j]) < u64::MAX,
        map_time()(v.blocks[j]) < u64::MAX,
    ensures
        victim(v, r, now) matches Some(i) && !owned_by(v, v.blocks[i], r.requesting_session_id),
{
    let time = if v.eviction_policy is Fifo {
        map_time()
    } else {
        touch_time()
    };
    lemma_oldest_exists(v.blocks, private_candidate(v, r, true), time, j);
}

/// A scoring policy takes a block of the requesting session only where no other
/// session has a candidate.
pub proof fn law_scoring_takes_other_sessions_first(v: PolarisView, r: VictimRequest, now: u64, j: int)
    requires
        v.eviction_policy is PhaseAware || v.eviction_policy is AttentionStream,
        kv_window(v, r.requesting_session_id) is Some || !all_private_prefill(v, r.target_gpu),
        0 <= j < v.blocks.len(),
        scored_candidate(v, r, true, kv_window(v, r.requesting_session_id))(v.blocks[j]),
    ensures
        victim(v, r, now) matches Some(i) && !owned_by(v, v.blocks[i], r.requesting_session_id),
{
    let hinted = kv_window(v, r.requesting_session_id);
    let cand = scored_candidate(v, r, true, hinted);
    lemma_top_exists(v.blocks, cand, phase_score(v, r, now), phase_time(), v.blocks.len() as int);
    if let Some(w) = hinted {
        lemma_top_exists(v.blocks, cand, stream_score(v, w), touch_time(), v.blocks.len() as int);
    }
}

/// Among the first `n` blocks, some candidate is unbeaten if there is one.
pub proof fn lemma_top_exists(
    blocks: Seq<PolarisBlock>,
    cand: spec_fn(PolarisBlock) -> bool,
    score: spec_fn(PolarisBlock) -> int,
    time: spec_fn(PolarisBlock) -> u64,
    n: int,
)
    requires
        0 <= n <= blocks.len(),
    ensures
        (exists|j: int| 0 <= j < n && cand(#[trigger] blocks[j])) ==> exists|i: int|
            0 <= i < n && #[trigger] is_top(blocks.take(n), cand, score, time, i),
        n == blocks.len() && (exists|j: int| 0 <= j < n && cand(#[trigger] blocks[j])) ==> exists|
            i: int,
        |
            is_top(blocks, cand, score, time, i),
    decreases n,
{
    if n > 0 {
        lemma_top_exists(blocks, cand, score, time, n - 1);
        let before = blocks.take(n - 1);
        let after = blocks.take(n);
        assert(forall|j: int| 0 <= j < n - 1 ==> before[j] == #[trigger] blocks[j]);
        assert(forall|j: int| 0 <= j < n ==> after[j] == #[trigger] blocks[j]);
        assert(forall|j: int| 0 <= j < n - 1 ==> #[trigger] after[j] == before[j]);
        if exists|j: int| 0 <= j < n && cand(#[trigger] blocks[j]) {
            if exists|j: int| 0 <= j < n - 1 && cand(#[trigger] blocks[j]) {
                let k = choose|i: int|
                    0 <= i < n - 1 && #[trigger] is_top(before, cand, score, time, i);
                if cand(blocks[n - 1]) && beats(
                    score(blocks[n - 1]),
                    time(blocks[n - 1]),
                    score(blocks[k]),
                    time(blocks[k]),
                ) {
                    assert(is_top(after, cand, score, time, n - 1));
                } else {
                    assert(is_top(after, cand, score, time, k));
                }
            } else {
                assert(is_top(after, cand, score, time, n - 1));
            }
        }
        if n == blocks.len() {
            assert(after =~= blocks);
        }
    }
}

/// A candidate with a time has a first oldest one.
pub proof fn lemma_oldest_exists(
    blocks: Seq<PolarisBlock>,
    cand: spec_fn(PolarisBlock) -> bool,
    time: spec_fn(PolarisBlock) -> u64,
    j: int,
)
    requires
        0 <= j < blocks.len(),
        cand(blocks[j]),
        time(blocks[j]) < u64::MAX,
    ensures
        exists|i: int| is_oldest(blocks, cand, time, i),
    decreases time(blocks[j]), j,
{
    if is_oldest(blocks, cand, time, j) {
    } else if exists|k: int|
        0 <= k < blocks.len() && cand(#[trigger] blocks[k]) && time(blocks[k]) < time(blocks[j]) {
        let k = choose|k: int|
            0 <= k < blocks.len() && cand(#[trigger] blocks[k]) && time(blocks[k]) < time(
                blocks[j],
            );
        lemma_oldest_exists(blocks, cand, time, k);
    } else {
        let k = choose|k: int|
            0 <= k < j && cand(#[trigger] blocks[k]) && !(time(blocks[j]) < time(blocks[k]));
        lemma_oldest_exists(blocks, cand, time, k);
    }
}

// ─── Choosing ───────────────────────────────────────────────────────────────

/// Whether two half-open ranges have a number in common.
pub fn ranges_overlap(a_start: u64, a_end: u64, b_start: u64, b_end: u64) -> (r: bool)
    ensures
        r == overlap(a_start, a_end, b_start, b_end),
{
    a_start < b_end && b_start < a_end
}

/// Whether the block belongs to the session, as its own or by inheritance.
pub fn block_owned_by_session(inner: &PolarisInner, block: &PolarisBlock, session_id: u64) -> (r:
    bool)
    ensures
        r == owned_by(inner@, *block, session_id),
{
    if block.session_id == session_id {
        return true;
    }
    match inner.find_session(session_id) {
        Some(i) => contains_id(&inner.sessions[i].block_ids, block.block_id),
        None => false,
    }
}

/// Whether a list of ids holds one.
pub fn contains_id(ids: &Vec<u64>, id: u64) -> (r: bool)
    ensures
        r == ids@.contains(id),
{
    let mut i: usize = 0;
    while i < ids.len()
        invariant
            0 <= i <= ids@.len(),
            forall|k: int| 0 <= k < i ==> ids@[k] != id,
        decreases ids@.len() - i,
    {
        if ids[i] == id {
            return true;
        }
        i += 1;
    }
    false
}

/// Whether the block is what a copy in progress reads from.
pub fn is_protected_source(
    block: &PolarisBlock,
    protected_phys_handle: u64,
    protected_block_id: u64,
) -> (r: bool)
    ensures
        forall|q: VictimRequest|
            q.protected_phys_handle == protected_phys_handle && q.protected_block_id
                == protected_block_id ==> r == #[trigger] protected(*block, q),
{
    (protected_block_id != 0 && block.block_id == protected_block_id) || (protected_phys_handle != 0
        && block.gpu_phys_handle == protected_phys_handle)
}

/// Whether the block can be moved to host memory.
pub fn is_eligible_phase_aware(block: &PolarisBlock, inner: &PolarisInner, target_gpu: u32) -> (r:
    bool)
    ensures
        r == movable(inner@, *block, target_gpu),
{
    if block.state != PolarisBlockState::Resident {
        return false;
    }
    if block.pending_decision_id != 0 {
        return false;
    }
    if block.home_gpu != target_gpu {
        return false;
    }
    match inner.find_gpu(block.home_gpu) {
        Some(g) => inner.gpus[g].cpu_pool_used_bytes.saturating_add(block.size_bytes)
            <= inner.gpus[g].cpu_pool_total_bytes,
        None => false,
    }
}

/// Whether the block can be moved to host memory and no other session needs it.
pub fn is_eligible_fifo_lru(block: &PolarisBlock, inner: &PolarisInner, target_gpu: u32) -> (r: bool)
    ensures
        r == (movable(inner@, *block, target_gpu) && block.refcount <= 1),
{
    block.refcount <= 1 && is_eligible_phase_aware(block, inner, target_gpu)
}

/// The first of the oldest candidates.
fn pick_oldest<C: Fn(&PolarisBlock) -> bool, K: Fn(&PolarisBlock) -> u64>(
    blocks: &Vec<PolarisBlock>,
    cand: C,
    time: K,
    Ghost(pc): Ghost<spec_fn(PolarisBlock) -> bool>,
    Ghost(pt): Ghost<spec_fn(PolarisBlock) -> u64>,
) -> (r: Option<usize>)
    requires
        forall|b: PolarisBlock| #[trigger] cand.requires((&b,)),
        forall|b: PolarisBlock| #[trigger] time.requires((&b,)),
        forall|b: PolarisBlock, x: bool| #[trigger] cand.ensures((&b,), x) ==> x == pc(b),
        forall|b: PolarisBlock, x: u64| #[trigger] time.ensures((&b,), x) ==> x == pt(b),
    ensures
        crate::seqs::as_index(r) == oldest(blocks@, pc, pt),
        r matches Some(i) ==> i < blocks@.len(),
{
    let mut best: Option<usize> = None;
    let mut best_time: u64 = u64::MAX;
    let mut i: usize = 0;
    while i < blocks.len()
        invariant
            0 <= i <= blocks@.len(),
            forall|b: PolarisBlock| #[trigger] cand.requires((&b,)),
            forall|b: PolarisBlock| #[trigger] time.requires((&b,)),
            forall|b: PolarisBlock, x: bool| #[trigger] cand.ensures((&b,), x) ==> x == pc(b),
            forall|b: PolarisBlock, x: u64| #[trigger] time.ensures((&b,), x) ==> x == pt(b),
            match best {
                Some(k) => {
                    &&& k < i
                    &&& best_time == pt(blocks@[k as int])
                    &&& is_oldest(blocks@.take(i as int), pc, pt, k as int)
                },
                None => best_time == u64::MAX && forall|j: int|
                    0 <= j < i && pc(#[trigger] blocks@[j]) ==> pt(blocks@[j]) == u64::MAX,
            },
        decreases blocks@.len() - i,
    {
        let block = &blocks[i];
        let ghost before = blocks@.take(i as int);
        let ghost after = blocks@.take(i as int + 1);
        assert(forall|j: int| 0 <= j < i ==> before[j] == #[trigger] blocks@[j]);
        assert(forall|j: int| 0 <= j <= i ==> after[j] == #[trigger] blocks@[j]);
        assert(forall|j: int| 0 <= j < i ==> #[trigger] after[j] == before[j]);
        if cand(block) {
            let t: u64 = time(block);
            if t < best_time {
                best_time = t;
                best = Some(i);
            }
        }
        i += 1;
    }
    proof {
        assert(blocks@.take(i as int) =~= blocks@);
        match best {
            Some(k) => {
                lemma_oldest_is(blocks@, pc, pt, k as int);
            },
            None => {
                if exists|k: int| is_oldest(blocks@, pc, pt, k) {
                    let k = choose|k: int| is_oldest(blocks@, pc, pt, k);
                    assert(pc(blocks@[k]));
                }
            },
        }
    }
    best
}

/// The first of the candidates that no other beats.
fn pick_top<
    C: Fn(&PolarisBlock) -> bool,
    S: Fn(&PolarisBlock) -> i64,
    K: Fn(&PolarisBlock) -> u64,
>(
    blocks: &Vec<PolarisBlock>,
    cand: C,
    score: S,
    time: K,
    Ghost(pc): Ghost<spec_fn(PolarisBlock) -> bool>,
    Ghost(ps): Ghost<spec_fn(PolarisBlock) -> int>,
    Ghost(pt): Ghost<spec_fn(PolarisBlock) -> u64>,
) -> (r: Option<usize>)
    requires
        forall|b: PolarisBlock| #[trigger] cand.requires((&b,)),
        forall|b: PolarisBlock| #[trigger] time.requires((&b,)),
        forall|i: int|
            0 <= i < blocks@.len() && pc(blocks@[i]) ==> score.requires((&#[trigger] blocks@[i],)),
        forall|b: PolarisBlock, x: bool| #[trigger] cand.ensures((&b,), x) ==> x == pc(b),
        forall|b: PolarisBlock, x: i64|
            #[trigger] score.ensures((&b,), x) ==> x == ps(b) && x > i64::MIN,
        forall|b: PolarisBlock, x: u64| #[trigger] time.ensures((&b,), x) ==> x == pt(b),
    ensures
        crate::seqs::as_index(r) == top(blocks@, pc, ps, pt),
        r matches Some(i) ==> i < blocks@.len(),
{
    let mut best: Option<usize> = None;
    let mut best_score: i64 = i64::MIN;
    let mut best_time: u64 = u64::MAX;
    let mut i: usize = 0;
    while i < blocks.len()
        invariant
            0 <= i <= blocks@.len(),
            forall|b: PolarisBlock| #[trigger] cand.requires((&b,)),
            forall|b: PolarisBlock| #[trigger] time.requires((&b,)),
            forall|k: int|
                0 <= k < blocks@.len() && pc(blocks@[k]) ==> score.requires(
                    (&#[trigger] blocks@[k],),
                ),
            forall|b: PolarisBlock, x: bool| #[trigger] cand.ensures((&b,), x) ==> x == pc(b),
            forall|b: PolarisBlock, x: i64|
                #[trigger] score.ensures((&b,), x) ==> x == ps(b) && x > i64::MIN,
            forall|b: PolarisBlock, x: u64| #[trigger] time.ensures((&b,), x) ==> x == pt(b),
            match best {
                Some(k) => {
                    &&& k < i
                    &&& best_time == pt(blocks@[k as int])
                    &&& best_score == ps(blocks@[k as int])
                    &&& is_top(blocks@.take(i as int), pc, ps, pt, k as int)
                },
                None => best_score == i64::MIN && best_time == u64::MAX && forall|j: int|
                    0 <= j < i ==> !pc(#[trigger] blocks@[j]),
            },
        decreases blocks@.len() - i,
    {
        let block = &blocks[i];
        let ghost before = blocks@.take(i as int);
        let ghost after = blocks@.take(i as int + 1);
        assert(forall|j: int| 0 <= j < i ==> before[j] == #[trigger] blocks@[j]);
        assert(forall|j: int| 0 <= j <= i ==> after[j] == #[trigger] blocks@[j]);
        assert(forall|j: int| 0 <= j < i ==> #[trigger] after[j] == before[j]);
        if cand(block) {
            let s: i64 = score(block);
            let t: u64 = time(block);
            if s > best_score || (s == best_score && t < best_time) {
                best_score = s;
                best_time = t;
                best = Some(i);
            }
        }
        i += 1;
    }
    proof {
        assert(blocks@.take(i as int) =~= blocks@);
        match best {
            Some(k) => {
                lemma_top_is(blocks@, pc, ps, pt, k as int);
            },
            None => {
                if exists|k: int| is_top(blocks@, pc, ps, pt, k) {
                    let k = choose|k: int| is_top(blocks@, pc, ps, pt, k);
                    assert(pc(blocks@[k]));
                }
            },
        }
    }
    best
}

/// When a block was last touched, or mapped if it never was.
fn attention_stream_order_time(block: &PolarisBlock) -> (r: u64)
    ensures
        r == touch_time()(*block),
{
    if block.last_touch_ns != 0 {
        block.last_touch_ns
    } else {
        block.map_time_ns
    }
}

/// The time by which the phase-aware policy ages a block.
fn phase_aware_order_time(block: &PolarisBlock) -> (r: u64)
    ensures
        r == phase_time()(*block),
{
    if block.phase == PolarisPhase::Decode && block.last_touch_ns != 0 {
        block.last_touch_ns
    } else {
        block.map_time_ns
    }
}

/// Whether the time-ordered policies may take a block.
fn is_private_candidate(inner: &PolarisInner, block: &PolarisBlock, q: VictimRequest, others_only: bool) -> (r: bool)
    ensures
        r == private_candidate(inner@, q, others_only)(*block),
{
    if others_only && block_owned_by_session(inner, block, q.requesting_session_id) {
        return false;
    }
    if is_protected_source(block, q.protected_phys_handle, q.protected_block_id) {
        return false;
    }
    is_eligible_fifo_lru(block, inner, q.target_gpu)
}

/// Whether the scoring policies may take a block.
fn is_scored_candidate(
    inner: &PolarisInner,
    block: &PolarisBlock,
    q: VictimRequest,
    others_only: bool,
    hinted: Option<ActiveKvWindow>,
) -> (r: bool)
    ensures
        r == scored_candidate(inner@, q, others_only, hinted)(*block),
{
    if others_only && block_owned_by_session(inner, block, q.requesting_session_id) {
        return false;
    }
    if is_protected_source(block, q.protected_phys_handle, q.protected_block_id) {
        return false;
    }
    if !is_eligible_phase_aware(block, inner, q.target_gpu) {
        return false;
    }
    !hinted_active_window_overlaps(inner, block, hinted)
}

/// FIFO: the oldest mapping goes.
pub fn find_victim_fifo(inner: &PolarisInner, q: VictimRequest) -> (r: Option<usize>)
    ensures
        crate::seqs::as_index(r) == oldest_victim(inner@, q, map_time()),
        r matches Some(i) ==> i < inner.blocks@.len(),
{
    let first = pick_oldest(
        &inner.blocks,
        |b: &PolarisBlock| -> (x: bool)
            ensures
                x == private_candidate(inner@, q, true)(*b)
            { is_private_candidate(inner, b, q, true) },
        |b: &PolarisBlock| -> (x: u64)
            ensures
                x == map_time()(*b)
            { b.map_time_ns },
        Ghost(private_candidate(inner@, q, true)),
        Ghost(map_time()),
    );
    if first.is_some() {
        return first;
    }
    pick_oldest(
        &inner.blocks,
        |b: &PolarisBlock| -> (x: bool)
            ensures
                x == private_candidate(inner@, q, false)(*b)
            { is_private_candidate(inner, b, q, false) },
        |b: &PolarisBlock| -> (x: u64)
            ensures
                x == map_time()(*b)
            { b.map_time_ns },
        Ghost(private_candidate(inner@, q, false)),
        Ghost(map_time()),
    )
}

/// LRU: the oldest touch goes.
pub fn find_victim_lru(inner: &PolarisInner, q: VictimRequest) -> (r: Option<usize>)
    ensures
        crate::seqs::as_index(r) == oldest_victim(inner@, q, touch_time()),
        r matches Some(i) ==> i < inner.blocks@.len(),
{
    let first = pick_oldest(
        &inner.blocks,
        |b: &PolarisBlock| -> (x: bool)
            ensures
                x == private_candidate(inner@, q, true)(*b)
            { is_private_candidate(inner, b, q, true) },
        |b: &PolarisBlock| -> (x: u64)
            ensures
                x == touch_time()(*b)
            { attention_stream_order_time(b) },
        Ghost(private_candidate(inner@, q, true)),
        Ghost(touch_time()),
    );
    if first.is_some() {
        return first;
    }
    pick_oldest(
        &inner.blocks,
        |b: &PolarisBlock| -> (x: bool)
            ensures
                x == private_candidate(inner@, q, false)(*b)
            { is_private_candidate(inner, b, q, false) },
        |b: &PolarisBlock| -> (x: u64)
            ensures
                x == touch_time()(*b)
            { attention_stream_order_time(b) },
        Ghost(private_candidate(inner@, q, false)),
        Ghost(touch_time()),
    )
}

/// Whether every block that could go is a private prefill block, and there is
/// one.
pub fn phase_aware_should_use_fifo_order(inner: &PolarisInner, target_gpu: u32) -> (r: bool)
    ensures
        r == all_private_prefill(inner@, target_gpu),
{
    let mut saw_candidate = false;
    let mut i: usize = 0;
    while i < inner.blocks.len()
        invariant
            0 <= i <= inner.blocks@.len(),
            saw_candidate == exists|k: int|
                0 <= k < i && movable(inner@, #[trigger] inner@.blocks[k], target_gpu),
            forall|k: int|
                0 <= k < i && movable(inner@, #[trigger] inner@.blocks[k], target_gpu)
                    ==> inner@.blocks[k].phase is Prefill && inner@.blocks[k].refcount <= 1,
        decreases inner.blocks@.len() - i,
    {
        let block = &inner.blocks[i];
        assert(*block == inner@.blocks[i as int]);
        if is_eligible_phase_aware(block, inner, target_gpu) {
            saw_candidate = true;
            if block.phase != PolarisPhase::Prefill || block.refcount > 1 {
                return false;
            }
        }
        i += 1;
    }
    saw_candidate
}

/// The tokens of the protected block, as those of the session that works on it.
pub fn active_chunk_window(inner: &PolarisInner, q: VictimRequest) -> (r: Option<ActiveChunkWindow>)
    ensures
        r == chunk_window(inner@, q),
{
    if q.protected_block_id == 0 {
        return None;
    }
    match inner.find_block(q.protected_block_id) {
        Some(i) => {
            let b = &inner.blocks[i];
            let session_id: u64 = if block_owned_by_session(inner, b, q.requesting_session_id) {
                q.requesting_session_id
            } else {
                b.session_id
            };
            Some(
                ActiveChunkWindow {
                    session_id,
                    start: b.token_start,
                    end: b.token_start.saturating_add(b.token_count),
                },
            )
        },
        None => None,
    }
}

/// The tokens that a session says it works on; none when it says nothing.
pub fn active_kv_window(inner: &PolarisInner, session_id: u64) -> (r: Option<ActiveKvWindow>)
    ensures
        r == kv_window(inner@, session_id),
{
    match inner.find_session(session_id) {
        Some(i) => {
            let s = &inner.sessions[i];
            assert(s@ == inner@.sessions[i as int]);
            if s.active_read_token_count == 0 && s.active_write_token_count == 0 {
                return None;
            }
            Some(
                ActiveKvWindow {
                    session_id,
                    read_start: s.active_read_start_token,
                    read_end: s.active_read_start_token.saturating_add(s.active_read_token_count),
                    write_start: s.active_write_start_token,
                    write_end: s.active_write_start_token.saturating_add(
                        s.active_write_token_count,
                    ),
                },
            )
        },
        None => None,
    }
}

/// What nearness to the protected block takes off a score.
pub fn active_window_score(
    inner: &PolarisInner,
    block: &PolarisBlock,
    active: Option<ActiveChunkWindow>,
) -> (r: i64)
    requires
        active matches Some(w) ==> w.start <= w.end,
    ensures
        r == chunk_score(inner@, *block, active),
{
    let active = match active {
        Some(w) => w,
        None => {
            return 0;
        },
    };
    if !block_owned_by_session(inner, block, active.session_id) {
        return 0;
    }
    let candidate_start: u32 = block.token_start;
    let candidate_end: u32 = block.token_start.saturating_add(block.token_count);
    if candidate_start >= active.end {
        let ahead: u32 = candidate_start.saturating_sub(active.end);
        if ahead < ACTIVE_AHEAD_PROTECT_CHUNKS {
            return -ACTIVE_WINDOW_PROTECT_SCORE;
        }
    } else if candidate_end <= active.start {
        let behind: u32 = active.start.saturating_sub(candidate_end);
        if behind < ACTIVE_BEHIND_PROTECT_CHUNKS {
            return -ACTIVE_WINDOW_PROTECT_SCORE;
        }
    } else {
        return -ACTIVE_WINDOW_PROTECT_SCORE;
    }
    0
}

/// Whether the block holds a token that is written.
pub fn hinted_active_write_overlaps(block: &PolarisBlock, active: ActiveKvWindow) -> (r: bool)
    ensures
        r == active.writes(*block),
{
    active.write_start < active.write_end && block.has_tokens(active.write_start, active.write_end)
}

/// Whether the block holds a token that is read.
pub fn hinted_active_read_overlaps(block: &PolarisBlock, active: ActiveKvWindow) -> (r: bool)
    ensures
        r == active.reads(*block),
{
    active.read_start < active.read_end && block.has_tokens(active.read_start, active.read_end)
}

/// Whether the block holds a token that its session reads or writes.
pub fn hinted_active_window_overlaps(
    inner: &PolarisInner,
    block: &PolarisBlock,
    active: Option<ActiveKvWindow>,
) -> (r: bool)
    ensures
        r == in_hinted_window(inner@, *block, active),
{
    match active {
        Some(w) => block_owned_by_session(inner, block, w.session_id) && (
        hinted_active_write_overlaps(block, w) || hinted_active_read_overlaps(block, w)),
        None => false,
    }
}

/// What nearness to the tokens in use takes off a score.
pub fn hinted_active_window_score(
    inner: &PolarisInner,
    block: &PolarisBlock,
    active: Option<ActiveKvWindow>,
) -> (r: i64)
    ensures
        r == hinted_score(inner@, *block, active),
{
    let active = match active {
        Some(w) => w,
        None => {
            return 0;
        },
    };
    if !block_owned_by_session(inner, block, active.session_id) {
        return 0;
    }
    if hinted_active_write_overlaps(block, active) {
        return -HINTED_ACTIVE_WRITE_PROTECT_SCORE;
    }
    if hinted_active_read_overlaps(block, active) {
        return -HINTED_ACTIVE_READ_PROTECT_SCORE;
    }
    if active.read_start < active.read_end {
        let near_start: u64 = active.read_start.saturating_sub(HINTED_ACTIVE_NEAR_TOKENS);
        let near_end: u64 = active.read_end.saturating_add(HINTED_ACTIVE_NEAR_TOKENS);
        if block.has_tokens(near_start, near_end) {
            return -HINTED_ACTIVE_NEAR_PROTECT_SCORE;
        }
    }
    0
}

/// Eleven less the priority, taken as 5 where it is out of its range.
fn inverse_priority(session_priority: u32) -> (r: i64)
    ensures
        r == 11 - usual_priority(session_priority),
        1 <= r <= 10,
{
    let prio: u32 = if session_priority > 0 && session_priority <= 10 {
        session_priority
    } else {
        5u32
    };
    (11u32 - prio) as i64
}

/// The priority of the session that reserved a block.
fn session_priority(inner: &PolarisInner, block: &PolarisBlock) -> (r: u32)
    ensures
        r == priority_of(inner@, *block),
{
    match inner.find_session(block.session_id) {
        Some(i) => {
            assert(inner.sessions@[i as int]@ == inner@.sessions[i as int]);
            inner.sessions[i].priority
        },
        None => 5u32,
    }
}

/// The pressure that a GPU reports.
fn gpu_pressure(inner: &PolarisInner, gpu_id: u32) -> (r: u64)
    ensures
        r == pressure_of(inner@, gpu_id),
{
    match inner.find_gpu(gpu_id) {
        Some(g) => inner.gpus[g].pressure_score,
        None => 0,
    }
}

/// How ready a block is to go under the phase-aware policy. Higher is readier.
pub fn phase_aware_score(inner: &PolarisInner, block: &PolarisBlock, q: VictimRequest, now: u64) -> (r: i64)
    requires
        SHARING_WEIGHT * block.refcount + 1_500_500 <= i64::MAX,
    ensures
        r == phase_score(inner@, q, now)(*block),
        r > i64::MIN,
{
    let age_ns: u64 = now.saturating_sub(phase_aware_order_time(block));
    let age_ms: i64 = smaller(age_ns / 1_000_000u64, MAX_AGE_SCORE_MS) as i64;
    let is_prefill: i64 = if block.phase == PolarisPhase::Prefill {
        1
    } else {
        0
    };
    let recent_decode: i64 = if block.phase == PolarisPhase::Decode && age_ns < 1_000_000_000u64 {
        1
    } else {
        0
    };
    let refcount: i64 = block.refcount as i64;
    let pressure_norm: i64 = (smaller(gpu_pressure(inner, q.target_gpu), 1000) / 10) as i64;
    let inv_priority: i64 = inverse_priority(session_priority(inner, block));
    let active: i64 = active_window_score(inner, block, active_chunk_window(inner, q));
    let hinted: i64 = hinted_active_window_score(
        inner,
        block,
        active_kv_window(inner, q.requesting_session_id),
    );
    AGE_WEIGHT * age_ms + PREFILL_WEIGHT * is_prefill + PRESSURE_WEIGHT * pressure_norm
        + PRIORITY_WEIGHT * inv_priority + active + hinted - SHARING_WEIGHT * refcount
        - DECODE_WEIGHT * recent_decode
}

/// PhaseAware: the highest score goes.
pub fn find_victim_phase_aware(inner: &PolarisInner, q: VictimRequest, now: u64) -> (r: Option<
    usize,
>)
    requires
        scores_fit(inner@, q.requesting_session_id),
    ensures
        crate::seqs::as_index(r) == phase_aware_victim(inner@, q, now),
        r matches Some(i) ==> i < inner.blocks@.len(),
{
    let hinted = active_kv_window(inner, q.requesting_session_id);
    if hinted.is_none() && phase_aware_should_use_fifo_order(inner, q.target_gpu) {
        return find_victim_fifo(inner, q);
    }
    let first = pick_top(
        &inner.blocks,
        |b: &PolarisBlock| -> (x: bool)
            ensures
                x == scored_candidate(inner@, q, true, hinted)(*b)
            { is_scored_candidate(inner, b, q, true, hinted) },
        |b: &PolarisBlock| -> (x: i64)
            requires
                SHARING_WEIGHT * b.refcount + 1_500_500 <= i64::MAX
            ensures
                x == phase_score(inner@, q, now)(*b) && x > i64::MIN
            { phase_aware_score(inner, b, q, now) },
        |b: &PolarisBlock| -> (x: u64)
            ensures
                x == phase_time()(*b)
            { phase_aware_order_time(b) },
        Ghost(scored_candidate(inner@, q, true, hinted)),
        Ghost(phase_score(inner@, q, now)),
        Ghost(phase_time()),
    );
    if first.is_some() {
        return first;
    }
    pick_top(
        &inner.blocks,
        |b: &PolarisBlock| -> (x: bool)
            ensures
                x == scored_candidate(inner@, q, false, hinted)(*b)
            { is_scored_candidate(inner, b, q, false, hinted) },
        |b: &PolarisBlock| -> (x: i64)
            requires
                SHARING_WEIGHT * b.refcount + 1_500_500 <= i64::MAX
            ensures
                x == phase_score(inner@, q, now)(*b) && x > i64::MIN
            { phase_aware_score(inner, b, q, now) },
        |b: &PolarisBlock| -> (x: u64)
            ensures
                x == phase_time()(*b)
            { phase_aware_order_time(b) },
        Ghost(scored_candidate(inner@, q, false, hinted)),
        Ghost(phase_score(inner@, q, now)),
        Ghost(phase_time()),
    )
}

/// How ready a block is to go under the attention-stream policy.
pub fn attention_stream_score(inner: &PolarisInner, block: &PolarisBlock, active: ActiveKvWindow) -> (r: i64)
    requires
        active.read_start <= i64::MAX - 2_000_000,
    ensures
        r == stream_score(inner@, active)(*block),
        r > i64::MIN,
{
    let block_start: u64 = block.token_start as u64;
    let block_end: u64 = block_start + block.token_count as u64;
    let cursor: u64 = active.read_start;
    let read_end: u64 = active.read_end;
    let lookahead_end: u64 = cursor.saturating_add(ATTENTION_STREAM_LOOKAHEAD_TOKENS);
    let suffix_start: u64 = if active.write_start < active.write_end {
        active.write_start.saturating_sub(ATTENTION_STREAM_SUFFIX_TOKENS)
    } else {
        read_end.saturating_sub(ATTENTION_STREAM_SUFFIX_TOKENS)
    };
    let mut score: i64 = 0;
    if block_owned_by_session(inner, block, active.session_id) {
        if active.read_start < active.read_end && !ranges_overlap(
            block_start,
            block_end,
            active.read_start,
            active.read_end,
        ) {
            score = score + ATTENTION_STREAM_OUTSIDE_WINDOW_SCORE;
        } else if block_end <= cursor {
            let behind: i64 = (cursor - block_end) as i64;
            score = score + (ATTENTION_STREAM_PAST_SCORE + behind);
        } else if block_start >= lookahead_end {
            let ahead: i64 = ((block_start - lookahead_end) / ATTENTION_STREAM_FUTURE_SCALE) as i64;
            score = score + ahead;
        }
        if active.read_start < active.read_end && ranges_overlap(
            block_start,
            block_end,
            cursor,
            smaller(lookahead_end, active.read_end),
        ) {
            score = score - ATTENTION_STREAM_LOOKAHEAD_PENALTY;
        }
        if ranges_overlap(block_start, block_end, suffix_start, larger(active.write_end, read_end)) {
            score = score - ATTENTION_STREAM_DECODE_SUFFIX_PENALTY;
        }
    } else {
        score = score + ATTENTION_STREAM_OTHER_IDLE_SCORE;
        if active_kv_window(inner, block.session_id).is_none() {
            score = score + ATTENTION_STREAM_OTHER_IDLE_SCORE;
        }
    }
    if block.refcount > 1 {
        let refcount: i64 = smaller(block.refcount, 8) as i64;
        score = score - ATTENTION_STREAM_SHARED_PENALTY * refcount;
    }
    score + PRIORITY_WEIGHT * inverse_priority(session_priority(inner, block))
}

/// AttentionStream: the highest score goes; without a hint, or where nothing
/// may go by it, PhaseAware decides.
pub fn find_victim_attention_stream(inner: &PolarisInner, q: VictimRequest, now: u64) -> (r: Option<
    usize,
>)
    requires
        scores_fit(inner@, q.requesting_session_id),
    ensures
        crate::seqs::as_index(r) == attention_stream_victim(inner@, q, now),
        r matches Some(i) ==> i < inner.blocks@.len(),
{
    let hinted = active_kv_window(inner, q.requesting_session_id);
    let active = match hinted {
        Some(w) => w,
        None => {
            return find_victim_phase_aware(inner, q, now);
        },
    };
    let first = pick_top(
        &inner.blocks,
        |b: &PolarisBlock| -> (x: bool)
            ensures
                x == scored_candidate(inner@, q, true, hinted)(*b)
            { is_scored_candidate(inner, b, q, true, hinted) },
        |b: &PolarisBlock| -> (x: i64)
            ensures
                x == stream_score(inner@, active)(*b) && x > i64::MIN
            { attention_stream_score(inner, b, active) },
        |b: &PolarisBlock| -> (x: u64)
            ensures
                x == touch_time()(*b)
            { attention_stream_order_time(b) },
        Ghost(scored_candidate(inner@, q, true, hinted)),
        Ghost(stream_score(inner@, active)),
        Ghost(touch_time()),
    );
    if first.is_some() {
        return first;
    }
    let second = pick_top(
        &inner.blocks,
        |b: &PolarisBlock| -> (x: bool)
            ensures
                x == scored_candidate(inner@, q, false, hinted)(*b)
            { is_scored_candidate(inner, b, q, false, hinted) },
        |b: &PolarisBlock| -> (x: i64)
            ensures
                x == stream_score(inner@, active)(*b) && x > i64::MIN
            { attention_stream_score(inner, b, active) },
        |b: &PolarisBlock| -> (x: u64)
            ensures
                x == touch_time()(*b)
            { attention_stream_order_time(b) },
        Ghost(scored_candidate(inner@, q, false, hinted)),
        Ghost(stream_score(inner@, active)),
        Ghost(touch_time()),
    );
    if second.is_some() {
        return second;
    }
    find_victim_phase_aware(inner, q, now)
}

/// The block that goes, by the policy in force: its place in the table, its id,
/// its size and its GPU. `now` is the monotonic time in nanoseconds.
pub fn select_victim(
    inner: &PolarisInner,
    requesting_session_id: u64,
    target_gpu: u32,
    protected_phys_handle: u64,
    protected_block_id: u64,
    now: u64,
) -> (r: Option<(usize, u64, u64, u32)>)
    requires
        scores_fit(inner@, requesting_session_id),
    ensures
        ({
            let q = VictimRequest {
                requesting_session_id,
                target_gpu,
                protected_phys_handle,
                protected_block_id,
            };
            match r {
                Some((i, id, size, gpu)) => {
                    &&& victim(inner@, q, now) == Some(i as int)
                    &&& i < inner@.blocks.len()
                    &&& id == inner@.blocks[i as int].block_id
                    &&& size == inner@.blocks[i as int].size_bytes
                    &&& gpu == inner@.blocks[i as int].home_gpu
                },
                None => victim(inner@, q, now) is None,
            }
        }),
{
    let q = VictimRequest {
        requesting_session_id,
        target_gpu,
        protected_phys_handle,
        protected_block_id,
    };
    let found = match inner.eviction_policy {
        PolarisEvictionPolicy::Fifo => find_victim_fifo(inner, q),
        PolarisEvictionPolicy::Lru => find_victim_lru(inner, q),
        PolarisEvictionPolicy::PhaseAware => find_victim_phase_aware(inner, q, now),
        PolarisEvictionPolicy::AttentionStream => find_victim_attention_stream(inner, q, now),
    };
    match found {
        Some(i) => {
            let b = &inner.blocks[i];
            Some((i, b.block_id, b.size_bytes, b.home_gpu))
        },
        None => None,
    }
}

} // verus!
